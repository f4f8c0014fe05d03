use vstd::prelude::*;

verus! {

/// The character of a decimal digit.
pub open spec fn digit_char(d: nat) -> char {
    if d == 0 { '0' }
    else if d == 1 { '1' }
    else if d == 2 { '2' }
    else if d == 3 { '3' }
    else if d == 4 { '4' }
    else if d == 5 { '5' }
    else if d == 6 { '6' }
    else if d == 7 { '7' }
    else if d == 8 { '8' }
    else { '9' }
}

/// The decimal notation of `n`, without leading zeros.
pub open spec fn decimal(n: nat) -> Seq<char>
    decreases n,
{
    if n < 10 {
        seq![digit_char(n)]
    } else {
        decimal(n / 10) + seq![digit_char(n % 10)]
    }
}

/// How a download count is shown: a count above a threshold is cut down to
/// the leading digits of that threshold's scale, followed by a suffix that
/// restores the dropped zeros (`"00 M"` for hundreds of millions, and so on);
/// a count of at most a thousand is written out in full.
pub open spec fn downloads_text(x: u64) -> Seq<char> {
    if x > 1_000_000_000 {
        decimal((x / 1_000_000_000) as nat) + " B"@
    } else if x > 100_000_000 {
        decimal((x / 100_000_000) as nat) + "00 M"@
    } else if x > 10_000_000 {
        decimal((x / 10_000_000) as nat) + "0 M"@
    } else if x > 1_000_000 {
        decimal((x / 1_000_000) as nat) + " M"@
    } else if x > 100_000 {
        decimal((x / 100_000) as nat) + "00 K"@
    } else if x > 10_000 {
        decimal((x / 10_000) as nat) + "0 K"@
    } else if x > 1_000 {
        decimal((x / 1_000) as nat) + " K"@
    } else {
        decimal(x as nat)
    }
}

fn digit_str(d: u64) -> (s: &'static str)
    requires
        d < 10,
    ensures
        s@ == seq![digit_char(d as nat)],
{
    proof {
        reveal_strlit("0");
        reveal_strlit("1");
        reveal_strlit("2");
        reveal_strlit("3");
        reveal_strlit("4");
        reveal_strlit("5");
        reveal_strlit("6");
        reveal_strlit("7");
        reveal_strlit("8");
        reveal_strlit("9");
    }
    if d == 0 {
        "0"
    } else if d == 1 {
        "1"
    } else if d == 2 {
        "2"
    } else if d == 3 {
        "3"
    } else if d == 4 {
        "4"
    } else if d == 5 {
        "5"
    } else if d == 6 {
        "6"
    } else if d == 7 {
        "7"
    } else if d == 8 {
        "8"
    } else {
        "9"
    }
}

/// Writes `n` in decimal.
pub fn decimal_string(n: u64) -> (s: String)
    ensures
        s@ == decimal(n as nat),
    decreases n,
{
    if n < 10 {
        String::from_str(digit_str(n))
    } else {
        let head = decimal_string(n / 10);
        head.concat(digit_str(n % 10))
    }
}

/// The short form of a download count shown on cards, such as `"3 M"` for
/// 3,456,789 or `"20 K"` for 25,000.
pub fn format_downloads(x: u64) -> (s: String)
    ensures
        s@ == downloads_text(x),
{
    if x > 1_000_000_000 {
        decimal_string(x / 1_000_000_000).concat(" B")
    } else if x > 100_000_000 {
        decimal_string(x / 100_000_000).concat("00 M")
    } else if x > 10_000_000 {
        decimal_string(x / 10_000_000).concat("0 M")
    } else if x > 1_000_000 {
        decimal_string(x / 1_000_000).concat(" M")
    } else if x > 100_000 {
        decimal_string(x / 100_000).concat("00 K")
    } else if x > 10_000 {
        decimal_string(x / 10_000).concat("0 K")
    } else if x > 1_000 {
        decimal_string(x / 1_000).concat(" K")
    } else {
        decimal_string(x)
    }
}

/// The scale to which a download count is cut down: the largest of the
/// thresholds it exceeds, or 1 for a count of at most a thousand.
pub open spec fn downloads_step(x: u64) -> int {
    if x > 1_000_000_000 { 1_000_000_000 }
    else if x > 100_000_000 { 100_000_000 }
    else if x > 10_000_000 { 10_000_000 }
    else if x > 1_000_000 { 1_000_000 }
    else if x > 100_000 { 100_000 }
    else if x > 10_000 { 10_000 }
    else if x > 1_000 { 1_000 }
    else { 1 }
}

/// The amount a shown download count stands for: the count rounded down to
/// its step.
pub open spec fn downloads_amount(x: u64) -> int {
    ((x as int) / downloads_step(x)) * downloads_step(x)
}

/// What the suffix of a shown download count multiplies its digits by.
pub open spec fn suffix_scale(x: u64) -> int {
    if x > 1_000_000_000 { 1_000_000_000 }
    else if x > 1_000_000 { 1_000_000 }
    else if x > 1_000 { 1_000 }
    else { 1 }
}

/// The unit written after the digits of a shown download count.
pub open spec fn unit_suffix(x: u64) -> Seq<char> {
    if x > 1_000_000_000 { " B"@ }
    else if x > 1_000_000 { " M"@ }
    else if x > 1_000 { " K"@ }
    else { Seq::empty() }
}

proof fn lemma_decimal_times_ten(n: nat)
    requires
        n >= 1,
    ensures
        decimal(n * 10) == decimal(n) + seq!['0'],
{
    assert((n * 10) / 10 == n);
    assert((n * 10) % 10 == 0);
}

/// A shown download count reads as its amount: its digits are the amount
/// in units of its suffix, which divide the amount evenly; the amount is
/// at most the count and less than one step below it.
pub proof fn lemma_downloads_text_reads_as_amount(x: u64)
    ensures
        downloads_amount(x) % suffix_scale(x) == 0,
        downloads_text(x) == decimal((downloads_amount(x) / suffix_scale(x)) as nat) + unit_suffix(x),
        downloads_amount(x) <= x < downloads_amount(x) + downloads_step(x),
{
    reveal_strlit(" B");
    reveal_strlit("00 M");
    reveal_strlit("0 M");
    reveal_strlit(" M");
    reveal_strlit("00 K");
    reveal_strlit("0 K");
    reveal_strlit(" K");
    let q: int = (x as int) / downloads_step(x);
    let step = downloads_step(x);
    assert(q * step <= x < q * step + step) by (nonlinear_arith)
        requires
            step > 0,
            q == (x as int) / step,
    ;
    if x > 1_000_000_000 {
        assert(downloads_amount(x) / suffix_scale(x) == q);
    } else if x > 100_000_000 {
        lemma_decimal_times_ten(q as nat);
        lemma_decimal_times_ten((q * 10) as nat);
        assert(downloads_amount(x) / suffix_scale(x) == q * 10 * 10);
        assert(decimal(q as nat) + seq!['0'] + seq!['0'] + " M"@ =~= decimal(q as nat) + "00 M"@);
    } else if x > 10_000_000 {
        lemma_decimal_times_ten(q as nat);
        assert(downloads_amount(x) / suffix_scale(x) == q * 10);
        assert(decimal(q as nat) + seq!['0'] + " M"@ =~= decimal(q as nat) + "0 M"@);
    } else if x > 1_000_000 {
        assert(downloads_amount(x) / suffix_scale(x) == q);
    } else if x > 100_000 {
        lemma_decimal_times_ten(q as nat);
        lemma_decimal_times_ten((q * 10) as nat);
        assert(downloads_amount(x) / suffix_scale(x) == q * 10 * 10);
        assert(decimal(q as nat) + seq!['0'] + seq!['0'] + " K"@ =~= decimal(q as nat) + "00 K"@);
    } else if x > 10_000 {
        lemma_decimal_times_ten(q as nat);
        assert(downloads_amount(x) / suffix_scale(x) == q * 10);
        assert(decimal(q as nat) + seq!['0'] + " K"@ =~= decimal(q as nat) + "0 K"@);
    } else if x > 1_000 {
        assert(downloads_amount(x) / suffix_scale(x) == q);
    } else {
        assert(decimal(x as nat) + Seq::<char>::empty() =~= decimal(x as nat));
    }
}

/// A larger download count never shows a smaller amount.
pub proof fn lemma_downloads_amount_monotone(x1: u64, x2: u64)
    requires
        x1 <= x2,
    ensures
        downloads_amount(x1) <= downloads_amount(x2),
{
    lemma_downloads_text_reads_as_amount(x1);
    lemma_downloads_text_reads_as_amount(x2);
    let s1 = downloads_step(x1);
    let s2 = downloads_step(x2);
    if s1 == s2 {
        let q1: int = (x1 as int) / s1;
        let q2: int = (x2 as int) / s1;
        assert(q1 <= q2) by (nonlinear_arith)
            requires
                s1 > 0,
                x1 <= x2,
                q1 == (x1 as int) / s1,
                q2 == (x2 as int) / s1,
        ;
        assert(q1 * s1 <= q2 * s1) by (nonlinear_arith)
            requires
                s1 > 0,
                q1 <= q2,
        ;
    } else {
        // The larger count passes a threshold the smaller one does not, so
        // its amount is at least that threshold, and the smaller count is
        // at most it.
        assert(s1 < s2);
        assert(x1 <= s2);
        assert((x2 as int) / s2 >= 1);
        assert(downloads_amount(x2) >= s2) by (nonlinear_arith)
            requires
                downloads_amount(x2) == ((x2 as int) / s2) * s2,
                (x2 as int) / s2 >= 1,
                s2 > 0,
        ;
    }
}

} // verus!
