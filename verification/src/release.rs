use vstd::prelude::*;
use crate::downloads::decimal;

verus! {

/// The first second chrono can represent: January 1 of the year -262143,
/// in seconds since the Unix epoch.
pub const MIN_UTC_TIMESTAMP: i64 = -8_334_601_228_800;

/// The last second chrono can represent: December 31 of the year 262142,
/// 23:59:59, in seconds since the Unix epoch.
pub const MAX_UTC_TIMESTAMP: i64 = 8_210_266_876_799;

/// Whether chrono can represent the instant `secs` seconds after the Unix epoch.
pub open spec fn utc_timestamp_representable(secs: i64) -> bool {
    MIN_UTC_TIMESTAMP <= secs <= MAX_UTC_TIMESTAMP
}

/// The abbreviated English name of month `m` (1 to 12).
pub open spec fn month_abbreviation(m: int) -> Seq<char> {
    if m == 1 { "Jan"@ }
    else if m == 2 { "Feb"@ }
    else if m == 3 { "Mar"@ }
    else if m == 4 { "Apr"@ }
    else if m == 5 { "May"@ }
    else if m == 6 { "Jun"@ }
    else if m == 7 { "Jul"@ }
    else if m == 8 { "Aug"@ }
    else if m == 9 { "Sep"@ }
    else if m == 10 { "Oct"@ }
    else if m == 11 { "Nov"@ }
    else { "Dec"@ }
}

/// A year as chrono writes it without padding: in plain decimal from 0 to
/// 9999, with a `+` above, and with a `-` before its magnitude when negative.
pub open spec fn year_text(y: int) -> Seq<char> {
    if 0 <= y < 10_000 {
        decimal(y as nat)
    } else if y >= 10_000 {
        "+"@ + decimal(y as nat)
    } else {
        "-"@ + decimal((-y) as nat)
    }
}

/// The proleptic Gregorian date (year, month from 1, day from 1) of the
/// instant `secs` seconds after the Unix epoch.
pub open spec fn civil_date(secs: int) -> (int, int, int) {
    let days = secs / 86_400;
    // Days counted from March 1 of the year 0, in cycles of 400 years.
    let z = days + 719_468;
    let era = z / 146_097;
    let doe = z - era * 146_097;
    let yoe = (doe - doe / 1_460 + doe / 36_524 - doe / 146_096) / 365;
    let doy = doe - (365 * yoe + yoe / 4 - yoe / 100);
    let mp = (5 * doy + 2) / 153;
    let d = doy - (153 * mp + 2) / 5 + 1;
    let m = if mp < 10 { mp + 3 } else { mp - 9 };
    let y = yoe + era * 400;
    (if m <= 2 { y + 1 } else { y }, m, d)
}

/// The date of the instant `secs` seconds after the Unix epoch, written as
/// `"%b %-d, %-Y"` writes it: such as `"Nov 14, 2023"`.
pub open spec fn date_line(secs: int) -> Seq<char> {
    let (y, m, d) = civil_date(secs);
    month_abbreviation(m) + " "@ + decimal(d as nat) + ", "@ + year_text(y)
}

/// Whether `s` is the date line of the instant `secs` in some time zone:
/// shifted by an offset of less than a day either way, the range of every
/// offset chrono can hold.
pub open spec fn date_line_near(secs: i64, s: Seq<char>) -> bool {
    exists|off: int| -86_400 < off < 86_400 && s == #[trigger] date_line(secs + off)
}

/// Calls `chrono::DateTime::<Utc>::from_timestamp(secs, 0)`, which returns
/// `None` exactly on a number of seconds outside chrono's calendar, from
/// `NaiveDate::MIN` to the last second of `NaiveDate::MAX` (the nanosecond
/// part, zero here, is always valid), then converts
/// the instant with `DateTime::<Local>::from` and writes it with
/// `format("%b %-d, %-Y")`. The contract claims that a text comes back exactly
/// then, and that it is the date line of the instant shifted by the local
/// offset, which chrono keeps strictly within a day either way. Which offset
/// that is depends on the machine's time zone, so the contract leaves it open.
/// The instant stays inside this item: chrono's `DateTime` is generic over a
/// trait of chrono's, so it is not carried through verified code.
#[verifier::external_body]
fn local_date_from_timestamp(secs: i64) -> (r: Option<String>)
    ensures
        r is Some <==> utc_timestamp_representable(secs),
        r matches Some(s) ==> date_line_near(secs, s@),
{
    match chrono::DateTime::<chrono::Utc>::from_timestamp(secs, 0) {
        Some(utc) => Some(format!("{}", chrono::DateTime::<chrono::Local>::from(utc).format("%b %-d, %-Y"))),
        None => None,
    }
}

/// Whether `r` is the date line shown for a release with `timestamp`:
/// present exactly when the timestamp is one chrono can represent, and then
/// the date of that instant in the machine's time zone.
pub open spec fn release_date_shown(timestamp: Option<i64>, r: Option<String>) -> bool {
    &&& r is Some <==> (timestamp matches Some(t) && utc_timestamp_representable(t))
    &&& (timestamp, r) matches (Some(t), Some(s)) ==> date_line_near(t, s@)
}

/// The date line shown under a release's version: present exactly when the
/// release has a timestamp that chrono can represent, and then the date of
/// that instant in the machine's time zone.
pub fn release_date_text(timestamp: Option<i64>) -> (r: Option<String>)
    ensures
        release_date_shown(timestamp, r),
{
    match timestamp {
        Some(t) => local_date_from_timestamp(t),
        None => None,
    }
}

} // verus!
