//! How an application's license expression is presented.
use vstd::prelude::*;

verus! {

/// The license requirements of an SPDX expression read in lax
/// mode, one `(listed, text)` pair per requirement in the expression's
/// order: a listed license gives `(true, its full name)`, another license
/// reference `(false, its reference)`. `None` when the text does not parse.
pub uninterp spec fn spdx_lax_requirements(license: Seq<char>) -> Option<Seq<(bool, Seq<char>)>>;

/// The plain form of the requirements a parse gave back.
pub open spec fn requirements_view(r: Option<Vec<(bool, String)>>) -> Option<Seq<(bool, Seq<char>)>> {
    match r {
        Some(v) => Some(v@.map_values(|p: (bool, String)| (p.0, p.1@))),
        None => None,
    }
}

/// Calls `spdx::Expression::parse_mode(license, spdx::ParseMode::LAX)` and
/// lists the requirements of the expression (`Expression::requirements`):
/// for a license on the SPDX list its `full_name`, for another license its
/// `lic_ref`. The result is named, as a function of the text alone.
#[verifier::external_body]
fn parse_license_requirements(license: &str) -> (r: Option<Vec<(bool, String)>>)
    ensures
        requirements_view(r) == spdx_lax_requirements(license@),
{
    match spdx::Expression::parse_mode(license, spdx::ParseMode::LAX) {
        Ok(expr) => Some(expr.requirements().map(|item| match &item.req.license {
            spdx::LicenseItem::Spdx { id, .. } => (true, id.full_name.to_string()),
            spdx::LicenseItem::Other { lic_ref, .. } => (false, lic_ref.clone()),
        }).collect()),
        Err(_) => None,
    }
}

/// A line of the license section of the details page.
#[derive(Debug)]
pub enum LicenseLine {
    /// The full name of a license on the SPDX list.
    Name(String),
    /// A proprietary license, linking to this address.
    Link(String),
    /// A proprietary license with no address.
    Proprietary,
    /// The license text as given, when it is no SPDX expression.
    Unparsed(String),
}

pub enum LicenseLineView {
    Name(Seq<char>),
    Link(Seq<char>),
    Proprietary,
    Unparsed(Seq<char>),
}

impl View for LicenseLine {
    type V = LicenseLineView;

    open spec fn view(&self) -> LicenseLineView {
        match self {
            LicenseLine::Name(s) => LicenseLineView::Name(s@),
            LicenseLine::Link(s) => LicenseLineView::Link(s@),
            LicenseLine::Proprietary => LicenseLineView::Proprietary,
            LicenseLine::Unparsed(s) => LicenseLineView::Unparsed(s@),
        }
    }
}

pub open spec fn lines_view(s: Seq<LicenseLine>) -> Seq<LicenseLineView> {
    s.map_values(|l: LicenseLine| l@)
}

/// What follows the first `=` of a text, if it has one.
pub open spec fn after_first_eq(s: Seq<char>) -> Option<Seq<char>>
    decreases s.len(),
{
    if s.len() == 0 {
        None
    } else if s[0] == '=' {
        Some(s.drop_first())
    } else {
        after_first_eq(s.drop_first())
    }
}

/// The line shown for one requirement: a listed license by name; another
/// license reference of the form `…=address` as a link to the address, and
/// without `=` as proprietary.
pub open spec fn requirement_line(req: (bool, Seq<char>)) -> LicenseLineView {
    if req.0 {
        LicenseLineView::Name(req.1)
    } else {
        match after_first_eq(req.1) {
            Some(url) => LicenseLineView::Link(url),
            None => LicenseLineView::Proprietary,
        }
    }
}

/// The lines of the license section for a license text whose requirements
/// are `parsed`.
pub open spec fn license_lines_spec(license: Seq<char>, parsed: Option<Seq<(bool, Seq<char>)>>) -> Seq<LicenseLineView> {
    match parsed {
        Some(reqs) => reqs.map_values(|r: (bool, Seq<char>)| requirement_line(r)),
        None => seq![LicenseLineView::Unparsed(license)],
    }
}

proof fn lemma_after_first_eq_skip(s: Seq<char>, i: int)
    requires
        0 <= i < s.len(),
        s[i] != '=',
    ensures
        after_first_eq(s.subrange(i, s.len() as int)) == after_first_eq(s.subrange(i + 1, s.len() as int)),
{
    assert(s.subrange(i, s.len() as int).drop_first() =~= s.subrange(i + 1, s.len() as int));
}

/// What follows the first `=` of a text, if it has one.
pub fn split_after_eq(s: &String) -> (r: Option<String>)
    ensures
        match r {
            Some(t) => after_first_eq(s@) == Some(t@),
            None => after_first_eq(s@) is None,
        },
{
    let text = s.as_str();
    let n = text.unicode_len();
    let mut i: usize = 0;
    assert(s@.subrange(0, s@.len() as int) =~= s@);
    while i < n
        invariant
            text@ == s@,
            n == s@.len(),
            i <= n,
            after_first_eq(s@) == after_first_eq(s@.subrange(i as int, n as int)),
        decreases n - i,
    {
        if text.get_char(i) == '=' {
            let rest = text.substring_char(i + 1, n);
            assert(s@.subrange(i as int, n as int).drop_first() =~= s@.subrange(i + 1, n as int));
            return Some(String::from_str(rest));
        }
        proof { lemma_after_first_eq_skip(s@, i as int); }
        i += 1;
    }
    None
}

/// The lines of the license section for a license text whose
/// requirements, as the SPDX parser gives them, are `parsed`.
pub fn license_lines_from(license: &String, parsed: Option<Vec<(bool, String)>>) -> (r: Vec<LicenseLine>)
    ensures
        lines_view(r@) == license_lines_spec(license@, requirements_view(parsed)),
{
    let mut lines: Vec<LicenseLine> = Vec::new();
    match parsed {
        Some(reqs) => {
            let n = reqs.len();
            let mut i: usize = 0;
            while i < n
                invariant
                    n == reqs@.len(),
                    i <= n,
                    lines_view(lines@) =~= reqs@.take(i as int).map_values(
                        |p: (bool, String)| requirement_line((p.0, p.1@))),
                decreases n - i,
            {
                let ghost before = lines@;
                let req = &reqs[i];
                if req.0 {
                    lines.push(LicenseLine::Name(req.1.clone()));
                } else {
                    match split_after_eq(&req.1) {
                        Some(url) => lines.push(LicenseLine::Link(url)),
                        None => lines.push(LicenseLine::Proprietary),
                    }
                }
                proof {
                    assert(lines_view(lines@) =~= lines_view(before).push(lines@[i as int]@));
                    assert(reqs@.take(i as int + 1) =~= reqs@.take(i as int).push(reqs@[i as int]));
                }
                i += 1;
            }
            proof {
                assert(reqs@.take(n as int) =~= reqs@);
                let v = requirements_view(Some(reqs));
                assert(lines_view(lines@) =~= license_lines_spec(license@, v));
            }
        },
        None => {
            lines.push(LicenseLine::Unparsed(license.clone()));
            assert(lines_view(lines@) =~= seq![LicenseLineView::Unparsed(license@)]);
        },
    }
    lines
}

/// The lines of the license section for an application's license text.
pub fn license_lines(license: &String) -> (r: Vec<LicenseLine>)
    ensures
        lines_view(r@) == license_lines_spec(license@, spdx_lax_requirements(license@)),
{
    let parsed = parse_license_requirements(license.as_str());
    license_lines_from(license, parsed)
}

/// What follows the first `=` is the text after the earliest `=`; a text
/// with no `=` has nothing after one.
proof fn lemma_after_first_eq_is_suffix(s: Seq<char>)
    ensures
        after_first_eq(s) is Some ==> exists|k: int| 0 <= k < s.len() && #[trigger] s[k] == '='
            && (forall|j: int| 0 <= j < k ==> s[j] != '=')
            && after_first_eq(s)->0 == s.subrange(k + 1, s.len() as int),
        after_first_eq(s) is None ==> forall|j: int| 0 <= j < s.len() ==> s[j] != '=',
    decreases s.len(),
{
    if s.len() > 0 {
        if s[0] == '=' {
            assert(s.drop_first() =~= s.subrange(1, s.len() as int));
            assert(s[0] == '=');
        } else {
            let t = s.drop_first();
            lemma_after_first_eq_is_suffix(t);
            if after_first_eq(t) is Some {
                let k = choose|k: int| 0 <= k < t.len() && #[trigger] t[k] == '='
                    && (forall|j: int| 0 <= j < k ==> t[j] != '=')
                    && after_first_eq(t)->0 == t.subrange(k + 1, t.len() as int);
                assert(s[k + 1] == '=');
                assert(t.subrange(k + 1, t.len() as int) =~= s.subrange(k + 2, s.len() as int));
                assert forall|j: int| 0 <= j < k + 1 implies s[j] != '=' by {
                    if j > 0 {
                        assert(s[j] == t[j - 1]);
                    }
                }
            } else {
                assert forall|j: int| 0 <= j < s.len() implies s[j] != '=' by {
                    if j > 0 {
                        assert(s[j] == t[j - 1]);
                    }
                }
            }
        }
    }
}

/// The license section: a text the SPDX parser cannot read shows as it is,
/// on one line; otherwise each requirement gets a line, in order: a listed
/// license its name; a license reference holding an `=`, a link to what
/// follows its first `=`; any other reference, a proprietary line.
pub proof fn lemma_license_lines_content(license: Seq<char>, parsed: Option<Seq<(bool, Seq<char>)>>)
    ensures
        ({
            let r = license_lines_spec(license, parsed);
            match parsed {
                None => r == seq![LicenseLineView::Unparsed(license)],
                Some(reqs) => {
                    &&& r.len() == reqs.len()
                    &&& forall|i: int| 0 <= i < reqs.len() ==> {
                        let (listed, name) = reqs[i];
                        &&& listed ==> #[trigger] r[i] == LicenseLineView::Name(name)
                        &&& (!listed && (exists|k: int| 0 <= k < name.len() && name[k] == '=')) ==> (exists|k: int|
                            0 <= k < name.len() && name[k] == '=' && (forall|j: int| 0 <= j < k ==> name[j] != '=')
                            && r[i] == LicenseLineView::Link(name.subrange(k + 1, name.len() as int)))
                        &&& (!listed && (forall|k: int| 0 <= k < name.len() ==> name[k] != '=')) ==> r[i] is Proprietary
                    }
                },
            }
        }),
{
    if let Some(reqs) = parsed {
        let r = license_lines_spec(license, parsed);
        assert forall|i: int| 0 <= i < reqs.len() implies {
            let (listed, name) = reqs[i];
            &&& listed ==> #[trigger] r[i] == LicenseLineView::Name(name)
            &&& (!listed && (exists|k: int| 0 <= k < name.len() && name[k] == '=')) ==> (exists|k: int|
                0 <= k < name.len() && name[k] == '=' && (forall|j: int| 0 <= j < k ==> name[j] != '=')
                && r[i] == LicenseLineView::Link(name.subrange(k + 1, name.len() as int)))
            &&& (!listed && (forall|k: int| 0 <= k < name.len() ==> name[k] != '=')) ==> r[i] is Proprietary
        } by {
            let name = reqs[i].1;
            assert(r[i] == requirement_line(reqs[i]));
            lemma_after_first_eq_is_suffix(name);
            if after_first_eq(name) is None {
                if exists|k: int| 0 <= k < name.len() && name[k] == '=' {
                    let k = choose|k: int| 0 <= k < name.len() && name[k] == '=';
                    assert(name[k] != '=');
                }
            } else {
                let k = choose|k: int| 0 <= k < name.len() && #[trigger] name[k] == '='
                    && (forall|j: int| 0 <= j < k ==> name[j] != '=')
                    && after_first_eq(name)->0 == name.subrange(k + 1, name.len() as int);
                assert(name[k] == '=');
            }
        }
    }
}

} // verus!
