use vstd::prelude::*;

use crate::package::{is_digit, parse_spec, Package, PackageView, ParseError};
use crate::text::{chars_of, opt_view, contains_chars, contains_seq, lines, lines_containing, matching_lines, string_of};

verus! {

/// Why a downgrade query did not name exactly one package build.
#[derive(Debug)]
pub enum ResolveError {
    /// The version holds a character other than a digit or a dot.
    InvalidVersionFormat,
    /// No line of the index matches.
    NoMatch,
    /// Several lines match; they are all given, in the order of the index.
    Ambiguous(Vec<String>),
    /// The one line that matches is no valid identifier stub.
    Parse(ParseError),
}

/// The outcome of a downgrade query, as a value.
pub enum Resolution {
    Resolved(PackageView),
    InvalidVersionFormat,
    NoMatch,
    Ambiguous(Seq<Seq<char>>),
    Parse(ParseError),
}

/// A version query holds only digits and dots.
pub open spec fn version_format_ok(v: Seq<char>) -> bool {
    forall|i: int| 0 <= i < v.len() ==> #[trigger] v[i] == '.' || is_digit(v[i])
}

/// The line is a valid stub whose version contains `v`.
pub open spec fn has_version(line: Seq<char>, v: Seq<char>) -> bool {
    match parse_spec(line) {
        Ok(p) => contains_seq(p.version, v),
        Err(_) => false,
    }
}

/// The lines among `ls` that are valid stubs whose version contains `v`.
pub open spec fn lines_with_version(ls: Seq<Seq<char>>, v: Seq<char>) -> Seq<Seq<char>>
    decreases ls.len(),
{
    if ls.len() == 0 {
        Seq::<Seq<char>>::empty()
    } else {
        let rest = lines_with_version(ls.drop_last(), v);
        if has_version(ls.last(), v) {
            rest.push(ls.last())
        } else {
            rest
        }
    }
}

/// The lines of the index that a query keeps: those that contain `name`, and,
/// where a version is given, whose parsed version contains it.
pub open spec fn candidates(index: Seq<char>, name: Seq<char>, version: Option<Seq<char>>) -> Seq<
    Seq<char>,
> {
    let named = lines_containing(lines(index), name);
    match version {
        None => named,
        Some(v) => lines_with_version(named, v),
    }
}

/// The outcome of the query `name`, `version` on the index.
pub open spec fn resolve_spec(index: Seq<char>, name: Seq<char>, version: Option<Seq<char>>) -> Resolution {
    if version matches Some(v) && !version_format_ok(v) {
        Resolution::InvalidVersionFormat
    } else {
        let c = candidates(index, name, version);
        if c.len() == 0 {
            Resolution::NoMatch
        } else if c.len() > 1 {
            Resolution::Ambiguous(c)
        } else {
            match parse_spec(c[0]) {
                Ok(p) => Resolution::Resolved(p),
                Err(e) => Resolution::Parse(e),
            }
        }
    }
}

/// What a result of `resolve` says, as a value.
pub open spec fn resolution_of(r: Result<Package, ResolveError>) -> Resolution {
    match r {
        Ok(p) => Resolution::Resolved(p@),
        Err(ResolveError::InvalidVersionFormat) => Resolution::InvalidVersionFormat,
        Err(ResolveError::NoMatch) => Resolution::NoMatch,
        Err(ResolveError::Ambiguous(l)) => Resolution::Ambiguous(l@.map_values(|s: String| s@)),
        Err(ResolveError::Parse(e)) => Resolution::Parse(e),
    }
}

fn version_format_ok_exec(v: &[char]) -> (r: bool)
    ensures
        r == version_format_ok(v@),
{
    let mut i: usize = 0;
    while i < v.len()
        invariant
            i <= v@.len(),
            forall|k: int| 0 <= k < i ==> #[trigger] v@[k] == '.' || is_digit(v@[k]),
        decreases v.len() - i,
    {
        let c = v[i];
        if !(c == '.' || ('0' <= c && c <= '9')) {
            return false;
        }
        i = i + 1;
    }
    true
}

/// Whether a version query holds only digits and dots.
pub fn version_is_valid(v: &str) -> (r: bool)
    ensures
        r == version_format_ok(v@),
{
    let vc = chars_of(v);
    version_format_ok_exec(&vc)
}

/// The lines among `ls` that are valid stubs whose version contains `v`.
fn keep_with_version(ls: Vec<Vec<char>>, v: &[char]) -> (r: Vec<Vec<char>>)
    ensures
        r@.map_values(|l: Vec<char>| l@) == lines_with_version(
            ls@.map_values(|l: Vec<char>| l@),
            v@,
        ),
{
    let ghost all = ls@.map_values(|l: Vec<char>| l@);
    let mut r: Vec<Vec<char>> = Vec::new();
    let mut i: usize = 0;
    while i < ls.len()
        invariant
            i <= ls@.len(),
            all == ls@.map_values(|l: Vec<char>| l@),
            r@.map_values(|l: Vec<char>| l@) == lines_with_version(all.take(i as int), v@),
        decreases ls.len() - i,
    {
        let line = &ls[i];
        let ghost old_r = r@.map_values(|l: Vec<char>| l@);
        assert(all.take(i + 1).drop_last() =~= all.take(i as int));
        assert(all.take(i + 1).last() == line@);
        let keep = match Package::parse_chars(line) {
            Ok(p) => {
                let pv = chars_of(p.version());
                contains_chars(&pv, v)
            },
            Err(_) => false,
        };
        if keep {
            r.push(line.clone());
            assert(r@.map_values(|l: Vec<char>| l@) =~= old_r.push(line@));
        }
        i = i + 1;
    }
    assert(all.take(ls@.len() as int) =~= all);
    r
}

/// Resolves a downgrade query against the index text: the lines that contain
/// `name` (and, with a version, whose parsed version contains it) must be
/// exactly one, which is then parsed.
pub fn resolve(index: &str, name: &str, version: Option<&str>) -> (r: Result<Package, ResolveError>)
    ensures
        resolution_of(r) == resolve_spec(index@, name@, opt_view(version)),
{
    let vchars: Option<Vec<char>> = match version {
        Some(v) => {
            let vc = chars_of(v);
            if !version_format_ok_exec(&vc) {
                return Err(ResolveError::InvalidVersionFormat);
            }
            Some(vc)
        },
        None => None,
    };
    let name_chars = chars_of(name);
    let named = matching_lines(index, &name_chars);
    let kept = match &vchars {
        Some(vc) => keep_with_version(named, vc),
        None => named,
    };
    let ghost c = candidates(index@, name@, opt_view(version));
    assert(kept@.map_values(|l: Vec<char>| l@) == c);
    if kept.len() > 1 {
        let mut list: Vec<String> = Vec::new();
        let mut i: usize = 0;
        while i < kept.len()
            invariant
                i <= kept@.len(),
                list@.len() == i,
                forall|k: int| 0 <= k < i ==> #[trigger] list@[k]@ == kept@[k]@,
            decreases kept.len() - i,
        {
            let s = string_of(&kept[i]);
            list.push(s);
            i = i + 1;
        }
        assert(list@.map_values(|s: String| s@) =~= kept@.map_values(|l: Vec<char>| l@));
        return Err(ResolveError::Ambiguous(list));
    }
    if kept.len() == 0 {
        return Err(ResolveError::NoMatch);
    }
    assert(c[0] == kept@[0]@);
    match Package::parse_chars(&kept[0]) {
        Ok(p) => Ok(p),
        Err(e) => Err(ResolveError::Parse(e)),
    }
}

/// A query resolved twice against the same index gives the same outcome: the
/// outcome is a function of the index text, the name and the version alone.
pub proof fn lemma_resolve_deterministic(
    index: Seq<char>,
    name: Seq<char>,
    version: Option<Seq<char>>,
    r1: Result<Package, ResolveError>,
    r2: Result<Package, ResolveError>,
)
    requires
        resolution_of(r1) == resolve_spec(index, name, version),
        resolution_of(r2) == resolve_spec(index, name, version),
    ensures
        resolution_of(r1) == resolution_of(r2),
{
}

} // verus!
