use vstd::prelude::*;

use crate::package::{arch_token, decimal, parse_spec, push_decimal, Package, PackageView, ParseError};
use crate::text::{chars_of, lines, lines_containing, matching_lines, occurs_at_exec, opt_view};

verus! {

/// `s` with each occurrence of `m`, taken from the left and not overlapping,
/// replaced by `p`. An empty `m` occurs before every character and at the end.
pub open spec fn highlight_spec(s: Seq<char>, m: Seq<char>, p: Seq<char>) -> Seq<char>
    decreases s.len(),
{
    if m.len() == 0 {
        if s.len() == 0 {
            p
        } else {
            p + seq![s[0]] + highlight_spec(s.skip(1), m, p)
        }
    } else if s.len() < m.len() {
        s
    } else if s.take(m.len() as int) == m {
        p + highlight_spec(s.skip(m.len() as int), m, p)
    } else {
        seq![s[0]] + highlight_spec(s.skip(1), m, p)
    }
}

/// `x`, with the query marked where a marking is given.
pub open spec fn marked(x: Seq<char>, m: Seq<char>, paint: Option<Seq<char>>) -> Seq<char> {
    match paint {
        None => x,
        Some(p) => highlight_spec(x, m, p),
    }
}

/// The heading line of the table view.
pub open spec fn list_header() -> Seq<char> {
    "Name\t\tVersion\t\tBuild\tArch\n"@
}

/// The output for one matching line: the line itself in the raw view; in
/// the table view its fields, and nothing for a line that is no valid stub.
pub open spec fn list_row(line: Seq<char>, m: Seq<char>, paint: Option<Seq<char>>, raw: bool) -> Seq<
    char,
> {
    if raw {
        marked(line, m, paint) + seq!['\n']
    } else {
        match parse_spec(line) {
            Ok(p) => marked(p.name, m, paint) + seq!['\t', '\t'] + p.version + seq!['\t', '\t']
                + decimal(p.build_version as nat) + seq!['\t'] + arch_token(p.arch) + seq!['\n'],
            Err(_) => Seq::<char>::empty(),
        }
    }
}

pub open spec fn list_rows(ls: Seq<Seq<char>>, m: Seq<char>, paint: Option<Seq<char>>, raw: bool) -> Seq<
    char,
>
    decreases ls.len(),
{
    if ls.len() == 0 {
        Seq::<char>::empty()
    } else {
        list_rows(ls.drop_last(), m, paint, raw) + list_row(ls.last(), m, paint, raw)
    }
}

/// The listing of the index lines that contain `m`.
pub open spec fn list_spec(index: Seq<char>, m: Seq<char>, paint: Option<Seq<char>>, raw: bool) -> Seq<
    char,
> {
    let head = if raw {
        Seq::<char>::empty()
    } else {
        list_header()
    };
    head + list_rows(lines_containing(lines(index), m), m, paint, raw)
}

/// Relies on colored's `Colorize::red` and its `Display`: the text in red
/// where the terminal settings allow colour, else as it is. Which of the two
/// depends on the environment, so nothing is stated of the result.
#[verifier::external_body]
fn paint_red(m: &str) -> (r: String) {
    format!("{}", colored::Colorize::red(m))
}

fn push_str_chars(out: &mut String, s: &[char], from: usize)
    requires
        from <= s@.len(),
    ensures
        final(out)@ == old(out)@ + s@.skip(from as int),
{
    let mut i: usize = from;
    while i < s.len()
        invariant
            from <= i <= s@.len(),
            out@ == old(out)@ + s@.subrange(from as int, i as int),
        decreases s.len() - i,
    {
        out.push(s[i]);
        i = i + 1;
        assert(out@ =~= old(out)@ + s@.subrange(from as int, i as int));
    }
    assert(s@.subrange(from as int, i as int) =~= s@.skip(from as int));
}

/// Appends `s` with each occurrence of `m` replaced by `p`.
pub fn push_highlight(out: &mut String, s: &[char], m: &[char], p: &str)
    ensures
        final(out)@ == old(out)@ + highlight_spec(s@, m@, p@),
{
    let ghost whole = highlight_spec(s@, m@, p@);
    let mut i: usize = 0;
    assert(s@.skip(0) =~= s@);
    loop
        invariant
            i <= s@.len(),
            whole == highlight_spec(s@, m@, p@),
            out@ + highlight_spec(s@.skip(i as int), m@, p@) == old(out)@ + whole,
        decreases s@.len() - i,
    {
        let ghost rest = s@.skip(i as int);
        if m.len() == 0 {
            if i == s.len() {
                out.append(p);
                assert(out@ =~= old(out)@ + whole);
                return;
            }
            out.append(p);
            out.push(s[i]);
            assert(rest.skip(1) =~= s@.skip(i + 1));
            assert(rest[0] == s@[i as int]);
            i = i + 1;
            assert(out@ + highlight_spec(s@.skip(i as int), m@, p@) =~= old(out)@ + whole);
        } else if s.len() - i < m.len() {
            push_str_chars(out, s, i);
            assert(out@ =~= old(out)@ + whole);
            return;
        } else if occurs_at_exec(s, m, i) {
            assert(rest.take(m@.len() as int) =~= s@.subrange(i as int, i + m@.len()));
            out.append(p);
            assert(rest.skip(m@.len() as int) =~= s@.skip(i + m@.len()));
            i = i + m.len();
            assert(out@ + highlight_spec(s@.skip(i as int), m@, p@) =~= old(out)@ + whole);
        } else {
            assert(rest.take(m@.len() as int) =~= s@.subrange(i as int, i + m@.len()));
            out.push(s[i]);
            assert(rest.skip(1) =~= s@.skip(i + 1));
            assert(rest[0] == s@[i as int]);
            i = i + 1;
            assert(out@ + highlight_spec(s@.skip(i as int), m@, p@) =~= old(out)@ + whole);
        }
    }
}

/// `s` with each occurrence of `m` in red, where the terminal allows colour.
pub fn color_match(s: &str, m: &str) -> (r: String)
    ensures
        exists|p: Seq<char>| r@ == #[trigger] highlight_spec(s@, m@, p),
{
    let sc = chars_of(s);
    let mc = chars_of(m);
    let painted = paint_red(m);
    let mut r = String::new();
    push_highlight(&mut r, &sc, &mc, painted.as_str());
    assert(r@ =~= highlight_spec(s@, m@, painted@));
    r
}

fn push_marked(out: &mut String, x: &[char], m: &[char], paint: Option<&str>)
    ensures
        final(out)@ == old(out)@ + marked(x@, m@, opt_view(paint)),
{
    match paint {
        Some(p) => push_highlight(out, x, m, p),
        None => {
            push_str_chars(out, x, 0);
            assert(x@.skip(0) =~= x@);
        },
    }
}

/// The listing of the index lines that contain `package`: in the raw view
/// the lines themselves, else a table of their fields under a heading. Where
/// `paint` is given, each occurrence of `package` is replaced by it.
pub fn render_list(index: &str, package: &str, paint: Option<&str>, raw_print: bool) -> (r: String)
    ensures
        r@ == list_spec(index@, package@, opt_view(paint), raw_print),
{
    let ghost pv = opt_view(paint);
    let m = chars_of(package);
    let found = matching_lines(index, &m);
    let ghost ls = found@.map_values(|l: Vec<char>| l@);
    let mut r = if raw_print {
        String::new()
    } else {
        String::from_str("Name\t\tVersion\t\tBuild\tArch\n")
    };
    let ghost head = r@;
    let mut i: usize = 0;
    while i < found.len()
        invariant
            i <= found@.len(),
            ls == found@.map_values(|l: Vec<char>| l@),
            m@ == package@,
            pv == opt_view(paint),
            r@ == head + list_rows(ls.take(i as int), m@, pv, raw_print),
        decreases found.len() - i,
    {
        let line = &found[i];
        let ghost before = r@;
        assert(ls.take(i + 1).drop_last() =~= ls.take(i as int));
        assert(ls.take(i + 1).last() == line@);
        if raw_print {
            push_marked(&mut r, line, &m, paint);
            assert(r@ == before + marked(line@, m@, pv));
            r.push('\n');
            assert(r@ =~= before + list_row(line@, m@, pv, raw_print));
        } else {
            match Package::parse_chars(line) {
                Ok(p) => {
                    let name = chars_of(p.name());
                    push_marked(&mut r, &name, &m, paint);
                    r.push('\t');
                    r.push('\t');
                    r.append(p.version());
                    r.push('\t');
                    r.push('\t');
                    push_decimal(&mut r, p.build_version());
                    r.push('\t');
                    r.append(p.arch().as_str());
                    r.push('\n');
                    assert(parse_spec(line@) == Ok::<PackageView, ParseError>(p@));
                    assert(r@ =~= before + list_row(line@, m@, pv, raw_print));
                },
                Err(e) => {
                    assert(parse_spec(line@) == Err::<PackageView, ParseError>(e));
                    assert(r@ =~= before + list_row(line@, m@, pv, raw_print));
                },
            }
        }
        assert(r@ =~= before + list_row(line@, m@, pv, raw_print));
        i = i + 1;
    }
    assert(ls.take(ls.len() as int) =~= ls);
    r
}

/// The listing of the index lines that contain `package`, with `package` in
/// red unless `no_color` is set.
pub fn list(index: &str, package: &str, raw_print: bool, no_color: bool) -> (r: String)
    ensures
        no_color ==> r@ == list_spec(index@, package@, None, raw_print),
        !no_color ==> exists|p: Seq<char>| r@ == #[trigger] list_spec(index@, package@, Some(p), raw_print),
{
    if no_color {
        render_list(index, package, None, raw_print)
    } else {
        let painted = paint_red(package);
        render_list(index, package, Some(painted.as_str()), raw_print)
    }
}

} // verus!
