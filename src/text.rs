use vstd::prelude::*;

verus! {

/// Relies on `String::push`: appends one character at the end of the string.
pub assume_specification[ String::push ](s: &mut String, ch: char)
    ensures
        final(s)@ == old(s)@.push(ch),
;

/// The characters of an optional text.
pub open spec fn opt_view(t: Option<&str>) -> Option<Seq<char>> {
    match t {
        Some(s) => Some(s@),
        None => None,
    }
}

/// `m` occurs in `s` at position `i`.
pub open spec fn occurs_at(s: Seq<char>, m: Seq<char>, i: int) -> bool {
    0 <= i && i + m.len() <= s.len() && s.subrange(i, i + m.len()) == m
}

/// `m` occurs somewhere in `s` as a contiguous run of characters.
pub open spec fn contains_seq(s: Seq<char>, m: Seq<char>) -> bool {
    exists|i: int| occurs_at(s, m, i)
}

/// The lines of `s`: the pieces between the newline characters, with an
/// empty last piece when `s` ends in a newline.
pub open spec fn lines(s: Seq<char>) -> Seq<Seq<char>>
    decreases s.len(),
{
    if s.len() == 0 {
        seq![Seq::<char>::empty()]
    } else if s.last() == '\n' {
        lines(s.drop_last()).push(Seq::<char>::empty())
    } else {
        let l = lines(s.drop_last());
        l.update(l.len() - 1, l.last().push(s.last()))
    }
}

/// The lines of `s` that contain `m`, in their order.
pub open spec fn lines_containing(ls: Seq<Seq<char>>, m: Seq<char>) -> Seq<Seq<char>>
    decreases ls.len(),
{
    if ls.len() == 0 {
        Seq::<Seq<char>>::empty()
    } else {
        let rest = lines_containing(ls.drop_last(), m);
        if contains_seq(ls.last(), m) {
            rest.push(ls.last())
        } else {
            rest
        }
    }
}

pub proof fn lemma_lines_nonempty(s: Seq<char>)
    ensures
        lines(s).len() >= 1,
    decreases s.len(),
{
    if s.len() > 0 {
        lemma_lines_nonempty(s.drop_last());
    }
}

/// The characters of `s`, in order.
pub fn chars_of(s: &str) -> (r: Vec<char>)
    ensures
        r@ == s@,
{
    let mut r: Vec<char> = Vec::new();
    for c in it: s.chars()
        invariant
            r@ == it.seq().take(it.index() as int),
    {
        r.push(c);
    }
    r
}

/// A string holding the characters of `v` from position `a` up to `b`.
pub fn string_of_range(v: &[char], a: usize, b: usize) -> (r: String)
    requires
        a <= b <= v@.len(),
    ensures
        r@ == v@.subrange(a as int, b as int),
{
    let mut r = String::new();
    let mut i: usize = a;
    while i < b
        invariant
            a <= i <= b <= v@.len(),
            r@ == v@.subrange(a as int, i as int),
        decreases b - i,
    {
        r.push(v[i]);
        i = i + 1;
        assert(r@ =~= v@.subrange(a as int, i as int));
    }
    r
}

/// A string holding the characters of `v`.
pub fn string_of(v: &[char]) -> (r: String)
    ensures
        r@ == v@,
{
    let r = string_of_range(v, 0, v.len());
    assert(v@.subrange(0, v@.len() as int) =~= v@);
    r
}

/// Whether `m` occurs at position `i` of `s`.
pub fn occurs_at_exec(s: &[char], m: &[char], i: usize) -> (r: bool)
    requires
        i + m@.len() <= s@.len(),
    ensures
        r == occurs_at(s@, m@, i as int),
{
    let n = s.len();
    let mut j: usize = 0;
    while j < m.len()
        invariant
            n == s@.len(),
            i + m@.len() <= s@.len(),
            j <= m@.len(),
            forall|k: int| 0 <= k < j ==> s@[i + k] == m@[k],
        decreases m.len() - j,
    {
        if s[i + j] != m[j] {
            assert(s@.subrange(i as int, i + m@.len())[j as int] != m@[j as int]);
            return false;
        }
        j = j + 1;
    }
    assert(s@.subrange(i as int, i + m@.len()) =~= m@);
    true
}

/// Whether `m` occurs in `s`.
pub fn contains_chars(s: &[char], m: &[char]) -> (r: bool)
    ensures
        r == contains_seq(s@, m@),
{
    if m.len() > s.len() {
        return false;
    }
    let last = s.len() - m.len();
    let mut i: usize = 0;
    loop
        invariant
            last == s@.len() - m@.len(),
            i <= last,
            forall|k: int| 0 <= k < i ==> !occurs_at(s@, m@, k),
        decreases last - i,
    {
        if occurs_at_exec(s, m, i) {
            return true;
        }
        if i == last {
            return false;
        }
        i = i + 1;
    }
}

/// The lines of `index` that contain `m`, in their order.
pub fn matching_lines(index: &str, m: &[char]) -> (r: Vec<Vec<char>>)
    ensures
        r@.map_values(|l: Vec<char>| l@) == lines_containing(lines(index@), m@),
{
    let mut r: Vec<Vec<char>> = Vec::new();
    let mut cur: Vec<char> = Vec::new();
    let ghost s = index@;
    for c in it: index.chars()
        invariant
            s == index@,
            it.seq() == s,
            it.index() <= s.len(),
            cur@ == lines(s.take(it.index() as int)).last(),
            r@.map_values(|l: Vec<char>| l@) == lines_containing(
                lines(s.take(it.index() as int)).drop_last(),
                m@,
            ),
    {
        let ghost i = it.index() as int;
        let ghost pre = s.take(i);
        let ghost post = s.take(i + 1);
        proof {
            lemma_lines_nonempty(pre);
            assert(post.drop_last() =~= pre);
            assert(post.last() == c);
        }
        if c == '\n' {
            let ghost old_r = r@.map_values(|l: Vec<char>| l@);
            if contains_chars(&cur, m) {
                r.push(cur);
                assert(r@.map_values(|l: Vec<char>| l@) =~= old_r.push(lines(pre).last()));
            }
            assert(lines(post).drop_last() =~= lines(pre));
            cur = Vec::new();
            assert(cur@ =~= lines(post).last());
        } else {
            cur.push(c);
            assert(lines(post).drop_last() =~= lines(pre).drop_last());
            assert(cur@ =~= lines(post).last());
        }
    }
    proof {
        lemma_lines_nonempty(s);
        assert(s.take(s.len() as int) =~= s);
    }
    let ghost old_r = r@.map_values(|l: Vec<char>| l@);
    if contains_chars(&cur, m) {
        r.push(cur);
        assert(r@.map_values(|l: Vec<char>| l@) =~= old_r.push(lines(s).last()));
    }
    proof {
        assert(lines(s).drop_last().push(lines(s).last()) =~= lines(s));
    }
    r
}

} // verus!
