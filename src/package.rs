use vstd::prelude::*;

use crate::text::{chars_of, string_of_range};

verus! {

/// The architecture a package was built for.
#[derive(Debug, Clone, Copy, PartialEq, Eq, Structural)]
pub enum Arch {
    X86_64,
    Any,
}

/// Why an identifier stub could not be parsed.
#[derive(Debug, Clone, Copy, PartialEq, Eq, Structural)]
pub enum ParseError {
    /// A hyphen that separates two fields is missing.
    Malformed,
    /// The last field is not a known architecture.
    UnknownArch,
    /// The build field is not a decimal number that fits in 16 bits.
    InvalidBuildNumber,
}

/// The text of an architecture in an identifier stub.
pub open spec fn arch_token(a: Arch) -> Seq<char> {
    match a {
        Arch::X86_64 => seq!['x', '8', '6', '_', '6', '4'],
        Arch::Any => seq!['a', 'n', 'y'],
    }
}

/// The architecture that `t` names, if any.
pub open spec fn arch_of(t: Seq<char>) -> Option<Arch> {
    if t == arch_token(Arch::X86_64) {
        Some(Arch::X86_64)
    } else if t == arch_token(Arch::Any) {
        Some(Arch::Any)
    } else {
        None
    }
}

/// The position of the last hyphen of `s`, if it has one.
pub open spec fn last_hyphen(s: Seq<char>) -> Option<int>
    decreases s.len(),
{
    if s.len() == 0 {
        None
    } else if s.last() == '-' {
        Some(s.len() - 1)
    } else {
        last_hyphen(s.drop_last())
    }
}

pub open spec fn is_digit(c: char) -> bool {
    '0' <= c && c <= '9'
}

pub open spec fn all_digits(t: Seq<char>) -> bool {
    forall|i: int| 0 <= i < t.len() ==> is_digit(#[trigger] t[i])
}

pub open spec fn digit_value(c: char) -> nat {
    (c as nat - '0' as nat) as nat
}

/// The number that the decimal digits `t` write.
pub open spec fn digits_value(t: Seq<char>) -> nat
    decreases t.len(),
{
    if t.len() == 0 {
        0
    } else {
        digits_value(t.drop_last()) * 10 + digit_value(t.last())
    }
}

/// The build number that `t` writes: one or more decimal digits whose value
/// fits in 16 bits.
pub open spec fn build_of(t: Seq<char>) -> Option<u16> {
    if t.len() > 0 && all_digits(t) && digits_value(t) <= u16::MAX {
        Some(digits_value(t) as u16)
    } else {
        None
    }
}

/// The decimal digit for `d`, for `d` below ten.
pub open spec fn digit_char(d: nat) -> char {
    if d == 0 {
        '0'
    } else if d == 1 {
        '1'
    } else if d == 2 {
        '2'
    } else if d == 3 {
        '3'
    } else if d == 4 {
        '4'
    } else if d == 5 {
        '5'
    } else if d == 6 {
        '6'
    } else if d == 7 {
        '7'
    } else if d == 8 {
        '8'
    } else {
        '9'
    }
}

/// The decimal digits of `n`, with no leading zero.
pub open spec fn decimal(n: nat) -> Seq<char>
    decreases n,
{
    if n < 10 {
        seq![digit_char(n)]
    } else {
        decimal(n / 10).push(digit_char(n % 10))
    }
}

/// What a package record holds.
pub struct PackageView {
    pub name: Seq<char>,
    pub version: Seq<char>,
    pub build_version: u16,
    pub arch: Arch,
}

/// Reading an identifier stub `name-version-build-arch` from the right: the
/// architecture after the last hyphen, the build number before it, then the
/// version; what is left is the name, which may hold hyphens itself.
pub open spec fn parse_spec(s: Seq<char>) -> Result<PackageView, ParseError> {
    match last_hyphen(s) {
        None => Err(ParseError::Malformed),
        Some(i) => match arch_of(s.skip(i + 1)) {
            None => Err(ParseError::UnknownArch),
            Some(arch) => parse_build_part(s.take(i), arch),
        },
    }
}

/// The stub without its architecture field: `name-version-build`.
pub open spec fn parse_build_part(r: Seq<char>, arch: Arch) -> Result<PackageView, ParseError> {
    match last_hyphen(r) {
        None => Err(ParseError::Malformed),
        Some(j) => match build_of(r.skip(j + 1)) {
            None => Err(ParseError::InvalidBuildNumber),
            Some(build_version) => parse_name_part(r.take(j), build_version, arch),
        },
    }
}

/// The stub without its build and architecture fields: `name-version`.
pub open spec fn parse_name_part(r: Seq<char>, build_version: u16, arch: Arch) -> Result<
    PackageView,
    ParseError,
> {
    match last_hyphen(r) {
        None => Err(ParseError::Malformed),
        Some(k) => Ok(PackageView { name: r.take(k), version: r.skip(k + 1), build_version, arch }),
    }
}

/// The identifier stub `name-version-build-arch` of a record.
pub open spec fn stub_of(p: PackageView) -> Seq<char> {
    p.name + seq!['-'] + p.version + seq!['-'] + decimal(p.build_version as nat) + seq!['-']
        + arch_token(p.arch)
}

/// One build of one package, as named in the archive's index.
#[derive(Debug)]
pub struct Package {
    name: String,
    version: String,
    build_version: u16,
    arch: Arch,
}

impl View for Package {
    type V = PackageView;

    closed spec fn view(&self) -> PackageView {
        PackageView {
            name: self.name@,
            version: self.version@,
            build_version: self.build_version,
            arch: self.arch,
        }
    }
}

/// The position of the last hyphen among the first `end` characters of `v`.
fn rfind_hyphen(v: &[char], end: usize) -> (r: Option<usize>)
    requires
        end <= v@.len(),
    ensures
        r is None <==> last_hyphen(v@.take(end as int)) is None,
        r matches Some(i) ==> last_hyphen(v@.take(end as int)) == Some(i as int),
        r matches Some(i) ==> i < end && v@[i as int] == '-',
{
    let mut j: usize = end;
    while j > 0
        invariant
            j <= end <= v@.len(),
            last_hyphen(v@.take(end as int)) == last_hyphen(v@.take(j as int)),
        decreases j,
    {
        assert(v@.take(j as int).drop_last() =~= v@.take(j - 1));
        if v[j - 1] == '-' {
            return Some(j - 1);
        }
        j = j - 1;
    }
    None
}

proof fn lemma_digits_prefix(t: Seq<char>, i: int)
    requires
        0 <= i <= t.len(),
    ensures
        digits_value(t.take(i)) <= digits_value(t),
    decreases t.len(),
{
    if i < t.len() {
        assert(t.drop_last().take(i) =~= t.take(i));
        lemma_digits_prefix(t.drop_last(), i);
    } else {
        assert(t.take(i) =~= t);
    }
}

/// The build number written by the characters of `v` from `a` up to `b`.
fn parse_build(v: &[char], a: usize, b: usize) -> (r: Option<u16>)
    requires
        a <= b <= v@.len(),
    ensures
        r == build_of(v@.subrange(a as int, b as int)),
{
    let ghost t = v@.subrange(a as int, b as int);
    if a == b {
        return None;
    }
    let mut acc: u32 = 0;
    let mut i: usize = a;
    while i < b
        invariant
            a <= i <= b <= v@.len(),
            t == v@.subrange(a as int, b as int),
            all_digits(v@.subrange(a as int, i as int)),
            acc == digits_value(v@.subrange(a as int, i as int)),
            acc <= u16::MAX,
        decreases b - i,
    {
        let c = v[i];
        let ghost pre = v@.subrange(a as int, i as int);
        let ghost post = v@.subrange(a as int, i + 1);
        assert(post.drop_last() =~= pre);
        if !('0' <= c && c <= '9') {
            assert(t[i - a] == c);
            return None;
        }
        let d = (c as u32) - ('0' as u32);
        acc = acc * 10 + d;
        i = i + 1;
        assert(all_digits(post)) by {
            assert forall|k: int| 0 <= k < post.len() implies is_digit(#[trigger] post[k]) by {
                if k < pre.len() {
                    assert(post[k] == pre[k]);
                }
            }
        }
        if acc > 65535 {
            proof {
                if all_digits(t) {
                    assert(t.take(i - a) =~= post);
                    lemma_digits_prefix(t, i - a);
                }
            }
            return None;
        }
    }
    assert(v@.subrange(a as int, i as int) =~= t);
    Some(acc as u16)
}

fn digit_char_exec(d: u16) -> (c: char)
    requires
        d < 10,
    ensures
        c == digit_char(d as nat),
{
    match d {
        0 => '0',
        1 => '1',
        2 => '2',
        3 => '3',
        4 => '4',
        5 => '5',
        6 => '6',
        7 => '7',
        8 => '8',
        _ => '9',
    }
}

/// Appends the decimal digits of `n` to `s`.
pub fn push_decimal(s: &mut String, n: u16)
    ensures
        final(s)@ == old(s)@ + decimal(n as nat),
    decreases n,
{
    if n < 10 {
        let c = digit_char_exec(n);
        s.push(c);
        assert(final(s)@ =~= old(s)@ + decimal(n as nat));
    } else {
        push_decimal(s, n / 10);
        let c = digit_char_exec(n % 10);
        s.push(c);
        assert(final(s)@ =~= old(s)@ + decimal(n as nat));
    }
}

impl Arch {
    /// The text of the architecture in an identifier stub.
    pub fn as_str(&self) -> (r: &'static str)
        ensures
            r@ == arch_token(*self),
    {
        match self {
            Arch::X86_64 => {
                proof {
                    reveal_strlit("x86_64");
                }
                assert("x86_64"@ =~= arch_token(Arch::X86_64));
                "x86_64"
            },
            Arch::Any => {
                proof {
                    reveal_strlit("any");
                }
                assert("any"@ =~= arch_token(Arch::Any));
                "any"
            },
        }
    }
}

impl Package {
    /// Reads an identifier stub `name-version-build-arch`.
    pub fn parse(package: &str) -> (r: Result<Package, ParseError>)
        ensures
            match r {
                Ok(p) => parse_spec(package@) == Ok::<PackageView, ParseError>(p@),
                Err(e) => parse_spec(package@) == Err::<PackageView, ParseError>(e),
            },
    {
        let v = chars_of(package);
        Package::parse_chars(&v)
    }

    /// Reads an identifier stub given as its characters.
    pub fn parse_chars(v: &[char]) -> (r: Result<Package, ParseError>)
        ensures
            match r {
                Ok(p) => parse_spec(v@) == Ok::<PackageView, ParseError>(p@),
                Err(e) => parse_spec(v@) == Err::<PackageView, ParseError>(e),
            },
    {
        let ghost s = v@;
        let n = v.len();
        assert(s.take(n as int) =~= s);
        let i = match rfind_hyphen(v, n) {
            None => {
                return Err(ParseError::Malformed);
            },
            Some(i) => i,
        };
        assert(s.skip(i + 1) =~= s.subrange(i + 1, n as int));
        let is_x86 = arch_is(v, i + 1, n, Arch::X86_64);
        let arch = if is_x86 {
            Arch::X86_64
        } else if arch_is(v, i + 1, n, Arch::Any) {
            Arch::Any
        } else {
            return Err(ParseError::UnknownArch);
        };
        let ghost r1 = s.take(i as int);
        assert(r1 =~= s.take(i as int));
        let j = match rfind_hyphen(v, i) {
            None => {
                return Err(ParseError::Malformed);
            },
            Some(j) => j,
        };
        assert(r1.skip(j + 1) =~= s.subrange(j + 1, i as int));
        let build_version = match parse_build(v, j + 1, i) {
            None => {
                return Err(ParseError::InvalidBuildNumber);
            },
            Some(b) => b,
        };
        let ghost r2 = r1.take(j as int);
        assert(r2 =~= s.take(j as int));
        let k = match rfind_hyphen(v, j) {
            None => {
                return Err(ParseError::Malformed);
            },
            Some(k) => k,
        };
        let name = string_of_range(v, 0, k);
        let version = string_of_range(v, k + 1, j);
        assert(r2.take(k as int) =~= s.subrange(0, k as int));
        assert(r2.skip(k + 1) =~= s.subrange(k + 1, j as int));
        Ok(Package { name, version, build_version, arch })
    }

    /// The identifier stub `name-version-build-arch` of this package.
    pub fn full_name(&self) -> (r: String)
        ensures
            r@ == stub_of(self@),
    {
        let mut r = self.name.clone();
        r.push('-');
        r.append(self.version.as_str());
        r.push('-');
        push_decimal(&mut r, self.build_version);
        r.push('-');
        r.append(self.arch.as_str());
        assert(r@ =~= stub_of(self@));
        r
    }

    pub fn name(&self) -> (r: &str)
        ensures
            r@ == self@.name,
    {
        self.name.as_str()
    }

    pub fn version(&self) -> (r: &str)
        ensures
            r@ == self@.version,
    {
        self.version.as_str()
    }

    pub fn build_version(&self) -> (r: u16)
        ensures
            r == self@.build_version,
    {
        self.build_version
    }

    pub fn arch(&self) -> (r: &Arch)
        ensures
            *r == self@.arch,
    {
        &self.arch
    }
}

/// Whether the characters of `v` from `a` up to `b` are the text of `arch`.
fn arch_is(v: &[char], a: usize, b: usize, arch: Arch) -> (r: bool)
    requires
        a <= b <= v@.len(),
    ensures
        r == (v@.subrange(a as int, b as int) == arch_token(arch)),
{
    let t = chars_of(arch.as_str());
    if b - a != t.len() {
        return false;
    }
    let mut k: usize = 0;
    while k < t.len()
        invariant
            a <= b <= v@.len(),
            b - a == t@.len(),
            t@ == arch_token(arch),
            k <= t@.len(),
            forall|m: int| 0 <= m < k ==> v@[a + m] == t@[m],
        decreases t.len() - k,
    {
        if v[a + k] != t[k] {
            assert(v@.subrange(a as int, b as int)[k as int] != t@[k as int]);
            return false;
        }
        k = k + 1;
    }
    assert(v@.subrange(a as int, b as int) =~= t@);
    true
}

} // verus!

verus! {

proof fn lemma_last_hyphen_after(a: Seq<char>, b: Seq<char>)
    requires
        !b.contains('-'),
    ensures
        last_hyphen(a + seq!['-'] + b) == Some(a.len() as int),
    decreases b.len(),
{
    let s = a + seq!['-'] + b;
    if b.len() == 0 {
        assert(s.last() == '-');
    } else {
        assert(s.last() == b.last());
        assert(s.drop_last() =~= a + seq!['-'] + b.drop_last());
        assert(!b.drop_last().contains('-')) by {
            if b.drop_last().contains('-') {
                let k = choose|k: int| 0 <= k < b.drop_last().len() && b.drop_last()[k] == '-';
                assert(b[k] == '-');
            }
        }
        lemma_last_hyphen_after(a, b.drop_last());
    }
}

proof fn lemma_decimal(n: nat)
    ensures
        decimal(n).len() > 0,
        all_digits(decimal(n)),
        !decimal(n).contains('-'),
        digits_value(decimal(n)) == n,
    decreases n,
{
    if n < 10 {
        assert(decimal(n).drop_last() =~= Seq::<char>::empty());
        assert(digit_value(digit_char(n)) == n);
        assert(digits_value(Seq::<char>::empty()) == 0);
    } else {
        lemma_decimal(n / 10);
        let d = decimal(n);
        assert(d.drop_last() =~= decimal(n / 10));
        assert((n / 10) * 10 + n % 10 == n);
        assert(d.last() == digit_char(n % 10));
        assert(digit_value(digit_char(n % 10)) == n % 10);
        assert(digits_value(d) == digits_value(decimal(n / 10)) * 10 + digit_value(d.last()));
        assert(all_digits(d)) by {
            assert forall|k: int| 0 <= k < d.len() implies is_digit(#[trigger] d[k]) by {
                if k < d.len() - 1 {
                    assert(d[k] == decimal(n / 10)[k]);
                }
            }
        }
        assert(!d.contains('-'));
    }
}

proof fn lemma_arch_token(a: Arch)
    ensures
        !arch_token(a).contains('-'),
        arch_of(arch_token(a)) == Some(a),
{
    assert(arch_token(Arch::X86_64) != arch_token(Arch::Any)) by {
        assert(arch_token(Arch::X86_64).len() != arch_token(Arch::Any).len());
    }
}

/// Writing a record as its identifier stub and reading the stub back gives
/// the record again, provided the version holds no hyphen (the name may).
pub proof fn lemma_parse_stub_round_trip(p: PackageView)
    requires
        !p.version.contains('-'),
    ensures
        parse_spec(stub_of(p)) == Ok::<PackageView, ParseError>(p),
{
    let dec = decimal(p.build_version as nat);
    let tok = arch_token(p.arch);
    let r2 = p.name + seq!['-'] + p.version;
    let r1 = r2 + seq!['-'] + dec;
    let s = r1 + seq!['-'] + tok;
    assert(s =~= stub_of(p));
    assert(parse_name_part(r2, p.build_version, p.arch) == Ok::<PackageView, ParseError>(p)) by {
        lemma_last_hyphen_after(p.name, p.version);
        assert(r2.take(p.name.len() as int) =~= p.name);
        assert(r2.skip(p.name.len() as int + 1) =~= p.version);
    }
    assert(parse_build_part(r1, p.arch) == Ok::<PackageView, ParseError>(p)) by {
        lemma_decimal(p.build_version as nat);
        lemma_last_hyphen_after(r2, dec);
        assert(r1.skip(r2.len() as int + 1) =~= dec);
        assert(r1.take(r2.len() as int) =~= r2);
        assert(build_of(dec) == Some(p.build_version));
    }
    assert(last_hyphen(s) == Some(r1.len() as int) && arch_of(s.skip(r1.len() as int + 1)) == Some(
        p.arch,
    ) && s.take(r1.len() as int) == r1) by {
        lemma_arch_token(p.arch);
        lemma_last_hyphen_after(r1, tok);
        assert(s.skip(r1.len() as int + 1) =~= tok);
        assert(s.take(r1.len() as int) =~= r1);
    }
}

/// A stub whose last field is no known architecture is refused as such,
/// whatever comes before it.
pub proof fn lemma_unknown_arch_refused(head: Seq<char>, tok: Seq<char>)
    requires
        !tok.contains('-'),
        arch_of(tok) is None,
    ensures
        parse_spec(head + seq!['-'] + tok) == Err::<PackageView, ParseError>(
            ParseError::UnknownArch,
        ),
{
    let s = head + seq!['-'] + tok;
    lemma_last_hyphen_after(head, tok);
    assert(s.skip(head.len() as int + 1) =~= tok);
}

/// A stub with a known architecture whose build field holds a character
/// other than a digit, or a number beyond 16 bits, is refused for its build
/// number.
pub proof fn lemma_invalid_build_refused(head: Seq<char>, build: Seq<char>, arch: Arch)
    requires
        !build.contains('-'),
        !all_digits(build) || digits_value(build) > u16::MAX,
    ensures
        parse_spec(head + seq!['-'] + build + seq!['-'] + arch_token(arch)) == Err::<
            PackageView,
            ParseError,
        >(ParseError::InvalidBuildNumber),
{
    let tok = arch_token(arch);
    let r1 = head + seq!['-'] + build;
    let s = r1 + seq!['-'] + tok;
    assert(parse_build_part(r1, arch) == Err::<PackageView, ParseError>(
        ParseError::InvalidBuildNumber,
    )) by {
        lemma_last_hyphen_after(head, build);
        assert(r1.skip(head.len() as int + 1) =~= build);
    }
    assert(last_hyphen(s) == Some(r1.len() as int) && arch_of(s.skip(r1.len() as int + 1)) == Some(
        arch,
    ) && s.take(r1.len() as int) == r1) by {
        lemma_arch_token(arch);
        lemma_last_hyphen_after(r1, tok);
        assert(s.skip(r1.len() as int + 1) =~= tok);
        assert(s.take(r1.len() as int) =~= r1);
    }
}

} // verus!
