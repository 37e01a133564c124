use proll::{resolve, Arch, ParseError, ResolveError};

const INDEX: &str = "foo-1.0-1-any\nfoo-2.0-1-any";

#[test]
fn ambiguous_lists_both_lines() {
    match resolve(INDEX, "foo", None) {
        Err(ResolveError::Ambiguous(l)) => {
            assert_eq!(l, vec!["foo-1.0-1-any".to_string(), "foo-2.0-1-any".to_string()]);
        }
        other => panic!("unexpected {:?}", other),
    }
}

#[test]
fn version_disambiguates() {
    let p = resolve(INDEX, "foo", Some("2.0")).unwrap();
    assert_eq!(p.name(), "foo");
    assert_eq!(p.version(), "2.0");
    assert_eq!(p.build_version(), 1);
    assert_eq!(*p.arch(), Arch::Any);
}

#[test]
fn resolving_twice_agrees() {
    let a = resolve(INDEX, "foo", Some("1")).unwrap();
    let b = resolve(INDEX, "foo", Some("1")).unwrap();
    assert_eq!(a.full_name(), b.full_name());
    assert_eq!(a.full_name(), "foo-1.0-1-any");
    let x = format!("{:?}", resolve(INDEX, "foo", None));
    let y = format!("{:?}", resolve(INDEX, "foo", None));
    assert_eq!(x, y);
}

#[test]
fn invalid_version_format() {
    assert!(matches!(resolve(INDEX, "foo", Some("2.0a")), Err(ResolveError::InvalidVersionFormat)));
    assert!(matches!(resolve("", "foo", Some("-1")), Err(ResolveError::InvalidVersionFormat)));
}

#[test]
fn no_match() {
    assert!(matches!(resolve(INDEX, "bar", None), Err(ResolveError::NoMatch)));
    assert!(matches!(resolve(INDEX, "foo", Some("3")), Err(ResolveError::NoMatch)));
    assert!(matches!(resolve("", "foo", None), Err(ResolveError::NoMatch)));
}

#[test]
fn substring_match_is_unanchored() {
    let index = "libfoo-1.0-1-x86_64\nbar-2.0-3-any\nglibc-2.39-1-x86_64";
    match resolve(index, "lib", None) {
        Err(ResolveError::Ambiguous(l)) => {
            assert_eq!(l, vec!["libfoo-1.0-1-x86_64".to_string(), "glibc-2.39-1-x86_64".to_string()]);
        }
        other => panic!("unexpected {:?}", other),
    }
    let p = resolve(index, "bar", None).unwrap();
    assert_eq!(p.full_name(), "bar-2.0-3-any");
}

#[test]
fn malformed_lines_dropped_by_version_filter() {
    let index = "foo-2.0-1-arm\nfoo-2.0-1-any\nfoo-bad";
    let p = resolve(index, "foo", Some("2.0")).unwrap();
    assert_eq!(p.full_name(), "foo-2.0-1-any");
}

#[test]
fn single_malformed_match_gives_parse_error() {
    let index = "foobar\nbar-1-1-any";
    assert!(matches!(resolve(index, "foo", None), Err(ResolveError::Parse(ParseError::Malformed))));
    let index = "foo-1-1-arm";
    assert!(matches!(resolve(index, "foo", None), Err(ResolveError::Parse(ParseError::UnknownArch))));
}

#[test]
fn trailing_newline_index() {
    let p = resolve("foo-1.0-1-any\n", "foo", None).unwrap();
    assert_eq!(p.full_name(), "foo-1.0-1-any");
}
