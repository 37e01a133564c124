use proll::{Arch, Package, ParseError};

#[test]
fn parse_packages() {
    let pkg = Package::parse("caddy-2.4.3-1-x86_64").unwrap();
    assert_eq!(pkg.name(), "caddy");
    assert_eq!(pkg.version(), "2.4.3");
    assert_eq!(pkg.build_version(), 1);
    assert!(matches!(pkg.arch(), Arch::X86_64));

    let pkg = Package::parse("foo-bar-7.1.0-18-any").unwrap();
    assert_eq!(pkg.name(), "foo-bar");
    assert_eq!(pkg.version(), "7.1.0");
    assert_eq!(pkg.build_version(), 18);
    assert!(matches!(pkg.arch(), Arch::Any));

    let pkg = Package::parse("zsa-udev-2.1.3.r14.gbceec97-1-any").unwrap();
    assert_eq!(pkg.name(), "zsa-udev");
    assert_eq!(pkg.version(), "2.1.3.r14.gbceec97");
    assert_eq!(pkg.build_version(), 1);
    assert!(matches!(pkg.arch(), Arch::Any));
}

#[test]
fn full_name() {
    let pkg = Package::parse("ibus-table-1.12.2-1-any").unwrap();
    assert_eq!(pkg.full_name(), "ibus-table-1.12.2-1-any");

    let pkg = Package::parse("iec16022-0.3.0-3-x86_64").unwrap();
    assert_eq!(pkg.full_name(), "iec16022-0.3.0-3-x86_64");

    let pkg = Package::parse("zsa-udev-2.1.3.r14.gbceec97-1-any").unwrap();
    assert_eq!(pkg.full_name(), "zsa-udev-2.1.3.r14.gbceec97-1-any");
}

#[test]
fn getters() {
    let pkg = Package::parse("wakeonlan-0.42-2-any").unwrap();
    assert_eq!(pkg.name(), "wakeonlan");
    assert_eq!(pkg.version(), "0.42");
    assert_eq!(pkg.build_version(), 2);
    assert!(matches!(pkg.arch(), Arch::Any));

    let pkg = Package::parse("wanderlust-20240207-1-any").unwrap();
    assert_eq!(pkg.name(), "wanderlust");
    assert_eq!(pkg.version(), "20240207");
    assert_eq!(pkg.build_version(), 1);
    assert!(matches!(pkg.arch(), Arch::Any));

    let pkg = Package::parse("zsa-udev-2.1.3.r12.g7ce7ff3-2-any").unwrap();
    assert_eq!(pkg.name(), "zsa-udev");
    assert_eq!(pkg.version(), "2.1.3.r12.g7ce7ff3");
    assert_eq!(pkg.build_version(), 2);
    assert!(matches!(pkg.arch(), Arch::Any));

    let pkg = Package::parse("zita-resampler-1.11.2-1-x86_64").unwrap();
    assert_eq!(pkg.name(), "zita-resampler");
    assert_eq!(pkg.version(), "1.11.2");
    assert_eq!(pkg.build_version(), 1);
    assert!(matches!(pkg.arch(), Arch::X86_64));
}

#[test]
fn round_trip_caddy() {
    let pkg = Package::parse("caddy-2.4.3-1-x86_64").unwrap();
    assert_eq!(pkg.name(), "caddy");
    assert_eq!(pkg.version(), "2.4.3");
    assert_eq!(pkg.build_version(), 1);
    assert_eq!(*pkg.arch(), Arch::X86_64);
    assert_eq!(pkg.full_name(), "caddy-2.4.3-1-x86_64");
}

#[test]
fn round_trip_largest_build() {
    let pkg = Package::parse("a-b-0-65535-any").unwrap();
    assert_eq!(pkg.name(), "a-b");
    assert_eq!(pkg.version(), "0");
    assert_eq!(pkg.build_version(), 65535);
    assert_eq!(pkg.full_name(), "a-b-0-65535-any");
}

#[test]
fn build_zero_and_leading_zeros() {
    let pkg = Package::parse("x-1-0-any").unwrap();
    assert_eq!(pkg.build_version(), 0);
    let pkg = Package::parse("x-1-007-any").unwrap();
    assert_eq!(pkg.build_version(), 7);
    assert_eq!(pkg.full_name(), "x-1-7-any");
}

#[test]
fn internal_hyphens_in_name() {
    let pkg = Package::parse("zsa-udev-2.1.3.r14.gbceec97-1-any").unwrap();
    assert_eq!(pkg.name(), "zsa-udev");
    assert_eq!(pkg.version(), "2.1.3.r14.gbceec97");
    assert_eq!(pkg.build_version(), 1);
    assert_eq!(*pkg.arch(), Arch::Any);
}

#[test]
fn unknown_arch() {
    assert_eq!(Package::parse("pkg-1.0-1-arm64").unwrap_err(), ParseError::UnknownArch);
    assert_eq!(Package::parse("pkg-1.0-1-X86_64").unwrap_err(), ParseError::UnknownArch);
    assert_eq!(Package::parse("pkg-1.0-1-").unwrap_err(), ParseError::UnknownArch);
}

#[test]
fn invalid_build_number() {
    assert_eq!(Package::parse("pkg-1.0-65536-any").unwrap_err(), ParseError::InvalidBuildNumber);
    assert_eq!(Package::parse("pkg-1.0-99999999999999999999-any").unwrap_err(), ParseError::InvalidBuildNumber);
    assert_eq!(Package::parse("pkg-1.0-1a-any").unwrap_err(), ParseError::InvalidBuildNumber);
    assert_eq!(Package::parse("pkg-1.0-+1-any").unwrap_err(), ParseError::InvalidBuildNumber);
    assert_eq!(Package::parse("pkg-1.0--any").unwrap_err(), ParseError::InvalidBuildNumber);
}

#[test]
fn malformed_stubs() {
    assert_eq!(Package::parse("").unwrap_err(), ParseError::Malformed);
    assert_eq!(Package::parse("nohyphen").unwrap_err(), ParseError::Malformed);
    assert_eq!(Package::parse("1-any").unwrap_err(), ParseError::Malformed);
    assert_eq!(Package::parse("x-1-any").unwrap_err(), ParseError::Malformed);
}

#[test]
fn empty_name_is_accepted() {
    let pkg = Package::parse("-1.0-1-any").unwrap();
    assert_eq!(pkg.name(), "");
    assert_eq!(pkg.version(), "1.0");
}

#[test]
fn arch_text() {
    assert_eq!(Arch::X86_64.as_str(), "x86_64");
    assert_eq!(Arch::Any.as_str(), "any");
}
