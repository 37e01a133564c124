use proll::{LocateError, Package};

#[test]
fn directory_address() {
    let p = Package::parse("caddy-1.0.4-2-x86_64").unwrap();
    assert_eq!(p.dir_url(), "https://archive.archlinux.org/packages/c/caddy");
}

#[test]
fn newer_extension_preferred() {
    let p = Package::parse("caddy-1.0.4-2-x86_64").unwrap();
    let listing = "<a href=\"caddy-1.0.4-2-x86_64.pkg.tar.xz\">x</a>\n<a href=\"caddy-1.0.4-2-x86_64.pkg.tar.zst\">z</a>";
    assert_eq!(
        p.locate(listing).unwrap(),
        "https://archive.archlinux.org/packages/c/caddy/caddy-1.0.4-2-x86_64.pkg.tar.zst"
    );
}

#[test]
fn legacy_extension_fallback() {
    let p = Package::parse("caddy-1.0.4-2-x86_64").unwrap();
    let listing = "<a href=\"caddy-1.0.4-2-x86_64.pkg.tar.xz\">x</a>";
    assert_eq!(
        p.locate(listing).unwrap(),
        "https://archive.archlinux.org/packages/c/caddy/caddy-1.0.4-2-x86_64.pkg.tar.xz"
    );
}

#[test]
fn extension_not_found() {
    let p = Package::parse("caddy-1.0.4-2-x86_64").unwrap();
    let listing = "<a href=\"caddy-1.0.4-3-x86_64.pkg.tar.zst\">z</a>";
    assert_eq!(p.locate(listing).unwrap_err(), LocateError::ExtensionNotFound);
    assert_eq!(p.locate("").unwrap_err(), LocateError::ExtensionNotFound);
}
