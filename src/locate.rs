use vstd::prelude::*;

use crate::package::{stub_of, Package, PackageView};
use crate::text::{chars_of, contains_chars, contains_seq};

verus! {

/// Why no download address was found for a package.
#[derive(Debug, Clone, Copy, PartialEq, Eq, Structural)]
pub enum LocateError {
    /// The directory listing names the package under neither extension.
    ExtensionNotFound,
}

/// The archive's directory of packages, laid out by first letter and name.
pub open spec fn packages_root() -> Seq<char> {
    "https://archive.archlinux.org/packages/"@
}

/// The newer archive extension, tried first.
pub open spec fn ext_zst() -> Seq<char> {
    ".pkg.tar.zst"@
}

/// The legacy archive extension, tried second.
pub open spec fn ext_xz() -> Seq<char> {
    ".pkg.tar.xz"@
}

/// The address of the archive directory that holds every build of `p`.
pub open spec fn dir_url_spec(p: PackageView) -> Seq<char> {
    packages_root() + seq![p.name[0]] + seq!['/'] + p.name
}

/// The file name of the package's artifact under extension `ext`.
pub open spec fn artifact_name(p: PackageView, ext: Seq<char>) -> Seq<char> {
    stub_of(p) + ext
}

/// The download address of the package's artifact under extension `ext`.
pub open spec fn artifact_url(p: PackageView, ext: Seq<char>) -> Seq<char> {
    dir_url_spec(p) + seq!['/'] + artifact_name(p, ext)
}

/// The download address that a directory listing shows for `p`: the newer
/// extension where the listing names it, else the legacy one.
pub open spec fn locate_spec(p: PackageView, listing: Seq<char>) -> Option<Seq<char>> {
    if contains_seq(listing, artifact_name(p, ext_zst())) {
        Some(artifact_url(p, ext_zst()))
    } else if contains_seq(listing, artifact_name(p, ext_xz())) {
        Some(artifact_url(p, ext_xz()))
    } else {
        None
    }
}

impl Package {
    /// The address of the archive directory that lists every build of this
    /// package.
    pub fn dir_url(&self) -> (r: String)
        requires
            self@.name.len() > 0,
        ensures
            r@ == dir_url_spec(self@),
    {
        let name = self.name();
        let mut r = String::from_str("https://archive.archlinux.org/packages/");
        r.push(name.get_char(0));
        r.push('/');
        r.append(name);
        assert(r@ =~= dir_url_spec(self@));
        r
    }

    /// Picks the download address of this package out of the listing of its
    /// archive directory.
    pub fn locate(&self, listing: &str) -> (r: Result<String, LocateError>)
        requires
            self@.name.len() > 0,
        ensures
            match locate_spec(self@, listing@) {
                Some(u) => r matches Ok(s) && s@ == u,
                None => r == Err::<String, LocateError>(LocateError::ExtensionNotFound),
            },
    {
        let full = self.full_name();
        let name1 = full.clone().concat(".pkg.tar.zst");
        let name2 = full.concat(".pkg.tar.xz");
        let text = chars_of(listing);
        let c1 = chars_of(name1.as_str());
        let found = if contains_chars(&text, &c1) {
            name1
        } else {
            let c2 = chars_of(name2.as_str());
            if contains_chars(&text, &c2) {
                name2
            } else {
                return Err(LocateError::ExtensionNotFound);
            }
        };
        let mut r = self.dir_url();
        r.push('/');
        r.append(found.as_str());
        assert(r@ =~= dir_url_spec(self@) + seq!['/'] + found@);
        Ok(r)
    }
}

/// When the listing names the package under both extensions, the newer one
/// is chosen.
pub proof fn lemma_newer_extension_first(p: PackageView, listing: Seq<char>)
    requires
        contains_seq(listing, artifact_name(p, ext_zst())),
        contains_seq(listing, artifact_name(p, ext_xz())),
    ensures
        locate_spec(p, listing) == Some(artifact_url(p, ext_zst())),
{
}

} // verus!
