//! Locating the readme of an accepted package inside its archive, for the
//! renderer that turns it into HTML.

use crate::archive::{data_range, entry_text, header_view, list_entries, tar_listing, TarHeader};
use crate::text::{chars_of, string_from_chars};
use vstd::prelude::*;
use vstd::string::StringExecFns;

verus! {

/// The manifest's `readme` setting.
#[derive(Clone, Debug, PartialEq, Eq)]
pub enum ReadmeSetting {
    /// `true`: look for `README.md` at the package root; `false`: no readme.
    Flag(bool),
    /// An explicit path, relative to the package root.
    Path(String),
}

/// The view of a `readme` setting: `(flag, path)`, with `flag` false only for
/// `readme = false` and `path` the explicit path, if one is given.
pub open spec fn setting_view(s: ReadmeSetting) -> (bool, Option<Seq<char>>) {
    match s {
        ReadmeSetting::Flag(b) => (b, None),
        ReadmeSetting::Path(p) => (true, Some(p@)),
    }
}

/// The `readme` setting that `cargo_toml` reads from the manifest `text`, as
/// `setting_view` shows it; `None` when `text` is not a manifest with a package,
/// or the setting is left to the workspace.
pub uninterp spec fn readme_setting_of(text: Seq<char>) -> Option<(bool, Option<Seq<char>>)>;

/// Relies on `cargo_toml::Manifest::from_str` and the variants of
/// `cargo_toml::Inheritable` and `cargo_toml::OptionalFile`: the `readme`
/// setting, unless it is left to the workspace (a path that is not UTF-8 is
/// decoded lossily). `cargo_toml` reads an absent `readme` as `Flag(true)`.
#[verifier::external_body]
fn readme_value(text: &str) -> (r: Option<ReadmeSetting>)
    ensures
        match r {
            Some(s) => readme_setting_of(text@) == Some(setting_view(s)),
            None => readme_setting_of(text@) is None,
        },
{
    let m = cargo_toml::Manifest::from_str(text).ok()?;
    match &m.package.as_ref()?.readme {
        cargo_toml::Inheritable::Set(cargo_toml::OptionalFile::Flag(b)) => Some(ReadmeSetting::Flag(*b)),
        cargo_toml::Inheritable::Set(cargo_toml::OptionalFile::Path(p)) => Some(ReadmeSetting::Path(p.to_string_lossy().into_owned())),
        cargo_toml::Inheritable::Inherited { .. } => None,
    }
}

impl ReadmeSetting {
    /// The `readme` setting of the manifest `text`; `None` when it is not a
    /// manifest with a package, or the setting is left to the workspace.
    pub fn of(text: &str) -> (r: Option<ReadmeSetting>)
        ensures
            match r {
                Some(s) => readme_setting_of(text@) == Some(setting_view(s)),
                None => readme_setting_of(text@) is None,
            },
    {
        readme_value(text)
    }
}

/// The readme looked for when none is named.
pub open spec fn default_readme() -> Seq<char> {
    seq!['R', 'E', 'A', 'D', 'M', 'E', '.', 'm', 'd']
}

/// Where the readme is, relative to the package root: `README.md` by default,
/// nowhere when switched off, else the path given.
pub open spec fn readme_spec(setting: ReadmeSetting) -> Option<Seq<char>> {
    match setting {
        ReadmeSetting::Flag(true) => Some(default_readme()),
        ReadmeSetting::Flag(false) => None,
        ReadmeSetting::Path(p) => Some(p@),
    }
}

/// Where the readme is, relative to the package root.
pub fn readme_path(setting: &ReadmeSetting) -> (r: Option<String>)
    ensures
        r matches Some(p) ==> readme_spec(*setting) == Some(p@),
        r is None ==> readme_spec(*setting) is None,
{
    match setting {
        ReadmeSetting::Flag(true) => {
            let name = vec!['R', 'E', 'A', 'D', 'M', 'E', '.', 'm', 'd'];
            Some(string_from_chars(&name, 0, 9))
        },
        ReadmeSetting::Flag(false) => None,
        ReadmeSetting::Path(p) => Some(p.clone()),
    }
}

/// The archive path of `relative` under the package root `pkg_name`.
pub fn package_file_path(pkg_name: &str, relative: &str) -> (r: String)
    ensures
        r@ == pkg_name@.push('/') + relative@,
{
    let mut root = chars_of(pkg_name);
    root.push('/');
    let len = root.len();
    string_from_chars(&root, 0, len).concat(relative)
}

/// `i` is the first entry of `listing` with path `path`.
pub open spec fn is_first_with_path(listing: Seq<(Seq<char>, crate::archive::EntryKind, u64, u64)>, path: Seq<char>, i: int) -> bool {
    0 <= i < listing.len() && listing[i].0 == path && forall|j: int| 0 <= j < i ==> listing[j].0 != path
}

/// Why a file could not be read from an archive.
#[derive(Clone, Copy, Debug, PartialEq, Eq, Structural)]
pub enum LookupError {
    /// No entry has the path.
    Missing,
    /// The entry's content is not UTF-8.
    NotText,
}

/// Whether two strings are equal.
fn same_text(a: &String, b: &str) -> (r: bool)
    ensures
        r == (a@ == b@),
{
    let x = chars_of(a.as_str());
    let y = chars_of(b);
    if x.len() != y.len() {
        return false;
    }
    let mut i: usize = 0;
    while i < x.len()
        invariant
            x@ == a@,
            y@ == b@,
            x@.len() == y@.len(),
            i <= x@.len(),
            forall|j: int| 0 <= j < i ==> x@[j] == y@[j],
        decreases x.len() - i,
    {
        if x[i] != y[i] {
            return false;
        }
        i += 1;
    }
    assert(x@ =~= y@);
    true
}

/// `r` is what looking up `path` in the uncompressed archive `data` gives: the
/// text of the first entry with that path; `Missing` when there is none;
/// `NotText` when its data is not UTF-8.
pub open spec fn lookup_fits(data: Seq<u8>, path: Seq<char>, r: Result<String, LookupError>) -> bool {
    let listing = tar_listing(data).0;
    match r {
        Ok(text) => exists|i: int| #[trigger] is_first_with_path(listing, path, i)
            && vstd::utf8::valid_utf8(data_range(data, listing[i].2, listing[i].3))
            && text@ == vstd::utf8::decode_utf8(data_range(data, listing[i].2, listing[i].3)),
        Err(LookupError::Missing) => forall|j: int| 0 <= j < listing.len() ==> listing[j].0 != path,
        Err(LookupError::NotText) => exists|i: int| #[trigger] is_first_with_path(listing, path, i)
            && !vstd::utf8::valid_utf8(data_range(data, listing[i].2, listing[i].3)),
    }
}

/// Reads the text of the first entry with exactly the path `path` from an
/// uncompressed archive; entries after a corrupt header are not seen.
pub fn find_file_by_path(data: &[u8], path: &str) -> (r: Result<String, LookupError>)
    ensures
        lookup_fits(data@, path@, r),
{
    let (headers, _) = list_entries(data);
    let ghost listing = tar_listing(data@).0;
    let mut i: usize = 0;
    while i < headers.len()
        invariant
            headers@.map_values(|h: TarHeader| header_view(h)) == listing,
            listing == tar_listing(data@).0,
            i <= headers@.len(),
            forall|j: int| 0 <= j < i ==> listing[j].0 != path@,
        decreases headers.len() - i,
    {
        assert(header_view(headers@[i as int]) == listing[i as int]);
        if same_text(&headers[i].path, path) {
            assert(is_first_with_path(listing, path@, i as int));
            return match entry_text(data, &headers[i]) {
                Some(text) => Ok(text),
                None => Err(LookupError::NotText),
            };
        }
        i += 1;
    }
    Err(LookupError::Missing)
}

/// Locates and reads the readme of a package from its uncompressed archive,
/// given the manifest's `readme` setting: `Ok(None)` when the readme is
/// switched off.
pub fn find_readme(data: &[u8], pkg_name: &str, setting: &ReadmeSetting) -> (r: Result<Option<String>, LookupError>)
    ensures
        readme_spec(*setting) is None ==> r == Ok::<Option<String>, LookupError>(None),
        readme_spec(*setting) matches Some(p) ==> lookup_fits(data@, pkg_name@.push('/') + p, match r {
            Ok(Some(t)) => Ok(t),
            Ok(None) => Err(LookupError::Missing),
            Err(e) => Err(e),
        }) && r != Ok::<Option<String>, LookupError>(None),
{
    match readme_path(setting) {
        None => Ok(None),
        Some(relative) => {
            let path = package_file_path(pkg_name, relative.as_str());
            match find_file_by_path(data, path.as_str()) {
                Ok(text) => Ok(Some(text)),
                Err(e) => Err(e),
            }
        },
    }
}

} // verus!
