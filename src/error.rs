//! Why an archive was refused.

use crate::manifest::{ManifestError, ManifestErrorView};
use vstd::prelude::*;
use vstd::string::StringExecFns;

verus! {

/// The reasons for which an uploaded archive is refused; each is final.
#[derive(Clone, Debug, PartialEq, Eq)]
pub enum TarballError {
    /// The compressed or archived data is corrupt, or decompresses to more than the cap.
    Malformed(String),
    /// An entry lies outside the package root; its path.
    InvalidPath(String),
    /// An entry is a symbolic or hard link; its path.
    UnexpectedSymlink(String),
    /// No manifest was found under the package root.
    MissingManifest,
    /// The manifest could not be parsed or failed validation.
    InvalidManifest(ManifestError),
    /// The content of an entry could not be read as text.
    IO(String),
}

/// A refusal as plain values.
pub ghost enum TarballErrorView {
    Malformed(Seq<char>),
    InvalidPath(Seq<char>),
    UnexpectedSymlink(Seq<char>),
    MissingManifest,
    InvalidManifest(ManifestErrorView),
    IO(Seq<char>),
}

impl View for TarballError {
    type V = TarballErrorView;

    open spec fn view(&self) -> TarballErrorView {
        match self {
            TarballError::Malformed(m) => TarballErrorView::Malformed(m@),
            TarballError::InvalidPath(p) => TarballErrorView::InvalidPath(p@),
            TarballError::UnexpectedSymlink(p) => TarballErrorView::UnexpectedSymlink(p@),
            TarballError::MissingManifest => TarballErrorView::MissingManifest,
            TarballError::InvalidManifest(e) => TarballErrorView::InvalidManifest(e@),
            TarballError::IO(m) => TarballErrorView::IO(m@),
        }
    }
}

impl TarballError {
    /// A description of the refusal, naming the offending path where there is one.
    pub fn message(&self) -> (r: String)
        ensures
            self matches TarballError::InvalidPath(p) ==> r@ == "invalid path found: "@ + p@,
            self matches TarballError::UnexpectedSymlink(p) ==> r@ == "unexpected symlink or hard link found: "@ + p@,
            self matches TarballError::IO(m) ==> r@ == m@,
            self is Malformed ==> r@ == "uploaded tarball is malformed or too large when decompressed"@,
            self is MissingManifest ==> r@ == "Cargo.toml manifest is missing"@,
            self matches TarballError::InvalidManifest(e) ==> r@ == "Cargo.toml manifest is invalid: "@ + e.message_spec(),
    {
        match self {
            TarballError::Malformed(_) => String::from_str("uploaded tarball is malformed or too large when decompressed"),
            TarballError::InvalidPath(p) => String::from_str("invalid path found: ").concat(p.as_str()),
            TarballError::UnexpectedSymlink(p) => String::from_str("unexpected symlink or hard link found: ").concat(p.as_str()),
            TarballError::MissingManifest => String::from_str("Cargo.toml manifest is missing"),
            TarballError::InvalidManifest(e) => String::from_str("Cargo.toml manifest is invalid: ").concat(e.message().as_str()),
            TarballError::IO(m) => m.clone(),
        }
    }
}

} // verus!
