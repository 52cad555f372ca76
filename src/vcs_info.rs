//! Provenance metadata: the optional `.cargo_vcs_info.json` entry, read tolerantly.

use crate::text::string_from_chars;
use vstd::prelude::*;

verus! {

/// What the registry keeps of `.cargo_vcs_info.json`.
#[derive(Clone, Debug, PartialEq, Eq)]
pub struct CargoVcsInfo {
    /// Where the package sits inside its repository; empty for the root.
    pub path_in_vcs: String,
}

/// The `path_in_vcs` entry of `text` read as a JSON object: `None` when `text`
/// is not a JSON object or the entry is not a string, `Some(None)` when the
/// object has no such entry, `Some(Some(p))` when it holds the string `p`.
pub uninterp spec fn json_path_in_vcs(text: Seq<char>) -> Option<Option<Seq<char>>>;

/// The view of a looked-up `path_in_vcs` entry.
pub open spec fn entry_view(e: Option<Option<String>>) -> Option<Option<Seq<char>>> {
    match e {
        None => None,
        Some(None) => Some(None),
        Some(Some(p)) => Some(Some(p@)),
    }
}

/// The `path_in_vcs` that a looked-up entry gives: absent means the root.
pub open spec fn vcs_path_from_entry(e: Option<Option<Seq<char>>>) -> Option<Seq<char>> {
    match e {
        None => None,
        Some(None) => Some(Seq::empty()),
        Some(Some(p)) => Some(p),
    }
}

/// The `path_in_vcs` that `text` gives, if it can be read at all.
pub open spec fn vcs_path_of(text: Seq<char>) -> Option<Seq<char>> {
    vcs_path_from_entry(json_path_in_vcs(text))
}

/// The view of an optional `CargoVcsInfo`.
pub open spec fn vcs_view(v: Option<CargoVcsInfo>) -> Option<Seq<char>> {
    match v {
        None => None,
        Some(i) => Some(i.path_in_vcs@),
    }
}

/// Relies on `serde_json::from_str` into a `serde_json::Map`, and on the
/// variants of `serde_json::Value`: the `path_in_vcs` entry of a JSON object.
#[verifier::external_body]
fn lookup_path_in_vcs(text: &str) -> (r: Option<Option<String>>)
    ensures
        entry_view(r) == json_path_in_vcs(text@),
{
    let map: serde_json::Map<String, serde_json::Value> = serde_json::from_str(text).ok()?;
    match map.get("path_in_vcs") {
        None => Some(None),
        Some(serde_json::Value::String(p)) => Some(Some(p.clone())),
        Some(_) => None,
    }
}

impl CargoVcsInfo {
    /// The provenance that a looked-up `path_in_vcs` entry gives: none when the
    /// document could not be read, the root when the entry is absent.
    pub fn from_entry(entry: Option<Option<String>>) -> (r: Option<CargoVcsInfo>)
        ensures
            vcs_view(r) == vcs_path_from_entry(entry_view(entry)),
    {
        match entry {
            None => None,
            Some(None) => {
                let empty: Vec<char> = Vec::new();
                Some(CargoVcsInfo { path_in_vcs: string_from_chars(&empty, 0, 0) })
            },
            Some(Some(p)) => Some(CargoVcsInfo { path_in_vcs: p }),
        }
    }

    /// Reads `.cargo_vcs_info.json`: keys other than `path_in_vcs` are ignored,
    /// a missing `path_in_vcs` is empty, and a document that cannot be read
    /// gives no provenance rather than an error.
    pub fn from_contents(contents: &str) -> (r: Option<CargoVcsInfo>)
        ensures
            vcs_view(r) == vcs_path_of(contents@),
    {
        CargoVcsInfo::from_entry(lookup_path_in_vcs(contents))
    }
}

} // verus!
