//! Validation and extraction of uploaded package archives: a gzip-compressed
//! tar archive is decompressed under a size cap, every entry is checked to lie
//! under the package root and not to be a link, and the package manifest and
//! the optional provenance metadata are read from it.

use vstd::prelude::*;

pub mod archive;
pub mod config;
pub mod error;
pub mod limit;
pub mod manifest;
pub mod readme;
pub mod storage;
pub mod text;
pub mod vcs_info;

pub use crate::error::TarballError;
pub use crate::vcs_info::CargoVcsInfo;
pub use cargo_toml::Manifest;

use crate::archive::{
    classify_entry, clean_prefix, data_range, entry_text, header_view, is_first_manifest,
    is_first_vcs_info, is_link, is_manifest_path, is_under, is_vcs_info_path, lemma_clean_prefix_scans,
    lemma_manifest_spelling, lemma_no_manifest_is_missing,
    lemma_scan_error_stays, list_entries, lower_manifest_name,
    manifest_name, role_of, root_prefix, vcs_info_name, scan, tar_listing, walk_outcome, EntryKind,
    EntryRecord, EntryRole, ScanState, TarHeader,
};
use crate::error::TarballErrorView;
use crate::limit::{decompress_bounded, gunzip, lemma_raising_the_cap, unpacks_within};
use crate::manifest::{
    is_manifest_text, lemma_model_verdict, manifest_diagnostic, parse_manifest, text_verdict, validate_manifest,
    ManifestError, ManifestErrorView, ManifestModel,
};
use crate::vcs_info::{vcs_path_of, vcs_view};
use vstd::string::StringExecFns;

verus! {

/// What an accepted archive yields.
#[derive(Debug)]
pub struct TarballInfo {
    /// The manifest, parsed and validated.
    pub manifest: Manifest,
    /// The provenance metadata, when the archive has a readable one.
    pub vcs_info: Option<CargoVcsInfo>,
}

/// A listed entry header as plain values: path, type, data position and size.
pub type HeaderView = (Seq<char>, EntryKind, u64, u64);

/// The outcome of processing an archive as plain values: the provenance found,
/// or why the archive is refused.
pub open spec fn result_view(r: Result<TarballInfo, TarballError>) -> Result<Option<Seq<char>>, TarballErrorView> {
    match r {
        Ok(info) => Ok(vcs_view(info.vcs_info)),
        Err(e) => Err(e@),
    }
}

/// The diagnostic for content that is not UTF-8.
pub open spec fn not_utf8_message() -> Seq<char> {
    "stream did not contain valid UTF-8"@
}

/// The provenance that the entry `h` of `data` gives: none when it is not
/// UTF-8, else what `vcs_path_of` reads from its text.
pub open spec fn vcs_read(data: Seq<u8>, h: HeaderView) -> Option<Seq<char>> {
    let bytes = data_range(data, h.2, h.3);
    if !vstd::utf8::valid_utf8(bytes) {
        None
    } else {
        vcs_path_of(vstd::utf8::decode_utf8(bytes))
    }
}

/// What reading the entry `h` of `data` gives, for the walk that reads it: a
/// manifest that is not UTF-8 or that `cargo_toml` refuses is an invalid
/// manifest with the diagnostic, else it is validated; provenance that is not
/// UTF-8 gives none, else what `vcs_path_of` reads from it.
#[verifier::opaque]
pub open spec fn entry_content(root: Seq<char>, data: Seq<u8>, h: HeaderView) -> Result<Option<Seq<char>>, TarballErrorView> {
    let bytes = data_range(data, h.2, h.3);
    let text = vstd::utf8::decode_utf8(bytes);
    match role_of(root, h.0) {
        EntryRole::Manifest => if !vstd::utf8::valid_utf8(bytes) {
            Err(TarballErrorView::InvalidManifest(ManifestErrorView::Parse(not_utf8_message())))
        } else if !is_manifest_text(text) {
            Err(TarballErrorView::InvalidManifest(ManifestErrorView::Parse(manifest_diagnostic(text))))
        } else {
            match text_verdict(text) {
                Ok(()) => Ok(None),
                Err(e) => Err(TarballErrorView::InvalidManifest(e@)),
            }
        },
        EntryRole::VcsInfo => Ok(vcs_read(data, h)),
        EntryRole::Ignored => Ok(None),
    }
}

/// The entries of a listing over `data`, as the walk meets them.
pub open spec fn records_of(root: Seq<char>, data: Seq<u8>, headers: Seq<HeaderView>) -> Seq<EntryRecord> {
    Seq::new(headers.len(), |i: int| EntryRecord { path: headers[i].0, kind: headers[i].1, content: entry_content(root, data, headers[i]) })
}

/// How a listing ended: with an error (a corrupt header) or at the archive's end.
pub open spec fn fault_view(listed: Option<Seq<char>>) -> Option<TarballErrorView> {
    match listed {
        Some(m) => Some(TarballErrorView::Malformed(m)),
        None => None,
    }
}

/// The outcome of walking the listed entries of the decompressed archive `data`
/// for the package root `root`.
pub open spec fn archive_outcome(root: Seq<char>, data: Seq<u8>, listing: (Seq<HeaderView>, Option<Seq<char>>)) -> Result<Option<Seq<char>>, TarballErrorView> {
    walk_outcome(root, records_of(root, data, listing.0), fault_view(listing.1))
}

/// The listing of an archive as plain values: its headers and the message of
/// the error that ended it, if one did.
pub open spec fn listing_view(headers: Seq<TarHeader>, fault: Option<String>) -> (Seq<HeaderView>, Option<Seq<char>>) {
    (headers.map_values(|h: TarHeader| header_view(h)), match fault {
        Some(m) => Some(m@),
        None => None,
    })
}

/// The scan state that the walk's local variables stand for.
pub open spec fn state_of(manifest_seen: bool, vcs_seen: bool, vcs_info: Option<CargoVcsInfo>) -> ScanState {
    ScanState { manifest_seen, vcs: if vcs_seen { Some(vcs_view(vcs_info)) } else { None } }
}

/// A walk that stops at entry `i` with `e` ends there.
proof fn lemma_walk_stops(root: Seq<char>, recs: Seq<EntryRecord>, i: int, fault: Option<TarballErrorView>, e: TarballErrorView)
    requires
        0 <= i < recs.len(),
        scan(root, recs.take(i + 1)) == Err::<ScanState, TarballErrorView>(e),
    ensures
        walk_outcome(root, recs, fault) == Err::<Option<Seq<char>>, TarballErrorView>(e),
{
    lemma_scan_error_stays(root, recs, i + 1);
}

/// Walks the listed entries of a decompressed archive `data` for the package
/// root `pkg_name`, in order: each entry is checked by `classify_entry`; the
/// first manifest is read from `data`, parsed and validated, the first
/// provenance file read; the first refusal ends the walk, and a listing that
/// ended on an error (`fault`) is `Malformed` once its entries passed.
pub fn walk_listing(pkg_name: &str, data: &[u8], headers: Vec<TarHeader>, fault: Option<String>) -> (r: Result<TarballInfo, TarballError>)
    ensures
        result_view(r) == archive_outcome(pkg_name@, data@, listing_view(headers@, fault)),
{
    let ghost root = pkg_name@;
    let ghost listing = listing_view(headers@, fault);
    let ghost recs = records_of(root, data@, listing.0);
    let mut manifest: Option<Manifest> = None;
    let mut vcs_seen = false;
    let mut vcs_info: Option<CargoVcsInfo> = None;
    let mut i: usize = 0;
    assert(recs.take(0) =~= Seq::<EntryRecord>::empty());
    while i < headers.len()
        invariant
            root == pkg_name@,
            listing == listing_view(headers@, fault),
            recs == records_of(root, data@, listing.0),
            i <= headers@.len(),
            scan(root, recs.take(i as int)) == Ok::<ScanState, TarballErrorView>(state_of(manifest is Some, vcs_seen, vcs_info)),
            !vcs_seen ==> vcs_info is None,
        decreases headers.len() - i,
    {
        proof {
            reveal(entry_content);
        }
        let header = &headers[i];
        let kind = header.kind;
        let path = header.path.clone();
        assert(header_view(headers@[i as int]) == listing.0[i as int]);
        assert(recs[i as int].path == path@ && recs[i as int].kind == kind);
        assert(recs.take(i + 1).drop_last() =~= recs.take(i as int));
        assert(recs.take(i + 1).last() == recs[i as int]);
        let role = match classify_entry(pkg_name, path, kind) {
            Ok(role) => role,
            Err(e) => {
                proof { lemma_walk_stops(root, recs, i as int, fault_view(listing.1), e@); }
                return Err(e);
            },
        };
        match role {
            EntryRole::Manifest => {
                if manifest.is_none() {
                    let text = match entry_text(data, header) {
                        Some(text) => text,
                        None => {
                            let e = TarballError::InvalidManifest(ManifestError::Parse(String::from_str("stream did not contain valid UTF-8")));
                            proof { lemma_walk_stops(root, recs, i as int, fault_view(listing.1), e@); }
                            return Err(e);
                        },
                    };
                    let parsed = match parse_manifest(text.as_str()) {
                        Ok(m) => m,
                        Err(e) => {
                            proof { lemma_walk_stops(root, recs, i as int, fault_view(listing.1), TarballError::InvalidManifest(e)@); }
                            return Err(TarballError::InvalidManifest(e));
                        },
                    };
                    let model = ManifestModel::of(text.as_str());
                    proof { lemma_model_verdict(model, text@); }
                    if let Err(e) = validate_manifest(&model) {
                        proof { lemma_walk_stops(root, recs, i as int, fault_view(listing.1), TarballError::InvalidManifest(e)@); }
                        return Err(TarballError::InvalidManifest(e));
                    }
                    manifest = Some(parsed);
                }
            },
            EntryRole::VcsInfo => {
                if !vcs_seen {
                    vcs_info = match entry_text(data, header) {
                        Some(text) => CargoVcsInfo::from_contents(text.as_str()),
                        None => None,
                    };
                    vcs_seen = true;
                }
            },
            EntryRole::Ignored => {},
        }
        i += 1;
    }
    assert(recs.take(i as int) =~= recs);
    match fault {
        Some(msg) => Err(TarballError::Malformed(msg)),
        None => match manifest {
            None => Err(TarballError::MissingManifest),
            Some(manifest) => Ok(TarballInfo { manifest, vcs_info }),
        },
    }
}

/// Validates an uploaded archive for the package root `pkg_name`
/// (`{name}-{version}`) and extracts its manifest and provenance metadata.
///
/// The archive is decompressed first, under the cap `max_unpack`: a stream that
/// is corrupt or decompresses to more than the cap is `Malformed`. The entries
/// are then walked in order by `walk_listing`, and the first refusal ends the
/// walk: an entry outside `pkg_name/` (`InvalidPath`), a link
/// (`UnexpectedSymlink`), a manifest that cannot be decoded, parsed or
/// validated (`InvalidManifest`), a corrupt header (`Malformed`). The first
/// `Cargo.toml` or `cargo.toml` under the root is the manifest, the first
/// `.cargo_vcs_info.json` the provenance; an archive without a manifest is
/// `MissingManifest`.
pub fn process_tarball(pkg_name: &str, tarball: &[u8], max_unpack: u64) -> (r: Result<TarballInfo, TarballError>)
    requires
        max_unpack < u64::MAX,
    ensures
        r is Ok ==> unpacks_within(tarball@, max_unpack),
        !unpacks_within(tarball@, max_unpack) ==> r is Err && r->Err_0 is Malformed,
        unpacks_within(tarball@, max_unpack) ==>
            result_view(r) == archive_outcome(pkg_name@, gunzip(tarball@).0, tar_listing(gunzip(tarball@).0)),
{
    let data = match decompress_bounded(tarball, max_unpack) {
        Ok(data) => data,
        Err(e) => return Err(e),
    };
    let (headers, fault) = list_entries(data.as_slice());
    proof {
        assert(listing_view(headers@, fault) == tar_listing(data@));
    }
    walk_listing(pkg_name, data.as_slice(), headers, fault)
}

/// The manifest entry `h` of `data` is UTF-8, parses, and passes validation.
pub open spec fn manifest_accepted(data: Seq<u8>, h: HeaderView) -> bool {
    let bytes = data_range(data, h.2, h.3);
    let text = vstd::utf8::decode_utf8(bytes);
    vstd::utf8::valid_utf8(bytes) && is_manifest_text(text) && text_verdict(text) is Ok
}

/// The first `n` listed entries lie under the root, none is a link, and the
/// first manifest among them, if any, is accepted.
pub open spec fn listing_clean(root: Seq<char>, data: Seq<u8>, headers: Seq<HeaderView>, n: int) -> bool {
    forall|j: int| 0 <= j < n ==> {
        &&& is_under(root, (#[trigger] headers[j]).0)
        &&& !is_link(headers[j].1)
        &&& (is_manifest_path(root, headers[j].0)
            && (forall|k: int| 0 <= k < j ==> !is_manifest_path(root, #[trigger] headers[k].0))
            ==> manifest_accepted(data, headers[j]))
    }
}

proof fn lemma_clean_records(root: Seq<char>, data: Seq<u8>, headers: Seq<HeaderView>, n: int)
    requires
        0 <= n <= headers.len(),
        listing_clean(root, data, headers, n),
    ensures
        clean_prefix(root, records_of(root, data, headers), n),
{
    let recs = records_of(root, data, headers);
    reveal(entry_content);
    assert forall|j: int| 0 <= j < n implies {
        &&& is_under(root, (#[trigger] recs[j]).path)
        &&& !is_link(recs[j].kind)
        &&& (is_vcs_info_path(root, recs[j].path) ==> recs[j].content is Ok)
        &&& (is_first_manifest(root, recs, j) ==> recs[j].content is Ok)
    } by {
        assert(recs[j].path == headers[j].0);
        if is_first_manifest(root, recs, j) {
            assert forall|k: int| 0 <= k < j implies !is_manifest_path(root, #[trigger] headers[k].0) by {
                assert(recs[k].path == headers[k].0);
            }
        }
    }
}

/// The walk over a clean listing with a manifest passes and has seen it.
proof fn lemma_accepted_scan(root: Seq<char>, data: Seq<u8>, headers: Seq<HeaderView>, m: int)
    requires
        listing_clean(root, data, headers, headers.len() as int),
        0 <= m < headers.len(),
        is_manifest_path(root, headers[m].0),
    ensures
        scan(root, records_of(root, data, headers)) is Ok,
        scan(root, records_of(root, data, headers))->Ok_0.manifest_seen,
        (scan(root, records_of(root, data, headers))->Ok_0.vcs is None) ==
            forall|j: int| 0 <= j < headers.len() ==> !is_vcs_info_path(root, #[trigger] headers[j].0),
        forall|k: int| 0 <= k < headers.len() && is_first_vcs_info(root, records_of(root, data, headers), k) ==>
            scan(root, records_of(root, data, headers))->Ok_0.vcs == Some(#[trigger] records_of(root, data, headers)[k].content->Ok_0),
{
    let recs = records_of(root, data, headers);
    let n = headers.len() as int;
    lemma_clean_records(root, data, headers, n);
    lemma_clean_prefix_scans(root, recs, n);
    assert(recs.take(n) =~= recs);
    assert(recs[m].path == headers[m].0);
    assert((forall|j: int| 0 <= j < n ==> !is_vcs_info_path(root, #[trigger] headers[j].0))
        == (forall|j: int| 0 <= j < n ==> !is_vcs_info_path(root, #[trigger] recs[j].path))) by {
        assert forall|j: int| 0 <= j < n implies recs[j].path == headers[j].0 by {}
    }
}

/// An archive whose listed entries all lie under the root, none a link, with a
/// manifest among them whose first occurrence is accepted, and no corrupt
/// header, is accepted; without a provenance file, it has no provenance.
pub proof fn lemma_archive_accepted(root: Seq<char>, data: Seq<u8>, listing: (Seq<HeaderView>, Option<Seq<char>>), m: int)
    requires
        listing.1 is None,
        listing_clean(root, data, listing.0, listing.0.len() as int),
        0 <= m < listing.0.len(),
        is_manifest_path(root, listing.0[m].0),
    ensures
        archive_outcome(root, data, listing) is Ok,
        (forall|j: int| 0 <= j < listing.0.len() ==> !is_vcs_info_path(root, #[trigger] listing.0[j].0)) ==>
            archive_outcome(root, data, listing) == Ok::<Option<Seq<char>>, TarballErrorView>(None),
{
    lemma_accepted_scan(root, data, listing.0, m);
}

/// Of such an archive, the provenance is that of its first provenance file `k`.
pub proof fn lemma_archive_provenance(root: Seq<char>, data: Seq<u8>, listing: (Seq<HeaderView>, Option<Seq<char>>), m: int, k: int)
    requires
        listing.1 is None,
        listing_clean(root, data, listing.0, listing.0.len() as int),
        0 <= m < listing.0.len(),
        is_manifest_path(root, listing.0[m].0),
        0 <= k < listing.0.len(),
        is_vcs_info_path(root, listing.0[k].0),
        forall|j: int| 0 <= j < k ==> !is_vcs_info_path(root, #[trigger] listing.0[j].0),
    ensures
        archive_outcome(root, data, listing) == Ok::<Option<Seq<char>>, TarballErrorView>(vcs_read(data, listing.0[k])),
{
    let recs = records_of(root, data, listing.0);
    assert(recs[k].path == listing.0[k].0);
    assert forall|j: int| 0 <= j < k implies !is_vcs_info_path(root, #[trigger] recs[j].path) by {
        assert(recs[j].path == listing.0[j].0);
    }
    assert(is_first_vcs_info(root, recs, k));
    lemma_accepted_scan(root, data, listing.0, m);
    assert(recs[k].content == entry_content(root, data, listing.0[k]));
    lemma_vcs_content(root, data, listing.0[k]);
}

/// A provenance entry's content is what it gives as provenance.
proof fn lemma_vcs_content(root: Seq<char>, data: Seq<u8>, h: HeaderView)
    requires
        is_vcs_info_path(root, h.0),
    ensures
        entry_content(root, data, h) == Ok::<Option<Seq<char>>, TarballErrorView>(vcs_read(data, h)),
{
    assert(role_of(root, h.0) == EntryRole::VcsInfo) by {
        assert((root_prefix(root) + vcs_info_name()).len() != (root_prefix(root) + manifest_name()).len());
        assert((root_prefix(root) + vcs_info_name()).len() != (root_prefix(root) + lower_manifest_name()).len());
    }
    reveal(entry_content);
}

/// An archive with an entry outside the root, or a symbolic or hard link, is
/// refused wherever that entry stands. When the entries before it lie under the
/// root, none a link, and the first manifest among them (a valid manifest
/// earlier in the stream) is accepted, the refusal is `InvalidPath` or
/// `UnexpectedSymlink` naming that entry.
pub proof fn lemma_archive_refused_entry(root: Seq<char>, data: Seq<u8>, listing: (Seq<HeaderView>, Option<Seq<char>>), i: int)
    requires
        0 <= i < listing.0.len(),
        !is_under(root, listing.0[i].0) || is_link(listing.0[i].1),
    ensures
        archive_outcome(root, data, listing) is Err,
        listing_clean(root, data, listing.0, i) && !is_under(root, listing.0[i].0) ==>
            archive_outcome(root, data, listing) == Err::<Option<Seq<char>>, TarballErrorView>(TarballErrorView::InvalidPath(listing.0[i].0)),
        listing_clean(root, data, listing.0, i) && is_under(root, listing.0[i].0) ==>
            archive_outcome(root, data, listing) == Err::<Option<Seq<char>>, TarballErrorView>(TarballErrorView::UnexpectedSymlink(listing.0[i].0)),
{
    let recs = records_of(root, data, listing.0);
    assert(recs.take(i + 1).drop_last() =~= recs.take(i));
    assert(recs.take(i + 1).last() == recs[i]);
    assert(recs[i].path == listing.0[i].0 && recs[i].kind == listing.0[i].1);
    if scan(root, recs.take(i)) is Err {
        assert(scan(root, recs.take(i + 1)) == scan(root, recs.take(i)));
    }
    lemma_scan_error_stays(root, recs, i + 1);
    if listing_clean(root, data, listing.0, i) {
        lemma_clean_records(root, data, listing.0, i);
        lemma_clean_prefix_scans(root, recs, i);
    }
}

/// An archive none of whose listed entries is a manifest under the root is
/// refused; with `MissingManifest` when its entries all lie under the root,
/// none a link, and no header is corrupt.
pub proof fn lemma_archive_without_manifest(root: Seq<char>, data: Seq<u8>, listing: (Seq<HeaderView>, Option<Seq<char>>))
    requires
        forall|i: int| 0 <= i < listing.0.len() ==> !is_manifest_path(root, #[trigger] listing.0[i].0),
    ensures
        archive_outcome(root, data, listing) is Err,
        listing.1 is None && listing_clean(root, data, listing.0, listing.0.len() as int) ==>
            archive_outcome(root, data, listing) == Err::<Option<Seq<char>>, TarballErrorView>(TarballErrorView::MissingManifest),
{
    let recs = records_of(root, data, listing.0);
    assert forall|i: int| 0 <= i < recs.len() implies !is_manifest_path(root, #[trigger] recs[i].path) by {
        assert(recs[i].path == listing.0[i].0);
    }
    lemma_no_manifest_is_missing(root, recs);
    if listing.1 is None && listing_clean(root, data, listing.0, listing.0.len() as int) {
        lemma_clean_records(root, data, listing.0, listing.0.len() as int);
        lemma_clean_prefix_scans(root, recs, listing.0.len() as int);
        assert(recs.take(recs.len() as int) =~= recs);
    }
}

/// An acceptable archive refused under a cap below its decompressed size is
/// accepted once the cap reaches that size: `process_tarball` gives
/// `Malformed` under `low` and the archive's outcome, success, under `high`.
pub proof fn lemma_raising_the_cap_accepts(root: Seq<char>, tarball: Seq<u8>, low: u64, high: u64, m: int)
    requires
        gunzip(tarball).1,
        gunzip(tarball).0.len() > low,
        gunzip(tarball).0.len() <= high,
        tar_listing(gunzip(tarball).0).1 is None,
        listing_clean(root, gunzip(tarball).0, tar_listing(gunzip(tarball).0).0, tar_listing(gunzip(tarball).0).0.len() as int),
        0 <= m < tar_listing(gunzip(tarball).0).0.len(),
        is_manifest_path(root, tar_listing(gunzip(tarball).0).0[m].0),
    ensures
        !unpacks_within(tarball, low),
        unpacks_within(tarball, high),
        archive_outcome(root, gunzip(tarball).0, tar_listing(gunzip(tarball).0)) is Ok,
{
    lemma_raising_the_cap(tarball, low, high);
    lemma_archive_accepted(root, gunzip(tarball).0, tar_listing(gunzip(tarball).0), m);
}

/// The manifest may be spelled `cargo.toml`: renaming the manifest entry
/// `{root}/Cargo.toml` of a listing to `{root}/cargo.toml` leaves the outcome
/// unchanged. (A link entry is left out: its refusal names its own path.)
pub proof fn lemma_archive_manifest_spelling(root: Seq<char>, data: Seq<u8>, listing: (Seq<HeaderView>, Option<Seq<char>>), i: int)
    requires
        0 <= i < listing.0.len(),
        listing.0[i].0 == root_prefix(root) + manifest_name(),
        !is_link(listing.0[i].1),
    ensures
        archive_outcome(root, data, (listing.0.update(i, (root_prefix(root) + lower_manifest_name(), listing.0[i].1, listing.0[i].2, listing.0[i].3)), listing.1))
            == archive_outcome(root, data, listing),
{
    let lower = root_prefix(root) + lower_manifest_name();
    let h = listing.0[i];
    let renamed = listing.0.update(i, (lower, h.1, h.2, h.3));
    let recs = records_of(root, data, listing.0);
    assert(role_of(root, h.0) == EntryRole::Manifest);
    assert(role_of(root, lower) == EntryRole::Manifest);
    reveal(entry_content);
    assert(records_of(root, data, renamed) =~= recs.update(i, EntryRecord { path: lower, ..recs[i] }));
    lemma_manifest_spelling(root, recs, i, lower);
}

} // verus!
