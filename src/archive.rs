//! The walk over an archive's entries: where each entry may lie, what it may
//! be, which entries the registry reads, and the outcome of a whole walk.

use crate::error::{TarballError, TarballErrorView};
use crate::text::{chars_of, starts_with};
use vstd::prelude::*;
use vstd::string::StringExecFns;

verus! {

/// The type of an archive entry, as far as validation cares.
#[derive(Clone, Copy, Debug, PartialEq, Eq, Structural)]
pub enum EntryKind {
    Regular,
    Directory,
    Symlink,
    HardLink,
    Other,
}

/// What the walk does with an entry that passed the checks.
#[derive(Clone, Copy, Debug, PartialEq, Eq, Structural)]
pub enum EntryRole {
    /// A manifest: `{root}/Cargo.toml` or `{root}/cargo.toml`.
    Manifest,
    /// Provenance metadata: `{root}/.cargo_vcs_info.json`.
    VcsInfo,
    /// Anything else; its content is not read.
    Ignored,
}

/// The manifest's file name.
pub open spec fn manifest_name() -> Seq<char> {
    seq!['C', 'a', 'r', 'g', 'o', '.', 't', 'o', 'm', 'l']
}

/// The manifest's file name as case-insensitive file systems may spell it.
pub open spec fn lower_manifest_name() -> Seq<char> {
    seq!['c', 'a', 'r', 'g', 'o', '.', 't', 'o', 'm', 'l']
}

/// The provenance file's name.
pub open spec fn vcs_info_name() -> Seq<char> {
    seq!['.', 'c', 'a', 'r', 'g', 'o', '_', 'v', 'c', 's', '_', 'i', 'n', 'f', 'o', '.', 'j', 's', 'o', 'n']
}

/// `root/`: the prefix every entry path must start with.
pub open spec fn root_prefix(root: Seq<char>) -> Seq<char> {
    root.push('/')
}

/// `path` lies under the package root.
pub open spec fn is_under(root: Seq<char>, path: Seq<char>) -> bool {
    root_prefix(root).len() <= path.len() && path.take(root_prefix(root).len() as int) == root_prefix(root)
}

/// A symbolic or hard link.
pub open spec fn is_link(kind: EntryKind) -> bool {
    kind == EntryKind::Symlink || kind == EntryKind::HardLink
}

/// `path` names the manifest, in either spelling.
pub open spec fn is_manifest_path(root: Seq<char>, path: Seq<char>) -> bool {
    path == root_prefix(root) + manifest_name() || path == root_prefix(root) + lower_manifest_name()
}

/// `path` names the provenance file.
pub open spec fn is_vcs_info_path(root: Seq<char>, path: Seq<char>) -> bool {
    path == root_prefix(root) + vcs_info_name()
}

/// The role of an entry, decided by exact comparison of its path.
pub open spec fn role_of(root: Seq<char>, path: Seq<char>) -> EntryRole {
    if is_manifest_path(root, path) {
        EntryRole::Manifest
    } else if is_vcs_info_path(root, path) {
        EntryRole::VcsInfo
    } else {
        EntryRole::Ignored
    }
}

/// The verdict on one entry: its path is checked first, then its type, then
/// its role is decided by exact comparison of the path.
pub open spec fn entry_verdict(root: Seq<char>, path: Seq<char>, kind: EntryKind) -> Result<EntryRole, TarballErrorView> {
    if !is_under(root, path) {
        Err(TarballErrorView::InvalidPath(path))
    } else if is_link(kind) {
        Err(TarballErrorView::UnexpectedSymlink(path))
    } else {
        Ok(role_of(root, path))
    }
}

/// The view of a verdict.
pub open spec fn verdict_view(r: Result<EntryRole, TarballError>) -> Result<EntryRole, TarballErrorView> {
    match r {
        Ok(role) => Ok(role),
        Err(e) => Err(e@),
    }
}

/// Whether `s` is `prefix` followed by `suffix`.
fn is_concat(s: &Vec<char>, prefix: &Vec<char>, suffix: &Vec<char>) -> (r: bool)
    ensures
        r == (s@ == prefix@ + suffix@),
{
    if s.len() < prefix.len() || s.len() - prefix.len() != suffix.len() {
        proof {
            if s@ == prefix@ + suffix@ {
                assert(s@.len() == prefix@.len() + suffix@.len());
            }
        }
        return false;
    }
    let mut i: usize = 0;
    while i < s.len()
        invariant
            s@.len() == prefix@.len() + suffix@.len(),
            i <= s@.len(),
            forall|j: int| 0 <= j < i ==> s@[j] == (prefix@ + suffix@)[j],
        decreases s.len() - i,
    {
        let expected = if i < prefix.len() { prefix[i] } else { suffix[i - prefix.len()] };
        if s[i] != expected {
            assert((prefix@ + suffix@)[i as int] == expected);
            return false;
        }
        i += 1;
    }
    assert(s@ =~= prefix@ + suffix@);
    true
}

/// Checks one entry, given the package root (`{name}-{version}`), the entry's
/// path and its type: an entry outside `root/` is refused with its path, then a
/// symbolic or hard link is refused with its path; otherwise the entry's role.
pub fn classify_entry(root: &str, path: String, kind: EntryKind) -> (r: Result<EntryRole, TarballError>)
    ensures
        verdict_view(r) == entry_verdict(root@, path@, kind),
        r matches Err(e) ==> (e == TarballError::InvalidPath(path) || e == TarballError::UnexpectedSymlink(path)),
{
    let mut prefix = chars_of(root);
    prefix.push('/');
    let cs = chars_of(path.as_str());
    if !starts_with(&cs, &prefix) {
        return Err(TarballError::InvalidPath(path));
    }
    match kind {
        EntryKind::Symlink | EntryKind::HardLink => {
            return Err(TarballError::UnexpectedSymlink(path));
        },
        _ => {},
    }
    let upper = vec!['C', 'a', 'r', 'g', 'o', '.', 't', 'o', 'm', 'l'];
    let lower = vec!['c', 'a', 'r', 'g', 'o', '.', 't', 'o', 'm', 'l'];
    let vcs = vec!['.', 'c', 'a', 'r', 'g', 'o', '_', 'v', 'c', 's', '_', 'i', 'n', 'f', 'o', '.', 'j', 's', 'o', 'n'];
    assert(upper@ == manifest_name());
    assert(lower@ == lower_manifest_name());
    assert(vcs@ == vcs_info_name());
    if is_concat(&cs, &prefix, &upper) || is_concat(&cs, &prefix, &lower) {
        Ok(EntryRole::Manifest)
    } else if is_concat(&cs, &prefix, &vcs) {
        Ok(EntryRole::VcsInfo)
    } else {
        Ok(EntryRole::Ignored)
    }
}

/// One entry as the walk met it.
pub ghost struct EntryRecord {
    pub path: Seq<char>,
    pub kind: EntryKind,
    /// What reading the entry's content gives, where the walk reads it: the
    /// provenance it gives (`None` for a manifest, or for provenance that
    /// cannot be read), or the error that stops the walk there.
    pub content: Result<Option<Seq<char>>, TarballErrorView>,
}

/// What the walk has kept so far.
pub ghost struct ScanState {
    /// A manifest entry was read and accepted.
    pub manifest_seen: bool,
    /// `Some` once a provenance entry was read: the provenance it gave.
    pub vcs: Option<Option<Seq<char>>>,
}

/// Nothing kept yet.
pub open spec fn initial_scan() -> ScanState {
    ScanState { manifest_seen: false, vcs: None }
}

/// One step of the walk. The first manifest and the first provenance entry are
/// read; later ones are passed over like any other entry.
pub open spec fn scan_step(root: Seq<char>, st: ScanState, e: EntryRecord) -> Result<ScanState, TarballErrorView> {
    match entry_verdict(root, e.path, e.kind) {
        Err(err) => Err(err),
        Ok(EntryRole::Manifest) => if st.manifest_seen {
            Ok(st)
        } else {
            match e.content {
                Err(err) => Err(err),
                Ok(_) => Ok(ScanState { manifest_seen: true, vcs: st.vcs }),
            }
        },
        Ok(EntryRole::VcsInfo) => if st.vcs is Some {
            Ok(st)
        } else {
            match e.content {
                Err(err) => Err(err),
                Ok(v) => Ok(ScanState { manifest_seen: st.manifest_seen, vcs: Some(v) }),
            }
        },
        Ok(EntryRole::Ignored) => Ok(st),
    }
}

/// The walk over `entries`, in order; the first error ends it.
pub open spec fn scan(root: Seq<char>, entries: Seq<EntryRecord>) -> Result<ScanState, TarballErrorView>
    decreases entries.len(),
{
    if entries.len() == 0 {
        Ok(initial_scan())
    } else {
        match scan(root, entries.drop_last()) {
            Err(e) => Err(e),
            Ok(st) => scan_step(root, st, entries.last()),
        }
    }
}

/// The outcome of a whole walk: the provenance found, or why the archive is refused.
pub open spec fn scan_outcome(root: Seq<char>, entries: Seq<EntryRecord>) -> Result<Option<Seq<char>>, TarballErrorView> {
    match scan(root, entries) {
        Err(e) => Err(e),
        Ok(st) => if !st.manifest_seen {
            Err(TarballErrorView::MissingManifest)
        } else {
            match st.vcs {
                None => Ok(None),
                Some(v) => Ok(v),
            }
        },
    }
}

/// Once the walk over a prefix has failed, the walk over the whole fails the same way.
pub proof fn lemma_scan_error_stays(root: Seq<char>, entries: Seq<EntryRecord>, n: int)
    requires
        0 <= n <= entries.len(),
        scan(root, entries.take(n)) is Err,
    ensures
        scan(root, entries) == scan(root, entries.take(n)),
    decreases entries.len() - n,
{
    if n < entries.len() {
        assert(entries.take(n + 1).drop_last() =~= entries.take(n));
        lemma_scan_error_stays(root, entries, n + 1);
    } else {
        assert(entries.take(n) =~= entries);
    }
}

/// An entry outside the package root refuses the archive with that entry's
/// path, wherever it stands, provided the entries before it passed.
pub proof fn lemma_outside_root_is_invalid_path(root: Seq<char>, entries: Seq<EntryRecord>, i: int)
    requires
        0 <= i < entries.len(),
        !is_under(root, entries[i].path),
        scan(root, entries.take(i)) is Ok,
    ensures
        scan_outcome(root, entries) == Err::<Option<Seq<char>>, TarballErrorView>(TarballErrorView::InvalidPath(entries[i].path)),
{
    assert(entries.take(i + 1).drop_last() =~= entries.take(i));
    assert(entries.take(i + 1).last() == entries[i]);
    lemma_scan_error_stays(root, entries, i + 1);
}

/// A symbolic or hard link under the package root refuses the archive with its
/// path, whatever came before it (a valid manifest included), provided the
/// entries before it passed.
pub proof fn lemma_link_is_unexpected_symlink(root: Seq<char>, entries: Seq<EntryRecord>, i: int)
    requires
        0 <= i < entries.len(),
        is_under(root, entries[i].path),
        is_link(entries[i].kind),
        scan(root, entries.take(i)) is Ok,
    ensures
        scan_outcome(root, entries) == Err::<Option<Seq<char>>, TarballErrorView>(TarballErrorView::UnexpectedSymlink(entries[i].path)),
{
    assert(entries.take(i + 1).drop_last() =~= entries.take(i));
    assert(entries.take(i + 1).last() == entries[i]);
    lemma_scan_error_stays(root, entries, i + 1);
}

/// An archive without a manifest entry under its root is refused: with
/// `MissingManifest` when nothing else stopped the walk first.
pub proof fn lemma_no_manifest_is_missing(root: Seq<char>, entries: Seq<EntryRecord>)
    requires
        forall|i: int| 0 <= i < entries.len() ==> !is_manifest_path(root, #[trigger] entries[i].path),
    ensures
        scan_outcome(root, entries) is Err,
        scan(root, entries) is Ok ==> scan_outcome(root, entries) == Err::<Option<Seq<char>>, TarballErrorView>(TarballErrorView::MissingManifest),
    decreases entries.len(),
{
    lemma_never_manifest(root, entries);
}

proof fn lemma_never_manifest(root: Seq<char>, entries: Seq<EntryRecord>)
    requires
        forall|i: int| 0 <= i < entries.len() ==> !is_manifest_path(root, #[trigger] entries[i].path),
    ensures
        scan(root, entries) is Ok ==> !scan(root, entries)->Ok_0.manifest_seen,
    decreases entries.len(),
{
    if entries.len() > 0 {
        let front = entries.drop_last();
        assert forall|i: int| 0 <= i < front.len() implies !is_manifest_path(root, #[trigger] front[i].path) by {
            assert(front[i] == entries[i]);
        }
        lemma_never_manifest(root, front);
        assert(entries.last() == entries[entries.len() - 1]);
    }
}

/// An entry passes the checks and, where its content is read, reading it succeeded.
pub open spec fn entry_acceptable(root: Seq<char>, e: EntryRecord) -> bool {
    &&& is_under(root, e.path)
    &&& !is_link(e.kind)
    &&& (role_of(root, e.path) != EntryRole::Ignored ==> e.content is Ok)
}

/// An archive whose entries all lie under the root, none of them a link, with
/// a manifest among them and every manifest and provenance entry read
/// successfully, is accepted.
pub proof fn lemma_valid_archive_is_accepted(root: Seq<char>, entries: Seq<EntryRecord>, m: int)
    requires
        forall|i: int| 0 <= i < entries.len() ==> entry_acceptable(root, #[trigger] entries[i]),
        0 <= m < entries.len(),
        is_manifest_path(root, entries[m].path),
    ensures
        scan_outcome(root, entries) is Ok,
{
    lemma_acceptable_scan(root, entries);
    assert(entries.take(m + 1).drop_last() =~= entries.take(m));
    assert(entries.take(m + 1).last() == entries[m]);
    lemma_acceptable_scan(root, entries.take(m + 1));
    lemma_manifest_stays(root, entries, m + 1);
}

/// A walk over acceptable entries does not fail.
pub proof fn lemma_acceptable_scan(root: Seq<char>, entries: Seq<EntryRecord>)
    requires
        forall|i: int| 0 <= i < entries.len() ==> entry_acceptable(root, #[trigger] entries[i]),
    ensures
        scan(root, entries) is Ok,
    decreases entries.len(),
{
    if entries.len() > 0 {
        let front = entries.drop_last();
        assert forall|i: int| 0 <= i < front.len() implies entry_acceptable(root, #[trigger] front[i]) by {
            assert(front[i] == entries[i]);
        }
        lemma_acceptable_scan(root, front);
        assert(entries.last() == entries[entries.len() - 1]);
    }
}

proof fn lemma_manifest_stays(root: Seq<char>, entries: Seq<EntryRecord>, n: int)
    requires
        0 <= n <= entries.len(),
        forall|i: int| 0 <= i < entries.len() ==> entry_acceptable(root, #[trigger] entries[i]),
        scan(root, entries.take(n)) is Ok,
        scan(root, entries.take(n))->Ok_0.manifest_seen,
    ensures
        scan(root, entries) is Ok,
        scan(root, entries)->Ok_0.manifest_seen,
    decreases entries.len() - n,
{
    if n < entries.len() {
        assert(entries.take(n + 1).drop_last() =~= entries.take(n));
        assert(entries.take(n + 1).last() == entries[n]);
        lemma_manifest_stays(root, entries, n + 1);
    } else {
        assert(entries.take(n) =~= entries);
    }
}

/// The manifest may be spelled `cargo.toml`: an archive whose manifest entry is
/// renamed from `{root}/Cargo.toml` to `{root}/cargo.toml` has the same outcome.
/// (A link entry is left out: its refusal names its own path.)
pub proof fn lemma_manifest_spelling(root: Seq<char>, entries: Seq<EntryRecord>, i: int, lower: Seq<char>)
    requires
        0 <= i < entries.len(),
        entries[i].path == root_prefix(root) + manifest_name(),
        lower == root_prefix(root) + lower_manifest_name(),
        !is_link(entries[i].kind),
    ensures
        scan(root, entries.update(i, EntryRecord { path: lower, ..entries[i] })) == scan(root, entries),
        scan_outcome(root, entries.update(i, EntryRecord { path: lower, ..entries[i] }))
            == scan_outcome(root, entries),
{
    let renamed = entries.update(i, EntryRecord { path: lower, ..entries[i] });
    assert((root_prefix(root) + manifest_name()).take(root_prefix(root).len() as int) =~= root_prefix(root));
    assert((root_prefix(root) + lower_manifest_name()).take(root_prefix(root).len() as int) =~= root_prefix(root));
    lemma_renamed_prefixes(root, entries, renamed, i, entries.len() as int);
    assert(entries.take(entries.len() as int) =~= entries);
    assert(renamed.take(renamed.len() as int) =~= renamed);
}

proof fn lemma_renamed_prefixes(root: Seq<char>, entries: Seq<EntryRecord>, renamed: Seq<EntryRecord>, i: int, n: int)
    requires
        0 <= i < entries.len(),
        0 <= n <= entries.len(),
        renamed.len() == entries.len(),
        forall|j: int| 0 <= j < entries.len() && j != i ==> renamed[j] == entries[j],
        renamed[i].kind == entries[i].kind,
        renamed[i].content == entries[i].content,
        !is_link(entries[i].kind),
        is_under(root, entries[i].path),
        is_under(root, renamed[i].path),
        is_manifest_path(root, entries[i].path),
        is_manifest_path(root, renamed[i].path),
    ensures
        scan(root, renamed.take(n)) == scan(root, entries.take(n)),
    decreases n,
{
    if n > 0 {
        lemma_renamed_prefixes(root, entries, renamed, i, n - 1);
        assert(entries.take(n).drop_last() =~= entries.take(n - 1));
        assert(renamed.take(n).drop_last() =~= renamed.take(n - 1));
        assert(entries.take(n).last() == entries[n - 1]);
        assert(renamed.take(n).last() == renamed[n - 1]);
    }
}

/// The outcome of a walk over `entries` that then ended on `fault`, if any: an
/// error of the entries comes first, since the walk stops there.
pub open spec fn walk_outcome(root: Seq<char>, entries: Seq<EntryRecord>, fault: Option<TarballErrorView>) -> Result<Option<Seq<char>>, TarballErrorView> {
    match scan(root, entries) {
        Err(e) => Err(e),
        Ok(_) => match fault {
            Some(f) => Err(f),
            None => scan_outcome(root, entries),
        },
    }
}

/// An entry header as the archive gives it.
#[derive(Clone, Debug)]
pub struct TarHeader {
    /// The entry's path.
    pub path: String,
    /// The entry's type.
    pub kind: EntryKind,
    /// Where the entry's data starts in the decompressed archive.
    pub start: u64,
    /// How many bytes of data the entry has.
    pub size: u64,
}

#[verifier::external_type_specification]
#[verifier::external_body]
pub struct ExEntryType(tar::EntryType);

/// Relies on the variants of `tar::EntryType`: regular files, directories,
/// symbolic links and hard links; any other type is `Other`.
#[verifier::external_body]
pub(crate) fn kind_of(t: tar::EntryType) -> EntryKind {
    match t {
        tar::EntryType::Regular => EntryKind::Regular,
        tar::EntryType::Directory => EntryKind::Directory,
        tar::EntryType::Symlink => EntryKind::Symlink,
        tar::EntryType::Link => EntryKind::HardLink,
        _ => EntryKind::Other,
    }
}

/// A listed header as plain values: path, type, data position and size.
pub open spec fn header_view(h: TarHeader) -> (Seq<char>, EntryKind, u64, u64) {
    (h.path@, h.kind, h.start, h.size)
}

/// What `list_entries` gives for `data`: the headers in stream order, and the
/// message of the error that ended the list early, if one did.
pub uninterp spec fn tar_listing(data: Seq<u8>) -> (Seq<(Seq<char>, EntryKind, u64, u64)>, Option<Seq<char>>);

/// Relies on `tar::Archive::entries` over the decompressed bytes: each entry's
/// path (`path_bytes`, decoded as `String::from_utf8_lossy` does), type
/// (`Header::entry_type`), data position (`raw_file_position`) and size (the
/// data of an entry that is not sparse is the `size` bytes from there), in
/// stream order, up to the first corrupt or truncated header, whose error ends
/// the list.
#[verifier::external_body]
pub(crate) fn list_entries(data: &[u8]) -> (r: (Vec<TarHeader>, Option<String>))
    ensures
        r.0@.map_values(|h: TarHeader| header_view(h)) == tar_listing(data@).0,
        r.1 matches Some(m) ==> tar_listing(data@).1 == Some(m@),
        r.1 is None ==> tar_listing(data@).1 is None,
{
    let (mut out, mut archive) = (Vec::new(), tar::Archive::new(data));
    let entries = match archive.entries() {
        Ok(entries) => entries,
        Err(err) => return (out, Some(err.to_string())),
    };
    for entry in entries {
        let e = match entry { Ok(e) => e, Err(err) => return (out, Some(err.to_string())) };
        let path = String::from_utf8_lossy(&e.path_bytes()).into_owned();
        out.push(TarHeader { path, kind: kind_of(e.header().entry_type()), start: e.raw_file_position(), size: e.size() });
    }
    (out, None)
}

/// Relies on `std::str::from_utf8`: the text that `bytes` encode, if they are UTF-8.
#[verifier::external_body]
fn utf8_text(bytes: &[u8]) -> (r: Option<String>)
    ensures
        r is Some <==> vstd::utf8::valid_utf8(bytes@),
        r is Some ==> r->0@ == vstd::utf8::decode_utf8(bytes@),
{
    std::str::from_utf8(bytes).ok().map(|s| s.to_string())
}

/// The bytes of an entry's data inside the decompressed archive; an entry cut
/// short by the end of the data reads as far as the data goes.
pub open spec fn entry_bytes(data: Seq<u8>, header: TarHeader) -> Seq<u8> {
    data_range(data, header.start, header.size)
}

/// The `size` bytes of `data` from `start`, cut short by the end of `data`.
pub open spec fn data_range(data: Seq<u8>, start: u64, size: u64) -> Seq<u8> {
    let from = if start as int <= data.len() { start as int } else { data.len() as int };
    let to = if start as int + size as int <= data.len() { start as int + size as int } else { data.len() as int };
    data.subrange(from, to)
}

/// An entry's data as text; `None` when it is not UTF-8.
pub fn entry_text(data: &[u8], header: &TarHeader) -> (r: Option<String>)
    ensures
        r is Some <==> vstd::utf8::valid_utf8(entry_bytes(data@, *header)),
        r matches Some(t) ==> t@ == vstd::utf8::decode_utf8(entry_bytes(data@, *header)),
{
    let len = data.len() as u64;
    let start = if header.start <= len { header.start } else { len };
    let end = if header.size <= len - start { start + header.size } else { len };
    let bytes = vstd::slice::slice_subrange(data, start as usize, end as usize);
    utf8_text(bytes)
}

/// An entry is a manifest and no entry before it is.
pub open spec fn is_first_manifest(root: Seq<char>, entries: Seq<EntryRecord>, j: int) -> bool {
    &&& is_manifest_path(root, entries[j].path)
    &&& forall|k: int| 0 <= k < j ==> !is_manifest_path(root, #[trigger] entries[k].path)
}

/// An entry is a provenance file and no entry before it is.
pub open spec fn is_first_vcs_info(root: Seq<char>, entries: Seq<EntryRecord>, j: int) -> bool {
    &&& is_vcs_info_path(root, entries[j].path)
    &&& forall|k: int| 0 <= k < j ==> !is_vcs_info_path(root, #[trigger] entries[k].path)
}

/// The first `n` entries are clean: under the root, no link, every provenance
/// file readable, and the first manifest (if among them) read and accepted.
pub open spec fn clean_prefix(root: Seq<char>, entries: Seq<EntryRecord>, n: int) -> bool {
    forall|j: int| 0 <= j < n ==> {
        &&& is_under(root, (#[trigger] entries[j]).path)
        &&& !is_link(entries[j].kind)
        &&& (is_vcs_info_path(root, entries[j].path) ==> entries[j].content is Ok)
        &&& (is_first_manifest(root, entries, j) ==> entries[j].content is Ok)
    }
}

/// The walk over a clean prefix passes; it has seen a manifest exactly when one
/// is among the entries, and keeps the provenance of the first provenance file.
pub proof fn lemma_clean_prefix_scans(root: Seq<char>, entries: Seq<EntryRecord>, n: int)
    requires
        0 <= n <= entries.len(),
        clean_prefix(root, entries, n),
    ensures
        scan(root, entries.take(n)) is Ok,
        scan(root, entries.take(n))->Ok_0.manifest_seen == exists|j: int| 0 <= j < n && is_manifest_path(root, #[trigger] entries[j].path),
        (scan(root, entries.take(n))->Ok_0.vcs is None) == forall|j: int| 0 <= j < n ==> !is_vcs_info_path(root, #[trigger] entries[j].path),
        forall|k: int| 0 <= k < n && is_first_vcs_info(root, entries, k) ==>
            scan(root, entries.take(n))->Ok_0.vcs == Some(#[trigger] entries[k].content->Ok_0),
    decreases n,
{
    if n == 0 {
        assert(entries.take(0) =~= Seq::<EntryRecord>::empty());
    } else {
        lemma_clean_prefix_scans(root, entries, n - 1);
        assert(entries.take(n).drop_last() =~= entries.take(n - 1));
        assert(entries.take(n).last() == entries[n - 1]);
        let e = entries[n - 1];
        let st = scan(root, entries.take(n - 1))->Ok_0;
        if is_manifest_path(root, e.path) && !st.manifest_seen {
            assert(is_first_manifest(root, entries, n - 1));
        }
        assert forall|k: int| 0 <= k < n && is_first_vcs_info(root, entries, k) implies
            scan(root, entries.take(n))->Ok_0.vcs == Some(#[trigger] entries[k].content->Ok_0) by {
            if k < n - 1 {
                assert(is_vcs_info_path(root, entries[k].path));
                assert(st.vcs is Some);
            } else {
                assert(st.vcs is None);
            }
        }
    }
}

} // verus!
