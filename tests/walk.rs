use crates_io_tarball::archive::{classify_entry, EntryKind, EntryRole, TarHeader};
use crates_io_tarball::manifest::ManifestError;
use crates_io_tarball::readme::{find_file_by_path, find_readme, package_file_path, readme_path, LookupError, ReadmeSetting};
use crates_io_tarball::{walk_listing, TarballError};

const FOO_TOML: &[u8] = b"[package]\nname = \"foo\"\nversion = \"0.0.1\"\n";

/// Data holding `contents` back to back, with a header for each `(path, kind, index)`.
fn listing(contents: &[&[u8]], entries: &[(&str, EntryKind, usize)]) -> (Vec<u8>, Vec<TarHeader>) {
    let mut data = Vec::new();
    let mut starts = Vec::new();
    for c in contents {
        starts.push((data.len() as u64, c.len() as u64));
        data.extend_from_slice(c);
    }
    let headers = entries
        .iter()
        .map(|(path, kind, i)| TarHeader { path: path.to_string(), kind: *kind, start: starts[*i].0, size: starts[*i].1 })
        .collect();
    (data, headers)
}

#[test]
fn classify_entry_checks_path_then_type_then_role() {
    let c = |p: &str, k| classify_entry("foo-0.0.1", p.to_string(), k);
    assert_eq!(c("foo-0.0.1/Cargo.toml", EntryKind::Regular), Ok(EntryRole::Manifest));
    assert_eq!(c("foo-0.0.1/cargo.toml", EntryKind::Regular), Ok(EntryRole::Manifest));
    assert_eq!(c("foo-0.0.1/CARGO.TOML", EntryKind::Regular), Ok(EntryRole::Ignored));
    assert_eq!(c("foo-0.0.1/.cargo_vcs_info.json", EntryKind::Regular), Ok(EntryRole::VcsInfo));
    assert_eq!(c("foo-0.0.1/", EntryKind::Directory), Ok(EntryRole::Ignored));
    assert_eq!(c("foo-0.0.1", EntryKind::Directory), Err(TarballError::InvalidPath("foo-0.0.1".to_string())));
    assert_eq!(c("bar/link", EntryKind::Symlink), Err(TarballError::InvalidPath("bar/link".to_string())));
    assert_eq!(c("foo-0.0.1/l", EntryKind::HardLink), Err(TarballError::UnexpectedSymlink("foo-0.0.1/l".to_string())));
    assert_eq!(c("foo-0.0.1/sub/Cargo.toml", EntryKind::Regular), Ok(EntryRole::Ignored));
}

#[test]
fn walk_accepts_and_keeps_first_provenance() {
    let (data, headers) = listing(
        &[FOO_TOML, br#"{"path_in_vcs": "a"}"#, br#"{"path_in_vcs": "b"}"#],
        &[
            ("foo-0.0.1/.cargo_vcs_info.json", EntryKind::Regular, 1),
            ("foo-0.0.1/Cargo.toml", EntryKind::Regular, 0),
            ("foo-0.0.1/.cargo_vcs_info.json", EntryKind::Regular, 2),
        ],
    );
    let info = walk_listing("foo-0.0.1", &data, headers, None).unwrap();
    assert_eq!(info.vcs_info.unwrap().path_in_vcs, "a");
}

#[test]
fn walk_stops_at_first_refusal() {
    let (data, headers) = listing(
        &[FOO_TOML],
        &[
            ("foo-0.0.1/Cargo.toml", EntryKind::Regular, 0),
            ("foo-0.0.1/l", EntryKind::Symlink, 0),
            ("elsewhere", EntryKind::Regular, 0),
        ],
    );
    assert_eq!(
        walk_listing("foo-0.0.1", &data, headers, Some("bad header".to_string())).err(),
        Some(TarballError::UnexpectedSymlink("foo-0.0.1/l".to_string()))
    );
}

#[test]
fn walk_reports_listing_error_after_clean_entries() {
    let (data, headers) = listing(&[FOO_TOML], &[("foo-0.0.1/Cargo.toml", EntryKind::Regular, 0)]);
    assert_eq!(
        walk_listing("foo-0.0.1", &data, headers, Some("bad header".to_string())).err(),
        Some(TarballError::Malformed("bad header".to_string()))
    );
}

#[test]
fn walk_without_manifest_and_with_invalid_manifest() {
    let (data, headers) = listing(&[b"x"], &[("foo-0.0.1/src/lib.rs", EntryKind::Regular, 0)]);
    assert_eq!(walk_listing("foo-0.0.1", &data, headers, None).err(), Some(TarballError::MissingManifest));
    let (data, headers) = listing(&[b"[package]\nname = \"foo\"\nversion.workspace = true\n"], &[("foo-0.0.1/Cargo.toml", EntryKind::Regular, 0)]);
    assert!(matches!(
        walk_listing("foo-0.0.1", &data, headers, None),
        Err(TarballError::InvalidManifest(ManifestError::InheritedField(_)))
    ));
}

#[test]
fn walk_reads_data_cut_short() {
    let (data, mut headers) = listing(&[FOO_TOML], &[("foo-0.0.1/Cargo.toml", EntryKind::Regular, 0)]);
    headers[0].size += 1000;
    assert!(walk_listing("foo-0.0.1", &data, headers, None).is_ok());
}

#[test]
fn error_messages() {
    assert_eq!(TarballError::InvalidPath("x/y".to_string()).message(), "invalid path found: x/y");
    assert_eq!(TarballError::UnexpectedSymlink("l".to_string()).message(), "unexpected symlink or hard link found: l");
    assert_eq!(TarballError::MissingManifest.message(), "Cargo.toml manifest is missing");
    assert_eq!(
        TarballError::InvalidManifest(ManifestError::MissingPackage).message(),
        "Cargo.toml manifest is invalid: missing field `package`"
    );
    assert_eq!(
        TarballError::InvalidManifest(ManifestError::InvalidRustVersion).message(),
        "Cargo.toml manifest is invalid: invalid `rust-version` value"
    );
    assert_eq!(TarballError::IO("boom".to_string()).message(), "boom");
    assert_eq!(
        TarballError::Malformed(String::new()).message(),
        "uploaded tarball is malformed or too large when decompressed"
    );
}

fn tar_of(files: &[(&str, &[u8])]) -> Vec<u8> {
    let mut builder = tar::Builder::new(Vec::new());
    for (path, content) in files {
        let mut header = tar::Header::new_gnu();
        header.set_size(content.len() as u64);
        header.set_mode(0o644);
        header.set_cksum();
        builder.append_data(&mut header, path, *content).unwrap();
    }
    builder.into_inner().unwrap()
}

#[test]
fn readme_paths() {
    assert_eq!(readme_path(&ReadmeSetting::Flag(true)).as_deref(), Some("README.md"));
    assert_eq!(readme_path(&ReadmeSetting::Flag(false)), None);
    assert_eq!(readme_path(&ReadmeSetting::Path("docs/README.md".to_string())).as_deref(), Some("docs/README.md"));
    assert_eq!(package_file_path("foo-0.0.1", "docs/README.md"), "foo-0.0.1/docs/README.md");
}

#[test]
fn default_readme_setting_of_parsed_manifest() {
    let setting = ReadmeSetting::of("[package]\nname=\"foo\"\nversion=\"0.0.1\"").unwrap();
    assert_eq!(setting, ReadmeSetting::Flag(true));
    assert_eq!(
        ReadmeSetting::of("[package]\nname=\"foo\"\nversion=\"0.0.1\"\nreadme=\"docs/R.md\""),
        Some(ReadmeSetting::Path("docs/R.md".to_string()))
    );
    assert_eq!(ReadmeSetting::of("[package]\nname=\"foo\"\nversion=\"0.0.1\"\nreadme=false"), Some(ReadmeSetting::Flag(false)));
    assert_eq!(ReadmeSetting::of("[package]\nname=\"foo\"\nversion=\"0.0.1\"\nreadme.workspace=true"), None);
}

#[test]
fn find_files_in_archive() {
    let data = tar_of(&[
        ("foo-0.0.1/Cargo.toml", FOO_TOML),
        ("foo-0.0.1/README.md", b"readme"),
        ("foo-0.0.1/docs/README.md", b"docs/readme"),
        ("foo-0.0.1/bin", b"\xff\xfe"),
    ]);
    assert_eq!(find_file_by_path(&data, "foo-0.0.1/README.md").unwrap(), "readme");
    assert_eq!(find_file_by_path(&data, "foo-0.0.1/nothing"), Err(LookupError::Missing));
    assert_eq!(find_file_by_path(&data, "foo-0.0.1/bin"), Err(LookupError::NotText));
    let docs = ReadmeSetting::Path("docs/README.md".to_string());
    assert_eq!(find_readme(&data, "foo-0.0.1", &docs).unwrap().as_deref(), Some("docs/readme"));
    assert_eq!(find_readme(&data, "foo-0.0.1", &ReadmeSetting::Flag(true)).unwrap().as_deref(), Some("readme"));
    assert_eq!(find_readme(&data, "foo-0.0.1", &ReadmeSetting::Flag(false)), Ok(None));
}
