use cargo_toml::OptionalFile;
use crates_io_tarball::manifest::{DependencyKind, ManifestError, PackageField};
use crates_io_tarball::{process_tarball, TarballError};
use flate2::write::GzEncoder;
use flate2::Compression;
use std::io::Write;
use std::path::Path;

const LIMIT: u64 = 512 * 1024 * 1024;

/// Builds the tar archive of `files` (path, content), in order.
fn tar_of(files: &[(&str, &[u8])]) -> Vec<u8> {
    let mut builder = tar::Builder::new(Vec::new());
    for (path, content) in files {
        let mut header = tar::Header::new_gnu();
        header.set_size(content.len() as u64);
        header.set_mode(0o644);
        header.set_cksum();
        builder.append_data(&mut header, path, *content).unwrap();
    }
    builder.into_inner().unwrap()
}

fn gzip(data: &[u8]) -> Vec<u8> {
    let mut encoder = GzEncoder::new(Vec::new(), Compression::default());
    encoder.write_all(data).unwrap();
    encoder.finish().unwrap()
}

fn tarball(files: &[(&str, &[u8])]) -> Vec<u8> {
    gzip(&tar_of(files))
}

/// A tarball for `foo-0.0.1` with the given manifest and further files.
fn package(manifest: &[u8], more: &[(&str, &[u8])]) -> Vec<u8> {
    let mut files: Vec<(&str, &[u8])> = vec![("foo-0.0.1/Cargo.toml", manifest)];
    files.extend_from_slice(more);
    tarball(&files)
}

/// A tarball whose entry `link_path` is a link of the given type.
fn with_link(files: &[(&str, &[u8])], link_path: &str, kind: tar::EntryType) -> Vec<u8> {
    let mut builder = tar::Builder::new(Vec::new());
    for (path, content) in files {
        let mut header = tar::Header::new_gnu();
        header.set_size(content.len() as u64);
        header.set_mode(0o644);
        header.set_cksum();
        builder.append_data(&mut header, path, *content).unwrap();
    }
    let mut header = tar::Header::new_gnu();
    header.set_entry_type(kind);
    header.set_size(0);
    header.set_mode(0o777);
    builder.append_link(&mut header, link_path, "/etc/passwd").unwrap();
    gzip(&builder.into_inner().unwrap())
}

const BASIC: &[u8] = b"[package]\nname = \"foo\"\nversion = \"0.0.1\"\n";

fn manifest_error(result: Result<crates_io_tarball::TarballInfo, TarballError>) -> ManifestError {
    match result {
        Err(TarballError::InvalidManifest(e)) => e,
        other => panic!("expected an invalid manifest, got {:?}", other.map(|_| ())),
    }
}

#[test]
fn process_tarball_test() {
    let tarball = package(b"[package]\nname = \"foo\"\nversion = \"0.0.1\"\n", &[]);

    let limit = 512 * 1024 * 1024;

    let tarball_info = process_tarball("foo-0.0.1", &tarball, limit).unwrap();
    assert!(tarball_info.vcs_info.is_none());

    assert!(process_tarball("bar-0.0.1", &tarball, limit).is_err());
}

#[test]
fn process_tarball_test_incomplete_vcs_info() {
    let tarball = package(
        b"[package]\nname = \"foo\"\nversion = \"0.0.1\"\n",
        &[("foo-0.0.1/.cargo_vcs_info.json", br#"{"unknown": "field"}"#)],
    );

    let limit = 512 * 1024 * 1024;

    let tarball_info = process_tarball("foo-0.0.1", &tarball, limit).unwrap();
    let vcs_info = tarball_info.vcs_info.unwrap();
    assert_eq!(vcs_info.path_in_vcs, "");
}

#[test]
fn process_tarball_test_vcs_info() {
    let tarball = package(
        b"[package]\nname = \"foo\"\nversion = \"0.0.1\"\n",
        &[("foo-0.0.1/.cargo_vcs_info.json", br#"{"path_in_vcs": "path/in/vcs"}"#)],
    );

    let limit = 512 * 1024 * 1024;

    let tarball_info = process_tarball("foo-0.0.1", &tarball, limit).unwrap();
    let vcs_info = tarball_info.vcs_info.unwrap();
    assert_eq!(vcs_info.path_in_vcs, "path/in/vcs");
}

#[test]
fn process_tarball_test_manifest() {
    let tarball = package(
        br#"
[package]
name = "foo"
version = "0.0.1"
rust-version = "1.59"
readme = "README.md"
repository = "https://github.com/foo/bar"
"#,
        &[],
    );

    let limit = 512 * 1024 * 1024;

    let tarball_info = process_tarball("foo-0.0.1", &tarball, limit).unwrap();
    let package = tarball_info.manifest.package.unwrap();
    assert_eq!(package.readme().as_path(), Some(Path::new("README.md")));
    assert_eq!(package.repository(), Some("https://github.com/foo/bar"));
    assert_eq!(package.rust_version(), Some("1.59"));
}

#[test]
fn process_tarball_test_manifest_with_project() {
    let tarball = package(
        br#"
                [project]
                name = "foo"
                version = "0.0.1"
                rust-version = "1.23"
                "#,
        &[],
    );

    let limit = 512 * 1024 * 1024;

    let tarball_info = process_tarball("foo-0.0.1", &tarball, limit).unwrap();
    let package = tarball_info.manifest.package.unwrap();
    assert_eq!(package.rust_version(), Some("1.23"));
}

#[test]
fn process_tarball_test_manifest_with_default_readme() {
    let tarball = package(
        br#"
                [package]
                name = "foo"
                version = "0.0.1"
                "#,
        &[],
    );

    let limit = 512 * 1024 * 1024;

    let tarball_info = process_tarball("foo-0.0.1", &tarball, limit).unwrap();
    let package = tarball_info.manifest.package.unwrap();
    assert!(matches!(package.readme(), OptionalFile::Flag(true)));
}

#[test]
fn process_tarball_test_manifest_with_boolean_readme() {
    let tarball = package(
        br#"
                [package]
                name = "foo"
                version = "0.0.1"
                readme = false
                "#,
        &[],
    );

    let limit = 512 * 1024 * 1024;

    let tarball_info = process_tarball("foo-0.0.1", &tarball, limit).unwrap();
    let package = tarball_info.manifest.package.unwrap();
    assert!(matches!(package.readme(), OptionalFile::Flag(false)));
}

#[test]
fn process_tarball_test_lowercase_manifest() {
    let tarball = tarball(&[(
        "foo-0.0.1/cargo.toml",
        br#"
[package]
name = "foo"
version = "0.0.1"
repository = "https://github.com/foo/bar"
"#,
    )]);

    let limit = 512 * 1024 * 1024;

    let tarball_info = process_tarball("foo-0.0.1", &tarball, limit).unwrap();
    let package = tarball_info.manifest.package.unwrap();
    assert_eq!(package.repository(), Some("https://github.com/foo/bar"));
}

#[test]
fn valid_archive_yields_its_manifest() {
    let info = process_tarball("foo-0.0.1", &package(BASIC, &[("foo-0.0.1/src/lib.rs", b"")]), LIMIT).unwrap();
    let package = info.manifest.package.unwrap();
    assert_eq!(package.name(), "foo");
    assert_eq!(package.version(), "0.0.1");
}

#[test]
fn entry_outside_root_is_invalid_path_wherever_it_stands() {
    let first = tarball(&[("bar-0.0.1/Cargo.toml", BASIC), ("foo-0.0.1/Cargo.toml", BASIC)]);
    assert_eq!(
        process_tarball("foo-0.0.1", &first, LIMIT).err(),
        Some(TarballError::InvalidPath("bar-0.0.1/Cargo.toml".to_string()))
    );
    let last = package(BASIC, &[("foo-0.0.1/a.rs", b""), ("other/x", b"")]);
    assert_eq!(
        process_tarball("foo-0.0.1", &last, LIMIT).err(),
        Some(TarballError::InvalidPath("other/x".to_string()))
    );
    // The root is a directory: a sibling whose name merely starts with it is outside.
    let sibling = package(BASIC, &[("foo-0.0.1x/y", b"")]);
    assert_eq!(
        process_tarball("foo-0.0.1", &sibling, LIMIT).err(),
        Some(TarballError::InvalidPath("foo-0.0.1x/y".to_string()))
    );
}

#[test]
fn symlink_after_valid_manifest_is_refused() {
    let archive = with_link(&[("foo-0.0.1/Cargo.toml", BASIC)], "foo-0.0.1/link", tar::EntryType::Symlink);
    assert_eq!(
        process_tarball("foo-0.0.1", &archive, LIMIT).err(),
        Some(TarballError::UnexpectedSymlink("foo-0.0.1/link".to_string()))
    );
}

#[test]
fn hard_link_is_refused() {
    let archive = with_link(&[("foo-0.0.1/Cargo.toml", BASIC)], "foo-0.0.1/hard", tar::EntryType::Link);
    assert_eq!(
        process_tarball("foo-0.0.1", &archive, LIMIT).err(),
        Some(TarballError::UnexpectedSymlink("foo-0.0.1/hard".to_string()))
    );
}

#[test]
fn archive_without_manifest_is_missing_manifest() {
    let archive = tarball(&[("foo-0.0.1/src/lib.rs", b"fn f() {}"), ("foo-0.0.1/sub/Cargo.toml", BASIC)]);
    assert_eq!(process_tarball("foo-0.0.1", &archive, LIMIT).err(), Some(TarballError::MissingManifest));
    let empty = tarball(&[]);
    assert_eq!(process_tarball("foo-0.0.1", &empty, LIMIT).err(), Some(TarballError::MissingManifest));
}

#[test]
fn decompression_cap_refuses_then_accepts() {
    let filler = vec![0u8; 200_000];
    let archive = package(BASIC, &[("foo-0.0.1/big.bin", &filler)]);
    let size = tar_of(&[("foo-0.0.1/Cargo.toml", BASIC), ("foo-0.0.1/big.bin", &filler)]).len() as u64;
    assert!(matches!(process_tarball("foo-0.0.1", &archive, 100_000), Err(TarballError::Malformed(_))));
    assert!(matches!(process_tarball("foo-0.0.1", &archive, size - 1), Err(TarballError::Malformed(_))));
    assert!(process_tarball("foo-0.0.1", &archive, size).is_ok());
    assert!(process_tarball("foo-0.0.1", &archive, size + 1).is_ok());
}

#[test]
fn corrupt_gzip_is_malformed() {
    let mut archive = package(BASIC, &[]);
    let middle = archive.len() / 2;
    archive[middle] ^= 0xff;
    archive.truncate(middle + 4);
    assert!(matches!(process_tarball("foo-0.0.1", &archive, LIMIT), Err(TarballError::Malformed(_))));
    assert!(matches!(process_tarball("foo-0.0.1", b"not gzip at all", LIMIT), Err(TarballError::Malformed(_))));
}

#[test]
fn corrupt_header_is_malformed() {
    let mut data = tar_of(&[("foo-0.0.1/Cargo.toml", BASIC), ("foo-0.0.1/b", b"x")]);
    // Spoil the checksum field of the second header.
    data[1024 + 148] = b'Z';
    assert!(matches!(process_tarball("foo-0.0.1", &gzip(&data), LIMIT), Err(TarballError::Malformed(_))));
}

#[test]
fn vcs_info_absent_partial_and_present() {
    let none = process_tarball("foo-0.0.1", &package(BASIC, &[]), LIMIT).unwrap();
    assert!(none.vcs_info.is_none());
    let unknown = package(BASIC, &[("foo-0.0.1/.cargo_vcs_info.json", br#"{"git": {"sha1": "abc"}}"#)]);
    let info = process_tarball("foo-0.0.1", &unknown, LIMIT).unwrap();
    assert_eq!(info.vcs_info.unwrap().path_in_vcs, "");
    let sub = package(BASIC, &[("foo-0.0.1/.cargo_vcs_info.json", br#"{"path_in_vcs": "sub/dir"}"#)]);
    let info = process_tarball("foo-0.0.1", &sub, LIMIT).unwrap();
    assert_eq!(info.vcs_info.unwrap().path_in_vcs, "sub/dir");
}

#[test]
fn unreadable_vcs_info_is_no_provenance() {
    let broken = package(BASIC, &[("foo-0.0.1/.cargo_vcs_info.json", b"{ not json")]);
    let info = process_tarball("foo-0.0.1", &broken, LIMIT).unwrap();
    assert!(info.vcs_info.is_none());
    let wrong_type = package(BASIC, &[("foo-0.0.1/.cargo_vcs_info.json", br#"{"path_in_vcs": 3}"#)]);
    assert!(process_tarball("foo-0.0.1", &wrong_type, LIMIT).unwrap().vcs_info.is_none());
}

#[test]
fn lowercase_manifest_is_processed_like_uppercase() {
    let manifest: &[u8] = b"[package]\nname = \"foo\"\nversion = \"0.0.1\"\nrust-version = \"^1.0\"\n";
    let upper = process_tarball("foo-0.0.1", &tarball(&[("foo-0.0.1/Cargo.toml", manifest)]), LIMIT);
    let lower = process_tarball("foo-0.0.1", &tarball(&[("foo-0.0.1/cargo.toml", manifest)]), LIMIT);
    assert_eq!(upper.err(), lower.err());
    let upper = process_tarball("foo-0.0.1", &tarball(&[("foo-0.0.1/Cargo.toml", BASIC)]), LIMIT).unwrap();
    let lower = process_tarball("foo-0.0.1", &tarball(&[("foo-0.0.1/cargo.toml", BASIC)]), LIMIT).unwrap();
    assert_eq!(upper.manifest, lower.manifest);
    assert_eq!(upper.vcs_info, lower.vcs_info);
}

#[test]
fn first_manifest_wins() {
    let second: &[u8] = b"[package]\nname = \"foo\"\nversion = \"9.9.9\"\nedition.workspace = true\n";
    let archive = tarball(&[("foo-0.0.1/Cargo.toml", BASIC), ("foo-0.0.1/cargo.toml", second)]);
    let info = process_tarball("foo-0.0.1", &archive, LIMIT).unwrap();
    assert_eq!(info.manifest.package.unwrap().version(), "0.0.1");
}

#[test]
fn end_to_end_default_readme() {
    let archive = tarball(&[("foo-0.0.1/Cargo.toml", b"[package]\nname=\"foo\"\nversion=\"0.0.1\"")]);
    let info = process_tarball("foo-0.0.1", &archive, 512 * 1024 * 1024).unwrap();
    assert!(info.vcs_info.is_none());
    let package = info.manifest.package.unwrap();
    assert!(matches!(package.readme(), OptionalFile::Flag(true)));
}

#[test]
fn manifest_that_is_not_utf8_is_invalid() {
    let archive = package(b"[package]\nname = \"\xff\"\n", &[]);
    assert!(matches!(manifest_error(process_tarball("foo-0.0.1", &archive, LIMIT)), ManifestError::Parse(_)));
}

#[test]
fn provenance_that_is_not_utf8_is_none() {
    let archive = package(BASIC, &[("foo-0.0.1/.cargo_vcs_info.json", b"{\"path_in_vcs\": \"\xff\"}")]);
    assert!(process_tarball("foo-0.0.1", &archive, LIMIT).unwrap().vcs_info.is_none());
    let no_manifest = tarball(&[("foo-0.0.1/.cargo_vcs_info.json", b"\xff")]);
    assert_eq!(process_tarball("foo-0.0.1", &no_manifest, LIMIT).err(), Some(TarballError::MissingManifest));
}

#[test]
fn manifest_that_does_not_parse_is_invalid() {
    let archive = package(b"[package\nname = ", &[]);
    assert!(matches!(manifest_error(process_tarball("foo-0.0.1", &archive, LIMIT)), ManifestError::Parse(_)));
}

#[test]
fn workspace_manifest_is_missing_package() {
    let archive = package(b"[workspace]\nmembers = [\"a\"]\n", &[]);
    assert_eq!(manifest_error(process_tarball("foo-0.0.1", &archive, LIMIT)), ManifestError::MissingPackage);
}

/// Each `[package]` field left to the workspace, with the field it stands for.
const INHERITED_FIELDS: &[(&str, PackageField)] = &[
    ("edition", PackageField::Edition),
    ("rust-version", PackageField::RustVersion),
    ("version", PackageField::Version),
    ("authors", PackageField::Authors),
    ("description", PackageField::Description),
    ("homepage", PackageField::Homepage),
    ("documentation", PackageField::Documentation),
    ("readme", PackageField::Readme),
    ("keywords", PackageField::Keywords),
    ("categories", PackageField::Categories),
    ("exclude", PackageField::Exclude),
    ("include", PackageField::Include),
    ("license", PackageField::License),
    ("license-file", PackageField::LicenseFile),
    ("repository", PackageField::Repository),
    ("publish", PackageField::Publish),
];

fn check_inherited_field(index: usize) {
    let (key, field) = INHERITED_FIELDS[index];
    let text = format!("[package]\nname = \"foo\"\n{}{key}.workspace = true\n", if key == "version" { "" } else { "version = \"0.0.1\"\n" });
    let archive = package(text.as_bytes(), &[]);
    assert_eq!(manifest_error(process_tarball("foo-0.0.1", &archive, LIMIT)), ManifestError::InheritedField(field), "{key}");
}

#[test]
fn inherited_edition_and_rust_version_refused() {
    check_inherited_field(0);
    check_inherited_field(1);
}

#[test]
fn inherited_version_and_authors_refused() {
    check_inherited_field(2);
    check_inherited_field(3);
}

#[test]
fn inherited_description_homepage_documentation_refused() {
    check_inherited_field(4);
    check_inherited_field(5);
    check_inherited_field(6);
}

#[test]
fn inherited_readme_keywords_categories_refused() {
    check_inherited_field(7);
    check_inherited_field(8);
    check_inherited_field(9);
}

#[test]
fn inherited_file_lists_refused() {
    check_inherited_field(10);
    check_inherited_field(11);
}

#[test]
fn inherited_license_fields_refused() {
    check_inherited_field(12);
    check_inherited_field(13);
}

#[test]
fn inherited_repository_and_publish_refused() {
    check_inherited_field(14);
    check_inherited_field(15);
}

#[test]
fn resolved_fields_accepted() {
    let text = br#"[package]
name = "foo"
version = "0.0.1"
edition = "2021"
rust-version = "1.59.0"
authors = ["a"]
description = "d"
homepage = "https://h"
documentation = "https://d"
readme = "README.md"
keywords = ["k"]
categories = ["c"]
exclude = ["x"]
include = ["src"]
license = "MIT"
license-file = "LICENSE"
repository = "https://r"
publish = false

[dependencies]
a = "1"
[dev-dependencies]
b = { version = "1" }
[build-dependencies]
c = "1"
"#;
    assert!(process_tarball("foo-0.0.1", &package(text, &[]), LIMIT).is_ok());
}

#[test]
fn inherited_dependencies_refused() {
    for (table, kind) in [
        ("dependencies", DependencyKind::Normal),
        ("dev-dependencies", DependencyKind::Dev),
        ("build-dependencies", DependencyKind::Build),
    ] {
        let text = format!("[package]\nname = \"foo\"\nversion = \"0.0.1\"\n[{table}]\nserde = {{ workspace = true }}\n");
        let archive = package(text.as_bytes(), &[]);
        assert_eq!(manifest_error(process_tarball("foo-0.0.1", &archive, LIMIT)), ManifestError::InheritedDependency(kind));
    }
}

#[test]
fn rust_version_forms() {
    for good in ["1.59", "1.59.0"] {
        let text = format!("[package]\nname = \"foo\"\nversion = \"0.0.1\"\nrust-version = \"{good}\"\n");
        assert!(process_tarball("foo-0.0.1", &package(text.as_bytes(), &[]), LIMIT).is_ok(), "{good}");
    }
    for bad in ["^1.59", "~1.59", "1.59-beta", ">=1.59", "1..59"] {
        let text = format!("[package]\nname = \"foo\"\nversion = \"0.0.1\"\nrust-version = \"{bad}\"\n");
        assert_eq!(
            manifest_error(process_tarball("foo-0.0.1", &package(text.as_bytes(), &[]), LIMIT)),
            ManifestError::InvalidRustVersion,
            "{bad}"
        );
    }
}
