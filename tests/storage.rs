use crates_io_tarball::storage::{
    apply_cdn_prefix, crate_file_path, crate_location, escape_plus_signs, readme_location, readme_path,
};

#[test]
fn storage_paths() {
    assert_eq!(crate_file_path("foo", "1.2.3"), "crates/foo/foo-1.2.3.crate");
    assert_eq!(readme_path("foo", "1.2.3"), "readmes/foo/foo-1.2.3.html");
}

#[test]
fn locations() {
    let cdn = Some("static.crates.io".to_string());
    assert_eq!(crate_location(&cdn, "foo", "1.2.3"), "https://static.crates.io/crates/foo/foo-1.2.3.crate");
    assert_eq!(
        crate_location(&cdn, "some-long-crate-name", "42.0.5-beta.1+foo"),
        "https://static.crates.io/crates/some-long-crate-name/some-long-crate-name-42.0.5-beta.1%2Bfoo.crate"
    );
    assert_eq!(readme_location(&cdn, "foo", "1.2.3"), "https://static.crates.io/readmes/foo/foo-1.2.3.html");
    assert_eq!(
        readme_location(&cdn, "some-long-crate-name", "42.0.5-beta.1+foo"),
        "https://static.crates.io/readmes/some-long-crate-name/some-long-crate-name-42.0.5-beta.1%2Bfoo.html"
    );
}

#[test]
fn cdn_prefix() {
    assert_eq!(apply_cdn_prefix(&None, "foo"), "/foo");
    assert_eq!(apply_cdn_prefix(&Some("static.crates.io".to_string()), "foo"), "https://static.crates.io/foo");
    assert_eq!(
        apply_cdn_prefix(&Some("https://fastly-static.crates.io".to_string()), "foo"),
        "https://fastly-static.crates.io/foo"
    );
    // A storage path is written without leading or doubled slashes.
    assert_eq!(apply_cdn_prefix(&Some("static.crates.io".to_string()), "foo/bar"), "https://static.crates.io/foo/bar");
    assert_eq!(apply_cdn_prefix(&Some("static.crates.io/".to_string()), "foo/bar"), "https://static.crates.io//foo/bar");
    assert_eq!(crate_location(&None, "a", "1+2"), "/crates/a/a-1%2B2.crate");
}

#[test]
fn plus_signs_escaped() {
    assert_eq!(escape_plus_signs("a+b++"), "a%2Bb%2B%2B");
    assert_eq!(escape_plus_signs(""), "");
    assert_eq!(escape_plus_signs("plain"), "plain");
}
