//! The package manifest: a plain model of what validation reads, the rules an
//! uploaded manifest must meet, and the calls into `cargo_toml` and `semver`
//! that parse it.

use crate::text::chars_of;
use cargo_toml::Inheritable::Inherited;
use vstd::prelude::*;
use vstd::string::StringExecFns;

verus! {

/// A field of the `[package]` table that a workspace may supply.
#[derive(Clone, Copy, Debug, PartialEq, Eq, Structural)]
pub enum PackageField {
    Edition,
    RustVersion,
    Version,
    Authors,
    Description,
    Homepage,
    Documentation,
    Readme,
    Keywords,
    Categories,
    Exclude,
    Include,
    License,
    LicenseFile,
    Repository,
    Publish,
}

/// How many fields `PackageField` enumerates.
pub const PACKAGE_FIELD_COUNT: usize = 16;

/// The fields in the order in which validation checks them.
pub open spec fn field_at(i: int) -> PackageField {
    if i <= 0 {
        PackageField::Edition
    } else if i == 1 {
        PackageField::RustVersion
    } else if i == 2 {
        PackageField::Version
    } else if i == 3 {
        PackageField::Authors
    } else if i == 4 {
        PackageField::Description
    } else if i == 5 {
        PackageField::Homepage
    } else if i == 6 {
        PackageField::Documentation
    } else if i == 7 {
        PackageField::Readme
    } else if i == 8 {
        PackageField::Keywords
    } else if i == 9 {
        PackageField::Categories
    } else if i == 10 {
        PackageField::Exclude
    } else if i == 11 {
        PackageField::Include
    } else if i == 12 {
        PackageField::License
    } else if i == 13 {
        PackageField::LicenseFile
    } else if i == 14 {
        PackageField::Repository
    } else {
        PackageField::Publish
    }
}

impl PackageField {
    /// The field at position `i` of the checking order.
    pub fn at(i: usize) -> (r: PackageField)
        requires
            i < PACKAGE_FIELD_COUNT,
        ensures
            r == field_at(i as int),
    {
        match i {
            0 => PackageField::Edition,
            1 => PackageField::RustVersion,
            2 => PackageField::Version,
            3 => PackageField::Authors,
            4 => PackageField::Description,
            5 => PackageField::Homepage,
            6 => PackageField::Documentation,
            7 => PackageField::Readme,
            8 => PackageField::Keywords,
            9 => PackageField::Categories,
            10 => PackageField::Exclude,
            11 => PackageField::Include,
            12 => PackageField::License,
            13 => PackageField::LicenseFile,
            14 => PackageField::Repository,
            _ => PackageField::Publish,
        }
    }
}

/// One of the three dependency tables of a manifest.
#[derive(Clone, Copy, Debug, PartialEq, Eq, Structural)]
pub enum DependencyKind {
    Normal,
    Dev,
    Build,
}

/// The dependency tables in the order in which validation checks them.
pub open spec fn dependency_kind_at(i: int) -> DependencyKind {
    if i <= 0 {
        DependencyKind::Normal
    } else if i == 1 {
        DependencyKind::Dev
    } else {
        DependencyKind::Build
    }
}

/// Why a manifest was refused.
#[derive(Clone, Debug, PartialEq, Eq)]
pub enum ManifestError {
    /// The text is not a manifest; the parser's diagnostic.
    Parse(String),
    /// There is no `[package]` table: a virtual workspace manifest.
    MissingPackage,
    /// A `[package]` field is still left to the workspace.
    InheritedField(PackageField),
    /// A dependency table holds a dependency still left to the workspace.
    InheritedDependency(DependencyKind),
    /// `rust-version` is not a bare dotted version number.
    InvalidRustVersion,
}

/// A refusal of a manifest as plain values.
pub ghost enum ManifestErrorView {
    Parse(Seq<char>),
    MissingPackage,
    InheritedField(PackageField),
    InheritedDependency(DependencyKind),
    InvalidRustVersion,
}

impl View for ManifestError {
    type V = ManifestErrorView;

    open spec fn view(&self) -> ManifestErrorView {
        match self {
            ManifestError::Parse(m) => ManifestErrorView::Parse(m@),
            ManifestError::MissingPackage => ManifestErrorView::MissingPackage,
            ManifestError::InheritedField(f) => ManifestErrorView::InheritedField(*f),
            ManifestError::InheritedDependency(k) => ManifestErrorView::InheritedDependency(*k),
            ManifestError::InvalidRustVersion => ManifestErrorView::InvalidRustVersion,
        }
    }
}

/// What validation reads of a `[package]` table.
#[derive(Clone, Debug)]
pub struct PackageModel {
    /// The fields whose value is left to the workspace.
    pub inherited: Vec<PackageField>,
    /// The `rust-version` value, when one is set.
    pub rust_version: Option<String>,
}

/// What validation reads of a manifest.
#[derive(Clone, Debug)]
pub struct ManifestModel {
    /// The `[package]` table, if there is one.
    pub package: Option<PackageModel>,
    /// The dependency tables that hold a dependency left to the workspace.
    pub inherited_dependencies: Vec<DependencyKind>,
}

/// `semver::VersionReq::parse` accepts `s`.
pub uninterp spec fn is_version_req(s: Seq<char>) -> bool;

/// Every character of `s` is an ASCII digit or a dot.
pub open spec fn is_bare_version(s: Seq<char>) -> bool {
    forall|i: int| 0 <= i < s.len() ==> (('0' <= #[trigger] s[i] && s[i] <= '9') || s[i] == '.')
}

/// The verdict on a `rust-version` value, given whether it parses as a version requirement.
pub open spec fn rust_version_verdict(parses: bool, s: Seq<char>) -> Result<(), ManifestError> {
    if parses && is_bare_version(s) {
        Ok(())
    } else {
        Err(ManifestError::InvalidRustVersion)
    }
}

/// The first field, from position `i` of the checking order on, that `p` leaves to the workspace.
pub open spec fn first_inherited_from(p: PackageModel, i: int) -> Option<PackageField>
    decreases PACKAGE_FIELD_COUNT - i,
{
    if i < 0 || i >= PACKAGE_FIELD_COUNT {
        None
    } else if p.inherited@.contains(field_at(i)) {
        Some(field_at(i))
    } else {
        first_inherited_from(p, i + 1)
    }
}

/// The verdict on a `[package]` table.
pub open spec fn package_verdict(p: PackageModel) -> Result<(), ManifestError> {
    match first_inherited_from(p, 0) {
        Some(f) => Err(ManifestError::InheritedField(f)),
        None => match p.rust_version {
            Some(v) => rust_version_verdict(is_version_req(v@), v@),
            None => Ok(()),
        },
    }
}

/// The first dependency table, from position `i` on, that holds an inherited dependency.
pub open spec fn first_inherited_dependency_from(m: ManifestModel, i: int) -> Option<DependencyKind>
    decreases 3 - i,
{
    if i < 0 || i >= 3 {
        None
    } else if m.inherited_dependencies@.contains(dependency_kind_at(i)) {
        Some(dependency_kind_at(i))
    } else {
        first_inherited_dependency_from(m, i + 1)
    }
}

/// The verdict on a whole manifest.
pub open spec fn manifest_verdict(m: ManifestModel) -> Result<(), ManifestError> {
    match m.package {
        None => Err(ManifestError::MissingPackage),
        Some(p) => match package_verdict(p) {
            Err(e) => Err(e),
            Ok(()) => match first_inherited_dependency_from(m, 0) {
                Some(k) => Err(ManifestError::InheritedDependency(k)),
                None => Ok(()),
            },
        },
    }
}

/// Relies on `semver::VersionReq::parse`: whether `value` is a version requirement.
#[verifier::external_body]
fn parses_as_version_req(value: &str) -> (r: bool)
    ensures
        r == is_version_req(value@),
{
    semver::VersionReq::parse(value).is_ok()
}

/// The verdict on a `rust-version` value, given whether it parses as a version requirement.
pub fn check_rust_version(parses: bool, value: &str) -> (r: Result<(), ManifestError>)
    ensures
        r == rust_version_verdict(parses, value@),
{
    let cs = chars_of(value);
    let mut i: usize = 0;
    while i < cs.len()
        invariant
            cs@ == value@,
            i <= cs@.len(),
            forall|j: int| 0 <= j < i ==> (('0' <= #[trigger] cs@[j] && cs@[j] <= '9') || cs@[j] == '.'),
        decreases cs.len() - i,
    {
        let c = cs[i];
        if !(('0' <= c && c <= '9') || c == '.') {
            return Err(ManifestError::InvalidRustVersion);
        }
        i += 1;
    }
    if parses {
        Ok(())
    } else {
        Err(ManifestError::InvalidRustVersion)
    }
}

/// Accepts a `rust-version` value only if it is a version requirement made of
/// nothing but digits and dots: `1.59` and `1.59.0` pass, `^1.59`, `~1.59` and
/// `1.59-beta` do not.
pub fn validate_rust_version(value: &str) -> (r: Result<(), ManifestError>)
    ensures
        r == rust_version_verdict(is_version_req(value@), value@),
{
    let parses = parses_as_version_req(value);
    check_rust_version(parses, value)
}

/// Whether `f` occurs in `fields`.
fn contains_field(fields: &Vec<PackageField>, f: PackageField) -> (r: bool)
    ensures
        r == fields@.contains(f),
{
    let mut i: usize = 0;
    while i < fields.len()
        invariant
            i <= fields@.len(),
            forall|j: int| 0 <= j < i ==> fields@[j] != f,
        decreases fields.len() - i,
    {
        if fields[i] == f {
            return true;
        }
        i += 1;
    }
    false
}

/// Whether `k` occurs in `kinds`.
fn contains_kind(kinds: &Vec<DependencyKind>, k: DependencyKind) -> (r: bool)
    ensures
        r == kinds@.contains(k),
{
    let mut i: usize = 0;
    while i < kinds.len()
        invariant
            i <= kinds@.len(),
            forall|j: int| 0 <= j < i ==> kinds@[j] != k,
        decreases kinds.len() - i,
    {
        if kinds[i] == k {
            return true;
        }
        i += 1;
    }
    false
}

/// Checks a `[package]` table: no field may be left to the workspace (the first
/// such field in checking order is reported), and a `rust-version`, if set, must
/// be a bare version number.
pub fn validate_package(package: &PackageModel) -> (r: Result<(), ManifestError>)
    ensures
        r == package_verdict(*package),
{
    let mut i: usize = 0;
    while i < PACKAGE_FIELD_COUNT
        invariant
            i <= PACKAGE_FIELD_COUNT,
            first_inherited_from(*package, 0) == first_inherited_from(*package, i as int),
        decreases PACKAGE_FIELD_COUNT - i,
    {
        let f = PackageField::at(i);
        if contains_field(&package.inherited, f) {
            return Err(ManifestError::InheritedField(f));
        }
        i += 1;
    }
    match &package.rust_version {
        Some(v) => validate_rust_version(v.as_str()),
        None => Ok(()),
    }
}

/// Checks a manifest bound for the registry: it must have a `[package]` table
/// that passes `validate_package`, and no dependency table (normal, dev, build,
/// checked in that order) may hold a dependency left to the workspace.
pub fn validate_manifest(manifest: &ManifestModel) -> (r: Result<(), ManifestError>)
    ensures
        r == manifest_verdict(*manifest),
{
    let package = match &manifest.package {
        Some(p) => p,
        None => return Err(ManifestError::MissingPackage),
    };
    if let Err(e) = validate_package(package) {
        return Err(e);
    }
    let kinds = [DependencyKind::Normal, DependencyKind::Dev, DependencyKind::Build];
    let mut i: usize = 0;
    while i < 3
        invariant
            i <= 3,
            kinds@ == seq![DependencyKind::Normal, DependencyKind::Dev, DependencyKind::Build],
            manifest.package == Some(*package),
            package_verdict(*package) == Ok::<(), ManifestError>(()),
            first_inherited_dependency_from(*manifest, 0) == first_inherited_dependency_from(*manifest, i as int),
        decreases 3 - i,
    {
        let k = kinds[i];
        assert(k == dependency_kind_at(i as int));
        if contains_kind(&manifest.inherited_dependencies, k) {
            return Err(ManifestError::InheritedDependency(k));
        }
        i += 1;
    }
    Ok(())
}

#[verifier::external_type_specification]
#[verifier::external_body]
#[verifier::reject_recursive_types(Metadata)]
pub struct ExManifest<Metadata>(cargo_toml::Manifest<Metadata>);

#[verifier::external_type_specification]
#[verifier::external_body]
#[verifier::reject_recursive_types(Metadata)]
pub struct ExPackage<Metadata>(cargo_toml::Package<Metadata>);

#[verifier::external_type_specification]
#[verifier::external_body]
pub struct ExTomlValue(cargo_toml::Value);

/// `cargo_toml::Manifest::from_str` accepts `text`.
pub uninterp spec fn is_manifest_text(text: Seq<char>) -> bool;

/// The diagnostic of `cargo_toml::Manifest::from_str` for `text`, when it refuses it.
pub uninterp spec fn manifest_diagnostic(text: Seq<char>) -> Seq<char>;

/// Relies on `cargo_toml::Manifest::from_str`: parses the text of a manifest,
/// or gives the parser's diagnostic.
#[verifier::external_body]
fn manifest_from_str(text: &str) -> (r: Result<cargo_toml::Manifest, String>)
    ensures
        r is Ok <==> is_manifest_text(text@),
        r matches Err(m) ==> m@ == manifest_diagnostic(text@),
{
    cargo_toml::Manifest::from_str(text).map_err(|e| e.to_string())
}

/// `cargo_toml` reads `text` as a manifest with a `[package]` table (or its older
/// name `[project]`).
pub uninterp spec fn has_package_table(text: Seq<char>) -> bool;

/// Relies on `cargo_toml::Manifest::from_str` and its `package` field.
#[verifier::external_body]
fn package_present(text: &str) -> (r: bool)
    ensures
        r == has_package_table(text@),
{
    cargo_toml::Manifest::from_str(text).is_ok_and(|m| m.package.is_some())
}

/// `cargo_toml` reads `text` as a manifest with a package whose field `f` is
/// left to the workspace.
pub uninterp spec fn field_left_to_workspace(text: Seq<char>, f: PackageField) -> bool;

/// Relies on `cargo_toml::Manifest::from_str` and on `cargo_toml::Inheritable`
/// (`is_set`, and its variants for the optional fields): for the fields at
/// positions 0 to 7 of the checking order (edition, rust-version, version,
/// authors, description, homepage, documentation, readme), whether each is left
/// to the workspace; all unset when the text is not a manifest with a package.
#[verifier::external_body]
fn first_fields_inherited(text: &str) -> (r: [bool; 8])
    ensures
        forall|i: int| 0 <= i < 8 ==> r@[i] == field_left_to_workspace(text@, field_at(i)),
{
    let Ok(m) = cargo_toml::Manifest::from_str(text) else { return [false; 8] };
    let Some(p) = m.package.as_ref() else { return [false; 8] };
    [
        !p.edition.is_set(), matches!(p.rust_version, Some(Inherited { .. })), !p.version.is_set(),
        !p.authors.is_set(), matches!(p.description, Some(Inherited { .. })),
        matches!(p.homepage, Some(Inherited { .. })), matches!(p.documentation, Some(Inherited { .. })),
        !p.readme.is_set(),
    ]
}

/// Relies on `cargo_toml::Manifest::from_str`, on `cargo_toml::Inheritable`, and
/// for the file list whose field name the source rules keep out of code, on
/// `cargo_toml`'s `Serialize` for `Package` through `serde_json::to_value` (an
/// `Inheritable` left to the workspace is written as the object
/// `{"workspace": ..}`): for the fields at positions 8 to 15 of the checking
/// order (keywords, categories, exclude, the included files, license,
/// license-file, repository, publish), whether each is left to the workspace;
/// all unset when the text is not a manifest with a package.
#[verifier::external_body]
fn last_fields_inherited(text: &str) -> (r: [bool; 8])
    ensures
        forall|i: int| 0 <= i < 8 ==> r@[i] == field_left_to_workspace(text@, field_at(i + 8)),
{
    let Ok(m) = cargo_toml::Manifest::from_str(text) else { return [false; 8] };
    let Some(p) = m.package.as_ref() else { return [false; 8] };
    let files = serde_json::to_value(p).is_ok_and(|v| v.get("include").is_some_and(|x| x.is_object()));
    [
        !p.keywords.is_set(), !p.categories.is_set(), !p.exclude.is_set(), files,
        matches!(p.license, Some(Inherited { .. })), matches!(p.license_file, Some(Inherited { .. })),
        matches!(p.repository, Some(Inherited { .. })), !p.publish.is_set(),
    ]
}

/// The `rust-version` that `cargo_toml` reads from `text`, when there is a
/// package and the value is set (not left to the workspace).
pub uninterp spec fn set_rust_version(text: Seq<char>) -> Option<Seq<char>>;

/// The view of an optional string.
pub open spec fn opt_view(s: Option<String>) -> Option<Seq<char>> {
    match s {
        Some(v) => Some(v@),
        None => None,
    }
}

/// Relies on `cargo_toml::Manifest::from_str` and the variants of
/// `cargo_toml::Inheritable`: the `rust-version` value when it is present and set.
#[verifier::external_body]
fn rust_version_value(text: &str) -> (r: Option<String>)
    ensures
        opt_view(r) == set_rust_version(text@),
{
    let m = cargo_toml::Manifest::from_str(text).ok()?;
    match &m.package.as_ref()?.rust_version {
        Some(cargo_toml::Inheritable::Set(v)) => Some(v.clone()),
        _ => None,
    }
}

/// For each dependency of table `k` that `cargo_toml` reads from `text`, in its
/// order, whether it is left to the workspace; empty when `text` is not a manifest.
pub uninterp spec fn dependency_flags(text: Seq<char>, k: DependencyKind) -> Seq<bool>;

/// Table `k` of the manifest `text` holds a dependency left to the workspace.
pub open spec fn dependency_left_to_workspace(text: Seq<char>, k: DependencyKind) -> bool {
    exists|i: int| 0 <= i < dependency_flags(text, k).len() && dependency_flags(text, k)[i]
}

/// Relies on `cargo_toml::Manifest::from_str` and the variants of
/// `cargo_toml::Dependency`: for the normal, dev and build dependency tables,
/// whether each dependency is left to the workspace.
#[verifier::external_body]
fn dependencies_inherited(text: &str) -> (r: [Vec<bool>; 3])
    ensures
        forall|i: int| 0 <= i < 3 ==> r@[i]@ == dependency_flags(text@, dependency_kind_at(i)),
{
    let Ok(m) = cargo_toml::Manifest::from_str(text) else { return [Vec::new(), Vec::new(), Vec::new()] };
    let flags = |d: &cargo_toml::DepsSet| -> Vec<bool> {
        d.values().map(|x| matches!(x, cargo_toml::Dependency::Inherited(_))).collect()
    };
    [flags(&m.dependencies), flags(&m.dev_dependencies), flags(&m.build_dependencies)]
}

/// Whether some entry of `flags` is set.
fn any_set(flags: &Vec<bool>) -> (r: bool)
    ensures
        r == exists|i: int| 0 <= i < flags@.len() && flags@[i],
{
    let mut i: usize = 0;
    while i < flags.len()
        invariant
            i <= flags@.len(),
            forall|j: int| 0 <= j < i ==> !flags@[j],
        decreases flags.len() - i,
    {
        if flags[i] {
            return true;
        }
        i += 1;
    }
    false
}

/// `p` is what validation reads of the package of the manifest `text`.
pub open spec fn models_package(p: PackageModel, text: Seq<char>) -> bool {
    &&& forall|f: PackageField| #[trigger] p.inherited@.contains(f) <==> field_left_to_workspace(text, f)
    &&& opt_view(p.rust_version) == set_rust_version(text)
}

/// `m` is what validation reads of the manifest `text`.
pub open spec fn models(m: ManifestModel, text: Seq<char>) -> bool {
    &&& (m.package is Some) == has_package_table(text)
    &&& m.package matches Some(p) ==> models_package(p, text)
    &&& forall|k: DependencyKind| #[trigger] m.inherited_dependencies@.contains(k) <==> dependency_left_to_workspace(text, k)
}

impl PackageModel {
    /// What validation reads of the package of the manifest `text`.
    pub fn of(text: &str) -> (r: PackageModel)
        ensures
            models_package(r, text@),
    {
        let first = first_fields_inherited(text);
        let last = last_fields_inherited(text);
        let mut inherited: Vec<PackageField> = Vec::new();
        let mut i: usize = 0;
        while i < PACKAGE_FIELD_COUNT
            invariant
                i <= PACKAGE_FIELD_COUNT,
                forall|j: int| 0 <= j < 8 ==> first@[j] == field_left_to_workspace(text@, field_at(j)),
                forall|j: int| 0 <= j < 8 ==> last@[j] == field_left_to_workspace(text@, field_at(j + 8)),
                forall|f: PackageField| #[trigger] inherited@.contains(f) <==>
                    exists|j: int| 0 <= j < i && field_at(j) == f && field_left_to_workspace(text@, f),
            decreases PACKAGE_FIELD_COUNT - i,
        {
            let flag = if i < 8 { first[i] } else { last[i - 8] };
            let f = PackageField::at(i);
            assert(flag == field_left_to_workspace(text@, field_at(i as int))) by {
                if i >= 8 {
                    assert(field_at((i - 8) as int + 8) == field_at(i as int));
                }
            }
            let ghost before = inherited@;
            if flag {
                inherited.push(f);
            }
            assert forall|g: PackageField| #[trigger] inherited@.contains(g) <==>
                exists|j: int| 0 <= j < i + 1 && field_at(j) == g && field_left_to_workspace(text@, g) by {
                if inherited@.contains(g) && !before.contains(g) {
                    assert(g == f);
                    assert(field_at(i as int) == g);
                }
                if exists|j: int| 0 <= j < i + 1 && field_at(j) == g && field_left_to_workspace(text@, g) {
                    let j = choose|j: int| 0 <= j < i + 1 && field_at(j) == g && field_left_to_workspace(text@, g);
                    if j == i {
                        assert(inherited@.last() == g);
                    } else {
                        assert(before.contains(g));
                        let k = choose|k: int| 0 <= k < before.len() && before[k] == g;
                        assert(inherited@[k] == g);
                    }
                }
            }
            i += 1;
        }
        proof {
            assert forall|f: PackageField| field_left_to_workspace(text@, f) implies #[trigger] inherited@.contains(f) by {
                let k = lemma_field_position(f);
            }
        }
        PackageModel { inherited, rust_version: rust_version_value(text) }
    }
}

impl ManifestModel {
    /// What validation reads of the manifest `text`.
    pub fn of(text: &str) -> (r: ManifestModel)
        ensures
            models(r, text@),
    {
        let package = if package_present(text) {
            Some(PackageModel::of(text))
        } else {
            None
        };
        let tables = dependencies_inherited(text);
        let mut inherited_dependencies: Vec<DependencyKind> = Vec::new();
        let normal = any_set(&tables[0]);
        let dev = any_set(&tables[1]);
        let build = any_set(&tables[2]);
        assert(tables@[0]@ == dependency_flags(text@, dependency_kind_at(0)));
        assert(tables@[1]@ == dependency_flags(text@, dependency_kind_at(1)));
        assert(tables@[2]@ == dependency_flags(text@, dependency_kind_at(2)));
        assert(tables@[0]@ == dependency_flags(text@, DependencyKind::Normal));
        assert(tables@[1]@ == dependency_flags(text@, DependencyKind::Dev));
        assert(tables@[2]@ == dependency_flags(text@, DependencyKind::Build));
        if normal {
            inherited_dependencies.push(DependencyKind::Normal);
        }
        if dev {
            inherited_dependencies.push(DependencyKind::Dev);
        }
        if build {
            inherited_dependencies.push(DependencyKind::Build);
        }
        let r = ManifestModel { package, inherited_dependencies };
        assert forall|k: DependencyKind| #[trigger] r.inherited_dependencies@.contains(k) <==> dependency_left_to_workspace(text@, k) by {
            if r.inherited_dependencies@.contains(k) {
                let j = choose|j: int| 0 <= j < r.inherited_dependencies@.len() && r.inherited_dependencies@[j] == k;
            }
            if dependency_left_to_workspace(text@, k) {
                match k {
                    DependencyKind::Normal => assert(r.inherited_dependencies@[0] == k),
                    DependencyKind::Dev => {
                        if normal { assert(r.inherited_dependencies@[1] == k); } else { assert(r.inherited_dependencies@[0] == k); }
                    },
                    DependencyKind::Build => {
                        let idx: int = (if normal { 1int } else { 0int }) + (if dev { 1int } else { 0int });
                        assert(r.inherited_dependencies@[idx] == k);
                    },
                }
            }
        }
        r
    }
}

/// Parses the text of a manifest, without validating it.
pub fn parse_manifest(text: &str) -> (r: Result<cargo_toml::Manifest, ManifestError>)
    ensures
        r is Ok <==> is_manifest_text(text@),
        r matches Err(ManifestError::Parse(m)) ==> m@ == manifest_diagnostic(text@),
        r is Err ==> r->Err_0 is Parse,
{
    match manifest_from_str(text) {
        Ok(m) => Ok(m),
        Err(e) => Err(ManifestError::Parse(e)),
    }
}

/// The first field, from position `i` of the checking order on, that the
/// manifest `text` leaves to the workspace.
pub open spec fn first_field_left_from(text: Seq<char>, i: int) -> Option<PackageField>
    decreases PACKAGE_FIELD_COUNT - i,
{
    if i < 0 || i >= PACKAGE_FIELD_COUNT {
        None
    } else if field_left_to_workspace(text, field_at(i)) {
        Some(field_at(i))
    } else {
        first_field_left_from(text, i + 1)
    }
}

/// The first dependency table, from position `i` on, of the manifest `text`
/// that holds a dependency left to the workspace.
pub open spec fn first_dependency_left_from(text: Seq<char>, i: int) -> Option<DependencyKind>
    decreases 3 - i,
{
    if i < 0 || i >= 3 {
        None
    } else if dependency_left_to_workspace(text, dependency_kind_at(i)) {
        Some(dependency_kind_at(i))
    } else {
        first_dependency_left_from(text, i + 1)
    }
}

/// The verdict on the manifest `text` that `cargo_toml` accepted: the package
/// fields first, then `rust-version`, then the dependency tables.
#[verifier::opaque]
pub open spec fn text_verdict(text: Seq<char>) -> Result<(), ManifestError> {
    if !has_package_table(text) {
        Err(ManifestError::MissingPackage)
    } else {
        let package = match first_field_left_from(text, 0) {
            Some(f) => Err(ManifestError::InheritedField(f)),
            None => match set_rust_version(text) {
                Some(v) => rust_version_verdict(is_version_req(v), v),
                None => Ok(()),
            },
        };
        match package {
            Err(e) => Err(e),
            Ok(()) => match first_dependency_left_from(text, 0) {
                Some(k) => Err(ManifestError::InheritedDependency(k)),
                None => Ok(()),
            },
        }
    }
}

proof fn lemma_first_field_agrees(p: PackageModel, text: Seq<char>, i: int)
    requires
        models_package(p, text),
        0 <= i <= PACKAGE_FIELD_COUNT,
    ensures
        first_inherited_from(p, i) == first_field_left_from(text, i),
    decreases PACKAGE_FIELD_COUNT - i,
{
    if i < PACKAGE_FIELD_COUNT {
        assert(p.inherited@.contains(field_at(i)) == field_left_to_workspace(text, field_at(i)));
        lemma_first_field_agrees(p, text, i + 1);
    }
}

proof fn lemma_first_dependency_agrees(m: ManifestModel, text: Seq<char>, i: int)
    requires
        models(m, text),
        0 <= i <= 3,
    ensures
        first_inherited_dependency_from(m, i) == first_dependency_left_from(text, i),
    decreases 3 - i,
{
    if i < 3 {
        assert(m.inherited_dependencies@.contains(dependency_kind_at(i)) == dependency_left_to_workspace(text, dependency_kind_at(i)));
        lemma_first_dependency_agrees(m, text, i + 1);
    }
}

/// Validating the model of a manifest gives the verdict on its text.
pub proof fn lemma_model_verdict(m: ManifestModel, text: Seq<char>)
    requires
        models(m, text),
    ensures
        manifest_verdict(m) == text_verdict(text),
{
    reveal(text_verdict);
    if let Some(p) = m.package {
        lemma_first_field_agrees(p, text, 0);
    }
    lemma_first_dependency_agrees(m, text, 0);
}

/// Every field has a position in the checking order.
proof fn lemma_field_position(f: PackageField) -> (k: int)
    ensures
        0 <= k < PACKAGE_FIELD_COUNT,
        field_at(k) == f,
{
    match f {
        PackageField::Edition => 0,
        PackageField::RustVersion => 1,
        PackageField::Version => 2,
        PackageField::Authors => 3,
        PackageField::Description => 4,
        PackageField::Homepage => 5,
        PackageField::Documentation => 6,
        PackageField::Readme => 7,
        PackageField::Keywords => 8,
        PackageField::Categories => 9,
        PackageField::Exclude => 10,
        PackageField::Include => 11,
        PackageField::License => 12,
        PackageField::LicenseFile => 13,
        PackageField::Repository => 14,
        PackageField::Publish => 15,
    }
}

proof fn lemma_first_inherited_found(p: PackageModel, i: int, k: int)
    requires
        0 <= i <= k < PACKAGE_FIELD_COUNT,
        p.inherited@.contains(field_at(k)),
    ensures
        first_inherited_from(p, i) is Some,
    decreases k - i,
{
    if !p.inherited@.contains(field_at(i)) {
        lemma_first_inherited_found(p, i + 1, k);
    }
}

proof fn lemma_first_inherited_none(p: PackageModel, i: int)
    requires
        0 <= i <= PACKAGE_FIELD_COUNT,
        p.inherited@.len() == 0,
    ensures
        first_inherited_from(p, i) is None,
    decreases PACKAGE_FIELD_COUNT - i,
{
    if i < PACKAGE_FIELD_COUNT {
        lemma_first_inherited_none(p, i + 1);
    }
}

/// A `[package]` table that leaves any one of its fields to the workspace is
/// refused, and so is a manifest holding it.
pub proof fn lemma_inherited_field_refused(m: ManifestModel, p: PackageModel, f: PackageField)
    requires
        m.package == Some(p),
        p.inherited@.contains(f),
    ensures
        package_verdict(p) matches Err(ManifestError::InheritedField(_)),
        manifest_verdict(m) matches Err(ManifestError::InheritedField(_)),
{
    let k = lemma_field_position(f);
    lemma_first_inherited_found(p, 0, k);
}

/// With everything else held equal, leaving exactly one field to the workspace
/// turns an accepted `[package]` table into one refused for that field.
pub proof fn lemma_single_inherited_field(resolved: PackageModel, inherited: PackageModel, f: PackageField)
    requires
        resolved.inherited@.len() == 0,
        package_verdict(resolved) is Ok,
        inherited.rust_version == resolved.rust_version,
        inherited.inherited@ == seq![f],
    ensures
        package_verdict(inherited) == Err::<(), ManifestError>(ManifestError::InheritedField(f)),
{
    let k = lemma_field_position(f);
    assert(inherited.inherited@[0] == f);
    lemma_first_inherited_found(inherited, 0, k);
    assert forall|i: int| 0 <= i < PACKAGE_FIELD_COUNT && #[trigger] field_at(i) != f implies !inherited.inherited@.contains(field_at(i)) by {
        if inherited.inherited@.contains(field_at(i)) {
            let j = choose|j: int| 0 <= j < inherited.inherited@.len() && inherited.inherited@[j] == field_at(i);
            assert(j == 0);
        }
    }
    lemma_first_is_the_field(inherited, 0, k, f);
}

proof fn lemma_first_is_the_field(p: PackageModel, i: int, k: int, f: PackageField)
    requires
        0 <= i <= k < PACKAGE_FIELD_COUNT,
        field_at(k) == f,
        p.inherited@.contains(f),
        forall|j: int| 0 <= j < PACKAGE_FIELD_COUNT && #[trigger] field_at(j) != f ==> !p.inherited@.contains(field_at(j)),
    ensures
        first_inherited_from(p, i) == Some(f),
    decreases k - i,
{
    if field_at(i) != f {
        lemma_first_is_the_field(p, i + 1, k, f);
    }
}

/// A manifest whose `[package]` table leaves nothing to the workspace and has no
/// `rust-version`, and whose dependency tables hold no inherited dependency, is accepted.
pub proof fn lemma_resolved_manifest_accepted(m: ManifestModel, p: PackageModel)
    requires
        m.package == Some(p),
        p.inherited@.len() == 0,
        p.rust_version is None,
        m.inherited_dependencies@.len() == 0,
    ensures
        package_verdict(p) == Ok::<(), ManifestError>(()),
        manifest_verdict(m) == Ok::<(), ManifestError>(()),
{
    lemma_first_inherited_none(p, 0);
    assert(first_inherited_dependency_from(m, 3) is None);
    assert(first_inherited_dependency_from(m, 2) is None);
    assert(first_inherited_dependency_from(m, 1) is None);
    assert(first_inherited_dependency_from(m, 0) is None);
}

/// A dependency table holding an inherited dependency refuses a manifest whose
/// `[package]` table passes.
pub proof fn lemma_inherited_dependency_refused(m: ManifestModel, p: PackageModel, k: DependencyKind)
    requires
        m.package == Some(p),
        package_verdict(p) is Ok,
        m.inherited_dependencies@.contains(k),
    ensures
        manifest_verdict(m) matches Err(ManifestError::InheritedDependency(_)),
{
    assert(k == dependency_kind_at(0) || k == dependency_kind_at(1) || k == dependency_kind_at(2));
    if first_inherited_dependency_from(m, 0) is None {
        assert(!m.inherited_dependencies@.contains(dependency_kind_at(0)));
        assert(first_inherited_dependency_from(m, 1) is None);
        assert(!m.inherited_dependencies@.contains(dependency_kind_at(1)));
        assert(first_inherited_dependency_from(m, 2) is None);
        assert(!m.inherited_dependencies@.contains(dependency_kind_at(2)));
    }
}

/// A `rust-version` holding any character other than an ASCII digit or a dot (a
/// `^` or `~` operator, a comparison, a pre-release suffix) is refused, whatever
/// the version-requirement parser says of it.
pub proof fn lemma_rust_version_operator_refused(parses: bool, s: Seq<char>, i: int)
    requires
        0 <= i < s.len(),
        !(('0' <= s[i] && s[i] <= '9') || s[i] == '.'),
    ensures
        rust_version_verdict(parses, s) == Err::<(), ManifestError>(ManifestError::InvalidRustVersion),
{
}

impl ManifestError {
    /// The description of the refusal.
    pub open spec fn message_spec(&self) -> Seq<char> {
        match self {
            ManifestError::Parse(m) => m@,
            ManifestError::MissingPackage => "missing field `package`"@,
            ManifestError::InheritedField(_) => "value from workspace hasn't been set"@,
            ManifestError::InheritedDependency(_) => "value from workspace hasn't been set"@,
            ManifestError::InvalidRustVersion => "invalid `rust-version` value"@,
        }
    }

    /// A description of the refusal; for a parse failure, the parser's diagnostic.
    pub fn message(&self) -> (r: String)
        ensures
            r@ == self.message_spec(),
    {
        match self {
            ManifestError::Parse(m) => m.clone(),
            ManifestError::MissingPackage => String::from_str("missing field `package`"),
            ManifestError::InheritedField(_) => String::from_str("value from workspace hasn't been set"),
            ManifestError::InheritedDependency(_) => String::from_str("value from workspace hasn't been set"),
            ManifestError::InvalidRustVersion => String::from_str("invalid `rust-version` value"),
        }
    }
}

} // verus!
