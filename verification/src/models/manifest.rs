//! What a manifest declares, as far as the runner reads it.
use vstd::prelude::*;
use crate::text::{join, join_with, opt_text, texts};
use crate::types::{Failure, FailureView};

verus! {

/// The error of `cargo_toml`, whose inside is not looked into.
#[verifier::external_type_specification]
#[verifier::external_body]
pub struct ExManifestError(cargo_toml::Error);

/// A target that a manifest declares: an example of a project, or a binary
/// of a crate.
#[derive(Clone, Debug, PartialEq, Eq)]
pub struct DeclaredTarget {
    /// The name of the target, where the manifest gives one
    pub name: Option<String>,
    /// The path of its entry point, where the manifest gives one
    pub path: Option<String>,
    /// The features that it needs in order to be built
    pub required_features: Vec<String>,
}

/// The mathematical content of a [`DeclaredTarget`].
pub struct DeclaredTargetView {
    pub name: Option<Seq<char>>,
    pub path: Option<Seq<char>>,
    pub required_features: Seq<Seq<char>>,
}

impl View for DeclaredTarget {
    type V = DeclaredTargetView;

    open spec fn view(&self) -> DeclaredTargetView {
        DeclaredTargetView {
            name: opt_text(self.name),
            path: opt_text(self.path),
            required_features: texts(self.required_features@),
        }
    }
}

/// The contents of a list of declared targets.
pub open spec fn targets(v: Seq<DeclaredTarget>) -> Seq<DeclaredTargetView> {
    v.map_values(|t: DeclaredTarget| t@)
}

/// The parsed contents of a *Cargo.toml* manifest file: the examples and
/// the binaries that it declares.
#[derive(Clone, Debug, PartialEq, Eq)]
pub struct Manifest {
    /// The `[[example]]` tables, in the order of the file
    pub example: Vec<DeclaredTarget>,
    /// The `[[bin]]` tables, in the order of the file
    pub bin: Vec<DeclaredTarget>,
}

/// The mathematical content of a [`Manifest`].
pub struct ManifestView {
    pub example: Seq<DeclaredTargetView>,
    pub bin: Seq<DeclaredTargetView>,
}

impl View for Manifest {
    type V = ManifestView;

    open spec fn view(&self) -> ManifestView {
        ManifestView { example: targets(self.example@), bin: targets(self.bin@) }
    }
}

/// What `cargo_toml` reads from the bytes of a manifest: the examples and
/// binaries declared there, or `None` where it rejects the bytes.
pub uninterp spec fn parsed_manifest(content: Seq<u8>) -> Option<ManifestView>;

/// `Manifest::from_slice` of `cargo_toml`: parses the bytes of a manifest,
/// without a look at the file system. Of what it reads, the declared
/// examples and binaries are handed on, field by field. The outcome is named
/// [`parsed_manifest`].
#[verifier::external_body]
fn read_manifest(content: &[u8]) -> (r: Result<Manifest, cargo_toml::Error>)
    ensures
        match r {
            Ok(manifest) => parsed_manifest(content@) == Some(manifest@),
            Err(_) => parsed_manifest(content@) is None,
        },
{
    let parsed = cargo_toml::Manifest::from_slice(content)?;
    let pick = |p: cargo_toml::Product| DeclaredTarget {
        name: p.name,
        path: p.path,
        required_features: p.required_features,
    };
    Ok(Manifest {
        example: parsed.example.into_iter().map(pick).collect(),
        bin: parsed.bin.into_iter().map(pick).collect(),
    })
}

/// The message of an error of `cargo_toml`, as its `Display` writes it.
#[verifier::external_body]
fn manifest_error_text(e: &cargo_toml::Error) -> String {
    e.to_string()
}

/// Parses the bytes of a manifest.
pub fn parse_manifest(content: &[u8]) -> (r: Result<Manifest, Failure>)
    ensures
        match r {
            Ok(manifest) => parsed_manifest(content@) == Some(manifest@),
            Err(e) => parsed_manifest(content@) is None && e@ == FailureView::ManifestParse,
        },
{
    match read_manifest(content) {
        Ok(manifest) => Ok(manifest),
        Err(e) => Err(Failure::ManifestParse(manifest_error_text(&e))),
    }
}

/// The features that a target requires, as one text with a space between
/// neighbours; `None` where it requires none.
pub open spec fn features_of(t: DeclaredTargetView) -> Option<Seq<char>> {
    if t.required_features.len() == 0 {
        None
    } else {
        Some(join_with(t.required_features, " "@))
    }
}

/// The features that the target requires, joined by spaces.
pub fn required_features(target: &DeclaredTarget) -> (r: Option<String>)
    ensures
        opt_text(r) == features_of(target@),
{
    if target.required_features.len() == 0 {
        None
    } else {
        Some(join(&target.required_features, " "))
    }
}

} // verus!
