//! Where a project lies, what its examples folder holds, and the catalog of
//! examples that follows from the two.
use vstd::prelude::*;
use crate::constants::{CARGO_TOML, EXAMPLES_FOLDER, MAIN_RS, NO_PATH, RUST_FILE_EXT, SRC_FOLDER};
use crate::models::catalog::{merged, rank, Catalog, Rank};
use crate::models::example::{ExampleFile, ExampleFileView, ExampleType, ExampleTypeView};
use crate::models::manifest::{
    features_of, parse_manifest, parsed_manifest, required_features, targets, DeclaredTarget,
    DeclaredTargetView, Manifest,
};
use crate::pathbufext::{
    absolutize_from, absolutized, ancestors, ancestors_of, extension, extension_of, file_stem,
    file_stem_of, is_absolute, last_component, last_of, path_join, path_joined,
};
use crate::text::{lemma_texts_push, texts, to_chars};
use crate::types::{Failure, FailureView};

verus! {

/// The manifest of a folder below the examples folder.
#[derive(Clone, Debug, PartialEq, Eq)]
pub enum NestedManifest {
    /// The folder holds no manifest file.
    Missing,
    /// The folder holds a manifest file that could not be read; the text
    /// says why.
    Unreadable(String),
    /// The bytes of the manifest file.
    Content(Vec<u8>),
}

/// The mathematical content of a [`NestedManifest`].
pub enum NestedManifestView {
    Missing,
    Unreadable(Seq<char>),
    Content(Seq<u8>),
}

impl View for NestedManifest {
    type V = NestedManifestView;

    open spec fn view(&self) -> NestedManifestView {
        match self {
            NestedManifest::Missing => NestedManifestView::Missing,
            NestedManifest::Unreadable(text) => NestedManifestView::Unreadable(text@),
            NestedManifest::Content(bytes) => NestedManifestView::Content(bytes@),
        }
    }
}

/// What the file system says of one entry of the examples folder.
#[derive(Clone, Debug, PartialEq, Eq)]
pub enum EntryKind {
    /// A folder: whether it holds a file `main.rs`, its manifest, and
    /// whether it holds a file `src/main.rs`.
    Directory { has_main: bool, manifest: NestedManifest, has_src_main: bool },
    /// A regular file.
    File,
    /// Anything else, or an entry that could not be looked at.
    Other,
}

/// The mathematical content of an [`EntryKind`].
pub enum EntryKindView {
    Directory { has_main: bool, manifest: NestedManifestView, has_src_main: bool },
    File,
    Other,
}

impl View for EntryKind {
    type V = EntryKindView;

    open spec fn view(&self) -> EntryKindView {
        match self {
            EntryKind::Directory { has_main, manifest, has_src_main } => EntryKindView::Directory {
                has_main: *has_main,
                manifest: manifest@,
                has_src_main: *has_src_main,
            },
            EntryKind::File => EntryKindView::File,
            EntryKind::Other => EntryKindView::Other,
        }
    }
}

/// One entry of the examples folder.
#[derive(Clone, Debug, PartialEq, Eq)]
pub struct DirEntry {
    /// The name of the entry within the examples folder
    pub file_name: String,
    /// What the entry is
    pub kind: EntryKind,
}

/// The mathematical content of a [`DirEntry`].
pub struct DirEntryView {
    pub file_name: Seq<char>,
    pub kind: EntryKindView,
}

impl View for DirEntry {
    type V = DirEntryView;

    open spec fn view(&self) -> DirEntryView {
        DirEntryView { file_name: self.file_name@, kind: self.kind@ }
    }
}

/// The contents of a list of entries.
pub open spec fn dir_entries(v: Seq<DirEntry>) -> Seq<DirEntryView> {
    v.map_values(|e: DirEntry| e@)
}

/// The example that the entry at `path` is by itself, if it is one:
/// a folder with a `main.rs` is a multi-file example under the folder's
/// name; a folder with a manifest is a crate under the folder's name, whose
/// entry point is its `src/main.rs`, or else its manifest; a file with the
/// extension `rs` is a simple example under its stem.
pub open spec fn classified(path: Seq<char>, kind: EntryKindView) -> Option<ExampleFileView> {
    match kind {
        EntryKindView::Directory { has_main, manifest, has_src_main } => {
            if has_main {
                match last_component(path) {
                    Some(name) => Some(
                        ExampleFileView {
                            name,
                            path: path_joined(path, MAIN_RS@),
                            path_type: ExampleTypeView::MultiFile,
                            required_features: None,
                        },
                    ),
                    None => None,
                }
            } else if !(manifest is Missing) {
                match last_component(path) {
                    Some(name) => Some(
                        ExampleFileView {
                            name,
                            path: if has_src_main {
                                path_joined(path_joined(path, SRC_FOLDER@), MAIN_RS@)
                            } else {
                                path_joined(path, CARGO_TOML@)
                            },
                            path_type: ExampleTypeView::Crate(
                                path_joined(path, CARGO_TOML@),
                                None,
                            ),
                            required_features: None,
                        },
                    ),
                    None => None,
                }
            } else {
                None
            }
        },
        EntryKindView::File => {
            if extension_of(path) == Some(RUST_FILE_EXT@) {
                match file_stem_of(path) {
                    Some(stem) => Some(
                        ExampleFileView {
                            name: stem,
                            path,
                            path_type: ExampleTypeView::Simple,
                            required_features: None,
                        },
                    ),
                    None => None,
                }
            } else {
                None
            }
        },
        EntryKindView::Other => None,
    }
}

/// The view of an optional example.
pub open spec fn opt_example(o: Option<ExampleFile>) -> Option<ExampleFileView> {
    match o {
        Some(file) => Some(file@),
        None => None,
    }
}

/// Whether the two texts are the same.
pub fn same_text(a: &str, b: &str) -> (r: bool)
    ensures
        r == (a@ == b@),
{
    match rank(a, b) {
        Rank::Same => true,
        _ => false,
    }
}

/// Whether the path starts at the root of the file system.
pub fn absolute(path: &str) -> (r: bool)
    ensures
        r == is_absolute(path@),
{
    let chars = to_chars(path);
    chars.len() > 0 && chars[0] == '/'
}

impl ExampleFile {
    /// Try to create an `ExampleFile` from an entry of the examples folder:
    /// its path, and what the file system says of it.
    pub fn try_from(path: String, kind: &EntryKind) -> (r: Option<ExampleFile>)
        ensures
            opt_example(r) == classified(path@, kind@),
            r matches Some(file) ==> (is_absolute(path@) ==> is_absolute(file@.path)),
    {
        match kind {
            EntryKind::Directory { has_main, manifest, has_src_main } => {
                if *has_main {
                    match last_of(path.as_str()) {
                        Some(name) => Some(
                            ExampleFile {
                                name,
                                path: path_join(path.as_str(), MAIN_RS),
                                path_type: ExampleType::MultiFile,
                                required_features: None,
                            },
                        ),
                        None => None,
                    }
                } else {
                    match manifest {
                        NestedManifest::Missing => None,
                        _ => match last_of(path.as_str()) {
                            Some(name) => {
                                let cargo_toml = path_join(path.as_str(), CARGO_TOML);
                                let entry_point = if *has_src_main {
                                    let src = path_join(path.as_str(), SRC_FOLDER);
                                    path_join(src.as_str(), MAIN_RS)
                                } else {
                                    cargo_toml.clone()
                                };
                                Some(
                                    ExampleFile {
                                        name,
                                        path: entry_point,
                                        path_type: ExampleType::Crate(cargo_toml, None),
                                        required_features: None,
                                    },
                                )
                            },
                            None => None,
                        },
                    }
                }
            },
            EntryKind::File => {
                let is_rust = match extension(path.as_str()) {
                    Some(ext) => same_text(ext.as_str(), RUST_FILE_EXT),
                    None => false,
                };
                if is_rust {
                    match file_stem(path.as_str()) {
                        Some(stem) => Some(
                            ExampleFile {
                                name: stem,
                                path,
                                path_type: ExampleType::Simple,
                                required_features: None,
                            },
                        ),
                        None => None,
                    }
                } else {
                    None
                }
            },
            EntryKind::Other => None,
        }
    }
}

/// A directory that may be the root of a project, and the two things that
/// make it one.
#[derive(Clone, Debug, PartialEq, Eq)]
pub struct Location {
    /// The directory
    pub root_path: String,
    /// Its examples folder
    pub examples_path: String,
    /// Its manifest file
    pub cargo_toml_path: String,
}

/// What the file system says of a [`Location`].
#[derive(Clone, Copy, Debug, PartialEq, Eq)]
pub struct Probe {
    /// Whether the examples folder is there, and is a folder
    pub examples_is_dir: bool,
    /// Whether the manifest is there, and is a file
    pub manifest_is_file: bool,
}

/// A location is the root of a project if it holds both an examples folder
/// and a manifest, and is given by absolute paths.
pub open spec fn qualifies(location: Location, probe: Probe) -> bool {
    probe.examples_is_dir && probe.manifest_is_file && is_absolute(location.root_path@)
        && is_absolute(location.examples_path@)
}

/// The candidate at `i` qualifies, and none before it does.
pub open spec fn is_nearest_root(candidates: Seq<Location>, probes: Seq<Probe>, i: int) -> bool {
    &&& 0 <= i < candidates.len()
    &&& i < probes.len()
    &&& qualifies(candidates[i], probes[i])
    &&& forall|j: int| 0 <= j < i ==> !qualifies(#[trigger] candidates[j], probes[j])
}

/// What is said where no root is found: both names that were looked for,
/// and where the search began.
pub open spec fn not_found_text(cwd: Seq<char>) -> Seq<char> {
    "could not find `"@ + CARGO_TOML@ + "` with an `"@ + EXAMPLES_FOLDER@ + "` folder in `"@ + cwd
        + "` or any parent directory"@
}

/// Represents *path info* on a Cargo project.
#[derive(Debug)]
pub struct Paths {
    /// *Base path* to a Cargo project directory
    pub root_path: String,
    /// Path to the *examples* in a Cargo project
    pub examples_path: String,
    /// Path to the *Cargo.toml* file
    pub cargo_toml_path: String,
    /// Parsed contents of the *Cargo.toml* manifest file
    pub manifest: Manifest,
}

/// What the manifest has put into the catalog, and the paths that its
/// examples claim.
pub struct Declared {
    pub files: Map<Seq<char>, ExampleFileView>,
    pub claimed: Seq<Seq<char>>,
}

/// The effect of one declared example. With a name and a path it enters the
/// catalog at that path, resolved from the root, and claims the path. With a
/// name and required features only, it enters the catalog at a placeholder
/// path. Otherwise it has no effect.
pub open spec fn declared(state: Declared, root: Seq<char>, target: DeclaredTargetView) -> Declared {
    match (target.path, target.name) {
        (Some(path), Some(name)) => Declared {
            files: state.files.insert(
                name,
                ExampleFileView {
                    name,
                    path: absolutized(path, root),
                    path_type: ExampleTypeView::Custom,
                    required_features: features_of(target),
                },
            ),
            claimed: state.claimed.push(absolutized(path, root)),
        },
        (None, Some(name)) => if features_of(target) is Some {
            Declared {
                files: state.files.insert(
                    name,
                    ExampleFileView {
                        name,
                        path: absolutized(NO_PATH@, root),
                        path_type: ExampleTypeView::Custom,
                        required_features: features_of(target),
                    },
                ),
                claimed: state.claimed,
            }
        } else {
            state
        },
        _ => state,
    }
}

/// The effect of all declared examples, in their order.
pub open spec fn declared_all(root: Seq<char>, all: Seq<DeclaredTargetView>) -> Declared
    decreases all.len(),
{
    if all.len() == 0 {
        Declared { files: Map::empty(), claimed: Seq::empty() }
    } else {
        declared(declared_all(root, all.drop_last()), root, all.last())
    }
}

/// The catalog after the named binaries of a crate have entered it, in
/// their order: each under its own name, at its own path resolved from the
/// crate's folder, or else at the crate's entry point.
pub open spec fn expanded(
    files: Map<Seq<char>, ExampleFileView>,
    crate_dir: Seq<char>,
    manifest_path: Seq<char>,
    entry_point: Seq<char>,
    bins: Seq<DeclaredTargetView>,
) -> Map<Seq<char>, ExampleFileView>
    decreases bins.len(),
{
    if bins.len() == 0 {
        files
    } else {
        let before = expanded(files, crate_dir, manifest_path, entry_point, bins.drop_last());
        let bin = bins.last();
        match bin.name {
            Some(name) => before.insert(
                name,
                ExampleFileView {
                    name,
                    path: match bin.path {
                        Some(path) => absolutized(path, crate_dir),
                        None => entry_point,
                    },
                    path_type: ExampleTypeView::Crate(manifest_path, Some(name)),
                    required_features: features_of(bin),
                },
            ),
            None => before,
        }
    }
}

/// The effect of one entry of the examples folder. An entry at a claimed
/// path, or one that is no example, has none. A crate whose manifest
/// declares more than one binary enters with each of its binaries. Any
/// other example is merged in under its name.
pub open spec fn scanned(
    files: Map<Seq<char>, ExampleFileView>,
    claimed: Seq<Seq<char>>,
    examples_path: Seq<char>,
    entry: DirEntryView,
) -> Result<Map<Seq<char>, ExampleFileView>, FailureView> {
    let path = path_joined(examples_path, entry.file_name);
    if claimed.contains(path) {
        Ok(files)
    } else {
        match classified(path, entry.kind) {
            None => Ok(files),
            Some(file) => match nested_manifest_of(file, entry.kind) {
                NestedManifestView::Missing => Ok(merged(files, file)),
                NestedManifestView::Unreadable(text) => Err(FailureView::Io(text)),
                NestedManifestView::Content(bytes) => match parsed_manifest(bytes) {
                    None => Err(FailureView::ManifestParse),
                    Some(manifest) => if manifest.bin.len() > 1 {
                        Ok(
                            expanded(
                                files,
                                path,
                                path_joined(path, CARGO_TOML@),
                                file.path,
                                manifest.bin,
                            ),
                        )
                    } else {
                        Ok(merged(files, file))
                    },
                },
            },
        }
    }
}

/// The manifest that decides how a classified entry enters the catalog:
/// that of the folder where the entry is a crate, and none otherwise.
pub open spec fn nested_manifest_of(file: ExampleFileView, kind: EntryKindView) -> NestedManifestView {
    match (file.path_type, kind) {
        (
            ExampleTypeView::Crate(_, _),
            EntryKindView::Directory { has_main, manifest, has_src_main },
        ) => manifest,
        _ => NestedManifestView::Missing,
    }
}

/// The effect of all entries of the examples folder, in their order, up to
/// the first that fails.
pub open spec fn scanned_all(
    files: Map<Seq<char>, ExampleFileView>,
    claimed: Seq<Seq<char>>,
    examples_path: Seq<char>,
    entries: Seq<DirEntryView>,
) -> Result<Map<Seq<char>, ExampleFileView>, FailureView>
    decreases entries.len(),
{
    if entries.len() == 0 {
        Ok(files)
    } else {
        match scanned_all(files, claimed, examples_path, entries.drop_last()) {
            Ok(before) => scanned(before, claimed, examples_path, entries.last()),
            Err(e) => Err(e),
        }
    }
}

/// The catalog of a project: what its manifest declares, and then what its
/// examples folder holds.
pub open spec fn catalog_of(
    root: Seq<char>,
    examples_path: Seq<char>,
    declared_examples: Seq<DeclaredTargetView>,
    entries: Seq<DirEntryView>,
) -> Result<Map<Seq<char>, ExampleFileView>, FailureView> {
    let from_manifest = declared_all(root, declared_examples);
    scanned_all(from_manifest.files, from_manifest.claimed, examples_path, entries)
}

/// Every entry stands under its own name, at an absolute path.
pub open spec fn well_kept(files: Map<Seq<char>, ExampleFileView>) -> bool {
    forall|name: Seq<char>|
        files.dom().contains(name) ==> (#[trigger] files[name]).name == name && is_absolute(
            files[name].path,
        )
}

fn contains_text(list: &Vec<String>, text: &str) -> (r: bool)
    ensures
        r == texts(list@).contains(text@),
{
    let mut i: usize = 0;
    while i < list.len()
        invariant
            i <= list.len(),
            forall|j: int| 0 <= j < i ==> texts(list@)[j] != text@,
        decreases list.len() - i,
    {
        if same_text(list[i].as_str(), text) {
            assert(texts(list@)[i as int] == text@);
            return true;
        }
        i += 1;
    }
    false
}

fn declare(files: &mut Catalog, claimed: &mut Vec<String>, root: &str, target: &DeclaredTarget)
    requires
        is_absolute(root@),
        well_kept(old(files)@),
    ensures
        (Declared { files: final(files)@, claimed: texts(final(claimed)@) }) == declared(
            Declared { files: old(files)@, claimed: texts(old(claimed)@) },
            root@,
            target@,
        ),
        well_kept(final(files)@),
{
    match &target.name {
        Some(name) => {
            match &target.path {
                Some(path) => {
                    let file = ExampleFile::new(
                        root,
                        name.clone(),
                        path.as_str(),
                        required_features(target),
                    );
                    proof {
                        lemma_texts_push(claimed@, file.path);
                    }
                    claimed.push(file.path.clone());
                    files.insert(file);
                },
                None => {
                    let features = required_features(target);
                    if features.is_some() {
                        let file = ExampleFile::new(root, name.clone(), NO_PATH, features);
                        files.insert(file);
                    }
                },
            }
        },
        None => {},
    }
}

fn expand(
    files: &mut Catalog,
    crate_dir: &str,
    manifest_path: &str,
    entry_point: &str,
    bins: &Vec<DeclaredTarget>,
)
    requires
        is_absolute(crate_dir@),
        is_absolute(entry_point@),
        well_kept(old(files)@),
    ensures
        final(files)@ == expanded(
            old(files)@,
            crate_dir@,
            manifest_path@,
            entry_point@,
            targets(bins@),
        ),
        well_kept(final(files)@),
{
    let mut i: usize = 0;
    assert(targets(bins@).take(0) =~= Seq::<DeclaredTargetView>::empty());
    while i < bins.len()
        invariant
            i <= bins.len(),
            is_absolute(crate_dir@),
            is_absolute(entry_point@),
            well_kept(files@),
            files@ == expanded(
                old(files)@,
                crate_dir@,
                manifest_path@,
                entry_point@,
                targets(bins@).take(i as int),
            ),
        decreases bins.len() - i,
    {
        let bin = &bins[i];
        proof {
            let upto = targets(bins@).take(i + 1);
            assert(upto.drop_last() =~= targets(bins@).take(i as int));
            assert(upto.last() == bin@);
        }
        match &bin.name {
            Some(name) => {
                let path = match &bin.path {
                    Some(p) => absolutize_from(p.as_str(), crate_dir),
                    None => entry_point.to_owned(),
                };
                let file = ExampleFile {
                    name: name.clone(),
                    path,
                    path_type: ExampleType::Crate(manifest_path.to_owned(), Some(name.clone())),
                    required_features: required_features(bin),
                };
                files.insert(file);
            },
            None => {},
        }
        i += 1;
    }
    assert(targets(bins@).take(i as int) =~= targets(bins@));
}

fn scan(files: &mut Catalog, claimed: &Vec<String>, examples_path: &str, entry: &DirEntry) -> (r:
    Result<(), Failure>)
    requires
        is_absolute(examples_path@),
        well_kept(old(files)@),
    ensures
        match r {
            Ok(_) => scanned(old(files)@, texts(claimed@), examples_path@, entry@) == Ok::<
                Map<Seq<char>, ExampleFileView>,
                FailureView,
            >(final(files)@) && well_kept(final(files)@),
            Err(e) => scanned(old(files)@, texts(claimed@), examples_path@, entry@) == Err::<
                Map<Seq<char>, ExampleFileView>,
                FailureView,
            >(e@),
        },
{
    let path = path_join(examples_path, entry.file_name.as_str());
    // if a file path is already specified in the `Cargo.toml`, then this
    // is an `ExampleType::Custom`, so we don't need to check the file.
    if contains_text(claimed, path.as_str()) {
        return Ok(());
    }
    match ExampleFile::try_from(path.clone(), &entry.kind) {
        None => Ok(()),
        Some(file) => {
            let is_crate = match &file.path_type {
                ExampleType::Crate(_, _) => true,
                _ => false,
            };
            if is_crate {
                // if we have a Cargo crate (with its own `Cargo.toml`) in
                // the `examples/` folder, we'll need to check that here.
                match &entry.kind {
                    EntryKind::Directory { has_main, manifest, has_src_main } => {
                        match manifest {
                            NestedManifest::Missing => {},
                            NestedManifest::Unreadable(text) => {
                                return Err(Failure::Io(text.clone()));
                            },
                            NestedManifest::Content(bytes) => {
                                let manifest = parse_manifest(bytes.as_slice())?;
                                // if we have multiple binary targets listed in
                                // the `Cargo.toml`, then we'll need to
                                // separately add each target as an example.
                                if manifest.bin.len() > 1 {
                                    let cargo_toml = path_join(path.as_str(), CARGO_TOML);
                                    expand(
                                        files,
                                        path.as_str(),
                                        cargo_toml.as_str(),
                                        file.path.as_str(),
                                        &manifest.bin,
                                    );
                                    return Ok(());
                                }
                            },
                        }
                    },
                    _ => {},
                }
            }
            // if the example name already exists in `Cargo.toml`, then
            // just update values as needed; else, we record and add a new
            // example file that can be run.
            files.merge(file);
            Ok(())
        },
    }
}

impl Paths {
    /// The root is given by absolute paths.
    pub open spec fn well_formed(&self) -> bool {
        is_absolute(self.root_path@) && is_absolute(self.examples_path@)
    }

    /// The directories in which a project root is looked for: the current
    /// directory and each directory above it, nearest first, each with the
    /// paths of its examples folder and of its manifest.
    pub fn candidates(cwd: &str) -> (r: Vec<Location>)
        ensures
            r@.len() == ancestors_of(cwd@).len(),
            r@.len() >= 1,
            r@[0].root_path@ == cwd@,
            forall|i: int|
                0 <= i < r@.len() ==> {
                    &&& (#[trigger] r@[i]).root_path@ == ancestors_of(cwd@)[i]
                    &&& r@[i].examples_path@ == path_joined(r@[i].root_path@, EXAMPLES_FOLDER@)
                    &&& r@[i].cargo_toml_path@ == path_joined(r@[i].root_path@, CARGO_TOML@)
                },
    {
        let dirs = ancestors(cwd);
        let mut r: Vec<Location> = Vec::new();
        let mut i: usize = 0;
        while i < dirs.len()
            invariant
                i <= dirs.len(),
                r@.len() == i,
                forall|j: int|
                    0 <= j < i ==> {
                        &&& (#[trigger] r@[j]).root_path@ == dirs@[j]@
                        &&& r@[j].examples_path@ == path_joined(r@[j].root_path@, EXAMPLES_FOLDER@)
                        &&& r@[j].cargo_toml_path@ == path_joined(r@[j].root_path@, CARGO_TOML@)
                    },
            decreases dirs.len() - i,
        {
            let root = dirs[i].clone();
            let examples_path = path_join(root.as_str(), EXAMPLES_FOLDER);
            let cargo_toml_path = path_join(root.as_str(), CARGO_TOML);
            r.push(Location { root_path: root, examples_path, cargo_toml_path });
            i += 1;
        }
        proof {
            assert forall|j: int| 0 <= j < r@.len() implies (#[trigger] r@[j]).root_path@
                == ancestors_of(cwd@)[j] by {
                assert(texts(dirs@)[j] == dirs@[j]@);
            }
        }
        r
    }

    /// Locates the base Cargo directory for the project among the
    /// candidates -- the first which contains a `Cargo.toml` file and an
    /// `examples` folder -- given what the file system says of each.
    ///
    /// # Errors
    /// `NotFound` if no candidate qualifies; the text names both things that
    /// were looked for, and `cwd`.
    pub fn locate(cwd: &str, candidates: Vec<Location>, probes: &Vec<Probe>) -> (r: Result<
        Location,
        Failure,
    >)
        ensures
            match r {
                Ok(found) => exists|i: int|
                    #[trigger] is_nearest_root(candidates@, probes@, i) && found == candidates@[i],
                Err(e) => e@ == FailureView::NotFound(not_found_text(cwd@)) && forall|j: int|
                    0 <= j < candidates@.len() && j < probes@.len() ==> !qualifies(
                        #[trigger] candidates@[j],
                        probes@[j],
                    ),
            },
            r matches Ok(found) ==> is_absolute(found.root_path@) && is_absolute(
                found.examples_path@,
            ),
    {
        let ghost given = candidates@;
        let mut list = candidates;
        let mut i: usize = 0;
        while i < list.len() && i < probes.len()
            invariant
                list@ == given,
                given == candidates@,
                forall|j: int| 0 <= j < i ==> !qualifies(#[trigger] given[j], probes@[j]),
            decreases list.len() - i,
        {
            let probe = probes[i];
            if probe.examples_is_dir && probe.manifest_is_file && absolute(
                list[i].root_path.as_str(),
            ) && absolute(list[i].examples_path.as_str()) {
                let found = list.swap_remove(i);
                assert(is_nearest_root(given, probes@, i as int) && found == given[i as int]);
                return Ok(found);
            }
            i += 1;
        }
        let mut text = String::new();
        text.append("could not find `");
        text.append(CARGO_TOML);
        text.append("` with an `");
        text.append(EXAMPLES_FOLDER);
        text.append("` folder in `");
        text.append(cwd);
        text.append("` or any parent directory");
        Err(Failure::NotFound(text))
    }

    /// The path details on a located root, with its manifest parsed from
    /// what reading the manifest file gave: its bytes, or the text of the
    /// error.
    ///
    /// # Errors
    /// `Io` with the text where the file could not be read; `ManifestParse`
    /// where its bytes are no manifest.
    pub fn resolve(location: Location, manifest: Result<&[u8], &str>) -> (r: Result<Paths, Failure>)
        ensures
            match r {
                Ok(paths) => manifest matches Ok(bytes) && parsed_manifest(bytes@) == Some(
                    paths.manifest@,
                ) && paths.root_path == location.root_path && paths.examples_path
                    == location.examples_path && paths.cargo_toml_path == location.cargo_toml_path,
                Err(e) => match manifest {
                    Ok(bytes) => parsed_manifest(bytes@) is None && e@
                        == FailureView::ManifestParse,
                    Err(text) => e@ == FailureView::Io(text@),
                },
            },
    {
        match manifest {
            Ok(bytes) => {
                let manifest = parse_manifest(bytes)?;
                Ok(
                    Paths {
                        root_path: location.root_path,
                        examples_path: location.examples_path,
                        cargo_toml_path: location.cargo_toml_path,
                        manifest,
                    },
                )
            },
            Err(text) => Err(Failure::Io(text.to_owned())),
        }
    }

    /// Returns the mapping of example name to resolved file (`ExampleFile`
    /// objects) of each *example* file in the Cargo project, given the
    /// entries of its examples folder.
    ///
    /// # Errors
    /// `Io` where the manifest of a crate among the entries could not be
    /// read; `ManifestParse` where it is no manifest.
    pub fn example_files(&self, entries: &Vec<DirEntry>) -> (r: Result<Catalog, Failure>)
        requires
            self.well_formed(),
        ensures
            match r {
                Ok(files) => catalog_of(
                    self.root_path@,
                    self.examples_path@,
                    self.manifest@.example,
                    dir_entries(entries@),
                ) == Ok::<Map<Seq<char>, ExampleFileView>, FailureView>(files@) && well_kept(files@),
                Err(e) => catalog_of(
                    self.root_path@,
                    self.examples_path@,
                    self.manifest@.example,
                    dir_entries(entries@),
                ) == Err::<Map<Seq<char>, ExampleFileView>, FailureView>(e@),
            },
    {
        let mut files = Catalog::new();
        let mut claimed: Vec<String> = Vec::new();
        let root = self.root_path.as_str();
        let examples = &self.manifest.example;
        let ghost all = targets(examples@);
        let mut i: usize = 0;
        proof {
            assert(all.take(0) =~= Seq::<DeclaredTargetView>::empty());
            assert(texts(claimed@) =~= Seq::<Seq<char>>::empty());
        }
        while i < examples.len()
            invariant
                i <= examples.len(),
                all == targets(examples@),
                is_absolute(root@),
                well_kept(files@),
                (Declared { files: files@, claimed: texts(claimed@) }) == declared_all(
                    root@,
                    all.take(i as int),
                ),
            decreases examples.len() - i,
        {
            proof {
                let upto = all.take(i + 1);
                assert(upto.drop_last() =~= all.take(i as int));
                assert(upto.last() == examples@[i as int]@);
            }
            declare(&mut files, &mut claimed, root, &examples[i]);
            i += 1;
        }
        assert(all.take(i as int) =~= all);
        let ghost from_manifest = Declared { files: files@, claimed: texts(claimed@) };
        let ghost views = dir_entries(entries@);
        let mut k: usize = 0;
        proof {
            assert(views.take(0) =~= Seq::<DirEntryView>::empty());
        }
        while k < entries.len()
            invariant
                k <= entries.len(),
                views == dir_entries(entries@),
                from_manifest == declared_all(self.root_path@, self.manifest@.example),
                is_absolute(self.examples_path@),
                well_kept(files@),
                from_manifest.claimed == texts(claimed@),
                scanned_all(
                    from_manifest.files,
                    from_manifest.claimed,
                    self.examples_path@,
                    views.take(k as int),
                ) == Ok::<Map<Seq<char>, ExampleFileView>, FailureView>(files@),
            decreases entries.len() - k,
        {
            proof {
                let upto = views.take(k + 1);
                assert(upto.drop_last() =~= views.take(k as int));
                assert(upto.last() == entries@[k as int]@);
            }
            match scan(&mut files, &claimed, self.examples_path.as_str(), &entries[k]) {
                Ok(_) => {},
                Err(e) => {
                    proof {
                        lemma_scan_failure(
                            from_manifest.files,
                            from_manifest.claimed,
                            self.examples_path@,
                            views,
                            k + 1,
                        );
                    }
                    return Err(e);
                },
            }
            k += 1;
        }
        assert(views.take(k as int) =~= views);
        Ok(files)
    }
}

/// Once the scan has failed at one entry, the entries behind it change
/// nothing.
pub proof fn lemma_scan_failure(
    files: Map<Seq<char>, ExampleFileView>,
    claimed: Seq<Seq<char>>,
    examples_path: Seq<char>,
    entries: Seq<DirEntryView>,
    upto: int,
)
    requires
        0 <= upto <= entries.len(),
        scanned_all(files, claimed, examples_path, entries.take(upto)) is Err,
    ensures
        scanned_all(files, claimed, examples_path, entries) == scanned_all(
            files,
            claimed,
            examples_path,
            entries.take(upto),
        ),
    decreases entries.len() - upto,
{
    if upto < entries.len() {
        assert(entries.take(upto + 1).drop_last() =~= entries.take(upto));
        lemma_scan_failure(files, claimed, examples_path, entries, upto + 1);
    } else {
        assert(entries.take(upto) =~= entries);
    }
}

} // verus!
