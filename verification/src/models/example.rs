//! One runnable example, and where it comes from.
use vstd::prelude::*;
use crate::pathbufext::{absolutize_from, absolutized, is_absolute};
use crate::text::opt_text;

verus! {

/// Represents the *type* of an example file.
#[derive(Clone, Debug, PartialEq, Eq, Hash)]
pub enum ExampleType {
    /// This represents a *simple* example file, for ex. a `hello_world.rs`
    /// file in an `examples/` folder.
    Simple,
    /// This represents a `main.rs` file nested within a sub-folder in an
    /// `examples/` folder; the Rust book also calls this a **multi-file**
    /// example.
    MultiFile,
    /// This represents a binary crate, i.e. a sub-folder containing a
    /// `Cargo.toml` file in an `examples/` folder: the path of that file,
    /// and the name of the binary target where the crate has several.
    Crate(String, Option<String>),
    /// This represents an example file with a *custom path* defined in the
    /// `Cargo.toml` file of a Cargo project.
    Custom,
}

/// The mathematical content of an [`ExampleType`].
pub enum ExampleTypeView {
    Simple,
    MultiFile,
    Crate(Seq<char>, Option<Seq<char>>),
    Custom,
}

impl View for ExampleType {
    type V = ExampleTypeView;

    open spec fn view(&self) -> ExampleTypeView {
        match self {
            ExampleType::Simple => ExampleTypeView::Simple,
            ExampleType::MultiFile => ExampleTypeView::MultiFile,
            ExampleType::Crate(manifest, binary) => ExampleTypeView::Crate(
                manifest@,
                opt_text(*binary),
            ),
            ExampleType::Custom => ExampleTypeView::Custom,
        }
    }
}

impl ExampleType {
    /// A copy of the type.
    pub fn duplicate(&self) -> (r: ExampleType)
        ensures
            r@ == self@,
    {
        match self {
            ExampleType::Simple => ExampleType::Simple,
            ExampleType::MultiFile => ExampleType::MultiFile,
            ExampleType::Crate(manifest, binary) => ExampleType::Crate(
                manifest.clone(),
                crate::text::copy_opt(binary),
            ),
            ExampleType::Custom => ExampleType::Custom,
        }
    }
}

/// Represents an *example file* in a Cargo project.
#[derive(Clone, Debug)]
pub struct ExampleFile {
    /// The *file stem* (i.e. filename without the extension) for an
    /// example file, or the *folder name* in the case of a `main.rs`
    /// example within a sub-folder.
    pub name: String,
    /// Path to example file
    pub path: String,
    /// Type of example file
    pub path_type: ExampleType,
    /// A space-separated list of required features for the example (or
    /// binary) to run; `None` where it requires none.
    pub required_features: Option<String>,
}

/// The mathematical content of an [`ExampleFile`].
pub struct ExampleFileView {
    pub name: Seq<char>,
    pub path: Seq<char>,
    pub path_type: ExampleTypeView,
    pub required_features: Option<Seq<char>>,
}

impl View for ExampleFile {
    type V = ExampleFileView;

    open spec fn view(&self) -> ExampleFileView {
        ExampleFileView {
            name: self.name@,
            path: self.path@,
            path_type: self.path_type@,
            required_features: opt_text(self.required_features),
        }
    }
}

impl ExampleFile {
    /// Create an `ExampleFile` from a example `name`, a (possibly relative)
    /// `path`, and a list of *required features* for the example.
    ///
    /// # Arguments
    /// * `root` - The current working directory, used in case the path is
    ///            relative. It is an absolute path.
    /// * `name` - The name of the example file, without the extension
    /// * `path` - The path to the example file. This can be a relative path
    ///            and contain characters such as `.` and `..` for instance.
    pub fn new(root: &str, name: String, path: &str, required_features: Option<String>) -> (r:
        ExampleFile)
        requires
            is_absolute(root@),
        ensures
            r@ == (ExampleFileView {
                name: name@,
                path: absolutized(path@, root@),
                path_type: ExampleTypeView::Custom,
                required_features: opt_text(required_features),
            }),
            is_absolute(r@.path),
    {
        let path = absolutize_from(path, root);
        ExampleFile { name, path, path_type: ExampleType::Custom, required_features }
    }

    /// A copy of the example.
    pub fn duplicate(&self) -> (r: ExampleFile)
        ensures
            r@ == self@,
    {
        ExampleFile {
            name: self.name.clone(),
            path: self.path.clone(),
            path_type: self.path_type.duplicate(),
            required_features: crate::text::copy_opt(&self.required_features),
        }
    }
}

/// Two example files are the same where their paths are.
impl PartialEq for ExampleFile {
    fn eq(&self, other: &Self) -> (r: bool) {
        self.path == other.path
    }
}

impl Eq for ExampleFile {

}

impl vstd::std_specs::cmp::PartialEqSpecImpl for ExampleFile {
    open spec fn obeys_eq_spec() -> bool {
        true
    }

    open spec fn eq_spec(&self, other: &Self) -> bool {
        self.path@ == other.path@
    }
}

} // verus!
