//! The data that the runner works on.
pub mod args;
pub mod cache;
pub mod catalog;
pub mod example;
pub mod guarantees;
pub mod manifest;
pub mod order;
pub mod path;
pub mod skim;

pub use args::{Args, ArgsView, InvocationConfig, InvocationConfigView};
pub use cache::{LastRun, LastRunView, ReplayConfig, ReplayConfigView};
pub use skim::{format_err, ExampleFileItem, LineKind};
pub use catalog::Catalog;
pub use example::{ExampleFile, ExampleFileView, ExampleType, ExampleTypeView};
pub use manifest::{DeclaredTarget, DeclaredTargetView, Manifest, ManifestView};
pub use path::{DirEntry, EntryKind, Location, NestedManifest, Paths, Probe};
