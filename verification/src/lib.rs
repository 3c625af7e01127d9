//! A runner for the examples of a Cargo project: it catalogs the examples,
//! selects some of them, and assembles the `cargo run --example` command
//! lines that run them.
//!
//! The library reads no file and starts no process. It is handed what the
//! file system holds, says what is to be done, and is told how that went.
pub mod cache;
pub mod constants;
pub mod models;
pub mod osstringext;
pub mod pathbufext;
pub mod run_ext;
pub mod run_impl;
pub mod text;
pub mod types;

pub use cache::{get_last_replay, last_replay_path, save_last_replay};
pub use models::{
    format_err, Args, ArgsView, Catalog, DeclaredTarget, DirEntry, EntryKind, ExampleFile,
    ExampleFileItem, ExampleFileView, ExampleType, ExampleTypeView, InvocationConfig,
    InvocationConfigView, LastRun, LastRunView, Location, Manifest, NestedManifest, Paths, Probe,
    ReplayConfig, ReplayConfigView,
};
pub use osstringext::{OsStrExt2, OsStrExt3};
pub use pathbufext::PathBufExt;
pub use run_ext::{Invocation, RunExampleExt};
pub use run_impl::{process_input, Action, Event, Outcome, Phase, Session};
pub use types::{Failure, FailureView};
