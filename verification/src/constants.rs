//! Project-specific constant declarations
use vstd::prelude::*;

verus! {

/// Project binary command name
pub const BINARY_NAME: &'static str = "rx";

/// The directory which contains *examples* for Cargo projects
pub const EXAMPLES_FOLDER: &'static str = "examples";

/// Rust file extension
pub const RUST_FILE_EXT: &'static str = "rs";

/// Name of the entry point of a multi-file example, and of a crate
pub const MAIN_RS: &'static str = "main.rs";

/// Name of the source folder of a crate
pub const SRC_FOLDER: &'static str = "src";

/// Name of the `Cargo.toml` file in Cargo projects
pub const CARGO_TOML: &'static str = "Cargo.toml";

/// Name of the folder that holds the replay cache
pub const REPLAYS_FOLDER: &'static str = "replays";

/// Name of the `settings.toml` file for local project cache
pub const SETTINGS_TOML: &'static str = "settings.toml";

/// The `cargo` command
pub const CARGO_CMD: &'static str = "cargo";

/// The `fzf` (fuzzy finder) command
pub const FZF_CMD: &'static str = "fzf";

/// The word that parts the options of `cargo` from those of the example
pub const SEPARATOR: &'static str = "--";

/// The path of an example that only the manifest names
pub const NO_PATH: &'static str = "N/A";

/// Newline character as a byte
pub const NL: u8 = 10;

/// Space character as a byte
pub const SPACE: u8 = 32;

} // verus!
