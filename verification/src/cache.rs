//! Where the record of the last run is kept, and what is written there.
use vstd::prelude::*;
use crate::constants::{BINARY_NAME, REPLAYS_FOLDER, SETTINGS_TOML};
use crate::models::cache::{LastRun, ReplayConfig};
use crate::pathbufext::{path_join, path_joined};
use crate::text::{copy_strings, texts};
use crate::types::{Failure, FailureView};

verus! {

/// `home::cargo_home`: the directory that Cargo keeps its files in, as the
/// environment of this process names it; `None` where it cannot be told.
/// Nothing is promised of the text: it depends on the environment.
#[verifier::external_body]
fn cargo_home() -> Option<String> {
    home::cargo_home().ok().map(|p| p.to_string_lossy().into_owned())
}

/// The path of the replay file below a Cargo home directory.
pub open spec fn replay_path_text(cargo_home: Seq<char>) -> Seq<char> {
    path_joined(
        path_joined(path_joined(cargo_home, BINARY_NAME@), REPLAYS_FOLDER@),
        SETTINGS_TOML@,
    )
}

/// The file below `cargo_home` in which the *last replay* info is stored.
pub fn replay_path_in(cargo_home: &str) -> (r: String)
    ensures
        r@ == replay_path_text(cargo_home@),
{
    let tool = path_join(cargo_home, BINARY_NAME);
    let replays = path_join(tool.as_str(), REPLAYS_FOLDER);
    path_join(replays.as_str(), SETTINGS_TOML)
}

/// Get the *local cache* file where we store the *last replay* info; `None`
/// where no Cargo home directory can be told.
pub fn last_replay_path() -> (r: Option<String>)
    ensures
        r matches Some(path) ==> exists|home: Seq<char>| path@ == replay_path_text(home),
{
    replay_path_of(cargo_home())
}

/// The *local cache* file, given the Cargo home directory as far as it
/// could be told: the replay file below that directory, and `None` where
/// there is no directory to go by.
pub fn replay_path_of(cargo_home: Option<String>) -> (r: Option<String>)
    ensures
        match cargo_home {
            Some(home) => r matches Some(path) && path@ == replay_path_text(home@),
            None => r is None,
        },
{
    match cargo_home {
        Some(home) => Some(replay_path_in(home.as_str())),
        None => None,
    }
}

/// Return the *last replay* info, which includes *example name* along with
/// the *arguments* it was last called with, given what was read from the
/// cache: `None` stands for a file that is missing or cannot be understood.
pub fn get_last_replay(stored: Option<ReplayConfig>) -> (r: Result<ReplayConfig, Failure>)
    ensures
        match stored {
            Some(config) => r == Ok::<ReplayConfig, Failure>(config),
            None => r matches Err(e) && e@ == FailureView::ReplayUnavailable,
        },
{
    match stored {
        Some(config) => Ok(config),
        None => Err(Failure::ReplayUnavailable),
    }
}

/// The *last replay* info to save, which includes *example name* along with
/// the *arguments* it was last called with. It replaces what was stored.
pub fn save_last_replay(name: &str, args: &Vec<String>) -> (r: ReplayConfig)
    ensures
        r@.last_run.name == name@,
        r@.last_run.arguments == texts(args@),
{
    let example = LastRun { name: name.to_owned(), arguments: copy_strings(args) };
    ReplayConfig { last_run: example }
}

} // verus!
