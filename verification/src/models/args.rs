//! What the user asked for on the command line, as plain values.
use vstd::prelude::*;
use crate::text::{opt_text, texts};

verus! {

/// The options that are handed on to `cargo run`; the same for every example
/// that is run in one go.
#[derive(Clone, Debug)]
pub struct InvocationConfig {
    /// No output printed to stdout
    pub quiet: bool,
    /// Number of parallel jobs
    pub jobs: Option<usize>,
    /// Build artifacts in release mode, with optimizations
    pub release: bool,
    /// Build artifacts with the specified Cargo profile
    pub profile: Option<String>,
    /// List of features to activate
    pub features: Vec<String>,
    /// Activate all available features
    pub all_features: bool,
    /// Do not activate the `default` feature
    pub no_default_features: bool,
    /// Build for the target triples
    pub target: Vec<String>,
    /// Directory for all generated artifacts
    pub target_dir: Option<String>,
    /// Path to `Cargo.toml`
    pub manifest_path: Option<String>,
    /// Ignore the `rust-version` specification in packages
    pub ignore_rust_version: bool,
    /// Error formats
    pub message_format: Vec<String>,
    /// Output the build graph in JSON (unstable)
    pub unit_graph: bool,
    /// How many times verbose output was asked for
    pub verbose: usize,
    /// Coloring: auto, always, never
    pub color: Option<String>,
    /// Require `Cargo.lock` and the cache to be up to date
    pub frozen: bool,
    /// Require `Cargo.lock` to be up to date
    pub locked: bool,
    /// Run without accessing the network
    pub offline: bool,
    /// Override a configuration value (unstable)
    pub config: Vec<String>,
    /// Unstable (nightly-only) flags to Cargo
    pub unstable_flags: Vec<String>,
}

/// The mathematical content of an [`InvocationConfig`].
pub struct InvocationConfigView {
    pub quiet: bool,
    pub jobs: Option<nat>,
    pub release: bool,
    pub profile: Option<Seq<char>>,
    pub features: Seq<Seq<char>>,
    pub all_features: bool,
    pub no_default_features: bool,
    pub target: Seq<Seq<char>>,
    pub target_dir: Option<Seq<char>>,
    pub manifest_path: Option<Seq<char>>,
    pub ignore_rust_version: bool,
    pub message_format: Seq<Seq<char>>,
    pub unit_graph: bool,
    pub verbose: nat,
    pub color: Option<Seq<char>>,
    pub frozen: bool,
    pub locked: bool,
    pub offline: bool,
    pub config: Seq<Seq<char>>,
    pub unstable_flags: Seq<Seq<char>>,
}

impl View for InvocationConfig {
    type V = InvocationConfigView;

    open spec fn view(&self) -> InvocationConfigView {
        InvocationConfigView {
            quiet: self.quiet,
            jobs: match self.jobs {
                Some(n) => Some(n as nat),
                None => None,
            },
            release: self.release,
            profile: opt_text(self.profile),
            features: texts(self.features@),
            all_features: self.all_features,
            no_default_features: self.no_default_features,
            target: texts(self.target@),
            target_dir: opt_text(self.target_dir),
            manifest_path: opt_text(self.manifest_path),
            ignore_rust_version: self.ignore_rust_version,
            message_format: texts(self.message_format@),
            unit_graph: self.unit_graph,
            verbose: self.verbose as nat,
            color: opt_text(self.color),
            frozen: self.frozen,
            locked: self.locked,
            offline: self.offline,
            config: texts(self.config@),
            unstable_flags: texts(self.unstable_flags@),
        }
    }
}

impl InvocationConfigView {
    /// The configuration in which every option is at its default.
    pub open spec fn empty() -> InvocationConfigView {
        InvocationConfigView {
            quiet: false,
            jobs: None,
            release: false,
            profile: None,
            features: Seq::empty(),
            all_features: false,
            no_default_features: false,
            target: Seq::empty(),
            target_dir: None,
            manifest_path: None,
            ignore_rust_version: false,
            message_format: Seq::empty(),
            unit_graph: false,
            verbose: 0,
            color: None,
            frozen: false,
            locked: false,
            offline: false,
            config: Seq::empty(),
            unstable_flags: Seq::empty(),
        }
    }
}

impl Default for InvocationConfig {
    fn default() -> (r: InvocationConfig)
        ensures
            r@ == InvocationConfigView::empty(),
    {
        let r = InvocationConfig {
            quiet: false,
            jobs: None,
            release: false,
            profile: None,
            features: Vec::new(),
            all_features: false,
            no_default_features: false,
            target: Vec::new(),
            target_dir: None,
            manifest_path: None,
            ignore_rust_version: false,
            message_format: Vec::new(),
            unit_graph: false,
            verbose: 0,
            color: None,
            frozen: false,
            locked: false,
            offline: false,
            config: Vec::new(),
            unstable_flags: Vec::new(),
        };
        assert(r@.features =~= Seq::empty());
        assert(r@.target =~= Seq::empty());
        assert(r@.message_format =~= Seq::empty());
        assert(r@.config =~= Seq::empty());
        assert(r@.unstable_flags =~= Seq::empty());
        r
    }
}

/// What was asked of the runner itself.
#[derive(Clone, Debug)]
pub struct Args {
    /// Base options for `cargo run --example`
    pub cargo: InvocationConfig,
    /// Example script name
    pub name: Option<String>,
    /// Do not prompt for parameters and only use information entered previously
    pub replay: bool,
    /// True to prompt for arguments to the selected example script
    pub input_args: bool,
    /// Extra arguments to pass to the Cargo example script
    pub args: Vec<String>,
}

/// The mathematical content of [`Args`].
pub struct ArgsView {
    pub cargo: InvocationConfigView,
    pub name: Option<Seq<char>>,
    pub replay: bool,
    pub input_args: bool,
    pub args: Seq<Seq<char>>,
}

impl View for Args {
    type V = ArgsView;

    open spec fn view(&self) -> ArgsView {
        ArgsView {
            cargo: self.cargo@,
            name: opt_text(self.name),
            replay: self.replay,
            input_args: self.input_args,
            args: texts(self.args@),
        }
    }
}

impl Default for Args {
    fn default() -> (r: Args)
        ensures
            r@.cargo == InvocationConfigView::empty(),
            r@.name is None,
            !r@.replay,
            !r@.input_args,
            r@.args == Seq::<Seq<char>>::empty(),
    {
        let r = Args {
            cargo: InvocationConfig::default(),
            name: None,
            replay: false,
            input_args: false,
            args: Vec::new(),
        };
        assert(r@.args =~= Seq::empty());
        r
    }
}

} // verus!
