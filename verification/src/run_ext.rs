//! Assembling the command line that runs one example.
use vstd::prelude::*;
use crate::constants::CARGO_CMD;
use crate::models::args::{InvocationConfig, InvocationConfigView};
use crate::osstringext::{display_text, OsStrExt2};
use crate::text::{decimal, decimal_string, join, join_with, lemma_texts_push, repeat, repeated, texts};

verus! {

/// One word, if the switch is on.
pub open spec fn flag(on: bool, word: Seq<char>) -> Seq<Seq<char>> {
    if on {
        seq![word]
    } else {
        Seq::empty()
    }
}

/// An option and its value, if there is a value.
pub open spec fn option(word: Seq<char>, value: Option<Seq<char>>) -> Seq<Seq<char>> {
    match value {
        Some(v) => seq![word, v],
        None => Seq::empty(),
    }
}

/// The option once for each value, in the order of the values.
pub open spec fn each(word: Seq<char>, values: Seq<Seq<char>>) -> Seq<Seq<char>>
    decreases values.len(),
{
    if values.len() == 0 {
        Seq::empty()
    } else {
        each(word, values.drop_last()) + seq![word, values.last()]
    }
}

/// Whether the configuration needs the nightly toolchain.
pub open spec fn needs_unstable(cfg: InvocationConfigView) -> bool {
    cfg.config.len() > 0 || cfg.unstable_flags.len() > 0 || cfg.unit_graph
}

/// The words that name the example to run; with unstable options, the
/// nightly toolchain comes first and `-Z unstable-options` right after.
pub open spec fn run_words(cfg: InvocationConfigView, name: Seq<char>) -> Seq<Seq<char>> {
    if needs_unstable(cfg) {
        seq!["+nightly"@, "run"@, "--example"@, name, "-Z"@, "unstable-options"@]
    } else {
        seq!["run"@, "--example"@, name]
    }
}

/// The features to enable: all of them where that is asked for; else those
/// that the example requires, followed by those that the caller named.
pub open spec fn feature_words(
    cfg: InvocationConfigView,
    required_features: Option<Seq<char>>,
) -> Seq<Seq<char>> {
    if cfg.all_features {
        seq!["--all-features"@]
    } else {
        match required_features {
            Some(required) => if cfg.features.len() == 0 {
                seq!["--features"@, required]
            } else {
                seq!["--features"@, required + seq![' '] + join_with(cfg.features, " "@)]
            },
            None => if cfg.features.len() == 0 {
                Seq::empty()
            } else {
                seq!["--features"@, join_with(cfg.features, " "@)]
            },
        }
    }
}

/// `-v`, `-vv`, ...: a dash and one `v` for each level of verbosity.
pub open spec fn verbosity_words(level: nat) -> Seq<Seq<char>> {
    if level == 0 {
        Seq::empty()
    } else {
        seq![seq!['-'] + repeat('v', level)]
    }
}

/// The decimal notation of an optional number.
pub open spec fn opt_decimal(n: Option<nat>) -> Option<Seq<char>> {
    match n {
        Some(n) => Some(decimal(n)),
        None => None,
    }
}

/// The arguments with which `cargo` runs the example `name`: each option of
/// the configuration that is not at its default, in a fixed order, and then
/// the arguments for the example itself, as they are.
pub open spec fn invocation_args(
    cfg: InvocationConfigView,
    name: Seq<char>,
    args: Seq<Seq<char>>,
    required_features: Option<Seq<char>>,
) -> Seq<Seq<char>> {
    run_words(cfg, name)
        + flag(cfg.quiet, "--quiet"@)
        + option("--jobs"@, opt_decimal(cfg.jobs))
        + flag(cfg.release, "--release"@)
        + option("--profile"@, cfg.profile)
        + feature_words(cfg, required_features)
        + flag(cfg.no_default_features, "--no-default-features"@)
        + each("--target"@, cfg.target)
        + option("--target-dir"@, cfg.target_dir)
        + option("--manifest-path"@, cfg.manifest_path)
        + each("--message-format"@, cfg.message_format)
        + flag(cfg.unit_graph, "--unit-graph"@)
        + flag(cfg.ignore_rust_version, "--ignore-rust-version"@)
        + verbosity_words(cfg.verbose)
        + option("--color"@, cfg.color)
        + flag(cfg.frozen, "--frozen"@)
        + flag(cfg.locked, "--locked"@)
        + flag(cfg.offline, "--offline"@)
        + each("--config"@, cfg.config)
        + each("-Z"@, cfg.unstable_flags)
        + args
}

/// How each of the words is shown.
pub open spec fn display_words(words: Seq<Seq<char>>) -> Seq<Seq<char>> {
    words.map_values(|w: Seq<char>| display_text(w))
}

/// The line that shows the arguments to the user: each as it is displayed,
/// with a space between neighbours.
pub open spec fn command_line_text(words: Seq<Seq<char>>) -> Seq<char> {
    join_with(display_words(words), " "@)
}

fn push_word(words: &mut Vec<String>, word: &str)
    ensures
        texts(final(words)@) == texts(old(words)@).push(word@),
{
    let owned = word.to_owned();
    proof {
        lemma_texts_push(words@, owned);
    }
    words.push(owned);
}

fn push_flag(words: &mut Vec<String>, on: bool, word: &str)
    ensures
        texts(final(words)@) == texts(old(words)@) + flag(on, word@),
{
    if on {
        push_word(words, word);
    }
    assert(texts(words@) =~= texts(old(words)@) + flag(on, word@));
}

fn push_pair(words: &mut Vec<String>, word: &str, value: &str)
    ensures
        texts(final(words)@) == texts(old(words)@) + seq![word@, value@],
{
    push_word(words, word);
    push_word(words, value);
    assert(texts(words@) =~= texts(old(words)@) + seq![word@, value@]);
}

fn push_option(words: &mut Vec<String>, word: &str, value: &Option<String>)
    ensures
        texts(final(words)@) == texts(old(words)@) + option(word@, crate::text::opt_text(*value)),
{
    match value {
        Some(v) => {
            push_pair(words, word, v.as_str());
        },
        None => {
            assert(texts(words@) =~= texts(old(words)@) + Seq::<Seq<char>>::empty());
        },
    }
}

fn push_each(words: &mut Vec<String>, word: &str, values: &Vec<String>)
    ensures
        texts(final(words)@) == texts(old(words)@) + each(word@, texts(values@)),
{
    let mut i: usize = 0;
    assert(texts(values@).take(0) =~= Seq::<Seq<char>>::empty());
    assert(texts(words@) =~= texts(old(words)@) + each(word@, texts(values@).take(0)));
    while i < values.len()
        invariant
            i <= values.len(),
            texts(words@) == texts(old(words)@) + each(word@, texts(values@).take(i as int)),
        decreases values.len() - i,
    {
        let ghost before = texts(values@).take(i as int);
        let ghost after = texts(values@).take(i + 1);
        let ghost so_far = texts(words@);
        push_pair(words, word, values[i].as_str());
        proof {
            assert(after.drop_last() =~= before);
            assert(after.last() == values@[i as int]@);
            assert(so_far + seq![word@, values@[i as int]@] =~= texts(old(words)@) + each(
                word@,
                after,
            ));
        }
        i += 1;
    }
    assert(texts(values@).take(i as int) =~= texts(values@));
}

/// A command that is ready to be started.
#[derive(Clone, Debug, PartialEq, Eq)]
pub struct Invocation {
    /// The program to start
    pub program: String,
    /// The directory in which it is started
    pub working_dir: String,
    /// Its arguments
    pub arguments: Vec<String>,
    /// The arguments as they are shown to the user, on one line
    pub display: String,
}

/// Shows the arguments on one line: each in its displayed form, with a space
/// between neighbours.
pub fn command_line(words: &Vec<String>) -> (r: String)
    ensures
        r@ == command_line_text(texts(words@)),
{
    let mut shown: Vec<String> = Vec::new();
    let mut i: usize = 0;
    while i < words.len()
        invariant
            i <= words.len(),
            texts(shown@) == display_words(texts(words@).take(i as int)),
        decreases words.len() - i,
    {
        let one = words[i].as_str().display_string();
        proof {
            lemma_texts_push(shown@, one);
            assert(display_words(texts(words@).take(i as int)).push(one@) =~= display_words(
                texts(words@).take(i + 1),
            ));
        }
        shown.push(one);
        i += 1;
    }
    assert(texts(words@).take(i as int) =~= texts(words@));
    join(&shown, " ")
}

/// Defines the logic for running `cargo run --example`
pub trait RunExampleExt {
    /// The options that this value stands for.
    spec fn options(&self) -> InvocationConfigView;

    /// The call of `cargo run --example` on an example `name`
    ///
    /// # Arguments
    ///
    /// * `root_path` - the base path to the Cargo directory with a
    ///                 `Cargo.toml` file.
    /// * `name` - the name of the Cargo example to run.
    /// * `args` - additional arguments to pass to `cargo run --example`.
    /// * `required_features` - any required features to enable when running
    ///                         the example.
    fn run_example(
        &self,
        root_path: &str,
        name: &str,
        args: &Vec<String>,
        required_features: Option<&String>,
    ) -> (r: Invocation)
        ensures
            r.program@ == CARGO_CMD@,
            r.working_dir@ == root_path@,
            texts(r.arguments@) == invocation_args(
                self.options(),
                name@,
                texts(args@),
                match required_features {
                    Some(f) => Some(f@),
                    None => None,
                },
            ),
            r.display@ == command_line_text(texts(r.arguments@)),
    ;
}

fn push_run_words(words: &mut Vec<String>, cfg: &InvocationConfig, name: &str)
    requires
        old(words)@.len() == 0,
    ensures
        texts(final(words)@) == run_words(cfg@, name@),
{
    let unstable = cfg.config.len() > 0 || cfg.unstable_flags.len() > 0 || cfg.unit_graph;
    assert(texts(words@) =~= Seq::<Seq<char>>::empty());
    if unstable {
        push_word(words, "+nightly");
    }
    push_word(words, "run");
    push_word(words, "--example");
    push_word(words, name);
    if unstable {
        push_word(words, "-Z");
        push_word(words, "unstable-options");
    }
    assert(texts(words@) =~= run_words(cfg@, name@));
}

fn push_features(
    words: &mut Vec<String>,
    cfg: &InvocationConfig,
    required_features: Option<&String>,
)
    ensures
        texts(final(words)@) == texts(old(words)@) + feature_words(
            cfg@,
            match required_features {
                Some(f) => Some(f@),
                None => None,
            },
        ),
{
    assert(cfg@.features.len() == cfg.features.len());
    if cfg.all_features {
        push_word(words, "--all-features");
        assert(texts(words@) =~= texts(old(words)@) + seq!["--all-features"@]);
    } else {
        match required_features {
            Some(required) => {
                if cfg.features.len() == 0 {
                    push_pair(words, "--features", required.as_str());
                } else {
                    let others = join(&cfg.features, " ");
                    let mut enabled = required.clone();
                    enabled.push(' ');
                    enabled.append(others.as_str());
                    assert(enabled@ =~= required@ + seq![' '] + join_with(cfg@.features, " "@));
                    push_pair(words, "--features", enabled.as_str());
                }
            },
            None => {
                if cfg.features.len() > 0 {
                    let enabled = join(&cfg.features, " ");
                    push_pair(words, "--features", enabled.as_str());
                }
            },
        }
    }
    assert(texts(words@) =~= texts(old(words)@) + feature_words(
        cfg@,
        match required_features {
            Some(f) => Some(f@),
            None => None,
        },
    ));
}

fn push_verbosity(words: &mut Vec<String>, level: usize)
    ensures
        texts(final(words)@) == texts(old(words)@) + verbosity_words(level as nat),
{
    if level != 0 {
        let mut verbose = String::new();
        verbose.push('-');
        let marks = repeated('v', level);
        verbose.append(marks.as_str());
        assert(verbose@ =~= seq!['-'] + repeat('v', level as nat));
        push_word(words, verbose.as_str());
    }
    assert(texts(words@) =~= texts(old(words)@) + verbosity_words(level as nat));
}

fn push_jobs(words: &mut Vec<String>, jobs: Option<usize>)
    ensures
        texts(final(words)@) == texts(old(words)@) + option(
            "--jobs"@,
            opt_decimal(
                match jobs {
                    Some(n) => Some(n as nat),
                    None => None,
                },
            ),
        ),
{
    match jobs {
        Some(n) => {
            let count = decimal_string(n);
            push_pair(words, "--jobs", count.as_str());
        },
        None => {
            assert(texts(words@) =~= texts(old(words)@) + Seq::<Seq<char>>::empty());
        },
    }
}

fn push_all(words: &mut Vec<String>, more: &Vec<String>)
    ensures
        texts(final(words)@) == texts(old(words)@) + texts(more@),
{
    let mut i: usize = 0;
    assert(texts(words@) =~= texts(old(words)@) + texts(more@).take(0));
    while i < more.len()
        invariant
            i <= more.len(),
            texts(words@) == texts(old(words)@) + texts(more@).take(i as int),
        decreases more.len() - i,
    {
        let ghost so_far = texts(words@);
        push_word(words, more[i].as_str());
        assert(so_far.push(more@[i as int]@) =~= texts(old(words)@) + texts(more@).take(i + 1));
        i += 1;
    }
    assert(texts(more@).take(i as int) =~= texts(more@));
}

impl RunExampleExt for InvocationConfig {
    open spec fn options(&self) -> InvocationConfigView {
        self@
    }

    fn run_example(
        &self,
        root_path: &str,
        name: &str,
        args: &Vec<String>,
        required_features: Option<&String>,
    ) -> (r: Invocation) {
        let mut run: Vec<String> = Vec::new();
        push_run_words(&mut run, self, name);
        push_flag(&mut run, self.quiet, "--quiet");
        push_jobs(&mut run, self.jobs);
        push_flag(&mut run, self.release, "--release");
        push_option(&mut run, "--profile", &self.profile);
        push_features(&mut run, self, required_features);
        push_flag(&mut run, self.no_default_features, "--no-default-features");
        push_each(&mut run, "--target", &self.target);
        push_option(&mut run, "--target-dir", &self.target_dir);
        push_option(&mut run, "--manifest-path", &self.manifest_path);
        push_each(&mut run, "--message-format", &self.message_format);
        push_flag(&mut run, self.unit_graph, "--unit-graph");
        push_flag(&mut run, self.ignore_rust_version, "--ignore-rust-version");
        push_verbosity(&mut run, self.verbose);
        push_option(&mut run, "--color", &self.color);
        push_flag(&mut run, self.frozen, "--frozen");
        push_flag(&mut run, self.locked, "--locked");
        push_flag(&mut run, self.offline, "--offline");
        push_each(&mut run, "--config", &self.config);
        push_each(&mut run, "-Z", &self.unstable_flags);
        push_all(&mut run, args);
        let display = command_line(&run);
        Invocation {
            program: CARGO_CMD.to_owned(),
            working_dir: root_path.to_owned(),
            arguments: run,
            display,
        }
    }
}

} // verus!
