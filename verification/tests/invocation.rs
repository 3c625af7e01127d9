use cargo_rx::run_ext::command_line;
use cargo_rx::{InvocationConfig, RunExampleExt};

fn strings(words: &[&str]) -> Vec<String> {
    words.iter().map(|w| w.to_string()).collect()
}

#[test]
fn it_works() {
    let result = 2 + 2;
    assert_eq!(result, 4);
}

#[test]
fn plain_run_has_three_arguments() {
    let cfg = InvocationConfig::default();
    let run = cfg.run_example("/project", "hello", &Vec::new(), None);
    assert_eq!(run.program, "cargo");
    assert_eq!(run.working_dir, "/project");
    assert_eq!(run.arguments, strings(&["run", "--example", "hello"]));
    assert_eq!(run.display, "run --example hello");
    assert!(!run.arguments.iter().any(|a| a == "--features"));
}

#[test]
fn required_features_alone() {
    let cfg = InvocationConfig::default();
    let required = "x y".to_string();
    let run = cfg.run_example("/project", "demo", &Vec::new(), Some(&required));
    assert_eq!(run.arguments, strings(&["run", "--example", "demo", "--features", "x y"]));
    assert_eq!(run.display, "run --example demo --features \"x y\"");
}

#[test]
fn required_features_come_before_named_features() {
    let mut cfg = InvocationConfig::default();
    cfg.features = strings(&["a", "b"]);
    let required = "x y".to_string();
    let run = cfg.run_example("/p", "demo", &Vec::new(), Some(&required));
    assert_eq!(run.arguments, strings(&["run", "--example", "demo", "--features", "x y a b"]));
}

#[test]
fn named_features_alone() {
    let mut cfg = InvocationConfig::default();
    cfg.features = strings(&["a", "b"]);
    let run = cfg.run_example("/p", "demo", &Vec::new(), None);
    assert_eq!(run.arguments, strings(&["run", "--example", "demo", "--features", "a b"]));
}

#[test]
fn all_features_overrides_every_other_feature() {
    let mut cfg = InvocationConfig::default();
    cfg.all_features = true;
    cfg.features = strings(&["a"]);
    let required = "x".to_string();
    let run = cfg.run_example("/p", "demo", &Vec::new(), Some(&required));
    assert_eq!(run.arguments, strings(&["run", "--example", "demo", "--all-features"]));
}

#[test]
fn every_option_in_its_place() {
    let cfg = InvocationConfig {
        quiet: true,
        jobs: Some(12),
        release: true,
        profile: Some("fast".to_string()),
        features: strings(&["f1"]),
        all_features: false,
        no_default_features: true,
        target: strings(&["t1", "t2"]),
        target_dir: Some("out dir".to_string()),
        manifest_path: Some("Cargo.toml".to_string()),
        ignore_rust_version: true,
        message_format: strings(&["json", "short"]),
        unit_graph: true,
        verbose: 2,
        color: Some("always".to_string()),
        frozen: true,
        locked: true,
        offline: true,
        config: strings(&["k='v'"]),
        unstable_flags: strings(&["flag"]),
    };
    let run = cfg.run_example("/p", "demo", &strings(&["--", "one", "two words"]), None);
    assert_eq!(
        run.arguments,
        strings(&[
            "+nightly",
            "run",
            "--example",
            "demo",
            "-Z",
            "unstable-options",
            "--quiet",
            "--jobs",
            "12",
            "--release",
            "--profile",
            "fast",
            "--features",
            "f1",
            "--no-default-features",
            "--target",
            "t1",
            "--target",
            "t2",
            "--target-dir",
            "out dir",
            "--manifest-path",
            "Cargo.toml",
            "--message-format",
            "json",
            "--message-format",
            "short",
            "--unit-graph",
            "--ignore-rust-version",
            "-vv",
            "--color",
            "always",
            "--frozen",
            "--locked",
            "--offline",
            "--config",
            "k='v'",
            "-Z",
            "flag",
            "--",
            "one",
            "two words",
        ])
    );
    assert_eq!(
        run.display,
        "+nightly run --example demo -Z unstable-options --quiet --jobs 12 --release \
         --profile fast --features f1 --no-default-features --target t1 --target t2 \
         --target-dir \"out dir\" --manifest-path Cargo.toml --message-format json \
         --message-format short --unit-graph --ignore-rust-version -vv --color always \
         --frozen --locked --offline --config k='v' -Z flag -- one \"two words\""
    );
}

#[test]
fn the_example_of_the_project() {
    let cfg = InvocationConfig {
        verbose: 1,
        jobs: Some(2),
        profile: Some("release".to_owned()),
        features: vec!["feature-1".to_owned()],
        no_default_features: true,
        ignore_rust_version: true,
        color: Some("always".to_owned()),
        locked: true,
        offline: true,
        config: vec!["my_cfg='test'".to_owned()],
        ..Default::default()
    };
    let args = strings(&["--", "--name", "John Smitty", "--count", "2"]);
    let run = cfg.run_example("/p", "hello_world", &args, None);
    assert_eq!(
        run.arguments,
        strings(&[
            "+nightly",
            "run",
            "--example",
            "hello_world",
            "-Z",
            "unstable-options",
            "--jobs",
            "2",
            "--profile",
            "release",
            "--features",
            "feature-1",
            "--no-default-features",
            "--ignore-rust-version",
            "-v",
            "--color",
            "always",
            "--locked",
            "--offline",
            "--config",
            "my_cfg='test'",
            "--",
            "--name",
            "John Smitty",
            "--count",
            "2",
        ])
    );
}

#[test]
fn unit_graph_alone_needs_nightly() {
    let mut cfg = InvocationConfig::default();
    cfg.unit_graph = true;
    let run = cfg.run_example("/p", "demo", &Vec::new(), None);
    assert_eq!(
        run.arguments,
        strings(&["+nightly", "run", "--example", "demo", "-Z", "unstable-options", "--unit-graph"])
    );
}

#[test]
fn unstable_flags_alone_need_nightly() {
    let mut cfg = InvocationConfig::default();
    cfg.unstable_flags = strings(&["a", "b"]);
    let run = cfg.run_example("/p", "demo", &Vec::new(), None);
    assert_eq!(
        run.arguments,
        strings(&[
            "+nightly", "run", "--example", "demo", "-Z", "unstable-options", "-Z", "a", "-Z", "b"
        ])
    );
}

#[test]
fn no_jobs_and_zero_jobs_differ() {
    let mut cfg = InvocationConfig::default();
    cfg.jobs = Some(0);
    let run = cfg.run_example("/p", "demo", &Vec::new(), None);
    assert_eq!(run.arguments, strings(&["run", "--example", "demo", "--jobs", "0"]));
}

#[test]
fn large_job_count_in_decimal() {
    let mut cfg = InvocationConfig::default();
    cfg.jobs = Some(1234567890);
    let run = cfg.run_example("/p", "demo", &Vec::new(), None);
    assert_eq!(run.arguments[4], "1234567890");
}

#[test]
fn verbosity_is_one_token() {
    let mut cfg = InvocationConfig::default();
    cfg.verbose = 5;
    let run = cfg.run_example("/p", "demo", &Vec::new(), None);
    assert_eq!(run.arguments, strings(&["run", "--example", "demo", "-vvvvv"]));
}

#[test]
fn pass_through_arguments_stay_verbatim() {
    let cfg = InvocationConfig::default();
    let args = strings(&["--", "", "a  b", "--features"]);
    let run = cfg.run_example("/p", "demo", &args, None);
    assert_eq!(run.arguments, strings(&["run", "--example", "demo", "--", "", "a  b", "--features"]));
}

#[test]
fn default_config_has_every_option_off() {
    let cfg = InvocationConfig::default();
    assert!(!cfg.quiet && !cfg.release && !cfg.all_features && !cfg.no_default_features);
    assert!(!cfg.unit_graph && !cfg.ignore_rust_version && !cfg.frozen && !cfg.locked);
    assert!(!cfg.offline);
    assert_eq!(cfg.jobs, None);
    assert_eq!(cfg.verbose, 0);
    assert!(cfg.features.is_empty() && cfg.target.is_empty() && cfg.config.is_empty());
    assert!(cfg.message_format.is_empty() && cfg.unstable_flags.is_empty());
    assert!(cfg.profile.is_none() && cfg.target_dir.is_none() && cfg.color.is_none());
    assert!(cfg.manifest_path.is_none());
}

#[test]
fn command_line_of_no_words_is_empty() {
    assert_eq!(command_line(&Vec::new()), "");
}

#[test]
fn command_line_joins_displayed_words() {
    assert_eq!(command_line(&strings(&["a", "b c", "d"])), "a \"b c\" d");
}
