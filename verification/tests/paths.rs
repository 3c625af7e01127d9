use cargo_rx::cache::{replay_path_in, replay_path_of};
use cargo_rx::models::path::{absolute, same_text};
use cargo_rx::pathbufext::last_of;
use cargo_rx::{
    get_last_replay, last_replay_path, save_last_replay, EntryKind, ExampleFile, ExampleType,
    Failure, LastRun, NestedManifest, PathBufExt, ReplayConfig,
};

#[test]
fn last_component_of_a_path() {
    assert_eq!("/a/b/c".last(), "c");
    assert_eq!("/a/b/".last(), "b");
    assert_eq!("a/b/.".last(), "b");
    assert_eq!("a/..".last(), "..");
    assert_eq!("/".last(), "/");
    assert_eq!("name".last(), "name");
}

#[test]
fn empty_path_has_no_last_component() {
    assert_eq!(last_of(""), None);
    assert_eq!(last_of("/x/y.rs"), Some("y.rs".to_string()));
}

#[test]
fn absolute_paths_begin_at_the_root() {
    assert!(absolute("/"));
    assert!(absolute("/a"));
    assert!(!absolute(""));
    assert!(!absolute("a/b"));
    assert!(!absolute("./a"));
}

#[test]
fn same_text_compares_characters() {
    assert!(same_text("rs", "rs"));
    assert!(!same_text("rs", "r"));
    assert!(!same_text("rs", "rS"));
    assert!(same_text("", ""));
}

#[test]
fn new_example_file_is_custom_and_absolute() {
    let file = ExampleFile::new("/project", "demo".to_string(), "tools/../demos/./demo.rs", None);
    assert_eq!(file.name, "demo");
    assert_eq!(file.path, "/project/demos/demo.rs");
    assert_eq!(file.path_type, ExampleType::Custom);
    assert_eq!(file.required_features, None);
}

#[test]
fn new_example_file_keeps_an_absolute_path() {
    let file = ExampleFile::new(
        "/project",
        "demo".to_string(),
        "/elsewhere/demo.rs",
        Some("f".to_string()),
    );
    assert_eq!(file.path, "/elsewhere/demo.rs");
    assert_eq!(file.required_features, Some("f".to_string()));
}

#[test]
fn new_example_file_above_the_root() {
    let file = ExampleFile::new("/project", "demo".to_string(), "../../../demo.rs", None);
    assert_eq!(file.path, "/demo.rs");
}

#[test]
fn simple_file_is_named_by_its_stem() {
    let file = ExampleFile::try_from("/p/examples/hello_world.rs".to_string(), &EntryKind::File)
        .unwrap();
    assert_eq!(file.name, "hello_world");
    assert_eq!(file.path, "/p/examples/hello_world.rs");
    assert_eq!(file.path_type, ExampleType::Simple);
    assert_eq!(file.required_features, None);
}

#[test]
fn file_with_two_dots_keeps_the_first_in_its_stem() {
    let file = ExampleFile::try_from("/p/examples/a.b.rs".to_string(), &EntryKind::File).unwrap();
    assert_eq!(file.name, "a.b");
}

#[test]
fn other_files_are_no_examples() {
    assert!(ExampleFile::try_from("/p/examples/notes.txt".to_string(), &EntryKind::File).is_none());
    assert!(ExampleFile::try_from("/p/examples/rs".to_string(), &EntryKind::File).is_none());
    assert!(ExampleFile::try_from("/p/examples/.rs".to_string(), &EntryKind::File).is_none());
    assert!(ExampleFile::try_from("/p/examples/x.rs".to_string(), &EntryKind::Other).is_none());
}

#[test]
fn folder_with_main_is_a_multi_file_example() {
    let kind = EntryKind::Directory {
        has_main: true,
        manifest: NestedManifest::Content(Vec::new()),
        has_src_main: true,
    };
    let file = ExampleFile::try_from("/p/examples/multi_file".to_string(), &kind).unwrap();
    assert_eq!(file.name, "multi_file");
    assert_eq!(file.path, "/p/examples/multi_file/main.rs");
    assert_eq!(file.path_type, ExampleType::MultiFile);
}

#[test]
fn folder_with_manifest_is_a_crate() {
    let kind = EntryKind::Directory {
        has_main: false,
        manifest: NestedManifest::Content(Vec::new()),
        has_src_main: true,
    };
    let file = ExampleFile::try_from("/p/examples/hello-world-axum".to_string(), &kind).unwrap();
    assert_eq!(file.name, "hello-world-axum");
    assert_eq!(file.path, "/p/examples/hello-world-axum/src/main.rs");
    assert_eq!(
        file.path_type,
        ExampleType::Crate("/p/examples/hello-world-axum/Cargo.toml".to_string(), None)
    );
}

#[test]
fn crate_without_src_main_points_at_its_manifest() {
    let kind = EntryKind::Directory {
        has_main: false,
        manifest: NestedManifest::Unreadable("denied".to_string()),
        has_src_main: false,
    };
    let file = ExampleFile::try_from("/p/examples/k".to_string(), &kind).unwrap();
    assert_eq!(file.path, "/p/examples/k/Cargo.toml");
}

#[test]
fn bare_folder_is_no_example() {
    let kind = EntryKind::Directory {
        has_main: false,
        manifest: NestedManifest::Missing,
        has_src_main: true,
    };
    assert!(ExampleFile::try_from("/p/examples/assets".to_string(), &kind).is_none());
}

#[test]
fn example_files_are_equal_by_path_and_ordered_by_name() {
    let a = ExampleFile {
        name: "a".to_string(),
        path: "/x".to_string(),
        path_type: ExampleType::Simple,
        required_features: None,
    };
    let b = ExampleFile {
        name: "b".to_string(),
        path: "/x".to_string(),
        path_type: ExampleType::Custom,
        required_features: Some("f".to_string()),
    };
    let c = ExampleFile { path: "/y".to_string(), ..a.clone() };
    assert!(a == b);
    assert!(a != c);
    assert!(a < b);
    assert!(b > c);
    assert_eq!(a.partial_cmp(&c), Some(std::cmp::Ordering::Equal));
    assert_eq!(a.duplicate().path_type, a.path_type.duplicate());
}

#[test]
fn replay_file_lies_below_the_cargo_home() {
    assert_eq!(replay_path_in("/home/me/.cargo"), "/home/me/.cargo/rx/replays/settings.toml");
}

#[test]
fn replay_path_of_this_machine() {
    if let Some(path) = last_replay_path() {
        assert!(path.ends_with("settings.toml"));
        assert!(path.contains("replays"));
    }
}

#[test]
fn saved_record_holds_name_and_arguments() {
    let args = vec!["--".to_string(), "a b".to_string(), "\"q\"".to_string()];
    let record = save_last_replay("hello", &args);
    assert_eq!(record.last_run.name, "hello");
    assert_eq!(record.last_run.arguments, args);
    let empty = save_last_replay("hello", &Vec::new());
    assert!(empty.last_run.arguments.is_empty());
    let single = save_last_replay("x", &vec!["one".to_string()]);
    assert_eq!(single.last_run.arguments, vec!["one"]);
}

#[test]
fn stored_record_is_handed_back() {
    let record = ReplayConfig {
        last_run: LastRun { name: "demo".to_string(), arguments: vec!["--".to_string()] },
    };
    assert_eq!(get_last_replay(Some(record.clone())), Ok(record));
}

#[test]
fn missing_record_is_unavailable() {
    assert_eq!(get_last_replay(None), Err(Failure::ReplayUnavailable));
}

#[test]
fn default_record_is_empty() {
    let record = ReplayConfig::default();
    assert_eq!(record.last_run.name, "");
    assert!(record.last_run.arguments.is_empty());
}

fn written(record: &ReplayConfig) -> String {
    let mut last_run = toml::value::Table::new();
    last_run.insert("name".to_string(), toml::Value::String(record.last_run.name.clone()));
    let arguments = record.last_run.arguments.iter().cloned().map(toml::Value::String).collect();
    last_run.insert("arguments".to_string(), toml::Value::Array(arguments));
    let mut root = toml::value::Table::new();
    root.insert("last_run".to_string(), toml::Value::Table(last_run));
    toml::to_string(&toml::Value::Table(root)).unwrap()
}

fn read(text: &str) -> Option<ReplayConfig> {
    let root: toml::Value = toml::from_str(text).ok()?;
    let last_run = root.get("last_run")?;
    let name = last_run.get("name")?.as_str()?.to_string();
    let mut arguments = Vec::new();
    for argument in last_run.get("arguments")?.as_array()? {
        arguments.push(argument.as_str()?.to_string());
    }
    Some(ReplayConfig { last_run: LastRun { name, arguments } })
}

#[test]
fn saved_record_survives_the_file() {
    let cases: Vec<Vec<String>> = vec![
        Vec::new(),
        vec!["one".to_string()],
        vec!["--".to_string(), "two words".to_string(), "say \"hi\"".to_string()],
        vec!["it's".to_string(), "back\\slash".to_string(), "line\nfeed".to_string(), String::new()],
    ];
    for args in cases {
        let record = save_last_replay("hello world", &args);
        let loaded = get_last_replay(read(&written(&record))).unwrap();
        assert_eq!(loaded.last_run.name, "hello world");
        assert_eq!(loaded.last_run.arguments, args);
    }
}

#[test]
fn file_that_is_no_record_is_unavailable() {
    assert_eq!(get_last_replay(read("")), Err(Failure::ReplayUnavailable));
    assert_eq!(get_last_replay(read("[last_run]\nname = 3\n")), Err(Failure::ReplayUnavailable));
}

#[test]
fn replay_path_follows_the_cargo_home_that_was_found() {
    assert_eq!(
        replay_path_of(Some("/opt/cargo".to_string())),
        Some("/opt/cargo/rx/replays/settings.toml".to_string())
    );
    assert_eq!(replay_path_of(None), None);
}
