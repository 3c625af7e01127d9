use cargo_rx::models::catalog::{rank, Rank};
use cargo_rx::models::manifest::{parse_manifest, required_features};
use cargo_rx::{
    Catalog, DeclaredTarget, DirEntry, EntryKind, ExampleFile, ExampleType, Failure, Location,
    Manifest, NestedManifest, Paths, Probe,
};

fn file(name: &str, path: &str, features: Option<&str>) -> ExampleFile {
    ExampleFile {
        name: name.to_string(),
        path: path.to_string(),
        path_type: ExampleType::Simple,
        required_features: features.map(|f| f.to_string()),
    }
}

fn declared(name: Option<&str>, path: Option<&str>, features: &[&str]) -> DeclaredTarget {
    DeclaredTarget {
        name: name.map(|n| n.to_string()),
        path: path.map(|p| p.to_string()),
        required_features: features.iter().map(|f| f.to_string()).collect(),
    }
}

fn project(examples: Vec<DeclaredTarget>) -> Paths {
    Paths {
        root_path: "/project".to_string(),
        examples_path: "/project/examples".to_string(),
        cargo_toml_path: "/project/Cargo.toml".to_string(),
        manifest: Manifest { example: examples, bin: Vec::new() },
    }
}

fn plain_file(name: &str) -> DirEntry {
    DirEntry { file_name: name.to_string(), kind: EntryKind::File }
}

fn crate_folder(name: &str, manifest: &str, has_src_main: bool) -> DirEntry {
    DirEntry {
        file_name: name.to_string(),
        kind: EntryKind::Directory {
            has_main: false,
            manifest: NestedManifest::Content(manifest.as_bytes().to_vec()),
            has_src_main,
        },
    }
}

const TWO_BINS: &str = "[package]\nname = \"multi\"\nversion = \"0.1.0\"\n\n\
    [[bin]]\nname = \"one\"\npath = \"src/one.rs\"\n\n\
    [[bin]]\nname = \"two\"\nrequired-features = [\"f\", \"g\"]\n";

const ONE_BIN: &str = "[package]\nname = \"single\"\nversion = \"0.1.0\"\n\n\
    [[bin]]\nname = \"other\"\npath = \"src/other.rs\"\n";

#[test]
fn rank_orders_texts_by_their_characters() {
    assert_eq!(rank("a", "b"), Rank::Before);
    assert_eq!(rank("b", "a"), Rank::After);
    assert_eq!(rank("a", "a"), Rank::Same);
    assert_eq!(rank("", ""), Rank::Same);
    assert_eq!(rank("", "a"), Rank::Before);
    assert_eq!(rank("ab", "a"), Rank::After);
    assert_eq!(rank("Z", "a"), Rank::Before);
    assert_eq!(rank("a-b", "a_b"), Rank::Before);
    assert_eq!(rank("\u{e9}", "z"), Rank::After);
}

#[test]
fn rank_agrees_with_the_order_of_strings() {
    let texts = ["", "a", "ab", "b", "B", "a_b", "a-b", "\u{e9}", "\u{10000}", "\u{ffff}", "z"];
    for a in texts {
        for b in texts {
            let expected = match a.cmp(b) {
                std::cmp::Ordering::Less => Rank::Before,
                std::cmp::Ordering::Equal => Rank::Same,
                std::cmp::Ordering::Greater => Rank::After,
            };
            assert_eq!(rank(a, b), expected);
        }
    }
}

#[test]
fn empty_catalog() {
    let files = Catalog::new();
    assert_eq!(files.len(), 0);
    assert!(files.get("x").is_none());
    assert!(files.names().is_empty());
}

#[test]
fn names_come_in_ascending_order() {
    let mut files = Catalog::new();
    for name in ["pear", "apple", "fig", "Zebra", "apple2"] {
        files.insert(file(name, "/p", None));
    }
    assert_eq!(files.names(), vec!["Zebra", "apple", "apple2", "fig", "pear"]);
    assert_eq!(files.len(), 5);
}

#[test]
fn insert_replaces_the_entry_of_the_same_name() {
    let mut files = Catalog::new();
    files.insert(file("a", "/first", Some("f")));
    files.insert(file("b", "/b", None));
    files.insert(file("a", "/second", None));
    assert_eq!(files.len(), 2);
    let a = files.get("a").unwrap();
    assert_eq!(a.path, "/second");
    assert_eq!(a.required_features, None);
    assert_eq!(files.get("b").unwrap().path, "/b");
}

#[test]
fn merge_keeps_the_required_features() {
    let mut files = Catalog::new();
    files.insert(ExampleFile {
        name: "a".to_string(),
        path: "/p/N/A".to_string(),
        path_type: ExampleType::Custom,
        required_features: Some("x y".to_string()),
    });
    files.merge(file("a", "/p/examples/a.rs", None));
    let a = files.get("a").unwrap();
    assert_eq!(a.path, "/p/examples/a.rs");
    assert_eq!(a.path_type, ExampleType::Simple);
    assert_eq!(a.required_features, Some("x y".to_string()));
}

#[test]
fn merge_adds_an_unknown_name() {
    let mut files = Catalog::new();
    files.merge(file("a", "/a.rs", Some("q")));
    let a = files.get("a").unwrap();
    assert_eq!(a.path, "/a.rs");
    assert_eq!(a.required_features, Some("q".to_string()));
}

#[test]
fn required_features_are_joined_by_spaces() {
    assert_eq!(required_features(&declared(None, None, &[])), None);
    assert_eq!(required_features(&declared(None, None, &["x"])), Some("x".to_string()));
    assert_eq!(required_features(&declared(None, None, &["x", "y", "z"])), Some("x y z".to_string()));
}

#[test]
fn manifest_declares_examples_and_binaries() {
    let text = "[package]\nname = \"p\"\nversion = \"0.1.0\"\n\n\
        [[example]]\nname = \"demo\"\nrequired-features = [\"x\", \"y\"]\n\n\
        [[example]]\nname = \"tool\"\npath = \"tools/tool.rs\"\n\n\
        [[bin]]\nname = \"cli\"\n";
    let manifest = parse_manifest(text.as_bytes()).unwrap();
    assert_eq!(
        manifest.example,
        vec![declared(Some("demo"), None, &["x", "y"]), declared(Some("tool"), Some("tools/tool.rs"), &[])]
    );
    assert_eq!(manifest.bin, vec![declared(Some("cli"), None, &[])]);
}

#[test]
fn manifest_without_targets() {
    let manifest = parse_manifest(b"[package]\nname = \"p\"\nversion = \"0.1.0\"\n").unwrap();
    assert!(manifest.example.is_empty());
    assert!(manifest.bin.is_empty());
}

#[test]
fn malformed_manifest_is_a_parse_failure() {
    match parse_manifest(b"[package\nname = ") {
        Err(Failure::ManifestParse(text)) => assert!(!text.is_empty()),
        other => panic!("unexpected: {:?}", other),
    }
    assert!(matches!(parse_manifest(&[0xff, 0xfe]), Err(Failure::ManifestParse(_))));
}

#[test]
fn simple_file_enters_under_its_stem() {
    let files = project(Vec::new()).example_files(&vec![plain_file("hello.rs")]).unwrap();
    assert_eq!(files.names(), vec!["hello"]);
    let hello = files.get("hello").unwrap();
    assert_eq!(hello.path, "/project/examples/hello.rs");
    assert_eq!(hello.path_type, ExampleType::Simple);
    assert_eq!(hello.required_features, None);
}

#[test]
fn claimed_path_keeps_the_declared_entry() {
    let paths = project(vec![declared(Some("demo"), Some("examples/./demo.rs"), &["x", "y"])]);
    let files = paths.example_files(&vec![plain_file("demo.rs"), plain_file("other.rs")]).unwrap();
    assert_eq!(files.names(), vec!["demo", "other"]);
    let demo = files.get("demo").unwrap();
    assert_eq!(demo.path_type, ExampleType::Custom);
    assert_eq!(demo.path, "/project/examples/demo.rs");
    assert_eq!(demo.required_features, Some("x y".to_string()));
}

#[test]
fn claimed_path_under_another_name() {
    let paths = project(vec![declared(Some("renamed"), Some("examples/demo.rs"), &[])]);
    let files = paths.example_files(&vec![plain_file("demo.rs")]).unwrap();
    assert_eq!(files.names(), vec!["renamed"]);
    assert_eq!(files.get("renamed").unwrap().path_type, ExampleType::Custom);
}

#[test]
fn unclaimed_file_of_a_declared_name_replaces_path_and_type_only() {
    let paths = project(vec![declared(Some("demo"), Some("tools/demo.rs"), &["x"])]);
    let files = paths.example_files(&vec![plain_file("demo.rs")]).unwrap();
    let demo = files.get("demo").unwrap();
    assert_eq!(demo.path, "/project/examples/demo.rs");
    assert_eq!(demo.path_type, ExampleType::Simple);
    assert_eq!(demo.required_features, Some("x".to_string()));
}

#[test]
fn declared_features_without_a_path_get_a_placeholder() {
    let paths = project(vec![declared(Some("demo"), None, &["x", "y"])]);
    let files = paths.example_files(&Vec::new()).unwrap();
    let demo = files.get("demo").unwrap();
    assert_eq!(demo.path, "/project/N/A");
    assert_eq!(demo.path_type, ExampleType::Custom);
    assert_eq!(demo.required_features, Some("x y".to_string()));
}

#[test]
fn placeholder_is_filled_in_by_the_scan() {
    let paths = project(vec![declared(Some("demo"), None, &["x", "y"])]);
    let files = paths.example_files(&vec![plain_file("demo.rs")]).unwrap();
    let demo = files.get("demo").unwrap();
    assert_eq!(demo.path, "/project/examples/demo.rs");
    assert_eq!(demo.path_type, ExampleType::Simple);
    assert_eq!(demo.required_features, Some("x y".to_string()));
}

#[test]
fn declarations_without_effect() {
    let paths = project(vec![
        declared(Some("bare"), None, &[]),
        declared(None, Some("examples/x.rs"), &["f"]),
        declared(None, None, &["f"]),
    ]);
    let files = paths.example_files(&Vec::new()).unwrap();
    assert_eq!(files.len(), 0);
}

#[test]
fn later_declaration_wins() {
    let paths = project(vec![
        declared(Some("demo"), Some("a.rs"), &["one"]),
        declared(Some("demo"), Some("b.rs"), &[]),
    ]);
    let files = paths.example_files(&Vec::new()).unwrap();
    let demo = files.get("demo").unwrap();
    assert_eq!(demo.path, "/project/b.rs");
    assert_eq!(demo.required_features, None);
}

#[test]
fn crate_with_several_binaries_enters_with_each() {
    let files = project(Vec::new())
        .example_files(&vec![crate_folder("multi", TWO_BINS, true)])
        .unwrap();
    assert_eq!(files.names(), vec!["one", "two"]);
    assert!(files.get("multi").is_none());
    let manifest = "/project/examples/multi/Cargo.toml".to_string();
    let one = files.get("one").unwrap();
    assert_eq!(one.path, "/project/examples/multi/src/one.rs");
    assert_eq!(one.path_type, ExampleType::Crate(manifest.clone(), Some("one".to_string())));
    assert_eq!(one.required_features, None);
    let two = files.get("two").unwrap();
    assert_eq!(two.path, "/project/examples/multi/src/main.rs");
    assert_eq!(two.path_type, ExampleType::Crate(manifest, Some("two".to_string())));
    assert_eq!(two.required_features, Some("f g".to_string()));
}

#[test]
fn binary_without_src_main_falls_back_to_the_manifest() {
    let files = project(Vec::new())
        .example_files(&vec![crate_folder("multi", TWO_BINS, false)])
        .unwrap();
    assert_eq!(files.get("two").unwrap().path, "/project/examples/multi/Cargo.toml");
}

#[test]
fn binary_replaces_a_declared_entry_whole() {
    let paths = project(vec![declared(Some("one"), None, &["kept?"])]);
    let files = paths.example_files(&vec![crate_folder("multi", TWO_BINS, true)]).unwrap();
    assert_eq!(files.get("one").unwrap().required_features, None);
}

#[test]
fn crate_with_one_binary_enters_under_the_folder_name() {
    let files = project(Vec::new())
        .example_files(&vec![crate_folder("single", ONE_BIN, true)])
        .unwrap();
    assert_eq!(files.names(), vec!["single"]);
    let single = files.get("single").unwrap();
    assert_eq!(single.path, "/project/examples/single/src/main.rs");
    assert_eq!(
        single.path_type,
        ExampleType::Crate("/project/examples/single/Cargo.toml".to_string(), None)
    );
}

#[test]
fn multi_file_example_is_not_parsed() {
    let entry = DirEntry {
        file_name: "multi_file".to_string(),
        kind: EntryKind::Directory {
            has_main: true,
            manifest: NestedManifest::Content(b"not a manifest [".to_vec()),
            has_src_main: false,
        },
    };
    let files = project(Vec::new()).example_files(&vec![entry]).unwrap();
    let found = files.get("multi_file").unwrap();
    assert_eq!(found.path, "/project/examples/multi_file/main.rs");
    assert_eq!(found.path_type, ExampleType::MultiFile);
}

#[test]
fn unreadable_crate_manifest_fails_the_scan() {
    let entry = DirEntry {
        file_name: "k".to_string(),
        kind: EntryKind::Directory {
            has_main: false,
            manifest: NestedManifest::Unreadable("permission denied".to_string()),
            has_src_main: true,
        },
    };
    let result = project(Vec::new()).example_files(&vec![plain_file("a.rs"), entry]);
    assert_eq!(result.err(), Some(Failure::Io("permission denied".to_string())));
}

#[test]
fn malformed_crate_manifest_fails_the_scan() {
    let result =
        project(Vec::new()).example_files(&vec![crate_folder("k", "[[bin]\nname=", true)]);
    assert!(matches!(result, Err(Failure::ManifestParse(_))));
}

#[test]
fn claimed_crate_folder_is_not_read() {
    let paths = project(vec![declared(Some("k"), Some("examples/k"), &[])]);
    let files = paths.example_files(&vec![crate_folder("k", "[[bin]\nname=", true)]).unwrap();
    assert_eq!(files.get("k").unwrap().path_type, ExampleType::Custom);
}

#[test]
fn entries_that_are_no_examples_are_skipped() {
    let entries = vec![
        plain_file("README.md"),
        DirEntry { file_name: "socket".to_string(), kind: EntryKind::Other },
        DirEntry {
            file_name: "assets".to_string(),
            kind: EntryKind::Directory {
                has_main: false,
                manifest: NestedManifest::Missing,
                has_src_main: false,
            },
        },
    ];
    let files = project(Vec::new()).example_files(&entries).unwrap();
    assert_eq!(files.len(), 0);
}

#[test]
fn building_twice_gives_the_same_catalog() {
    let paths = project(vec![
        declared(Some("demo"), Some("examples/demo.rs"), &["x"]),
        declared(Some("ghost"), None, &["y"]),
    ]);
    let entries = vec![
        plain_file("demo.rs"),
        plain_file("hello.rs"),
        crate_folder("multi", TWO_BINS, true),
    ];
    let first = paths.example_files(&entries).unwrap();
    let second = paths.example_files(&entries).unwrap();
    assert_eq!(first.names(), second.names());
    assert_eq!(first.names(), vec!["demo", "ghost", "hello", "one", "two"]);
    for name in first.names() {
        let a = first.get(&name).unwrap();
        let b = second.get(&name).unwrap();
        assert_eq!(a.path, b.path);
        assert_eq!(a.path_type, b.path_type);
        assert_eq!(a.required_features, b.required_features);
    }
}

#[test]
fn every_path_of_the_catalog_is_absolute() {
    let paths = project(vec![
        declared(Some("rel"), Some("../x/y.rs"), &[]),
        declared(Some("ghost"), None, &["y"]),
    ]);
    let entries = vec![plain_file("hello.rs"), crate_folder("multi", TWO_BINS, true)];
    let files = paths.example_files(&entries).unwrap();
    for name in files.names() {
        let found = files.get(&name).unwrap();
        assert!(found.path.starts_with('/'), "{}", found.path);
        assert_eq!(found.name, name);
    }
    assert_eq!(files.get("rel").unwrap().path, "/x/y.rs");
}

#[test]
fn candidates_are_the_directories_upwards() {
    let found = Paths::candidates("/a/b");
    let roots: Vec<&str> = found.iter().map(|c| c.root_path.as_str()).collect();
    assert_eq!(roots, vec!["/a/b", "/a", "/"]);
    assert_eq!(found[0].examples_path, "/a/b/examples");
    assert_eq!(found[0].cargo_toml_path, "/a/b/Cargo.toml");
    assert_eq!(found[2].examples_path, "/examples");
    assert_eq!(found[2].cargo_toml_path, "/Cargo.toml");
}

#[test]
fn nearest_candidate_with_both_is_the_root() {
    let candidates = Paths::candidates("/a/b/c");
    let both = Probe { examples_is_dir: true, manifest_is_file: true };
    let probes = vec![
        Probe { examples_is_dir: true, manifest_is_file: false },
        both,
        both,
        Probe { examples_is_dir: false, manifest_is_file: true },
    ];
    let found = Paths::locate("/a/b/c", candidates, &probes).unwrap();
    assert_eq!(
        found,
        Location {
            root_path: "/a/b".to_string(),
            examples_path: "/a/b/examples".to_string(),
            cargo_toml_path: "/a/b/Cargo.toml".to_string(),
        }
    );
}

#[test]
fn current_directory_itself_may_be_the_root() {
    let candidates = Paths::candidates("/a");
    let both = Probe { examples_is_dir: true, manifest_is_file: true };
    let found = Paths::locate("/a", candidates, &vec![both, both]).unwrap();
    assert_eq!(found.root_path, "/a");
}

#[test]
fn no_root_names_both_files_and_the_start() {
    let candidates = Paths::candidates("/a/b");
    let none = Probe { examples_is_dir: false, manifest_is_file: true };
    let result = Paths::locate("/a/b", candidates, &vec![none, none, none]);
    assert_eq!(
        result,
        Err(Failure::NotFound(
            "could not find `Cargo.toml` with an `examples` folder in `/a/b` or any parent directory"
                .to_string()
        ))
    );
}

#[test]
fn relative_candidates_do_not_qualify() {
    let candidates = Paths::candidates("a/b");
    let both = Probe { examples_is_dir: true, manifest_is_file: true };
    let result = Paths::locate("a/b", candidates, &vec![both, both, both]);
    assert!(matches!(result, Err(Failure::NotFound(_))));
}

#[test]
fn located_root_resolves_with_its_manifest() {
    let location = Location {
        root_path: "/project".to_string(),
        examples_path: "/project/examples".to_string(),
        cargo_toml_path: "/project/Cargo.toml".to_string(),
    };
    let text = "[package]\nname = \"p\"\nversion = \"0.1.0\"\n\n[[example]]\nname = \"demo\"\n";
    let paths = Paths::resolve(location, Ok(text.as_bytes())).unwrap();
    assert_eq!(paths.root_path, "/project");
    assert_eq!(paths.examples_path, "/project/examples");
    assert_eq!(paths.cargo_toml_path, "/project/Cargo.toml");
    assert_eq!(paths.manifest.example, vec![declared(Some("demo"), None, &[])]);
}

#[test]
fn unreadable_manifest_fails_the_resolve() {
    let location = Location {
        root_path: "/project".to_string(),
        examples_path: "/project/examples".to_string(),
        cargo_toml_path: "/project/Cargo.toml".to_string(),
    };
    let result = Paths::resolve(location.clone(), Err("denied"));
    assert_eq!(result.err(), Some(Failure::Io("denied".to_string())));
    let result = Paths::resolve(location, Ok(b"[["));
    assert!(matches!(result, Err(Failure::ManifestParse(_))));
}
