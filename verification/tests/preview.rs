use cargo_rx::models::skim::{assemble_banner, assemble_preview, kind_of_line, lines, show_line};
use cargo_rx::models::LineKind;
use cargo_rx::{format_err, ExampleFileItem};

fn item() -> ExampleFileItem {
    ExampleFileItem {
        file_path: "/project/examples/hello.rs".to_string(),
        file_stem: "hello".to_string(),
    }
}

#[test]
fn label_is_the_name() {
    assert_eq!(item().text(), "hello");
}

#[test]
fn kinds_of_lines() {
    assert_eq!(kind_of_line("//! docs"), LineKind::DocComment);
    assert_eq!(kind_of_line("   //! docs"), LineKind::DocComment);
    assert_eq!(kind_of_line("// note"), LineKind::Comment);
    assert_eq!(kind_of_line("\t/// item docs"), LineKind::Comment);
    assert_eq!(kind_of_line("#[derive(Debug)]"), LineKind::Attribute);
    assert_eq!(kind_of_line("  #[test]"), LineKind::Attribute);
    assert_eq!(kind_of_line("#![allow(x)]"), LineKind::Plain);
    assert_eq!(kind_of_line("fn main() {} // trailing"), LineKind::Plain);
    assert_eq!(kind_of_line("/"), LineKind::Plain);
    assert_eq!(kind_of_line("#"), LineKind::Plain);
    assert_eq!(kind_of_line(""), LineKind::Plain);
    assert_eq!(kind_of_line("   "), LineKind::Plain);
}

#[test]
fn lines_split_at_line_endings() {
    assert_eq!(lines("a\nb\r\nc"), vec!["a", "b", "c"]);
    assert_eq!(lines("a\n"), vec!["a"]);
    assert_eq!(lines("a\n\nb"), vec!["a", "", "b"]);
    assert_eq!(lines("\n"), vec![""]);
    assert_eq!(lines(""), Vec::<String>::new());
    assert_eq!(lines("a\rb"), vec!["a\rb"]);
    assert_eq!(lines("a\r"), vec!["a\r"]);
    assert_eq!(lines("a\r\r\n"), vec!["a\r"]);
}

#[test]
fn lines_agree_with_the_standard_library() {
    for text in ["", "x", "x\n", "\n\n", "a\r\nb\r\n", "a\n\rb", "\r\n", "fn main() {\n    run();\n}\n"] {
        let expected: Vec<String> = text.lines().map(|l| l.to_string()).collect();
        assert_eq!(lines(text), expected);
    }
}

#[test]
fn preview_puts_lines_together() {
    let shown = vec!["one".to_string(), "two".to_string()];
    assert_eq!(assemble_preview(&shown), "\none\ntwo");
    assert_eq!(assemble_preview(&Vec::new()), "\n");
}

#[test]
fn banner_puts_label_and_message_together() {
    assert_eq!(assemble_banner("error", "no such file"), "\nerror: no such file");
}

#[test]
fn preview_without_colours_is_the_source() {
    colored::control::set_override(false);
    let source = "//! Greets.\n// a note\n#[allow(unused)]\nfn main() {}\n";
    assert_eq!(
        item().preview(Ok(source)),
        "\n//! Greets.\n// a note\n#[allow(unused)]\nfn main() {}"
    );
}

#[test]
fn preview_with_colours_sets_comments_and_attributes_apart() {
    colored::control::set_override(true);
    let source = "//! Greets.\n  // a note\n#[allow(unused)]\nfn main() {}\n";
    assert_eq!(
        item().preview(Ok(source)),
        "\n\u{1b}[1;40;97m//! Greets.\u{1b}[0m\n\u{1b}[1;37m  // a note\u{1b}[0m\n\
         \u{1b}[3;37m#[allow(unused)]\u{1b}[0m\nfn main() {}"
    );
}

#[test]
fn plain_line_is_never_coloured() {
    colored::control::set_override(true);
    assert_eq!(show_line("let x = 1;"), "let x = 1;");
    assert_ne!(show_line("// c"), "// c");
}

#[test]
fn preview_of_unreadable_source_is_a_banner() {
    colored::control::set_override(false);
    assert_eq!(item().preview(Err("No such file or directory")), "\nerror: No such file or directory");
}

#[test]
fn preview_of_unreadable_source_in_colours() {
    colored::control::set_override(true);
    assert_eq!(
        item().preview(Err("gone")),
        "\u{1b}[47;31m\n\u{1b}[1merror\u{1b}[0m\u{1b}[47;31m: gone\u{1b}[0m"
    );
}

#[test]
fn format_err_without_colours() {
    colored::control::set_override(false);
    assert_eq!(format_err("boom"), "\nerror: boom");
    assert_eq!(format_err(42), "\nerror: 42");
}

#[test]
fn format_err_with_colours() {
    colored::control::set_override(true);
    assert_eq!(
        format_err("boom"),
        "\u{1b}[47;31m\n\u{1b}[1merror\u{1b}[0m\u{1b}[47;31m: boom\u{1b}[0m"
    );
}
