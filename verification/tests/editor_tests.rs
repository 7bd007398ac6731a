use revi_core::editor::{build_heuristic_args, has_placeholders, parse_editor_template, shell_split};

// -- shell_split ---------------------------------------------------------

#[test]
fn shell_split_simple() {
    assert_eq!(shell_split("code -g file.txt"), vec!["code", "-g", "file.txt"]);
}

#[test]
fn shell_split_quoted() {
    assert_eq!(
        shell_split(r#""my editor" --flag value"#),
        vec!["my editor", "--flag", "value"]
    );
}

#[test]
fn shell_split_empty() {
    assert!(shell_split("").is_empty());
    assert!(shell_split("   ").is_empty());
}

#[test]
fn shell_split_extra_whitespace() {
    assert_eq!(shell_split("  code   -g   file  "), vec!["code", "-g", "file"]);
}

#[test]
fn shell_split_tabs() {
    assert_eq!(shell_split("code\t-g\tfile"), vec!["code", "-g", "file"]);
}

// -- has_placeholders ----------------------------------------------------

#[test]
fn has_placeholders_true() {
    assert!(has_placeholders("code -g {file}:{line}"));
    assert!(has_placeholders("vim +$LINE $FILE"));
    assert!(has_placeholders("subl {file}"));
}

#[test]
fn has_placeholders_false() {
    assert!(!has_placeholders("code"));
    assert!(!has_placeholders("vim -u NONE"));
}

// -- parse_editor_template -----------------------------------------------

#[test]
fn template_vscode_with_line() {
    let (prog, args) =
        parse_editor_template("code -g {file}:{line}", "/tmp/a.rs", Some(42)).unwrap();
    assert_eq!(prog, "code");
    assert_eq!(args, vec!["-g", "/tmp/a.rs:42"]);
}

#[test]
fn template_vscode_without_line() {
    let (prog, args) = parse_editor_template("code -g {file}:{line}", "/tmp/a.rs", None).unwrap();
    assert_eq!(prog, "code");
    assert_eq!(args, vec!["-g", "/tmp/a.rs"]);
}

#[test]
fn template_vim_with_line() {
    let (prog, args) = parse_editor_template("vim +{line} {file}", "/tmp/a.rs", Some(10)).unwrap();
    assert_eq!(prog, "vim");
    assert_eq!(args, vec!["+10", "/tmp/a.rs"]);
}

#[test]
fn template_vim_without_line() {
    // +{line} should be dropped entirely when no line provided
    let (prog, args) = parse_editor_template("vim +{line} {file}", "/tmp/a.rs", None).unwrap();
    assert_eq!(prog, "vim");
    assert_eq!(args, vec!["/tmp/a.rs"]);
}

#[test]
fn template_dollar_style() {
    let (prog, args) = parse_editor_template("subl $FILE:$LINE", "/tmp/b.py", Some(7)).unwrap();
    assert_eq!(prog, "subl");
    assert_eq!(args, vec!["/tmp/b.py:7"]);
}

#[test]
fn template_dollar_style_no_line() {
    let (prog, args) = parse_editor_template("subl $FILE:$LINE", "/tmp/b.py", None).unwrap();
    assert_eq!(prog, "subl");
    assert_eq!(args, vec!["/tmp/b.py"]);
}

#[test]
fn template_quoted_program() {
    let (prog, args) =
        parse_editor_template(r#""my editor" --open {file}"#, "/tmp/c.ts", None).unwrap();
    assert_eq!(prog, "my editor");
    assert_eq!(args, vec!["--open", "/tmp/c.ts"]);
}

#[test]
fn template_empty_errors() {
    assert!(parse_editor_template("", "/tmp/a.rs", None).is_err());
    assert!(parse_editor_template("   ", "/tmp/a.rs", None).is_err());
}

// -- build_heuristic_args ------------------------------------------------

#[test]
fn heuristic_code_with_line() {
    let (prog, args) = build_heuristic_args("code", "/tmp/a.rs", Some(5)).unwrap();
    assert_eq!(prog, "code");
    assert_eq!(args, vec!["-g", "/tmp/a.rs:5"]);
}

#[test]
fn heuristic_code_no_line() {
    let (prog, args) = build_heuristic_args("code", "/tmp/a.rs", None).unwrap();
    assert_eq!(prog, "code");
    assert_eq!(args, vec!["/tmp/a.rs"]);
}

#[test]
fn heuristic_vim_with_line() {
    let (prog, args) = build_heuristic_args("nvim", "/tmp/a.rs", Some(20)).unwrap();
    assert_eq!(prog, "nvim");
    assert_eq!(args, vec!["+20", "/tmp/a.rs"]);
}

#[test]
fn heuristic_emacs_with_line() {
    let (prog, args) = build_heuristic_args("emacs", "/tmp/a.rs", Some(3)).unwrap();
    assert_eq!(prog, "emacs");
    assert_eq!(args, vec!["+3", "/tmp/a.rs"]);
}

#[test]
fn heuristic_unknown_editor() {
    let (prog, args) = build_heuristic_args("nano", "/tmp/a.rs", Some(10)).unwrap();
    assert_eq!(prog, "nano");
    // Unknown editor: just gets the file, no line arg
    assert_eq!(args, vec!["/tmp/a.rs"]);
}

#[test]
fn heuristic_with_existing_flags() {
    let (prog, args) = build_heuristic_args("code --reuse-window", "/tmp/a.rs", Some(5)).unwrap();
    assert_eq!(prog, "code");
    assert_eq!(args, vec!["--reuse-window", "-g", "/tmp/a.rs:5"]);
}

#[test]
fn heuristic_code_already_has_dash_g() {
    let (prog, args) = build_heuristic_args("code -g", "/tmp/a.rs", Some(5)).unwrap();
    assert_eq!(prog, "code");
    // Should not duplicate -g
    assert_eq!(args, vec!["-g", "/tmp/a.rs:5"]);
}
