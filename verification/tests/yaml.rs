use projectpad::yaml::{assemble_fixed_yaml, fix_quoted_line, yaml_fix_multiline_strings};

#[test]
fn export_fix_yaml_strings_nochange() {
    assert_eq!(
        r#"test: "no newlines""#,
        yaml_fix_multiline_strings(r#"test: "no newlines""#)
    );
}

#[test]
fn export_fix_yaml_strings_simple_newlines() {
    assert_eq!(
        "test: |\n  first line\n  second line",
        yaml_fix_multiline_strings("test: \"first line\\nsecond line\"")
    );
}

#[test]
fn export_fix_yaml_strings_newlines_and_quotes_in_string() {
    assert_eq!(
        "test: |\n  first \"line\"\n  second \\line",
        yaml_fix_multiline_strings("test: \"first \\\"line\\\"\\nsecond \\\\line\"")
    );
}

#[test]
fn import_export_fix_yaml_strings_nochange() {
    assert_eq!(
        r#"test: "no newlines""#,
        yaml_fix_multiline_strings(r#"test: "no newlines""#)
    );
}

#[test]
fn import_export_fix_yaml_strings_simple_newlines() {
    assert_eq!(
        "test: |\n  first line\n  second line",
        yaml_fix_multiline_strings("test: \"first line\\nsecond line\"")
    );
}

#[test]
fn import_export_fix_yaml_strings_newlines_and_quotes_in_string() {
    assert_eq!(
        "test: |\n  first \"line\"\n  second \\line",
        yaml_fix_multiline_strings("test: \"first \\\"line\\\"\\nsecond \\\\line\"")
    );
}

#[test]
fn fix_yaml_indented_block_and_tabs() {
    assert_eq!(
        "a:\n  b: |\n    x\ty\n    z\nc: 1",
        yaml_fix_multiline_strings("a:\n  b: \"x\\ty\\nz\"\nc: 1")
    );
}

#[test]
fn fix_single_quoted_line() {
    assert_eq!("  desc: \"plain\"", fix_quoted_line("  ", "desc: ", "plain"));
    assert_eq!(
        "  text: |\n    line1\n    \"q\"",
        fix_quoted_line("  ", "text: ", "line1\\n\\\"q\\\"")
    );
}

#[test]
fn assemble_from_captures_and_gaps() {
    let caps = vec![
        ("".to_string(), "a: ".to_string(), "x\\ny".to_string()),
        ("  ".to_string(), "b: ".to_string(), "plain".to_string()),
    ];
    let gaps = vec!["top: 1\n".to_string(), "\n".to_string(), "\nend".to_string()];
    assert_eq!(
        "top: 1\na: |\n  x\n  y\n  b: \"plain\"\nend",
        assemble_fixed_yaml(&caps, &gaps)
    );
}

#[test]
fn yaml_without_escaped_newlines_is_unchanged() {
    let raw = "a: \"one\"\nlist:\n  - \"two\"\nplain: 3\n";
    assert_eq!(raw, yaml_fix_multiline_strings(raw));
}
