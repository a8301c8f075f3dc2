use codex_mate::diagnostics::{debug_credentials_info, FileState};
use codex_mate::error::{ConfigError, ErrorKind};
use codex_mate::json::{JsonNumber, JsonValue};
use codex_mate::tree::TomlValue;
use codex_mate::version::{get_codex_version, CodexVersion, CommandOutcome};

fn rt(text: &str) -> String {
    text.to_string()
}

#[test]
fn version_of_a_tool_that_ran() {
    let outcome = CommandOutcome::Ran {
        success: true,
        stdout: b"codex 1.2.3\n".to_vec(),
        stderr: b"ignored".to_vec(),
    };
    assert_eq!(
        get_codex_version(&outcome),
        CodexVersion { installed: true, version: Some(rt("codex 1.2.3")), error: None }
    );
}

#[test]
fn version_of_a_tool_that_failed() {
    let outcome = CommandOutcome::Ran {
        success: false,
        stdout: b"ignored".to_vec(),
        stderr: b"  no such flag \n".to_vec(),
    };
    assert_eq!(
        get_codex_version(&outcome),
        CodexVersion { installed: false, version: None, error: Some(rt("no such flag")) }
    );
}

#[test]
fn version_of_a_tool_that_did_not_start() {
    let outcome = CommandOutcome::NotStarted(rt(" No such file or directory "));
    assert_eq!(
        get_codex_version(&outcome),
        CodexVersion {
            installed: false,
            version: None,
            error: Some(rt(" No such file or directory ")),
        }
    );
}

#[test]
fn version_output_that_is_no_utf8_is_decoded_with_replacement() {
    let outcome =
        CommandOutcome::Ran { success: true, stdout: vec![b'v', 0xff, b'1', b'\n'], stderr: vec![] };
    assert_eq!(get_codex_version(&outcome).version, Some(rt("v\u{fffd}1")));
}

#[test]
fn report_on_missing_file() {
    assert_eq!(
        debug_credentials_info("/c/credentials.json", &FileState::Missing),
        JsonValue::Object(vec![
            (rt("path"), JsonValue::String(rt("/c/credentials.json"))),
            (rt("exists"), JsonValue::Bool(false)),
        ])
    );
}

#[test]
fn report_on_readable_file() {
    assert_eq!(
        debug_credentials_info("/c", &FileState::Content(rt(" é\n"))),
        JsonValue::Object(vec![
            (rt("path"), JsonValue::String(rt("/c"))),
            (rt("exists"), JsonValue::Bool(true)),
            (rt("len"), JsonValue::Number(JsonNumber::PosInt(4))),
            (rt("trimmed_empty"), JsonValue::Bool(false)),
            (rt("content"), JsonValue::String(rt(" é\n"))),
        ])
    );
    let blank = debug_credentials_info("/c", &FileState::Content(rt("  \n")));
    assert_eq!(blank.get("trimmed_empty"), Some(&JsonValue::Bool(true)));
    assert_eq!(blank.get("len"), Some(&JsonValue::Number(JsonNumber::PosInt(3))));
    let empty = debug_credentials_info("/c", &FileState::Content(String::new()));
    assert_eq!(empty.get("trimmed_empty"), Some(&JsonValue::Bool(true)));
    assert_eq!(empty.get("len"), Some(&JsonValue::Number(JsonNumber::PosInt(0))));
}

#[test]
fn report_on_unreadable_file() {
    assert_eq!(
        debug_credentials_info("/c", &FileState::Unreadable(rt("denied"))),
        JsonValue::Object(vec![
            (rt("path"), JsonValue::String(rt("/c"))),
            (rt("exists"), JsonValue::Bool(true)),
            (rt("read_error"), JsonValue::String(rt("denied"))),
        ])
    );
}

#[test]
fn error_constructors_and_getters() {
    let e = ConfigError::new(ErrorKind::NotFound, "gone");
    assert_eq!(e.kind(), ErrorKind::NotFound);
    assert_eq!(e.message(), "gone");
    let e = ConfigError::with_detail(ErrorKind::Io, "read failed: ", "denied");
    assert_eq!(e, ConfigError { kind: ErrorKind::Io, message: rt("read failed: denied") });
}

#[test]
fn json_accessors() {
    let value = JsonValue::Object(vec![
        (rt("s"), JsonValue::String(rt("x"))),
        (rt("b"), JsonValue::Bool(true)),
    ]);
    assert_eq!(value.get("s").and_then(|v| v.as_str()), Some("x"));
    assert_eq!(value.get("b").and_then(|v| v.as_bool()), Some(true));
    assert_eq!(value.get("s").and_then(|v| v.as_bool()), None);
    assert_eq!(value.get("missing"), None);
    assert_eq!(value.get_text("s"), Some(rt("x")));
    assert_eq!(value.get_text("b"), None);
    assert_eq!(value.as_object().map(|m| m.len()), Some(2));
    assert_eq!(JsonValue::Null.as_object(), None);
    assert_eq!(JsonValue::Null.get("s"), None);
}

#[test]
fn text_helpers() {
    assert_eq!(codex_mate::text::join("ab", "cd"), "abcd");
    assert_eq!(codex_mate::text::join3("a", "", "c"), "ac");
    assert!(codex_mate::text::same("x", "x"));
    assert!(!codex_mate::text::same("x", "X"));
}

#[test]
fn toml_accessors() {
    let table = TomlValue::Table(vec![
        (rt("s"), TomlValue::text_of("x")),
        (rt("a"), TomlValue::Array(vec![TomlValue::Integer(1)])),
    ]);
    assert_eq!(TomlValue::empty_table(), TomlValue::Table(vec![]));
    assert_eq!(table.get("s").and_then(|v| v.as_str()), Some("x"));
    assert_eq!(table.get_text("s"), Some(rt("x")));
    assert_eq!(table.get_text("a"), None);
    assert_eq!(table.get("a").and_then(|v| v.as_array()), Some(&vec![TomlValue::Integer(1)]));
    assert_eq!(table.get("s").and_then(|v| v.as_array()), None);
    assert_eq!(table.as_table().map(|e| e.len()), Some(2));
    assert_eq!(TomlValue::Integer(1).as_table(), None);
    assert_eq!(TomlValue::Integer(1).get("s"), None);
}
