use codex_mate::credentials::{
    credential_persisted, get_credentials, parse_json, remove_credential, render_json,
    store_credential, supplied_credential, update_node_credential, Credentials,
};
use codex_mate::error::ErrorKind;
use codex_mate::json::{JsonNumber, JsonValue};

fn cr(text: &str) -> String {
    text.to_string()
}

fn cr_record(key: &str) -> JsonValue {
    JsonValue::Object(vec![(cr("OPENAI_API_KEY"), JsonValue::String(cr(key)))])
}

#[test]
fn load_of_missing_file_is_empty() {
    assert_eq!(Credentials::load(None).records, vec![]);
}

#[test]
fn load_of_zero_length_file_is_empty() {
    assert_eq!(Credentials::load(Some("")).records, vec![]);
}

#[test]
fn load_of_blank_file_is_empty() {
    assert_eq!(Credentials::load(Some(" \n\t ")).records, vec![]);
}

#[test]
fn load_of_text_that_is_no_json_is_empty() {
    assert_eq!(Credentials::load(Some("not json")).records, vec![]);
    assert_eq!(Credentials::load(Some("{\"a\": ")).records, vec![]);
}

#[test]
fn load_of_json_that_is_no_object_is_empty() {
    assert_eq!(Credentials::load(Some("[1, 2]")).records, vec![]);
    assert_eq!(Credentials::load(Some("\"text\"")).records, vec![]);
    assert_eq!(Credentials::load(Some("null")).records, vec![]);
}

#[test]
fn load_reads_records() {
    let store = Credentials::load(Some("  {\"p\": {\"OPENAI_API_KEY\": \"k\"}, \"q\": 1}\n"));
    assert_eq!(store.secret("p"), Some(cr("k")));
    assert_eq!(store.secret("q"), None);
    assert_eq!(store.secret("r"), None);
    assert!(store.has_credential("p"));
    assert!(!store.has_credential("q"));
    assert!(!store.has_credential("r"));
    assert_eq!(store.records.len(), 2);
}

#[test]
fn get_credentials_returns_the_object_and_empty_object_otherwise() {
    assert_eq!(get_credentials(None), JsonValue::Object(vec![]));
    assert_eq!(get_credentials(Some("")), JsonValue::Object(vec![]));
    assert_eq!(get_credentials(Some("   ")), JsonValue::Object(vec![]));
    assert_eq!(get_credentials(Some("not json")), JsonValue::Object(vec![]));
    assert_eq!(get_credentials(Some("[1]")), JsonValue::Object(vec![]));
    assert_eq!(get_credentials(Some("\"not json\"")), JsonValue::Object(vec![]));
    assert_eq!(get_credentials(Some("17")), JsonValue::Object(vec![]));
    assert_eq!(get_credentials(Some("null")), JsonValue::Object(vec![]));
    assert_eq!(
        get_credentials(Some(" {\"p\": {\"OPENAI_API_KEY\": \"k\"}} ")),
        JsonValue::Object(vec![(cr("p"), cr_record("k"))])
    );
}

#[test]
fn empty_secret_is_stored_but_not_usable() {
    let store = Credentials::load(Some("{\"p\": {\"OPENAI_API_KEY\": \"\"}}"));
    assert_eq!(store.secret("p"), Some(cr("")));
    assert!(!store.has_credential("p"));
}

#[test]
fn secret_that_is_no_text_is_no_secret() {
    let store = Credentials::load(Some("{\"p\": {\"OPENAI_API_KEY\": 5}}"));
    assert_eq!(store.secret("p"), None);
    assert!(!store.has_credential("p"));
}

#[test]
fn set_and_remove_change_only_that_record() {
    let mut store = Credentials::new();
    store.set("a", "ka");
    store.set("b", "kb");
    store.set("a", "ka2");
    assert_eq!(store.records, vec![(cr("a"), cr_record("ka2")), (cr("b"), cr_record("kb"))]);
    store.remove("a");
    assert_eq!(store.records, vec![(cr("b"), cr_record("kb"))]);
    assert_eq!(store.secret("a"), None);
    store.remove("a");
    assert_eq!(store.records.len(), 1);
}

#[test]
fn render_then_load_gives_the_store_back() {
    let mut store = Credentials::new();
    store.set("p", "k");
    store.set("q", "with \"quotes\" and \n newline");
    let text = store.render().unwrap();
    let again = Credentials::load(Some(&text));
    assert_eq!(again.secret("p"), Some(cr("k")));
    assert_eq!(again.secret("q"), Some(cr("with \"quotes\" and \n newline")));
    assert_eq!(again.records.len(), 2);
}

#[test]
fn render_of_empty_store_is_empty_object() {
    assert_eq!(Credentials::new().render().unwrap(), "{}");
}

#[test]
fn render_is_indented_json() {
    let mut store = Credentials::new();
    store.set("p", "k");
    assert_eq!(store.render().unwrap(), "{\n  \"p\": {\n    \"OPENAI_API_KEY\": \"k\"\n  }\n}");
}

#[test]
fn update_rejects_empty_name() {
    let err = update_node_credential(None, "   ", "k").unwrap_err();
    assert_eq!(err.kind, ErrorKind::Validation);
    assert_eq!(err.message, "provider name is empty");
    let err = update_node_credential(None, "", "").unwrap_err();
    assert_eq!(err.message, "provider name is empty");
}

#[test]
fn update_rejects_empty_key() {
    let err = update_node_credential(None, "p", " \t\n").unwrap_err();
    assert_eq!(err.kind, ErrorKind::Validation);
    assert_eq!(err.message, "credential is empty");
}

#[test]
fn update_trims_name_and_key() {
    let update = update_node_credential(Some("not json"), "  p ", "\tk\n").unwrap();
    assert_eq!(update.provider, "p");
    let text = update.content;
    let store = Credentials::load(Some(&text));
    assert_eq!(store.records, vec![(cr("p"), cr_record("k"))]);
    assert!(credential_persisted(Some(&text), "p"));
    assert!(!credential_persisted(Some(&text), "  p "));
}

#[test]
fn update_keeps_other_records() {
    let before = "{\"a\": {\"OPENAI_API_KEY\": \"ka\"}, \"extra\": [1]}";
    let text = update_node_credential(Some(before), "b", "kb").unwrap().content;
    let store = Credentials::load(Some(&text));
    assert_eq!(store.secret("a"), Some(cr("ka")));
    assert_eq!(store.secret("b"), Some(cr("kb")));
    assert_eq!(store.records.len(), 3);
}

#[test]
fn persisted_is_false_for_missing_or_broken_store() {
    assert!(!credential_persisted(None, "p"));
    assert!(!credential_persisted(Some(""), "p"));
    assert!(!credential_persisted(Some("{\"p\": {}}"), "p"));
    assert!(credential_persisted(Some("{\"p\": {\"OPENAI_API_KEY\": \"\"}}"), "p"));
}

#[test]
fn remove_credential_drops_the_record() {
    let before = "{\"a\": {\"OPENAI_API_KEY\": \"ka\"}, \"b\": {\"OPENAI_API_KEY\": \"kb\"}}";
    let text = remove_credential(Some(before), "a").unwrap();
    let store = Credentials::load(Some(&text));
    assert_eq!(store.secret("a"), None);
    assert_eq!(store.secret("b"), Some(cr("kb")));
    assert_eq!(remove_credential(None, "a").unwrap(), "{}");
}

#[test]
fn store_credential_does_not_trim() {
    let text = store_credential(None, "p", " k ").unwrap();
    assert_eq!(Credentials::load(Some(&text)).secret("p"), Some(cr(" k ")));
}

#[test]
fn supplied_credential_skips_blank_and_trims() {
    assert_eq!(supplied_credential(None), None);
    assert_eq!(supplied_credential(Some("")), None);
    assert_eq!(supplied_credential(Some("  \n ")), None);
    assert_eq!(supplied_credential(Some("  sk-1 \n")), Some(cr("sk-1")));
    assert_eq!(supplied_credential(Some("a b")), Some(cr("a b")));
    // all of Unicode's white space counts, not only ASCII
    assert_eq!(supplied_credential(Some("\u{3000}\u{a0}")), None);
}

#[test]
fn load_keeps_each_provider_once() {
    let store = Credentials::load(Some(
        "{\"p\": {\"OPENAI_API_KEY\": \"first\"}, \"p\": {\"OPENAI_API_KEY\": \"second\"}}",
    ));
    assert_eq!(store.records.len(), 1);
    assert_eq!(store.secret("p"), Some(cr("second")));
}

#[test]
fn parse_json_reads_numbers_by_kind() {
    assert_eq!(
        parse_json("[0, 18446744073709551615, -1, 1.5, 1.0, 1e2]").unwrap(),
        JsonValue::Array(vec![
            JsonValue::Number(JsonNumber::PosInt(0)),
            JsonValue::Number(JsonNumber::PosInt(u64::MAX)),
            JsonValue::Number(JsonNumber::NegInt(-1)),
            JsonValue::Number(JsonNumber::Float(cr("1.5"))),
            JsonValue::Number(JsonNumber::Float(cr("1"))),
            JsonValue::Number(JsonNumber::Float(cr("100"))),
        ])
    );
}

#[test]
fn parse_json_failure_is_a_parse_error_with_a_message() {
    let err = parse_json("not json").unwrap_err();
    assert_eq!(err.kind, ErrorKind::Parse);
    assert!(!err.message.is_empty());
    assert_eq!(parse_json("").unwrap_err().kind, ErrorKind::Parse);
}

#[test]
fn render_json_writes_floats_back_as_floats() {
    let value = JsonValue::Array(vec![
        JsonValue::Number(JsonNumber::Float(cr("1"))),
        JsonValue::Number(JsonNumber::Float(cr("2.5"))),
        JsonValue::Number(JsonNumber::PosInt(3)),
        JsonValue::Null,
    ]);
    assert_eq!(render_json(&value).unwrap(), "[\n  1.0,\n  2.5,\n  3,\n  null\n]");
    assert_eq!(parse_json(&render_json(&value).unwrap()).unwrap(), value);
}

#[test]
fn render_json_fails_for_a_number_that_is_none() {
    for text in ["NaN", "inf", "one"] {
        let value = JsonValue::Number(JsonNumber::Float(cr(text)));
        let err = render_json(&value).unwrap_err();
        assert_eq!(err.kind, ErrorKind::Parse);
        assert_eq!(err.message, "value cannot be written as JSON");
    }
}

#[test]
fn record_of_holds_only_the_key() {
    assert_eq!(codex_mate::credentials::record_of("k"), cr_record("k"));
}

#[test]
fn load_of_json_string_is_empty() {
    assert_eq!(Credentials::load(Some("\"not json\"")).records, vec![]);
}

#[test]
fn every_white_space_character_counts_as_blank() {
    for code in 0u32..=0x10FFFF {
        let c = match char::from_u32(code) {
            Some(c) => c,
            None => continue,
        };
        let listed = matches!(
            code,
            0x09..=0x0D
                | 0x20
                | 0x85
                | 0xA0
                | 0x1680
                | 0x2000..=0x200A
                | 0x2028
                | 0x2029
                | 0x202F
                | 0x205F
                | 0x3000
        );
        let mut text = String::new();
        text.push(c);
        assert_eq!(supplied_credential(Some(&text)).is_none(), listed, "U+{:04X}", code);
    }
}

#[test]
fn white_space_is_removed_at_both_ends_only() {
    assert_eq!(supplied_credential(Some("\t a \u{2003} b \r\n")), Some(cr("a \u{2003} b")));
    assert_eq!(supplied_credential(Some("x")), Some(cr("x")));
}
