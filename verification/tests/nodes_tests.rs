use codex_mate::credentials::Credentials;
use codex_mate::error::ErrorKind;
use codex_mate::json::JsonValue;
use codex_mate::nodes::{
    active_secret, auth_content, list_nodes, list_nodes_from, switch_node, NodeList, ProviderInfo,
};

fn nd(text: &str) -> String {
    text.to_string()
}

fn nd_obj(members: Vec<(&str, JsonValue)>) -> JsonValue {
    JsonValue::Object(members.into_iter().map(|(k, v)| (nd(k), v)).collect())
}

fn nd_text(text: &str) -> JsonValue {
    JsonValue::String(nd(text))
}

#[test]
fn list_joins_settings_with_credentials() {
    let cfg = nd_obj(vec![
        ("model_provider", nd_text("a")),
        (
            "model_providers",
            nd_obj(vec![
                (
                    "a",
                    nd_obj(vec![
                        ("base_url", nd_text("https://a")),
                        ("wire_api", nd_text("chat")),
                        ("requires_openai_auth", JsonValue::Bool(true)),
                    ]),
                ),
                ("b", nd_obj(vec![("base_url", JsonValue::Bool(false))])),
                ("c", JsonValue::Null),
                ("d", nd_obj(vec![])),
            ]),
        ),
    ]);
    let creds = nd_obj(vec![
        ("a", nd_obj(vec![("OPENAI_API_KEY", nd_text("k"))])),
        ("b", nd_obj(vec![("OPENAI_API_KEY", nd_text(""))])),
        ("c", nd_obj(vec![("OTHER", nd_text("k"))])),
    ]);
    let list = list_nodes(&cfg, &creds);
    assert_eq!(
        list,
        NodeList {
            current_provider: Some(nd("a")),
            providers: vec![
                ProviderInfo {
                    name: nd("a"),
                    base_url: Some(nd("https://a")),
                    wire_api: Some(nd("chat")),
                    requires_openai_auth: Some(true),
                    has_credential: true,
                },
                ProviderInfo {
                    name: nd("b"),
                    base_url: None,
                    wire_api: None,
                    requires_openai_auth: None,
                    has_credential: false,
                },
                ProviderInfo {
                    name: nd("c"),
                    base_url: None,
                    wire_api: None,
                    requires_openai_auth: None,
                    has_credential: false,
                },
                ProviderInfo {
                    name: nd("d"),
                    base_url: None,
                    wire_api: None,
                    requires_openai_auth: None,
                    has_credential: false,
                },
            ],
        }
    );
}

#[test]
fn list_tolerates_missing_parts() {
    let empty = list_nodes(&nd_obj(vec![]), &nd_obj(vec![]));
    assert_eq!(empty, NodeList { current_provider: None, providers: vec![] });
    let odd = list_nodes(&JsonValue::Null, &JsonValue::Null);
    assert_eq!(odd, NodeList { current_provider: None, providers: vec![] });
    let cfg = nd_obj(vec![
        ("model_provider", JsonValue::Bool(true)),
        ("model_providers", JsonValue::Array(vec![])),
    ]);
    assert_eq!(
        list_nodes(&cfg, &JsonValue::Array(vec![])),
        NodeList { current_provider: None, providers: vec![] }
    );
}

#[test]
fn list_keeps_an_active_provider_that_does_not_exist() {
    let cfg = nd_obj(vec![("model_provider", nd_text("gone"))]);
    let list = list_nodes(&cfg, &nd_obj(vec![]));
    assert_eq!(list.current_provider, Some(nd("gone")));
    assert!(list.providers.is_empty());
}

#[test]
fn list_from_text_reads_both_files() {
    let settings = "model_provider = \"a\"\n\n[model_providers.a]\nbase_url = \"https://a\"\nname = \"a\"\nwire_api = \"responses\"\n\n[model_providers.b]\nbase_url = \"https://b\"\n";
    let creds = "{\"b\": {\"OPENAI_API_KEY\": \"kb\"}}";
    let list = list_nodes_from(settings, Some(creds)).unwrap();
    assert_eq!(list.current_provider, Some(nd("a")));
    let seen: Vec<(String, bool)> =
        list.providers.iter().map(|p| (p.name.clone(), p.has_credential)).collect();
    assert_eq!(seen, vec![(nd("a"), false), (nd("b"), true)]);
    assert_eq!(list.providers[0].wire_api, Some(nd("responses")));
    assert_eq!(list.providers[1].wire_api, None);
}

#[test]
fn list_from_text_survives_broken_credentials_but_not_broken_settings() {
    let list = list_nodes_from("[model_providers.a]\nbase_url = \"u\"\n", Some("not json")).unwrap();
    assert_eq!(list.providers.len(), 1);
    assert!(!list.providers[0].has_credential);
    let list = list_nodes_from("", None).unwrap();
    assert_eq!(list, NodeList { current_provider: None, providers: vec![] });
    let err = list_nodes_from("this is = = not toml", None).unwrap_err();
    assert_eq!(err.kind, ErrorKind::Parse);
    assert!(err.message.starts_with("parse toml failed: "));
}

#[test]
fn switch_without_credential_is_not_found() {
    let err = switch_node(None, "p").unwrap_err();
    assert_eq!(err.kind, ErrorKind::NotFound);
    assert_eq!(err.message, "credential not found for provider 'p'");
    let err = switch_node(Some("{\"q\": {\"OPENAI_API_KEY\": \"k\"}}"), "p").unwrap_err();
    assert_eq!(err.kind, ErrorKind::NotFound);
    let err = switch_node(Some("{\"p\": {}}"), "p").unwrap_err();
    assert_eq!(err.kind, ErrorKind::NotFound);
    let err = switch_node(Some("{\"p\": {\"OPENAI_API_KEY\": 1}}"), "p").unwrap_err();
    assert_eq!(err.kind, ErrorKind::NotFound);
}

#[test]
fn switch_with_credential_writes_exactly_the_key() {
    let text = switch_node(Some("{\"p\": {\"OPENAI_API_KEY\": \"k\", \"more\": 1}}"), "p").unwrap();
    assert_eq!(text, "{\n  \"OPENAI_API_KEY\": \"k\"\n}");
    let parsed: serde_json::Value = serde_json::from_str(&text).unwrap();
    let object = parsed.as_object().unwrap();
    assert_eq!(object.len(), 1);
    assert_eq!(object.get("OPENAI_API_KEY").and_then(|v| v.as_str()), Some("k"));
}

#[test]
fn switch_accepts_an_empty_key_that_is_stored() {
    let text = switch_node(Some("{\"p\": {\"OPENAI_API_KEY\": \"\"}}"), "p").unwrap();
    assert_eq!(text, "{\n  \"OPENAI_API_KEY\": \"\"\n}");
}

#[test]
fn active_secret_matches_store() {
    let mut store = Credentials::new();
    store.set("p", "k");
    assert_eq!(active_secret(&store, "p").unwrap(), "k");
    let err = active_secret(&store, "it's").unwrap_err();
    assert_eq!(err.kind, ErrorKind::NotFound);
    assert_eq!(err.message, "credential not found for provider 'it's'");
}

#[test]
fn auth_content_escapes_the_key() {
    let text = auth_content("a\"b").unwrap();
    let parsed: serde_json::Value = serde_json::from_str(&text).unwrap();
    assert_eq!(parsed["OPENAI_API_KEY"], serde_json::Value::String("a\"b".to_string()));
}
