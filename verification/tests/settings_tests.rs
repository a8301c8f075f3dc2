use codex_mate::error::ErrorKind;
use codex_mate::json::{JsonNumber, JsonValue};
use codex_mate::settings::{
    delete_mcp_server, delete_node, delete_project, is_active, list_mcp_servers, list_projects,
    set_active, upsert_mcp_server, upsert_node, upsert_project, McpServer, ProjectEntry,
};
use codex_mate::tree::TomlValue;

fn st(text: &str) -> String {
    text.to_string()
}

fn st_str(text: &str) -> TomlValue {
    TomlValue::String(st(text))
}

fn st_fields(members: Vec<(&str, JsonValue)>) -> JsonValue {
    JsonValue::Object(members.into_iter().map(|(k, v)| (st(k), v)).collect())
}

fn st_text(text: &str) -> JsonValue {
    JsonValue::String(st(text))
}

fn st_empty() -> TomlValue {
    TomlValue::Table(vec![])
}

fn st_provider<'a>(cfg: &'a TomlValue, name: &str) -> Option<&'a TomlValue> {
    cfg.get("model_providers").and_then(|p| p.get(name))
}

#[test]
fn upsert_creates_provider_with_defaults() {
    let cfg = upsert_node(st_empty(), "p", &st_fields(vec![("base_url", st_text("https://a"))]))
        .unwrap();
    let expected = TomlValue::Table(vec![(
        st("model_providers"),
        TomlValue::Table(vec![(
            st("p"),
            TomlValue::Table(vec![
                (st("base_url"), st_str("https://a")),
                (st("name"), st_str("p")),
                (st("wire_api"), st_str("responses")),
            ]),
        )]),
    )]);
    assert_eq!(cfg, expected);
}

#[test]
fn upsert_merges_instead_of_replacing() {
    let first = upsert_node(st_empty(), "p", &st_fields(vec![("base_url", st_text("https://a"))]))
        .unwrap();
    let second = upsert_node(first, "p", &st_fields(vec![("wire_api", st_text("chat"))])).unwrap();
    let record = st_provider(&second, "p").unwrap();
    assert_eq!(record.get("base_url"), Some(&st_str("https://a")));
    assert_eq!(record.get("wire_api"), Some(&st_str("chat")));
    assert_eq!(record.get("name"), Some(&st_str("p")));
}

#[test]
fn upsert_new_provider_without_base_url_is_refused() {
    let err = upsert_node(st_empty(), "new", &st_fields(vec![])).unwrap_err();
    assert_eq!(err.kind, ErrorKind::Validation);
    assert_eq!(err.message, "base_url is required for new provider");
}

#[test]
fn upsert_new_provider_with_fields_that_are_no_object_is_refused() {
    let err = upsert_node(st_empty(), "new", &JsonValue::Null).unwrap_err();
    assert_eq!(err.kind, ErrorKind::Validation);
    assert_eq!(err.message, "base_url is required for new provider");
}

#[test]
fn upsert_existing_provider_needs_no_base_url() {
    let cfg = TomlValue::Table(vec![(
        st("model_providers"),
        TomlValue::Table(vec![(st("old"), TomlValue::Table(vec![]))]),
    )]);
    let out = upsert_node(cfg, "old", &st_fields(vec![])).unwrap();
    let record = st_provider(&out, "old").unwrap();
    assert_eq!(record.get("base_url"), None);
    assert_eq!(record.get("name"), Some(&st_str("old")));
    assert_eq!(record.get("wire_api"), Some(&st_str("responses")));
}

#[test]
fn upsert_without_fields_twice_changes_nothing_more() {
    let first = upsert_node(st_empty(), "p", &st_fields(vec![("base_url", st_text("u"))]))
        .unwrap();
    let once = upsert_node(first, "p", &st_fields(vec![])).unwrap();
    let twice = upsert_node(once.clone(), "p", &st_fields(vec![])).unwrap();
    assert_eq!(once, twice);
}

#[test]
fn upsert_forces_name_to_the_key() {
    let cfg = upsert_node(
        st_empty(),
        "p",
        &st_fields(vec![("name", st_text("other")), ("base_url", st_text("u"))]),
    )
    .unwrap();
    assert_eq!(st_provider(&cfg, "p").unwrap().get("name"), Some(&st_str("p")));
}

#[test]
fn upsert_later_field_overwrites_earlier_and_coerces() {
    let cfg = upsert_node(
        st_empty(),
        "p",
        &st_fields(vec![
            ("base_url", st_text("first")),
            ("retries", JsonValue::Number(JsonNumber::PosInt(3))),
            ("note", JsonValue::Null),
            ("base_url", st_text("second")),
        ]),
    )
    .unwrap();
    let record = st_provider(&cfg, "p").unwrap();
    assert_eq!(record.get("base_url"), Some(&st_str("second")));
    assert_eq!(record.get("retries"), Some(&TomlValue::Integer(3)));
    assert_eq!(record.get("note"), Some(&st_str("")));
}

#[test]
fn upsert_keeps_other_providers_and_settings() {
    let cfg = TomlValue::Table(vec![
        (st("model"), st_str("m")),
        (
            st("model_providers"),
            TomlValue::Table(vec![(
                st("a"),
                TomlValue::Table(vec![(st("base_url"), st_str("ua"))]),
            )]),
        ),
        (st("tail"), TomlValue::Integer(1)),
    ]);
    let out = upsert_node(cfg, "b", &st_fields(vec![("base_url", st_text("ub"))])).unwrap();
    assert_eq!(out.get("model"), Some(&st_str("m")));
    assert_eq!(out.get("tail"), Some(&TomlValue::Integer(1)));
    assert_eq!(
        st_provider(&out, "a"),
        Some(&TomlValue::Table(vec![(st("base_url"), st_str("ua"))]))
    );
    assert!(st_provider(&out, "b").is_some());
    // the table of providers stays where it stood
    assert_eq!(out.as_table().unwrap()[1].0, "model_providers");
}

#[test]
fn upsert_rejects_root_that_is_no_table() {
    let err = upsert_node(TomlValue::Integer(1), "p", &st_fields(vec![])).unwrap_err();
    assert_eq!(err.kind, ErrorKind::Validation);
    assert_eq!(err.message, "invalid config root");
}

#[test]
fn upsert_rejects_providers_that_are_no_table() {
    let cfg = TomlValue::Table(vec![(st("model_providers"), TomlValue::Integer(1))]);
    let err = upsert_node(cfg, "p", &st_fields(vec![("base_url", st_text("u"))])).unwrap_err();
    assert_eq!(err.kind, ErrorKind::Validation);
    assert_eq!(err.message, "invalid model_providers");
}

#[test]
fn upsert_starts_anew_over_a_record_that_is_no_table() {
    let cfg = TomlValue::Table(vec![(
        st("model_providers"),
        TomlValue::Table(vec![(st("p"), TomlValue::Integer(1))]),
    )]);
    let out = upsert_node(cfg, "p", &st_fields(vec![])).unwrap();
    assert_eq!(
        st_provider(&out, "p"),
        Some(&TomlValue::Table(vec![
            (st("name"), st_str("p")),
            (st("wire_api"), st_str("responses")),
        ]))
    );
}

fn st_active_cfg() -> TomlValue {
    TomlValue::Table(vec![
        (st("model_provider"), st_str("act")),
        (
            st("model_providers"),
            TomlValue::Table(vec![
                (st("act"), TomlValue::Table(vec![(st("base_url"), st_str("u1"))])),
                (st("other"), TomlValue::Table(vec![(st("base_url"), st_str("u2"))])),
            ]),
        ),
    ])
}

#[test]
fn delete_active_without_force_is_refused() {
    let err = delete_node(st_active_cfg(), "act", false).unwrap_err();
    assert_eq!(err.kind, ErrorKind::Validation);
    assert_eq!(err.message, "cannot delete active provider without force");
}

#[test]
fn delete_active_with_force_removes_the_entry() {
    let out = delete_node(st_active_cfg(), "act", true).unwrap();
    assert_eq!(st_provider(&out, "act"), None);
    assert!(st_provider(&out, "other").is_some());
    // the active provider may now name a provider that is gone
    assert!(is_active(&out, "act"));
}

#[test]
fn delete_inactive_needs_no_force() {
    let out = delete_node(st_active_cfg(), "other", false).unwrap();
    assert_eq!(st_provider(&out, "other"), None);
    assert!(st_provider(&out, "act").is_some());
}

#[test]
fn delete_missing_provider_changes_nothing() {
    let out = delete_node(st_active_cfg(), "ghost", false).unwrap();
    assert_eq!(out, st_active_cfg());
    let out = delete_node(st_empty(), "ghost", true).unwrap();
    assert_eq!(out, st_empty());
}

#[test]
fn delete_rejects_root_that_is_no_table() {
    let err = delete_node(TomlValue::Boolean(true), "p", true).unwrap_err();
    assert_eq!(err.kind, ErrorKind::Validation);
    assert_eq!(err.message, "invalid config root");
}

#[test]
fn set_active_inserts_or_replaces_the_name() {
    let out = set_active(st_empty(), "p");
    assert_eq!(out, TomlValue::Table(vec![(st("model_provider"), st_str("p"))]));
    let out = set_active(st_active_cfg(), "other");
    assert!(is_active(&out, "other"));
    assert!(!is_active(&out, "act"));
    assert_eq!(out.as_table().unwrap().len(), 2);
    assert_eq!(set_active(TomlValue::Integer(3), "p"), TomlValue::Integer(3));
}

#[test]
fn is_active_tolerates_odd_settings() {
    assert!(!is_active(&st_empty(), "p"));
    assert!(!is_active(&TomlValue::Integer(1), "p"));
    let cfg = TomlValue::Table(vec![(st("model_provider"), TomlValue::Integer(1))]);
    assert!(!is_active(&cfg, "p"));
}

#[test]
fn mcp_server_upsert_replaces_whole_record() {
    let cfg = TomlValue::Table(vec![(
        st("mcp_servers"),
        TomlValue::Table(vec![(
            st("s"),
            TomlValue::Table(vec![
                (st("command"), st_str("old")),
                (st("env"), st_str("kept?")),
            ]),
        )]),
    )]);
    let out = upsert_mcp_server(cfg, "s", "npx", &vec![st("-y"), st("tool")]).unwrap();
    assert_eq!(
        out.get("mcp_servers").unwrap().get("s"),
        Some(&TomlValue::Table(vec![
            (st("command"), st_str("npx")),
            (st("args"), TomlValue::Array(vec![st_str("-y"), st_str("tool")])),
        ]))
    );
}

#[test]
fn mcp_server_upsert_creates_table_and_rejects_bad_shapes() {
    let out = upsert_mcp_server(st_empty(), "s", "cmd", &vec![]).unwrap();
    assert_eq!(
        list_mcp_servers(&out),
        vec![McpServer { name: st("s"), command: Some(st("cmd")), args: Some(vec![]) }]
    );
    let err = upsert_mcp_server(TomlValue::Integer(0), "s", "cmd", &vec![]).unwrap_err();
    assert_eq!(err.message, "invalid config root");
    let cfg = TomlValue::Table(vec![(st("mcp_servers"), st_str("x"))]);
    let err = upsert_mcp_server(cfg, "s", "cmd", &vec![]).unwrap_err();
    assert_eq!(err.kind, ErrorKind::Validation);
    assert_eq!(err.message, "invalid mcp_servers");
}

#[test]
fn mcp_server_list_reads_what_is_there() {
    let cfg = TomlValue::Table(vec![(
        st("mcp_servers"),
        TomlValue::Table(vec![
            (
                st("full"),
                TomlValue::Table(vec![
                    (st("command"), st_str("run")),
                    (
                        st("args"),
                        TomlValue::Array(vec![st_str("a"), TomlValue::Integer(1), st_str("b")]),
                    ),
                ]),
            ),
            (st("bare"), TomlValue::Table(vec![])),
            (st("odd"), TomlValue::Integer(7)),
            (
                st("typed"),
                TomlValue::Table(vec![
                    (st("command"), TomlValue::Integer(1)),
                    (st("args"), st_str("no array")),
                ]),
            ),
        ]),
    )]);
    assert_eq!(
        list_mcp_servers(&cfg),
        vec![
            McpServer {
                name: st("full"),
                command: Some(st("run")),
                args: Some(vec![st("a"), st("b")]),
            },
            McpServer { name: st("bare"), command: None, args: None },
            McpServer { name: st("odd"), command: None, args: None },
            McpServer { name: st("typed"), command: None, args: None },
        ]
    );
    assert_eq!(list_mcp_servers(&st_empty()), vec![]);
    assert_eq!(list_mcp_servers(&TomlValue::Integer(1)), vec![]);
}

#[test]
fn mcp_server_delete_removes_only_that_server() {
    let cfg = upsert_mcp_server(st_empty(), "a", "x", &vec![]).unwrap();
    let cfg = upsert_mcp_server(cfg, "b", "y", &vec![]).unwrap();
    let out = delete_mcp_server(cfg, "a").unwrap();
    let names: Vec<String> = list_mcp_servers(&out).into_iter().map(|s| s.name).collect();
    assert_eq!(names, vec![st("b")]);
    assert_eq!(delete_mcp_server(st_empty(), "a").unwrap(), st_empty());
    let err = delete_mcp_server(TomlValue::Integer(1), "a").unwrap_err();
    assert_eq!(err.kind, ErrorKind::Validation);
    assert_eq!(err.message, "invalid config root");
}

#[test]
fn project_upsert_list_delete() {
    let cfg = upsert_project(st_empty(), "/home/u/proj", "trusted").unwrap();
    let cfg = upsert_project(cfg, "/tmp/x", "untrusted").unwrap();
    assert_eq!(
        list_projects(&cfg),
        vec![
            ProjectEntry { path: st("/home/u/proj"), trust_level: st("trusted") },
            ProjectEntry { path: st("/tmp/x"), trust_level: st("untrusted") },
        ]
    );
    let cfg = upsert_project(cfg, "/home/u/proj", "untrusted").unwrap();
    assert_eq!(list_projects(&cfg)[0].trust_level, "untrusted");
    let cfg = delete_project(cfg, "/home/u/proj");
    assert_eq!(
        list_projects(&cfg),
        vec![ProjectEntry { path: st("/tmp/x"), trust_level: st("untrusted") }]
    );
}

#[test]
fn project_list_defaults_missing_trust_level_to_empty() {
    let cfg = TomlValue::Table(vec![(
        st("projects"),
        TomlValue::Table(vec![
            (st("/a"), TomlValue::Table(vec![])),
            (st("/b"), TomlValue::Table(vec![(st("trust_level"), TomlValue::Integer(1))])),
            (st("/c"), st_str("x")),
        ]),
    )]);
    assert_eq!(
        list_projects(&cfg),
        vec![
            ProjectEntry { path: st("/a"), trust_level: st("") },
            ProjectEntry { path: st("/b"), trust_level: st("") },
            ProjectEntry { path: st("/c"), trust_level: st("") },
        ]
    );
}

#[test]
fn project_upsert_rejects_bad_shapes_and_delete_tolerates_them() {
    let err = upsert_project(TomlValue::Integer(1), "/a", "t").unwrap_err();
    assert_eq!(err.message, "invalid config root");
    let cfg = TomlValue::Table(vec![(st("projects"), TomlValue::Integer(1))]);
    let err = upsert_project(cfg.clone(), "/a", "t").unwrap_err();
    assert_eq!(err.kind, ErrorKind::Validation);
    assert_eq!(err.message, "invalid projects");
    assert_eq!(delete_project(cfg.clone(), "/a"), cfg);
    assert_eq!(delete_project(TomlValue::Integer(1), "/a"), TomlValue::Integer(1));
}

#[test]
fn upsert_stores_a_whole_float_as_integer() {
    let fields = codex_mate::credentials::parse_json(
        "{\"base_url\": \"https://a\", \"n\": 1.0, \"m\": 2.5}",
    )
    .unwrap();
    let cfg = upsert_node(st_empty(), "p", &fields).unwrap();
    let record = st_provider(&cfg, "p").unwrap();
    assert_eq!(record.get("n"), Some(&TomlValue::Integer(1)));
    assert_eq!(record.get("m"), Some(&TomlValue::Float(st("2.5"))));
    let text = codex_mate::repository::upsert_node("", "p", &fields).unwrap();
    let outside: toml::Value = toml::from_str(&text).unwrap();
    let stored = &outside["model_providers"]["p"];
    assert_eq!(stored["n"], toml::Value::Integer(1));
    assert_eq!(stored["m"], toml::Value::Float(2.5));
}
