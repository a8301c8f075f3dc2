use codex_mate::assoc::{discard, find, store};
use codex_mate::tree::TomlValue;

fn assoc_key(text: &str) -> String {
    text.to_string()
}

#[test]
fn store_replaces_in_place_and_appends() {
    let mut entries: Vec<(String, TomlValue)> = Vec::new();
    store(&mut entries, assoc_key("a"), TomlValue::Integer(1));
    store(&mut entries, assoc_key("b"), TomlValue::Integer(2));
    store(&mut entries, assoc_key("a"), TomlValue::Integer(3));
    assert_eq!(
        entries,
        vec![
            (assoc_key("a"), TomlValue::Integer(3)),
            (assoc_key("b"), TomlValue::Integer(2)),
        ]
    );
    assert_eq!(find(&entries, &assoc_key("a")), Some(0));
    assert_eq!(find(&entries, &assoc_key("b")), Some(1));
    assert_eq!(find(&entries, &assoc_key("c")), None);
}

#[test]
fn find_returns_first_of_equal_keys() {
    let entries = vec![
        (assoc_key("x"), TomlValue::Integer(1)),
        (assoc_key("k"), TomlValue::Integer(2)),
        (assoc_key("k"), TomlValue::Integer(3)),
    ];
    assert_eq!(find(&entries, &assoc_key("k")), Some(1));
}

#[test]
fn discard_drops_every_occurrence_and_keeps_order() {
    let mut entries = vec![
        (assoc_key("k"), TomlValue::Integer(1)),
        (assoc_key("a"), TomlValue::Integer(2)),
        (assoc_key("k"), TomlValue::Integer(3)),
        (assoc_key("b"), TomlValue::Integer(4)),
        (assoc_key("k"), TomlValue::Integer(5)),
    ];
    discard(&mut entries, &assoc_key("k"));
    assert_eq!(
        entries,
        vec![
            (assoc_key("a"), TomlValue::Integer(2)),
            (assoc_key("b"), TomlValue::Integer(4)),
        ]
    );
    discard(&mut entries, &assoc_key("missing"));
    assert_eq!(entries.len(), 2);
}

#[test]
fn discard_on_empty_list_is_a_no_op() {
    let mut entries: Vec<(String, TomlValue)> = Vec::new();
    discard(&mut entries, &assoc_key("k"));
    assert!(entries.is_empty());
}
