use codex_mate::codec::{float_is_finite, json_to_toml, number_to_toml, toml_to_json};
use codex_mate::json::{JsonNumber, JsonValue};
use codex_mate::tree::TomlValue;

fn codec_s(text: &str) -> String {
    text.to_string()
}

fn codec_sample() -> JsonValue {
    JsonValue::Object(vec![
        (codec_s("title"), JsonValue::String(codec_s("x"))),
        (codec_s("count"), JsonValue::Number(JsonNumber::PosInt(7))),
        (codec_s("delta"), JsonValue::Number(JsonNumber::NegInt(-3))),
        (codec_s("ratio"), JsonValue::Number(JsonNumber::Float(codec_s("1.5")))),
        (codec_s("on"), JsonValue::Bool(true)),
        (
            codec_s("list"),
            JsonValue::Array(vec![
                JsonValue::String(codec_s("a")),
                JsonValue::Number(JsonNumber::PosInt(0)),
                JsonValue::Array(vec![]),
            ]),
        ),
        (
            codec_s("inner"),
            JsonValue::Object(vec![(codec_s("k"), JsonValue::Bool(false))]),
        ),
    ])
}

#[test]
fn null_becomes_empty_string() {
    assert_eq!(json_to_toml(&JsonValue::Null), TomlValue::String(String::new()));
}

#[test]
fn bool_stays_bool() {
    assert_eq!(json_to_toml(&JsonValue::Bool(true)), TomlValue::Boolean(true));
    assert_eq!(json_to_toml(&JsonValue::Bool(false)), TomlValue::Boolean(false));
}

#[test]
fn string_stays_string() {
    assert_eq!(
        json_to_toml(&JsonValue::String(codec_s("héllo"))),
        TomlValue::String(codec_s("héllo"))
    );
}

#[test]
fn integers_that_fit_become_integers() {
    assert_eq!(number_to_toml(&JsonNumber::PosInt(0)), TomlValue::Integer(0));
    assert_eq!(number_to_toml(&JsonNumber::PosInt(42)), TomlValue::Integer(42));
    assert_eq!(
        number_to_toml(&JsonNumber::PosInt(i64::MAX as u64)),
        TomlValue::Integer(i64::MAX)
    );
    assert_eq!(number_to_toml(&JsonNumber::NegInt(-1)), TomlValue::Integer(-1));
    assert_eq!(number_to_toml(&JsonNumber::NegInt(i64::MIN)), TomlValue::Integer(i64::MIN));
}

#[test]
fn unsigned_beyond_signed_range_becomes_float() {
    let just_over = (i64::MAX as u64) + 1;
    assert_eq!(
        number_to_toml(&JsonNumber::PosInt(just_over)),
        TomlValue::Float((just_over as f64).to_string())
    );
    assert_eq!(
        number_to_toml(&JsonNumber::PosInt(u64::MAX)),
        TomlValue::Float(codec_s("18446744073709552000"))
    );
}

#[test]
fn float_stays_float() {
    assert_eq!(
        number_to_toml(&JsonNumber::Float(codec_s("2.25"))),
        TomlValue::Float(codec_s("2.25"))
    );
}

#[test]
fn arrays_and_objects_are_encoded_member_by_member() {
    let encoded = json_to_toml(&codec_sample());
    let expected = TomlValue::Table(vec![
        (codec_s("title"), TomlValue::String(codec_s("x"))),
        (codec_s("count"), TomlValue::Integer(7)),
        (codec_s("delta"), TomlValue::Integer(-3)),
        (codec_s("ratio"), TomlValue::Float(codec_s("1.5"))),
        (codec_s("on"), TomlValue::Boolean(true)),
        (
            codec_s("list"),
            TomlValue::Array(vec![
                TomlValue::String(codec_s("a")),
                TomlValue::Integer(0),
                TomlValue::Array(vec![]),
            ]),
        ),
        (
            codec_s("inner"),
            TomlValue::Table(vec![(codec_s("k"), TomlValue::Boolean(false))]),
        ),
    ]);
    assert_eq!(encoded, expected);
}

#[test]
fn null_inside_array_becomes_empty_string() {
    let encoded = json_to_toml(&JsonValue::Array(vec![JsonValue::Null, JsonValue::Bool(true)]));
    assert_eq!(
        encoded,
        TomlValue::Array(vec![TomlValue::String(String::new()), TomlValue::Boolean(true)])
    );
}

#[test]
fn round_trip_gives_the_value_back() {
    let value = codec_sample();
    assert_eq!(toml_to_json(&json_to_toml(&value)), value);
}

#[test]
fn round_trip_of_scalars() {
    for value in [
        JsonValue::Bool(false),
        JsonValue::String(String::new()),
        JsonValue::Number(JsonNumber::PosInt(0)),
        JsonValue::Number(JsonNumber::PosInt(i64::MAX as u64)),
        JsonValue::Number(JsonNumber::NegInt(i64::MIN)),
        JsonValue::Number(JsonNumber::Float(codec_s("-0.125"))),
        JsonValue::Array(vec![]),
        JsonValue::Object(vec![]),
    ] {
        assert_eq!(toml_to_json(&json_to_toml(&value)), value);
    }
}

#[test]
fn null_does_not_round_trip() {
    assert_eq!(
        toml_to_json(&json_to_toml(&JsonValue::Null)),
        JsonValue::String(String::new())
    );
}

#[test]
fn decode_integer_picks_sign_variant() {
    assert_eq!(
        toml_to_json(&TomlValue::Integer(5)),
        JsonValue::Number(JsonNumber::PosInt(5))
    );
    assert_eq!(
        toml_to_json(&TomlValue::Integer(0)),
        JsonValue::Number(JsonNumber::PosInt(0))
    );
    assert_eq!(
        toml_to_json(&TomlValue::Integer(-5)),
        JsonValue::Number(JsonNumber::NegInt(-5))
    );
}

#[test]
fn decode_float_that_is_not_finite_becomes_null() {
    assert_eq!(toml_to_json(&TomlValue::Float(codec_s("NaN"))), JsonValue::Null);
    assert_eq!(toml_to_json(&TomlValue::Float(codec_s("inf"))), JsonValue::Null);
    assert_eq!(toml_to_json(&TomlValue::Float(codec_s("-inf"))), JsonValue::Null);
    assert_eq!(
        toml_to_json(&TomlValue::Float(codec_s("3.5"))),
        JsonValue::Number(JsonNumber::Float(codec_s("3.5")))
    );
}

#[test]
fn float_is_finite_agrees_with_float_display() {
    assert!(!float_is_finite(&f64::NAN.to_string()));
    assert!(!float_is_finite(&f64::INFINITY.to_string()));
    assert!(!float_is_finite(&f64::NEG_INFINITY.to_string()));
    assert!(float_is_finite(&f64::MAX.to_string()));
    assert!(float_is_finite(&(0.0f64).to_string()));
}

#[test]
fn decode_datetime_becomes_tagged_object() {
    assert_eq!(
        toml_to_json(&TomlValue::Datetime(codec_s("1979-05-27T07:32:00Z"))),
        JsonValue::Object(vec![(
            codec_s("$__toml_private_datetime"),
            JsonValue::String(codec_s("1979-05-27T07:32:00Z"))
        )])
    );
}

#[test]
fn decode_agrees_with_serde_on_parsed_settings() {
    let text = "a = 1\nb = -2\nc = 1.5\nd = true\ne = \"s\"\nf = [1, 2]\ng = 1979-05-27T07:32:00Z\nh = nan\n[t]\nk = \"v\"\n";
    let outside: toml::Value = toml::from_str(text).unwrap();
    let expected = serde_json::to_value(&outside).unwrap();
    let ours = codex_mate::repository::get_full_config(text).unwrap();
    let rendered = codex_mate::credentials::render_json(&ours).unwrap();
    let reread: serde_json::Value = serde_json::from_str(&rendered).unwrap();
    assert_eq!(reread, expected);
}

#[test]
fn clone_is_deep_and_equal() {
    let value = codec_sample();
    assert_eq!(value.clone(), value);
    let tree = json_to_toml(&value);
    assert_eq!(tree.clone(), tree);
}

#[test]
fn float_without_fraction_becomes_integer() {
    assert_eq!(number_to_toml(&JsonNumber::Float(codec_s("1"))), TomlValue::Integer(1));
    assert_eq!(number_to_toml(&JsonNumber::Float(codec_s("-3"))), TomlValue::Integer(-3));
    assert_eq!(number_to_toml(&JsonNumber::Float(codec_s("-0"))), TomlValue::Integer(0));
    assert_eq!(number_to_toml(&JsonNumber::Float(codec_s("1.0"))), TomlValue::Integer(1));
    assert_eq!(number_to_toml(&JsonNumber::Float(codec_s("100.000"))), TomlValue::Integer(100));
    assert_eq!(
        number_to_toml(&JsonNumber::Float(codec_s("9007199254740992"))),
        TomlValue::Integer(9007199254740992)
    );
    assert_eq!(
        number_to_toml(&JsonNumber::Float(codec_s("-9223372036854775808"))),
        TomlValue::Integer(i64::MIN)
    );
}

#[test]
fn float_with_fraction_or_beyond_range_stays_float() {
    for text in [
        "2.5",
        "-0.125",
        "0.30000000000000004",
        "1.000001",
        "9223372036854775808",
        "-9223372036854775809",
        "100000000000000000000",
        "1.",
        ".5",
        "",
        "-",
        "1e3",
        "NaN",
        "inf",
    ] {
        assert_eq!(
            number_to_toml(&JsonNumber::Float(codec_s(text))),
            TomlValue::Float(codec_s(text)),
            "{}",
            text
        );
    }
}

#[test]
fn numbers_read_from_text_follow_the_rule() {
    let value = codex_mate::credentials::parse_json("[1.0, 2.5, 1e2, -4.0, 1e19, 1e300, 0.5e1]")
        .unwrap();
    assert_eq!(
        json_to_toml(&value),
        TomlValue::Array(vec![
            TomlValue::Integer(1),
            TomlValue::Float(codec_s("2.5")),
            TomlValue::Integer(100),
            TomlValue::Integer(-4),
            TomlValue::Float(codec_s("10000000000000000000")),
            TomlValue::Float((1e300f64).to_string()),
            TomlValue::Integer(5),
        ])
    );
}

#[test]
fn round_trip_of_whole_float_gives_the_same_number() {
    let back = toml_to_json(&json_to_toml(&JsonValue::Number(JsonNumber::Float(codec_s("7")))));
    assert_eq!(back, JsonValue::Number(JsonNumber::PosInt(7)));
    let back = toml_to_json(&json_to_toml(&JsonValue::Number(JsonNumber::Float(codec_s("-7")))));
    assert_eq!(back, JsonValue::Number(JsonNumber::NegInt(-7)));
}

#[test]
fn parse_integer_reads_digits_with_optional_minus() {
    use_parse_integer("0", Some(0));
    use_parse_integer("-0", Some(0));
    use_parse_integer("007", Some(7));
    use_parse_integer("9223372036854775807", Some(i64::MAX));
    use_parse_integer("9223372036854775808", None);
    use_parse_integer("-9223372036854775808", Some(i64::MIN));
    use_parse_integer("-9223372036854775809", None);
    use_parse_integer("99999999999999999999999999999999999999999", None);
    use_parse_integer("", None);
    use_parse_integer("-", None);
    use_parse_integer("+1", None);
    use_parse_integer("1 ", None);
    use_parse_integer("1-", None);
    use_parse_integer("--1", None);
    use_parse_integer("12a", None);
    use_parse_integer("\u{0661}", None);
}

fn use_parse_integer(text: &str, expected: Option<i64>) {
    assert_eq!(codex_mate::decimal::parse_integer(text), expected, "{:?}", text);
}

#[test]
fn parse_whole_accepts_a_fraction_of_zeros() {
    for (text, expected) in [
        ("12", Some(12)),
        ("12.0", Some(12)),
        ("-12.000", Some(-12)),
        ("0.0", Some(0)),
        ("12.", None),
        (".0", None),
        ("-.0", None),
        ("12.01", None),
        ("12.0.0", None),
        ("1.0e1", None),
        ("9223372036854775808.0", None),
        ("", None),
    ] {
        assert_eq!(codex_mate::decimal::parse_whole(text), expected, "{:?}", text);
    }
}

#[test]
fn digit_tells_decimal_digits() {
    for (i, c) in "0123456789".chars().enumerate() {
        assert_eq!(codex_mate::decimal::digit(c), Some(i as u8));
    }
    for c in ['a', ' ', '-', '.', '/', ':', '\u{0660}'] {
        assert_eq!(codex_mate::decimal::digit(c), None);
    }
}

#[test]
fn write_unsigned_writes_decimal_digits() {
    for n in [0u64, 7, 10, 99, 100, 1234567890, i64::MAX as u64, u64::MAX] {
        assert_eq!(codex_mate::decimal::write_unsigned(n), n.to_string());
    }
    assert_eq!(codex_mate::decimal::write_unsigned(u64::MAX), "18446744073709551615");
}
