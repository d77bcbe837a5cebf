use postgres_thread_store::json::compact_json;
use postgres_thread_store::json::json_quote;
use postgres_thread_store::json::postgres_jsonb_compat_key;
use postgres_thread_store::json::session_source_key_from_value;
use postgres_thread_store::json::JsonValue;

fn s(text: &str) -> JsonValue {
    JsonValue::String(text.to_string())
}

fn object(entries: Vec<(&str, JsonValue)>) -> JsonValue {
    JsonValue::Object(entries.into_iter().map(|(k, v)| (k.to_string(), v)).collect())
}

#[test]
fn json_quote_escapes_like_serde_json() {
    assert_eq!(json_quote("plain").unwrap(), "\"plain\"");
    assert_eq!(json_quote("a\"b\\c\n").unwrap(), "\"a\\\"b\\\\c\\n\"");
}

#[test]
fn compact_json_writes_scalars_arrays_and_objects() {
    let value = object(vec![
        ("a", s("x")),
        ("b", JsonValue::Array(vec![JsonValue::Null, JsonValue::Bool(true), JsonValue::Number("12".to_string())])),
    ]);
    assert_eq!(compact_json(&value).unwrap(), r#"{"a":"x","b":[null,true,12]}"#);
    assert_eq!(compact_json(&JsonValue::Bool(false)).unwrap(), "false");
    assert_eq!(compact_json(&JsonValue::Array(vec![])).unwrap(), "[]");
    assert_eq!(compact_json(&object(vec![])).unwrap(), "{}");
}

#[test]
fn string_values_are_keyed_by_their_text() {
    assert_eq!(session_source_key_from_value(&s("vscode")).unwrap(), "vscode");
    assert_eq!(
        session_source_key_from_value(&object(vec![("k", s("v"))])).unwrap(),
        r#"{"k":"v"}"#
    );
    assert_eq!(session_source_key_from_value(&JsonValue::Null).unwrap(), "null");
}

#[test]
fn jsonb_compat_key_sorts_members_and_spaces_separators() {
    let value = object(vec![
        ("zeta", JsonValue::Array(vec![JsonValue::Number("1".to_string()), s("two")])),
        ("alpha", object(vec![("y", JsonValue::Bool(false)), ("x", JsonValue::Null)])),
    ]);
    assert_eq!(
        postgres_jsonb_compat_key(&value).unwrap(),
        r#"{"alpha": {"x": null, "y": false}, "zeta": [1, "two"]}"#
    );
}

#[test]
fn jsonb_compat_key_quotes_bare_strings() {
    assert_eq!(postgres_jsonb_compat_key(&s("cli")).unwrap(), "\"cli\"");
    assert_eq!(postgres_jsonb_compat_key(&JsonValue::Number("-3.5".to_string())).unwrap(), "-3.5");
}

#[test]
fn jsonb_compat_key_sorts_by_code_point() {
    let value = object(vec![("b", s("1")), ("B", s("2")), ("ab", s("4"))]);
    assert_eq!(
        postgres_jsonb_compat_key(&value).unwrap(),
        r#"{"B": "2", "ab": "4", "b": "1"}"#
    );
}

#[test]
fn jsonb_compat_key_ignores_member_order() {
    let first = object(vec![("b", s("1")), ("a", JsonValue::Null), ("c", JsonValue::Bool(true))]);
    let second = object(vec![("c", JsonValue::Bool(true)), ("b", s("1")), ("a", JsonValue::Null)]);
    let key = postgres_jsonb_compat_key(&first).unwrap();
    assert_eq!(key, postgres_jsonb_compat_key(&second).unwrap());
    assert_eq!(key, r#"{"a": null, "b": "1", "c": true}"#);
}
