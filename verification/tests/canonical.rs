use uppe::canonical::{canonical_json_string, JsonValue};

fn num(text: &str) -> JsonValue {
    JsonValue::Number(text.to_string())
}

fn member(key: &str, value: JsonValue) -> (String, JsonValue) {
    (key.to_string(), value)
}

#[test]
fn canonical_json_orders_keys_recursively() {
    let value = JsonValue::Object(vec![
        member("z", num("1")),
        member("a", JsonValue::Object(vec![member("b", num("2")), member("a", num("1"))])),
    ]);
    assert_eq!(canonical_json_string(&value), r#"{"a":{"a":1,"b":2},"z":1}"#);
}

#[test]
fn canonical_json_is_independent_of_member_order() {
    let one = JsonValue::Object(vec![
        member("status", JsonValue::Str("up".into())),
        member("monitor_id", JsonValue::Str("mon-1".into())),
        member("latency", num("12")),
    ]);
    let other = JsonValue::Object(vec![
        member("latency", num("12")),
        member("monitor_id", JsonValue::Str("mon-1".into())),
        member("status", JsonValue::Str("up".into())),
    ]);
    let expected = r#"{"latency":12,"monitor_id":"mon-1","status":"up"}"#;
    assert_eq!(canonical_json_string(&one), expected);
    assert_eq!(canonical_json_string(&other), expected);
}

#[test]
fn canonical_json_scalars_and_arrays() {
    let value = JsonValue::Array(vec![
        JsonValue::Null,
        JsonValue::Bool(true),
        JsonValue::Bool(false),
        num("-3.5"),
        JsonValue::Str("a\"b\\c\n\u{1}".into()),
        JsonValue::Array(vec![]),
        JsonValue::Object(vec![]),
    ]);
    assert_eq!(
        canonical_json_string(&value),
        r#"[null,true,false,-3.5,"a\"b\\c\n\u0001",[],{}]"#
    );
}

#[test]
fn canonical_json_orders_keys_by_bytes() {
    let value = JsonValue::Object(vec![
        member("b", num("1")),
        member("B", num("2")),
        member("é", num("3")),
        member("ab", num("4")),
        member("a", num("5")),
    ]);
    assert_eq!(canonical_json_string(&value), r#"{"B":2,"a":5,"ab":4,"b":1,"é":3}"#);
}

#[test]
fn canonical_json_later_duplicate_key_wins() {
    let value = JsonValue::Object(vec![
        member("k", num("1")),
        member("a", num("2")),
        member("k", num("3")),
    ]);
    assert_eq!(canonical_json_string(&value), r#"{"a":2,"k":3}"#);
}
