use moobius::{encode_json, JsonProtocol, JsonValue};

fn jstr(x: &str) -> JsonValue {
    JsonValue::Str(x.to_string())
}

#[test]
fn encodes_null_and_booleans() {
    assert_eq!(encode_json(&JsonValue::Null), "null");
    assert_eq!(encode_json(&JsonValue::Bool(true)), "true");
    assert_eq!(encode_json(&JsonValue::Bool(false)), "false");
}

#[test]
fn encodes_integers() {
    assert_eq!(encode_json(&JsonValue::UInt(0)), "0");
    assert_eq!(encode_json(&JsonValue::UInt(7)), "7");
    assert_eq!(encode_json(&JsonValue::UInt(1234567890)), "1234567890");
    assert_eq!(
        encode_json(&JsonValue::UInt(u64::MAX)),
        "18446744073709551615"
    );
}

#[test]
fn encodes_plain_strings() {
    assert_eq!(encode_json(&jstr("")), "\"\"");
    assert_eq!(encode_json(&jstr("hello")), "\"hello\"");
    assert_eq!(encode_json(&jstr("héllo wörld")), "\"héllo wörld\"");
}

#[test]
fn escapes_quotes_and_backslashes() {
    assert_eq!(encode_json(&jstr("a\"b")), "\"a\\\"b\"");
    assert_eq!(encode_json(&jstr("a\\b")), "\"a\\\\b\"");
}

#[test]
fn escapes_named_control_characters() {
    assert_eq!(encode_json(&jstr("a\nb")), "\"a\\nb\"");
    assert_eq!(encode_json(&jstr("a\rb")), "\"a\\rb\"");
    assert_eq!(encode_json(&jstr("a\tb")), "\"a\\tb\"");
}

#[test]
fn escapes_other_control_characters() {
    assert_eq!(encode_json(&jstr("\u{01}")), "\"\\u0001\"");
    assert_eq!(encode_json(&jstr("\u{1f}")), "\"\\u001f\"");
    assert_eq!(encode_json(&jstr("\u{00}")), "\"\\u0000\"");
}

#[test]
fn encodes_arrays() {
    assert_eq!(encode_json(&JsonValue::Arr(vec![])), "[]");
    let arr = JsonValue::Arr(vec![JsonValue::UInt(1), jstr("two"), JsonValue::Null]);
    assert_eq!(encode_json(&arr), "[1,\"two\",null]");
}

#[test]
fn encodes_objects() {
    assert_eq!(encode_json(&JsonValue::Obj(vec![])), "{}");
    let obj = JsonValue::Obj(vec![
        ("a".to_string(), JsonValue::UInt(1)),
        ("b".to_string(), jstr("x")),
    ]);
    assert_eq!(encode_json(&obj), "{\"a\":1,\"b\":\"x\"}");
}

#[test]
fn encodes_nested_values() {
    let obj = JsonValue::Obj(vec![(
        "body".to_string(),
        JsonValue::Obj(vec![(
            "items".to_string(),
            JsonValue::Arr(vec![JsonValue::Bool(false)]),
        )]),
    )]);
    assert_eq!(encode_json(&obj), "{\"body\":{\"items\":[false]}}");
}

#[test]
fn protocol_serializes_to_utf8_bytes() {
    let protocol = JsonProtocol;
    let bytes = protocol.serialize(&jstr("héllo")).unwrap();
    assert_eq!(bytes, "\"héllo\"".as_bytes().to_vec());
}

#[test]
fn encodes_nested_empty_containers() {
    let v = JsonValue::Arr(vec![JsonValue::Obj(vec![]), JsonValue::Arr(vec![])]);
    assert_eq!(encode_json(&v), "[{},[]]");
}
