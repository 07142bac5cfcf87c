use deepseek_recipe::json::{parse_json, quote_json, stringify_python_style, to_json_string, JsonValue};

fn s(text: &str) -> JsonValue {
    JsonValue::String(text.to_string())
}

fn obj(members: Vec<(&str, JsonValue)>) -> JsonValue {
    JsonValue::Object(members.into_iter().map(|(k, v)| (k.to_string(), v)).collect())
}

#[test]
fn spaced_separators() {
    let value = obj(vec![
        ("type", s("object")),
        ("properties", obj(vec![("location", obj(vec![("type", s("string")), ("description", s("The location user interested in"))]))])),
        ("required", JsonValue::Array(vec![s("location")])),
        ("additionalProperties", JsonValue::Bool(false)),
    ]);
    assert_eq!(
        stringify_python_style(&value),
        r#"{"type": "object", "properties": {"location": {"type": "string", "description": "The location user interested in"}}, "required": ["location"], "additionalProperties": false}"#
    );
}

#[test]
fn compact_output_has_no_spaces() {
    let value = obj(vec![("a", JsonValue::Array(vec![JsonValue::Number("1".to_string()), JsonValue::Null]))]);
    assert_eq!(to_json_string(&value), r#"{"a":[1,null]}"#);
}

#[test]
fn strings_are_escaped_as_serde_json_does() {
    assert_eq!(quote_json("a\"b\\c\nd\u{1}é"), "\"a\\\"b\\\\c\\nd\\u0001é\"");
}

#[test]
fn negative_exponents_are_written_as_python_does() {
    let value = JsonValue::Number("1e-7".to_string());
    assert_eq!(stringify_python_style(&value), "1e-07");
    assert_eq!(to_json_string(&value), "1e-7");
}

#[test]
fn parsing_keeps_member_order() {
    let parsed = parse_json(r#"{"b": 1, "a": [true, "x"]}"#).unwrap();
    assert_eq!(
        parsed,
        obj(vec![("b", JsonValue::Number("1".to_string())), ("a", JsonValue::Array(vec![JsonValue::Bool(true), s("x")]))])
    );
    assert!(parse_json("{").is_none());
}
