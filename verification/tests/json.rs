use savvagent::json::{copy_json, parse_json, JsonValue};

#[test]
fn parse_json_holds_the_parsed_value() {
    let v = parse_json(r#"{"a": [1, true, null], "b": "x"}"#).unwrap();
    assert_eq!(
        v,
        JsonValue::Object(vec![
            (
                "a".to_string(),
                JsonValue::Array(vec![JsonValue::Number("1".to_string()), JsonValue::Bool(true), JsonValue::Null]),
            ),
            ("b".to_string(), JsonValue::Str("x".to_string())),
        ])
    );
    assert_eq!(v.get("b"), Some(&JsonValue::Str("x".to_string())));
    assert_eq!(v.get("c"), None);
}

#[test]
fn parse_json_reports_the_error() {
    let e = parse_json("{\"a\":").unwrap_err();
    assert!(e.contains("EOF"), "{e}");
}

#[test]
fn copy_json_is_equal() {
    let v = parse_json(r#"[{"k": [2.5, "s"]}, false]"#).unwrap();
    assert_eq!(copy_json(&v), v);
}

#[test]
fn get_on_a_non_object_is_none() {
    assert_eq!(JsonValue::Null.get("a"), None);
    assert_eq!(JsonValue::Array(vec![]).get("a"), None);
}
