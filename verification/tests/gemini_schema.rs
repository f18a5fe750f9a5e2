use savvagent::gemini_schema::sanitize;
use savvagent::json::JsonValue;
use serde_json::Value;

fn lift(v: &Value) -> JsonValue {
    match v {
        Value::Null => JsonValue::Null,
        Value::Bool(b) => JsonValue::Bool(*b),
        Value::Number(n) => JsonValue::Number(n.to_string()),
        Value::String(s) => JsonValue::Str(s.clone()),
        Value::Array(a) => JsonValue::Array(a.iter().map(lift).collect()),
        Value::Object(m) => JsonValue::Object(m.iter().map(|(k, v)| (k.clone(), lift(v))).collect()),
    }
}

fn lower(v: &JsonValue) -> Value {
    match v {
        JsonValue::Null => Value::Null,
        JsonValue::Bool(b) => Value::Bool(*b),
        JsonValue::Number(n) => serde_json::from_str(n).unwrap(),
        JsonValue::Str(s) => Value::String(s.clone()),
        JsonValue::Array(a) => Value::Array(a.iter().map(lower).collect()),
        JsonValue::Object(m) => {
            let mut out = serde_json::Map::new();
            for (k, v) in m {
                out.insert(k.clone(), lower(v));
            }
            Value::Object(out)
        }
    }
}

fn parse(text: &str) -> Value {
    serde_json::from_str(text).unwrap()
}

fn run(text: &str) -> Value {
    lower(&sanitize(&lift(&parse(text))))
}

fn assert_no_forbidden_keys(value: &Value) {
    const FORBIDDEN: &[&str] = &[
        "$schema",
        "$defs",
        "definitions",
        "$id",
        "$ref",
        "$comment",
        "const",
        "oneOf",
        "additionalProperties",
        "unevaluatedProperties",
        "patternProperties",
    ];
    match value {
        Value::Object(map) => {
            for k in FORBIDDEN {
                assert!(map.get(*k).is_none(), "found forbidden key `{k}` in {value}");
            }
            if let Some(t) = map.get("type") {
                assert!(!t.is_array(), "found array-typed `type` in {value}");
            }
            for v in map.values() {
                assert_no_forbidden_keys(v);
            }
        }
        Value::Array(arr) => {
            for v in arr {
                assert_no_forbidden_keys(v);
            }
        }
        _ => {}
    }
}

#[test]
fn strips_dollar_schema_at_root() {
    let out = run(r#"{
        "$schema": "https://json-schema.org/draft/2020-12/schema",
        "type": "object",
        "properties": {}
    }"#);
    assert!(out.get("$schema").is_none(), "out: {out}");
    assert_eq!(out["type"], parse(r#""object""#));
}

#[test]
fn nullable_from_option_type_array() {
    let out = run(r#"{
        "type": "object",
        "properties": { "name": { "type": ["string", "null"] } }
    }"#);
    let name = &out["properties"]["name"];
    assert_eq!(name["type"], parse(r#""string""#));
    assert_eq!(name["nullable"], parse("true"));
}

#[test]
fn null_first_in_array_still_works() {
    let out = run(r#"{ "type": ["null", "integer"] }"#);
    assert_eq!(out["type"], parse(r#""integer""#));
    assert_eq!(out["nullable"], parse("true"));
}

#[test]
fn ref_is_inlined_and_defs_dropped() {
    let out = run(r##"{
        "type": "object",
        "properties": { "user": { "$ref": "#/$defs/User" } },
        "$defs": {
            "User": { "type": "object", "properties": { "id": { "type": "string" } } }
        }
    }"##);
    assert!(out.get("$defs").is_none(), "out: {out}");
    let user = &out["properties"]["user"];
    assert_eq!(user["type"], parse(r#""object""#));
    assert_eq!(user["properties"]["id"]["type"], parse(r#""string""#));
}

#[test]
fn ref_inside_any_of_is_inlined_and_optional_collapses() {
    let out = run(r##"{
        "type": "object",
        "properties": {
            "v": { "anyOf": [ { "$ref": "#/$defs/A" }, { "type": "null" } ] }
        },
        "$defs": { "A": { "type": "string" } }
    }"##);
    let v = &out["properties"]["v"];
    assert!(v.get("anyOf").is_none(), "anyOf should have collapsed: {v}");
    assert!(v.get("$ref").is_none());
    assert_eq!(v["type"], parse(r#""string""#));
    assert_eq!(v["nullable"], parse("true"));
}

#[test]
fn one_of_renamed_to_any_of() {
    let out = run(r#"{ "oneOf": [{ "type": "string" }, { "type": "integer" }] }"#);
    assert!(out.get("oneOf").is_none());
    assert!(out["anyOf"].is_array());
}

#[test]
fn unresolvable_ref_is_dropped_not_kept() {
    let out = run(r#"{
        "type": "object",
        "properties": { "x": { "$ref": "https://example.com/foo.json" } }
    }"#);
    assert!(out["properties"]["x"].get("$ref").is_none());
}

#[test]
fn ref_with_sibling_description_preserves_sibling() {
    let out = run(r##"{
        "type": "object",
        "properties": { "user": { "$ref": "#/$defs/U", "description": "the user" } },
        "$defs": { "U": { "type": "object" } }
    }"##);
    let user = &out["properties"]["user"];
    assert_eq!(user["type"], parse(r#""object""#));
    assert_eq!(user["description"], parse(r#""the user""#));
}

#[test]
fn recursive_ref_terminates_at_depth_cap() {
    let _ = run(r##"{
        "$defs": { "Self": { "$ref": "#/$defs/Self" } },
        "$ref": "#/$defs/Self"
    }"##);
}

#[test]
fn additional_properties_is_dropped() {
    let out = run(r#"{
        "type": "object",
        "properties": { "x": { "type": "integer" } },
        "additionalProperties": false
    }"#);
    assert!(out.get("additionalProperties").is_none(), "out: {out}");
}

#[test]
fn const_is_rewritten_to_enum() {
    let out = run(r#"{
        "type": "object",
        "properties": { "op": { "type": "string", "const": "replace" } }
    }"#);
    let op = &out["properties"]["op"];
    assert!(op.get("const").is_none());
    assert_eq!(op["enum"], parse(r#"["replace"]"#));
    assert_eq!(op["type"], parse(r#""string""#));
}

#[test]
fn any_of_with_type_null_lifts_to_nullable_and_collapses() {
    let out = run(r##"{
        "type": "object",
        "properties": {
            "count": {
                "description": "Match-count contract.",
                "anyOf": [ { "$ref": "#/$defs/ReplaceCount" }, { "type": "null" } ]
            }
        },
        "$defs": { "ReplaceCount": { "type": "string", "enum": ["all"] } }
    }"##);
    let count = &out["properties"]["count"];
    assert!(count.get("anyOf").is_none(), "anyOf should have collapsed: {count}");
    assert_eq!(count["nullable"], parse("true"));
    assert_eq!(count["type"], parse(r#""string""#));
    assert_eq!(count["enum"], parse(r#"["all"]"#));
    assert_eq!(count["description"], parse(r#""Match-count contract.""#));
}

#[test]
fn any_of_with_multiple_real_members_keeps_any_of() {
    let out = run(r#"{
        "anyOf": [ { "type": "string" }, { "type": "integer" }, { "type": "null" } ]
    }"#);
    let any_of = out["anyOf"].as_array().expect("anyOf preserved");
    assert_eq!(any_of.len(), 2);
    assert_eq!(out["nullable"], parse("true"));
}

#[test]
fn schemars_multi_edit_fixture_round_trips_to_gemini_subset() {
    let out = run(r##"{
        "$schema": "https://json-schema.org/draft/2020-12/schema",
        "type": "object",
        "properties": {
            "edits": { "type": "array", "items": { "$ref": "#/$defs/MultiEdit" } }
        },
        "required": ["edits"],
        "$defs": {
            "MultiEdit": {
                "oneOf": [
                    {
                        "type": "object",
                        "properties": {
                            "count": { "anyOf": [ { "$ref": "#/$defs/ReplaceCount" }, { "type": "null" } ] },
                            "op": { "type": "string", "const": "replace" }
                        },
                        "required": ["op"]
                    },
                    {
                        "type": "object",
                        "properties": { "op": { "type": "string", "const": "insert" } },
                        "required": ["op"]
                    }
                ]
            },
            "ReplaceCount": {
                "oneOf": [
                    {
                        "type": "object",
                        "properties": { "exactly": { "type": "integer" } },
                        "required": ["exactly"],
                        "additionalProperties": false
                    },
                    { "type": "string", "const": "all" }
                ]
            }
        }
    }"##);
    assert_no_forbidden_keys(&out);
    let edit_variants = out["properties"]["edits"]["items"]["anyOf"]
        .as_array()
        .expect("MultiEdit inlined into items.anyOf");
    assert_eq!(edit_variants.len(), 2);
    assert_eq!(edit_variants[0]["properties"]["op"]["enum"], parse(r#"["replace"]"#));
    let count = &edit_variants[0]["properties"]["count"];
    assert_eq!(count["nullable"], parse("true"));
    let inner = count["anyOf"].as_array().expect("ReplaceCount variants survived");
    assert_eq!(inner.len(), 2);
    assert_eq!(inner[1]["enum"], parse(r#"["all"]"#));
}

#[test]
fn passes_through_known_supported_keywords() {
    let out = run(r#"{
        "type": "object",
        "properties": {
            "tags": { "type": "array", "items": { "type": "string" } },
            "kind": { "type": "string", "enum": ["a", "b"] }
        },
        "required": ["tags"]
    }"#);
    assert_eq!(out["properties"]["tags"]["items"]["type"], parse(r#""string""#));
    assert_eq!(out["properties"]["kind"]["enum"], parse(r#"["a", "b"]"#));
    assert_eq!(out["required"], parse(r#"["tags"]"#));
}

#[test]
fn schema_depth_cap_turns_deep_nodes_into_null() {
    let mut text = String::new();
    for _ in 0..40 {
        text.push_str(r#"{"items":"#);
    }
    text.push_str("1");
    for _ in 0..40 {
        text.push('}');
    }
    let mut out = run(&text);
    let mut depth = 0;
    while let Some(next) = out.get("items").cloned() {
        out = next;
        depth += 1;
    }
    assert_eq!(out, Value::Null);
    assert_eq!(depth, 33);
}

#[test]
fn definitions_fill_in_what_defs_lack() {
    let out = run(r##"{
        "$defs": { "A": { "type": "string" } },
        "definitions": { "A": { "type": "integer" }, "B": { "type": "boolean" } },
        "properties": { "a": { "$ref": "#/$defs/A" }, "b": { "$ref": "#/definitions/B" } }
    }"##);
    assert_eq!(out["properties"]["a"]["type"], parse(r#""string""#));
    assert_eq!(out["properties"]["b"]["type"], parse(r#""boolean""#));
    assert!(out.get("definitions").is_none());
}

#[test]
fn dropped_keywords_beside_a_ref_are_dropped_too() {
    let out = run(r##"{
        "$defs": { "U": { "type": "object" } },
        "$ref": "#/$defs/U",
        "additionalProperties": false,
        "$comment": "x"
    }"##);
    assert_eq!(out, parse(r#"{ "type": "object" }"#));
}
