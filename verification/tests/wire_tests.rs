//! Tests for the condition wire format: reading, writing, and the
//! round trip through real JSON text.

use anyform::condition::{ConditionOp, ConditionRule};
use anyform::num::Number;
use anyform::value::{FieldValue, ValueMap};
use anyform::wire::{condition_to_json, parse_condition, JsonValue};

/// Converts real JSON into the library's tree. Numbers become the
/// engine's fixed-point decimals.
fn from_serde(v: &serde_json::Value) -> JsonValue {
    match v {
        serde_json::Value::Null => JsonValue::Null,
        serde_json::Value::Bool(b) => JsonValue::Bool(*b),
        serde_json::Value::Number(n) => {
            let x = n.as_f64().unwrap();
            JsonValue::Number(Number::from_raw((x * 1_000_000.0).round() as i128))
        }
        serde_json::Value::String(s) => JsonValue::Text(s.clone()),
        serde_json::Value::Array(items) => {
            JsonValue::Array(items.iter().map(from_serde).collect())
        }
        serde_json::Value::Object(fields) => JsonValue::Object(
            fields
                .iter()
                .map(|(k, v)| (k.clone(), from_serde(v)))
                .collect(),
        ),
    }
}

/// Converts the library's tree back into real JSON.
fn to_serde(v: &JsonValue) -> serde_json::Value {
    match v {
        JsonValue::Null => serde_json::Value::Null,
        JsonValue::Bool(b) => serde_json::Value::Bool(*b),
        JsonValue::Number(n) => {
            let x = n.raw as f64 / 1_000_000.0;
            if x.fract() == 0.0 && x.abs() < 9_007_199_254_740_992.0 {
                serde_json::Value::from(x as i64)
            } else {
                serde_json::Value::from(x)
            }
        }
        JsonValue::Text(s) => serde_json::Value::String(s.clone()),
        JsonValue::Array(items) => {
            serde_json::Value::Array(items.iter().map(to_serde).collect())
        }
        JsonValue::Object(fields) => serde_json::Value::Object(
            fields
                .iter()
                .map(|(k, v)| (k.clone(), to_serde(v)))
                .collect(),
        ),
    }
}

fn parse_text(text: &str) -> Option<ConditionRule> {
    let v: serde_json::Value = serde_json::from_str(text).unwrap();
    parse_condition(&from_serde(&v))
}

#[test]
fn test_serde_simple() {
    let rule = parse_text(r#"{"field": "country", "op": "eq", "value": "US"}"#).unwrap();
    assert!(matches!(
        &rule,
        ConditionRule::Simple {
            field,
            op: ConditionOp::Eq,
            ..
        } if field == "country"
    ));

    // Round-trip: write, reread, and the wire text agrees.
    let written = to_serde(&condition_to_json(&rule));
    let reread = parse_condition(&from_serde(&written)).unwrap();
    assert_eq!(written, to_serde(&condition_to_json(&reread)));
    assert_eq!(
        written,
        serde_json::from_str::<serde_json::Value>(
            r#"{"field": "country", "op": "eq", "value": "US"}"#
        )
        .unwrap()
    );
}

#[test]
fn test_serde_and() {
    let rule = parse_text(
        r#"{
            "and": [
                {"field": "country", "op": "eq", "value": "US"},
                {"field": "age", "op": "gte", "value": 18}
            ]
        }"#,
    )
    .unwrap();

    assert!(matches!(&rule, ConditionRule::And { and } if and.len() == 2));
}

#[test]
fn test_serde_empty_operator() {
    let rule = parse_text(r#"{"field": "notes", "op": "empty"}"#).unwrap();
    assert!(matches!(
        rule,
        ConditionRule::Simple {
            op: ConditionOp::Empty,
            value: None,
            ..
        }
    ));
}

#[test]
fn test_wire_op_aliases() {
    let rule = parse_text(r#"{"field": "x", "op": "ne", "value": 1}"#).unwrap();
    assert!(matches!(
        rule,
        ConditionRule::Simple {
            op: ConditionOp::Neq,
            ..
        }
    ));
    let rule = parse_text(r#"{"field": "x", "op": "is_empty"}"#).unwrap();
    assert!(matches!(
        rule,
        ConditionRule::Simple {
            op: ConditionOp::Empty,
            value: None,
            ..
        }
    ));
    let rule = parse_text(r#"{"field": "x", "op": "is_not_empty"}"#).unwrap();
    assert!(matches!(
        rule,
        ConditionRule::Simple {
            op: ConditionOp::NotEmpty,
            ..
        }
    ));
}

#[test]
fn test_wire_rejects_malformed() {
    assert!(parse_text(r#"{"field": "x"}"#).is_none());
    assert!(parse_text(r#"{"field": "x", "op": "frobnicate", "value": 1}"#).is_none());
    assert!(parse_text(r#"{"op": "eq", "value": 1}"#).is_none());
    assert!(parse_text(r#"{"and": 3}"#).is_none());
    assert!(parse_text(r#"{"and": [{"field": "x"}]}"#).is_none());
    assert!(parse_text(r#"[1, 2]"#).is_none());
    assert!(parse_text(r#""just a string""#).is_none());
}

#[test]
fn test_wire_tolerates_extra_entries() {
    // Entries beyond field/op/value are ignored, as the stored format
    // allows.
    let rule = parse_text(r#"{"field": "x", "op": "eq", "value": 1, "extra": 2}"#).unwrap();
    assert!(matches!(
        rule,
        ConditionRule::Simple {
            op: ConditionOp::Eq,
            value: Some(_),
            ..
        }
    ));
}

#[test]
fn test_wire_numeric_in_list() {
    // A comparison list of numbers or booleans loads, its elements read
    // as strings, and coercing equality still matches them.
    let rule = parse_text(r#"{"field": "age", "op": "in", "value": [18, 21]}"#).unwrap();
    let mut data = ValueMap::new();
    data.insert("age".to_string(), FieldValue::Number(Number::from_i64(21)));
    assert!(rule.evaluate(&data));
    let mut data = ValueMap::new();
    data.insert("age".to_string(), FieldValue::Number(Number::from_i64(20)));
    assert!(!rule.evaluate(&data));

    let rule = parse_text(r#"{"field": "ok", "op": "in", "value": [true]}"#).unwrap();
    let mut data = ValueMap::new();
    data.insert("ok".to_string(), FieldValue::Bool(true));
    assert!(rule.evaluate(&data));
}

#[test]
fn test_wire_entry_order_does_not_matter() {
    let rule = parse_text(r#"{"value": "US", "op": "eq", "field": "country"}"#).unwrap();
    let data = {
        let mut m = ValueMap::new();
        m.insert("country".to_string(), FieldValue::Text("US".to_string()));
        m
    };
    assert!(rule.evaluate(&data));
}

#[test]
fn test_wire_round_trip_preserves_meaning() {
    let text = r#"{
        "and": [
            {"field": "country", "op": "eq", "value": "US"},
            {"or": [
                {"field": "age", "op": "gte", "value": 21},
                {"field": "consent", "op": "eq", "value": true}
            ]}
        ]
    }"#;
    let rule = parse_text(text).unwrap();
    let reread = parse_condition(&condition_to_json(&rule)).unwrap();

    for (age, consent) in [(18i64, false), (18, true), (25, false)] {
        let mut data = ValueMap::new();
        data.insert("country".to_string(), FieldValue::Text("US".to_string()));
        data.insert(
            "age".to_string(),
            FieldValue::Number(Number::from_i64(age)),
        );
        data.insert("consent".to_string(), FieldValue::Bool(consent));
        assert_eq!(rule.evaluate(&data), reread.evaluate(&data));
        assert_eq!(rule.evaluate(&data), age >= 21 || consent);
    }
}

#[test]
fn test_op_names_round_trip() {
    let ops = [
        ConditionOp::Eq,
        ConditionOp::Neq,
        ConditionOp::Gt,
        ConditionOp::Gte,
        ConditionOp::Lt,
        ConditionOp::Lte,
        ConditionOp::Contains,
        ConditionOp::In,
        ConditionOp::Empty,
        ConditionOp::NotEmpty,
    ];
    for op in ops {
        assert_eq!(ConditionOp::from_name(op.as_name()), Some(op));
    }
    assert_eq!(ConditionOp::from_name("bogus"), None);
}
