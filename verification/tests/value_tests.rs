//! Tests for values, numbers, and their coercions.

use anyform::num::Number;
use anyform::value::{FieldValue, ValueMap};

#[test]
fn test_from_text_normalises_empty_to_null() {
    assert!(FieldValue::from_text("").is_null());
    assert!(!FieldValue::from_text("x").is_null());
    assert!(FieldValue::from_string(String::new()).is_null());
    assert!(FieldValue::from_opt_string(None).is_null());
    assert!(FieldValue::from_opt_string(Some(String::new())).is_null());
    assert!(!FieldValue::from_opt_string(Some("x".to_string())).is_null());
    assert!(FieldValue::from_vec(vec![]).is_null());
    assert!(!FieldValue::from_vec(vec!["a".to_string()]).is_null());
}

#[test]
fn test_is_empty() {
    assert!(FieldValue::Null.is_empty());
    assert!(FieldValue::Text(String::new()).is_empty());
    assert!(FieldValue::Array(vec![]).is_empty());
    assert!(!FieldValue::Text("x".to_string()).is_empty());
    assert!(!FieldValue::Array(vec!["x".to_string()]).is_empty());
    assert!(!FieldValue::Number(Number::from_i64(0)).is_empty());
    assert!(!FieldValue::Bool(false).is_empty());
}

#[test]
fn test_as_number_parses_text() {
    let v = FieldValue::Text("18".to_string());
    assert_eq!(v.as_number().unwrap().raw, 18_000_000);

    let v = FieldValue::Text("3.5".to_string());
    assert_eq!(v.as_number().unwrap().raw, 3_500_000);

    let v = FieldValue::Text("-0.25".to_string());
    assert_eq!(v.as_number().unwrap().raw, -250_000);

    let v = FieldValue::Text("+7.".to_string());
    assert_eq!(v.as_number().unwrap().raw, 7_000_000);

    let v = FieldValue::Text(".5".to_string());
    assert_eq!(v.as_number().unwrap().raw, 500_000);

    assert!(FieldValue::Text("abc".to_string()).as_number().is_none());
    assert!(FieldValue::Text("1.2.3".to_string()).as_number().is_none());
    assert!(FieldValue::Text("".to_string()).as_number().is_none());
    assert!(FieldValue::Text("-".to_string()).as_number().is_none());
    assert!(FieldValue::Text(".".to_string()).as_number().is_none());
    assert!(FieldValue::Bool(true).as_number().is_none());
    assert!(FieldValue::Null.as_number().is_none());
}

#[test]
fn test_number_to_decimal_string() {
    assert_eq!(Number::from_i64(18).to_decimal_string(), "18");
    assert_eq!(Number::from_i64(0).to_decimal_string(), "0");
    assert_eq!(Number::from_i64(-42).to_decimal_string(), "-42");
    assert_eq!(Number::parse("3.5").unwrap().to_decimal_string(), "3.5");
    assert_eq!(Number::parse("3.50").unwrap().to_decimal_string(), "3.5");
    assert_eq!(Number::parse("-0.25").unwrap().to_decimal_string(), "-0.25");
    assert_eq!(Number::parse("0.05").unwrap().to_decimal_string(), "0.05");
    assert_eq!(
        Number::parse("123456.654321").unwrap().to_decimal_string(),
        "123456.654321"
    );
}

#[test]
fn test_as_bool_keywords() {
    let b = |s: &str| FieldValue::Text(s.to_string()).as_bool();
    assert_eq!(b("true"), Some(true));
    assert_eq!(b("TRUE"), Some(true));
    assert_eq!(b("Yes"), Some(true));
    assert_eq!(b("on"), Some(true));
    assert_eq!(b("1"), Some(true));
    assert_eq!(b("false"), Some(false));
    assert_eq!(b("No"), Some(false));
    assert_eq!(b("OFF"), Some(false));
    assert_eq!(b("0"), Some(false));
    assert_eq!(b("maybe"), None);
    assert_eq!(FieldValue::Bool(true).as_bool(), Some(true));
    assert_eq!(FieldValue::Number(Number::from_i64(2)).as_bool(), Some(true));
    assert_eq!(
        FieldValue::Number(Number::from_i64(0)).as_bool(),
        Some(false)
    );
    assert_eq!(FieldValue::Null.as_bool(), None);
}

#[test]
fn test_as_str_and_as_array() {
    let v = FieldValue::Text("hi".to_string());
    assert_eq!(v.as_str(), Some("hi"));
    assert!(FieldValue::Bool(true).as_str().is_none());

    let v = FieldValue::Array(vec!["a".to_string(), "b".to_string()]);
    assert_eq!(v.as_array().unwrap().len(), 2);
    assert!(FieldValue::Text("x".to_string()).as_array().is_none());
}

#[test]
fn test_to_string_value() {
    assert_eq!(
        FieldValue::Text("hi".to_string()).to_string_value(),
        "hi"
    );
    assert_eq!(
        FieldValue::Number(Number::from_i64(5)).to_string_value(),
        "5"
    );
    assert_eq!(FieldValue::Bool(true).to_string_value(), "true");
    assert_eq!(FieldValue::Bool(false).to_string_value(), "false");
    assert_eq!(
        FieldValue::Array(vec!["a".to_string(), "b".to_string(), "c".to_string()])
            .to_string_value(),
        "a, b, c"
    );
    assert_eq!(FieldValue::Null.to_string_value(), "");
}

#[test]
fn test_value_map_insert_and_get() {
    let mut m = ValueMap::new();
    assert!(m.get("a").is_none());
    m.insert("a".to_string(), FieldValue::Text("one".to_string()));
    m.insert("b".to_string(), FieldValue::Bool(true));
    assert_eq!(m.get("a").unwrap().as_str(), Some("one"));
    assert!(matches!(m.get("b").unwrap(), FieldValue::Bool(true)));
    // A later insert shadows the earlier binding.
    m.insert("a".to_string(), FieldValue::Text("two".to_string()));
    assert_eq!(m.get("a").unwrap().as_str(), Some("two"));
    assert!(m.get("missing").is_none());
}

#[test]
fn test_number_parse_rejects_and_accepts_signs() {
    assert_eq!(Number::parse("+18").unwrap().raw, 18_000_000);
    assert_eq!(Number::parse("-18").unwrap().raw, -18_000_000);
    assert!(Number::parse("++18").is_none());
    assert!(Number::parse("18-").is_none());
    assert!(Number::parse("1 8").is_none());
}

#[test]
fn test_number_parse_digit_limits() {
    // Up to thirty integer digits are read; beyond that parsing fails.
    let thirty = "9".repeat(30);
    assert!(Number::parse(&thirty).is_some());
    let thirty_one = "9".repeat(31);
    assert!(Number::parse(&thirty_one).is_none());
    // Fraction digits beyond the sixth are read but do not contribute.
    assert_eq!(
        Number::parse("0.1234567").unwrap().raw,
        Number::parse("0.123456").unwrap().raw
    );
}
