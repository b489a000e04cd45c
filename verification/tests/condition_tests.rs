//! Tests for condition evaluation: operators, coercion, and nesting.

use anyform::condition::{ConditionOp, ConditionRule};
use anyform::num::Number;
use anyform::value::{FieldValue, ValueMap};

fn make_data(pairs: Vec<(&str, FieldValue)>) -> ValueMap {
    let mut m = ValueMap::new();
    for (k, v) in pairs {
        m.insert(k.to_string(), v);
    }
    m
}

fn text(s: &str) -> FieldValue {
    FieldValue::Text(s.to_string())
}

fn num(n: i64) -> FieldValue {
    FieldValue::Number(Number::from_i64(n))
}

#[test]
fn test_eq_string() {
    let rule = ConditionRule::eq("country", text("US"));
    let data = make_data(vec![("country", text("US"))]);
    assert!(rule.evaluate(&data));

    let data = make_data(vec![("country", text("UK"))]);
    assert!(!rule.evaluate(&data));
}

#[test]
fn test_eq_number() {
    let rule = ConditionRule::eq("age", num(18));
    let data = make_data(vec![("age", num(18))]);
    assert!(rule.evaluate(&data));

    // String "18" should equal number 18
    let data = make_data(vec![("age", text("18"))]);
    assert!(rule.evaluate(&data));
}

#[test]
fn test_neq() {
    let rule = ConditionRule::neq("status", text("archived"));
    let data = make_data(vec![("status", text("active"))]);
    assert!(rule.evaluate(&data));

    let data = make_data(vec![("status", text("archived"))]);
    assert!(!rule.evaluate(&data));
}

#[test]
fn test_gt_gte_lt_lte() {
    let data = make_data(vec![("score", num(75))]);

    let gt = ConditionRule::Simple {
        field: "score".into(),
        op: ConditionOp::Gt,
        value: Some(num(50)),
    };
    assert!(gt.evaluate(&data));

    let gte = ConditionRule::Simple {
        field: "score".into(),
        op: ConditionOp::Gte,
        value: Some(num(75)),
    };
    assert!(gte.evaluate(&data));

    let lt = ConditionRule::Simple {
        field: "score".into(),
        op: ConditionOp::Lt,
        value: Some(num(100)),
    };
    assert!(lt.evaluate(&data));

    let lte = ConditionRule::Simple {
        field: "score".into(),
        op: ConditionOp::Lte,
        value: Some(num(75)),
    };
    assert!(lte.evaluate(&data));
}

#[test]
fn test_contains() {
    let rule = ConditionRule::Simple {
        field: "email".into(),
        op: ConditionOp::Contains,
        value: Some(text("@company.com")),
    };

    let data = make_data(vec![("email", text("user@company.com"))]);
    assert!(rule.evaluate(&data));

    let data = make_data(vec![("email", text("user@gmail.com"))]);
    assert!(!rule.evaluate(&data));
}

#[test]
fn test_in() {
    let rule = ConditionRule::Simple {
        field: "role".into(),
        op: ConditionOp::In,
        value: Some(FieldValue::Array(vec![
            "admin".to_string(),
            "editor".to_string(),
            "moderator".to_string(),
        ])),
    };

    let data = make_data(vec![("role", text("admin"))]);
    assert!(rule.evaluate(&data));

    let data = make_data(vec![("role", text("viewer"))]);
    assert!(!rule.evaluate(&data));
}

#[test]
fn test_empty_not_empty() {
    let empty_rule = ConditionRule::empty("notes");
    let not_empty_rule = ConditionRule::not_empty("notes");

    // Missing field
    let data = make_data(vec![]);
    assert!(empty_rule.evaluate(&data));
    assert!(!not_empty_rule.evaluate(&data));

    // Empty string
    let data = make_data(vec![("notes", FieldValue::Text(String::new()))]);
    assert!(empty_rule.evaluate(&data));
    assert!(!not_empty_rule.evaluate(&data));

    // Null value
    let data = make_data(vec![("notes", FieldValue::Null)]);
    assert!(empty_rule.evaluate(&data));
    assert!(!not_empty_rule.evaluate(&data));

    // Non-empty string
    let data = make_data(vec![("notes", text("Hello"))]);
    assert!(!empty_rule.evaluate(&data));
    assert!(not_empty_rule.evaluate(&data));
}

#[test]
fn test_and() {
    let rule = ConditionRule::and(vec![
        ConditionRule::eq("country", text("US")),
        ConditionRule::Simple {
            field: "age".into(),
            op: ConditionOp::Gte,
            value: Some(num(18)),
        },
    ]);

    // Both true
    let data = make_data(vec![("country", text("US")), ("age", num(21))]);
    assert!(rule.evaluate(&data));

    // First false
    let data = make_data(vec![("country", text("UK")), ("age", num(21))]);
    assert!(!rule.evaluate(&data));

    // Second false
    let data = make_data(vec![("country", text("US")), ("age", num(16))]);
    assert!(!rule.evaluate(&data));
}

#[test]
fn test_or() {
    let rule = ConditionRule::or(vec![
        ConditionRule::eq("plan", text("enterprise")),
        ConditionRule::not_empty("referral_code"),
    ]);

    // First true
    let data = make_data(vec![("plan", text("enterprise"))]);
    assert!(rule.evaluate(&data));

    // Second true
    let data = make_data(vec![("plan", text("free")), ("referral_code", text("ABC123"))]);
    assert!(rule.evaluate(&data));

    // Both false
    let data = make_data(vec![
        ("plan", text("free")),
        ("referral_code", FieldValue::Text(String::new())),
    ]);
    assert!(!rule.evaluate(&data));
}

#[test]
fn test_nested_conditions() {
    // (country == "US") AND ((age >= 21) OR (has_parental_consent == true))
    let rule = ConditionRule::and(vec![
        ConditionRule::eq("country", text("US")),
        ConditionRule::or(vec![
            ConditionRule::Simple {
                field: "age".into(),
                op: ConditionOp::Gte,
                value: Some(num(21)),
            },
            ConditionRule::eq("has_parental_consent", FieldValue::Bool(true)),
        ]),
    ]);

    // US, age 25 -> true
    let data = make_data(vec![("country", text("US")), ("age", num(25))]);
    assert!(rule.evaluate(&data));

    // US, age 18 with consent -> true
    let data = make_data(vec![
        ("country", text("US")),
        ("age", num(18)),
        ("has_parental_consent", FieldValue::Bool(true)),
    ]);
    assert!(rule.evaluate(&data));

    // US, age 18 without consent -> false
    let data = make_data(vec![
        ("country", text("US")),
        ("age", num(18)),
        ("has_parental_consent", FieldValue::Bool(false)),
    ]);
    assert!(!rule.evaluate(&data));

    // UK, age 25 -> false (country doesn't match)
    let data = make_data(vec![("country", text("UK")), ("age", num(25))]);
    assert!(!rule.evaluate(&data));
}

#[test]
fn test_empty_and_is_true_empty_or_is_false() {
    let and_rule = ConditionRule::and(vec![]);
    let or_rule = ConditionRule::or(vec![]);

    let data = make_data(vec![]);
    assert!(and_rule.evaluate(&data));
    assert!(!or_rule.evaluate(&data));

    let data = make_data(vec![("anything", text("x"))]);
    assert!(and_rule.evaluate(&data));
    assert!(!or_rule.evaluate(&data));
}

#[test]
fn test_single_child_connectives_mean_the_child() {
    let data = make_data(vec![("age", num(30))]);
    let child = ConditionRule::Simple {
        field: "age".into(),
        op: ConditionOp::Gte,
        value: Some(num(18)),
    };
    let child_result = child.evaluate(&data);
    let and_rule = ConditionRule::and(vec![child]);
    assert_eq!(and_rule.evaluate(&data), child_result);

    let child = ConditionRule::Simple {
        field: "age".into(),
        op: ConditionOp::Lt,
        value: Some(num(18)),
    };
    let child_result = child.evaluate(&data);
    let or_rule = ConditionRule::or(vec![child]);
    assert_eq!(or_rule.evaluate(&data), child_result);
}

#[test]
fn test_eq_neq_are_complements() {
    let values = vec![
        text("US"),
        text("18"),
        num(18),
        FieldValue::Bool(true),
        FieldValue::Null,
        FieldValue::Array(vec!["a".to_string()]),
    ];
    for present in &values {
        for expected in &values {
            let data = make_data(vec![("f", present.clone())]);
            let eq = ConditionRule::eq("f", expected.clone());
            let neq = ConditionRule::neq("f", expected.clone());
            assert_ne!(eq.evaluate(&data), neq.evaluate(&data));
        }
    }
}

#[test]
fn test_numeric_string_coercion() {
    // {"age": 18} satisfies eq "18" and gte 18.
    let data = make_data(vec![("age", num(18))]);
    let eq_rule = ConditionRule::eq("age", text("18"));
    assert!(eq_rule.evaluate(&data));

    let gte_rule = ConditionRule::Simple {
        field: "age".into(),
        op: ConditionOp::Gte,
        value: Some(num(18)),
    };
    assert!(gte_rule.evaluate(&data));
}

#[test]
fn test_bool_string_equivalence() {
    // Eq accepts the words "true"/"false" as boolean-equivalent.
    let data = make_data(vec![("consent", FieldValue::Bool(true))]);
    let rule = ConditionRule::eq("consent", text("true"));
    assert!(rule.evaluate(&data));
    let rule = ConditionRule::eq("consent", text("false"));
    assert!(!rule.evaluate(&data));
}

#[test]
fn test_contains_on_array_field() {
    let data = make_data(vec![(
        "tags",
        FieldValue::Array(vec!["red".to_string(), "blue".to_string()]),
    )]);
    let rule = ConditionRule::Simple {
        field: "tags".into(),
        op: ConditionOp::Contains,
        value: Some(text("blue")),
    };
    assert!(rule.evaluate(&data));
    let rule = ConditionRule::Simple {
        field: "tags".into(),
        op: ConditionOp::Contains,
        value: Some(text("green")),
    };
    assert!(!rule.evaluate(&data));
}

#[test]
fn test_comparison_with_missing_field_is_false() {
    let data = make_data(vec![]);
    for op in [
        ConditionOp::Eq,
        ConditionOp::Neq,
        ConditionOp::Gt,
        ConditionOp::Gte,
        ConditionOp::Lt,
        ConditionOp::Lte,
        ConditionOp::Contains,
        ConditionOp::In,
    ] {
        let rule = ConditionRule::Simple {
            field: "absent".into(),
            op,
            value: Some(text("x")),
        };
        assert!(!rule.evaluate(&data));
    }
}

#[test]
fn test_non_numeric_comparison_is_false() {
    let data = make_data(vec![("name", text("alice"))]);
    let rule = ConditionRule::Simple {
        field: "name".into(),
        op: ConditionOp::Gt,
        value: Some(num(3)),
    };
    assert!(!rule.evaluate(&data));
    let rule = ConditionRule::Simple {
        field: "name".into(),
        op: ConditionOp::Lte,
        value: Some(text("zoo")),
    };
    assert!(!rule.evaluate(&data));
}

#[test]
fn test_nested_condition_scenario() {
    // And([Eq(country, US), Or([Gte(age, 21), Eq(consent, true)])])
    let rule = ConditionRule::and(vec![
        ConditionRule::eq("country", text("US")),
        ConditionRule::or(vec![
            ConditionRule::Simple {
                field: "age".into(),
                op: ConditionOp::Gte,
                value: Some(num(21)),
            },
            ConditionRule::eq("consent", FieldValue::Bool(true)),
        ]),
    ]);

    let data = make_data(vec![
        ("country", text("US")),
        ("age", num(18)),
        ("consent", FieldValue::Bool(false)),
    ]);
    assert!(!rule.evaluate(&data));

    let data = make_data(vec![
        ("country", text("US")),
        ("age", num(18)),
        ("consent", FieldValue::Bool(true)),
    ]);
    assert!(rule.evaluate(&data));
}

#[test]
fn test_in_with_numeric_coercion() {
    let rule = ConditionRule::Simple {
        field: "age".into(),
        op: ConditionOp::In,
        value: Some(FieldValue::Array(vec!["18".to_string(), "21".to_string()])),
    };
    let data = make_data(vec![("age", num(21))]);
    assert!(rule.evaluate(&data));
    let data = make_data(vec![("age", num(20))]);
    assert!(!rule.evaluate(&data));
}
