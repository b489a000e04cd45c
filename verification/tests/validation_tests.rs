//! Tests for the field and submission validators.

use anyform::condition::{ConditionOp, ConditionRule};
use anyform::errors::StepValidationErrors;
use anyform::field::{Field, Step, ValueType};
use anyform::num::Number;
use anyform::rules::ValidationRules;
use anyform::validate::{
    is_field_visible, is_step_visible, validate_field, validate_multi_step_submission,
    validate_step, validate_submission,
};
use anyform::value::{FieldValue, ValueMap};

fn make_field(name: &str, field_type: &str, required: bool) -> Field {
    Field {
        id: format!("field-{name}"),
        name: name.to_string(),
        label: name.to_string(),
        value_type: ValueType::from_name(field_type).unwrap(),
        required,
        validation: ValidationRules::new(),
        condition: None,
    }
}

fn make_step(name: &str, condition: Option<ConditionRule>) -> Step {
    Step {
        id: format!("step-{name}"),
        name: name.to_string(),
        condition,
    }
}

fn make_conditional_field(name: &str, required: bool, condition: ConditionRule) -> Field {
    let mut field = make_field(name, "text", required);
    field.condition = Some(condition);
    field
}

fn make_data(pairs: Vec<(&str, FieldValue)>) -> ValueMap {
    let mut m = ValueMap::new();
    for (k, v) in pairs {
        m.insert(k.to_string(), v);
    }
    m
}

fn text(s: &str) -> FieldValue {
    FieldValue::Text(s.to_string())
}

#[test]
fn test_rules_is_empty_ignores_pattern_message() {
    assert!(ValidationRules::new().is_empty());
    // A custom pattern message alone is wording, not a constraint.
    assert!(ValidationRules::new()
        .pattern_message("Must be 4 digits".to_string())
        .is_empty());
    assert!(!ValidationRules::new().min_length(1).is_empty());
    assert!(!ValidationRules::new().pattern(r"^\d+$".to_string()).is_empty());
}

#[test]
fn test_multi_step_basic_validation() {
    let step = make_step("Basic Info", None);
    let step_id = step.id.clone();
    let fields = vec![
        make_field("name", "text", true),
        make_field("email", "email", true),
    ];
    let steps = vec![(step, fields)];

    // Empty data should fail required validation
    let data = ValueMap::new();
    let errors = validate_multi_step_submission(&steps, &data);
    assert!(!errors.is_empty());
    assert_eq!(errors.error_count(), 2);
    assert!(errors.get_field(&step_id, "name").is_some());
    assert!(errors.get_field(&step_id, "email").is_some());

    // Valid data should pass
    let data = make_data(vec![
        ("name", text("John")),
        ("email", text("john@example.com")),
    ]);
    let errors = validate_multi_step_submission(&steps, &data);
    assert!(errors.is_empty());
}

#[test]
fn test_multi_step_conditional_field() {
    let step = make_step("Contact", None);
    let fields = vec![
        make_field("has_company", "checkbox", false),
        // Company name is only required when has_company is true
        make_conditional_field(
            "company_name",
            true,
            ConditionRule::eq("has_company", FieldValue::Bool(true)),
        ),
    ];
    let steps = vec![(step, fields)];

    // No company checkbox checked - company_name should not be validated
    let data = ValueMap::new();
    let errors = validate_multi_step_submission(&steps, &data);
    assert!(errors.is_empty());

    // Company checkbox checked but no company name - should fail
    let data = make_data(vec![("has_company", FieldValue::Bool(true))]);
    let errors = validate_multi_step_submission(&steps, &data);
    assert!(!errors.is_empty());
    assert_eq!(errors.error_count(), 1);

    // Company checkbox checked with company name - should pass
    let data = make_data(vec![
        ("has_company", FieldValue::Bool(true)),
        ("company_name", text("Acme Inc")),
    ]);
    let errors = validate_multi_step_submission(&steps, &data);
    assert!(errors.is_empty());
}

#[test]
fn test_multi_step_conditional_step() {
    // Step 2 only shows when role is "enterprise"
    let step1 = make_step("Account Type", None);
    let step2 = make_step(
        "Enterprise Details",
        Some(ConditionRule::eq("role", text("enterprise"))),
    );

    let fields1 = vec![make_field("role", "select", true)];
    let fields2 = vec![make_field("company_size", "number", true)];

    let steps = vec![(step1, fields1), (step2, fields2)];

    // Not enterprise - step 2 should be skipped
    let data = make_data(vec![("role", text("personal"))]);
    let errors = validate_multi_step_submission(&steps, &data);
    assert!(errors.is_empty());

    // Enterprise but no company size - should fail
    let data = make_data(vec![("role", text("enterprise"))]);
    let errors = validate_multi_step_submission(&steps, &data);
    assert!(!errors.is_empty());
    assert_eq!(errors.error_count(), 1);

    // Enterprise with company size - should pass
    let data = make_data(vec![
        ("role", text("enterprise")),
        ("company_size", FieldValue::Number(Number::from_i64(100))),
    ]);
    let errors = validate_multi_step_submission(&steps, &data);
    assert!(errors.is_empty());
}

#[test]
fn test_step_validation_errors_grouped_by_step() {
    let step1 = make_step("Step 1", None);
    let step1_id = step1.id.clone();
    let step2 = make_step("Step 2", None);
    let step2_id = step2.id.clone();

    let fields1 = vec![make_field("name", "text", true)];
    let fields2 = vec![make_field("email", "email", true)];

    let steps = vec![(step1, fields1), (step2, fields2)];

    // Empty data - should have errors in both steps
    let data = ValueMap::new();
    let errors = validate_multi_step_submission(&steps, &data);

    assert!(!errors.is_empty());
    assert_eq!(errors.steps.len(), 2);
    assert!(errors.get_step(&step1_id).is_some());
    assert!(errors.get_step(&step2_id).is_some());
    assert!(errors.get_field(&step1_id, "name").is_some());
    assert!(errors.get_field(&step2_id, "email").is_some());
}

#[test]
fn test_step_validation_errors_flatten() {
    let mut errors = StepValidationErrors::new();
    errors.add("step-1", "name", "Name is required");
    errors.add("step-1", "email", "Email is required");
    errors.add("step-2", "phone", "Phone is required");

    let flat = errors.flatten();
    assert_eq!(flat.len(), 3);
    assert!(flat.get("name").is_some());
    assert!(flat.get("email").is_some());
    assert!(flat.get("phone").is_some());
}

#[test]
fn test_is_field_visible() {
    let field_no_condition = make_field("name", "text", true);
    let field_with_condition = make_conditional_field(
        "company",
        true,
        ConditionRule::eq("is_business", FieldValue::Bool(true)),
    );

    // Field without condition is always visible
    let data = ValueMap::new();
    assert!(is_field_visible(&field_no_condition, &data));

    // Field with condition - not visible when condition is false
    let data = ValueMap::new();
    assert!(!is_field_visible(&field_with_condition, &data));

    // Field with condition - visible when condition is true
    let data = make_data(vec![("is_business", FieldValue::Bool(true))]);
    assert!(is_field_visible(&field_with_condition, &data));
}

#[test]
fn test_is_step_visible() {
    let step_no_condition = make_step("Basic", None);
    let step_with_condition = make_step(
        "Enterprise",
        Some(ConditionRule::eq("plan", text("enterprise"))),
    );

    // Step without condition is always visible
    let data = ValueMap::new();
    assert!(is_step_visible(&step_no_condition, &data));

    // Step with condition - not visible when condition is false
    let data = make_data(vec![("plan", text("free"))]);
    assert!(!is_step_visible(&step_with_condition, &data));

    // Step with condition - visible when condition is true
    let data = make_data(vec![("plan", text("enterprise"))]);
    assert!(is_step_visible(&step_with_condition, &data));
}

#[test]
fn test_email_validation() {
    let field = make_field("email", "email", false);
    let ok = |v: &str| validate_field(&field, Some(&text(v))).is_empty();
    assert!(ok("test@example.com"));
    assert!(ok("user.name@sub.domain.com"));
    assert!(!ok("invalid"));
    assert!(!ok("@example.com"));
    assert!(!ok("test@"));
}

#[test]
fn test_url_validation() {
    let field = make_field("website", "url", false);
    let ok = |v: &str| validate_field(&field, Some(&text(v))).is_empty();
    assert!(ok("https://example.com"));
    assert!(ok("http://localhost:3000"));
    assert!(!ok("ftp://example.com"));
    assert!(!ok("example.com"));
}

#[test]
fn test_email_rejects_unicode_whitespace() {
    // A no-break space counts as white space, as in the Unicode class.
    let field = make_field("email", "email", false);
    let errs = validate_field(&field, Some(&text("user\u{a0}name@example.com")));
    assert!(!errs.is_empty());
}

#[test]
fn test_phone_validation() {
    let field = make_field("phone", "tel", false);
    let ok = |v: &str| validate_field(&field, Some(&text(v))).is_empty();
    assert!(ok("555-123-4567"));
    assert!(ok("+1 (555) 123-4567"));
    assert!(ok("5551234567"));
    assert!(ok("+1\u{a0}555 123 4567")); // any Unicode white space is allowed
    assert!(!ok("123")); // Too short
    assert!(!ok("abc-def-ghij"));
}

#[test]
fn test_date_validation() {
    let field = make_field("when", "date", false);
    let ok = |v: &str| validate_field(&field, Some(&text(v))).is_empty();
    assert!(ok("2024-12-25"));
    assert!(!ok("12-25-2024"));
    assert!(!ok("2024/12/25"));
}

#[test]
fn test_time_validation() {
    let field = make_field("at", "time", false);
    let ok = |v: &str| validate_field(&field, Some(&text(v))).is_empty();
    assert!(ok("14:30"));
    assert!(ok("14:30:00"));
    assert!(!ok("2:30 PM"));
}

#[test]
fn test_datetime_validation() {
    let field = make_field("when", "datetime", false);
    let ok = |v: &str| validate_field(&field, Some(&text(v))).is_empty();
    assert!(ok("2024-12-25T14:30"));
    assert!(ok("2024-12-25 14:30:00"));
    assert!(!ok("2024-12-25"));
    assert!(!ok("14:30"));
}

#[test]
fn test_pattern_validation() {
    let mut field = make_field("code", "text", false);
    field.validation = ValidationRules::new()
        .pattern(r"^\d{4}$".to_string())
        .pattern_message("Must be 4 digits".to_string());

    assert!(validate_field(&field, Some(&text("1234"))).is_empty());
    let errs = validate_field(&field, Some(&text("123")));
    assert_eq!(errs, vec!["code: Must be 4 digits".to_string()]);
    assert!(!validate_field(&field, Some(&text("abcd"))).is_empty());
}

#[test]
fn test_unparseable_pattern_is_skipped() {
    let mut field = make_field("code", "text", false);
    field.validation = ValidationRules::new().pattern("([".to_string());
    assert!(validate_field(&field, Some(&text("anything"))).is_empty());
}

#[test]
fn test_numeric_range_validation() {
    let mut field = make_field("age", "number", false);
    field.validation = ValidationRules::new()
        .min(Number::from_i64(18))
        .max(Number::from_i64(120));

    let num = |n: i64| FieldValue::Number(Number::from_i64(n));
    assert!(!validate_field(&field, Some(&num(17))).is_empty());
    assert!(validate_field(&field, Some(&num(18))).is_empty());
    assert!(validate_field(&field, Some(&num(50))).is_empty());
    assert!(validate_field(&field, Some(&num(120))).is_empty());
    assert!(!validate_field(&field, Some(&num(121))).is_empty());
    let errs = validate_field(&field, Some(&num(17)));
    assert_eq!(errs, vec!["age must be at least 18".to_string()]);
}

#[test]
fn test_length_validation_messages() {
    let mut field = make_field("name", "text", false);
    field.validation = ValidationRules::new().min_length(5).max_length(8);

    assert!(validate_field(&field, Some(&text("abcde"))).is_empty());
    assert!(validate_field(&field, Some(&text("abcdefgh"))).is_empty());
    assert_eq!(
        validate_field(&field, Some(&text("abc"))),
        vec!["name must be at least 5 characters".to_string()]
    );
    assert_eq!(
        validate_field(&field, Some(&text("abcdefghi"))),
        vec!["name must be at most 8 characters".to_string()]
    );
}

#[test]
fn test_selection_count_validation() {
    let mut field = make_field("colors", "multi_select", false);
    field.validation = ValidationRules::new().min_selections(2).max_selections(3);

    let arr = |items: &[&str]| FieldValue::Array(items.iter().map(|s| s.to_string()).collect());
    assert_eq!(
        validate_field(&field, Some(&arr(&["red"]))),
        vec!["colors requires at least 2 selections".to_string()]
    );
    assert!(validate_field(&field, Some(&arr(&["red", "blue"]))).is_empty());
    assert_eq!(
        validate_field(&field, Some(&arr(&["a", "b", "c", "d"]))),
        vec!["colors allows at most 3 selections".to_string()]
    );
}

#[test]
fn test_required_short_circuit() {
    // A required, empty field reports only the required message, even
    // when a pattern would also fail.
    let mut field = make_field("code", "text", true);
    field.validation = ValidationRules::new()
        .pattern(r"^\d{4}$".to_string())
        .pattern_message("Must be 4 digits".to_string());

    let errs = validate_field(&field, Some(&FieldValue::Null));
    assert_eq!(errs, vec!["code is required".to_string()]);
    let errs = validate_field(&field, None);
    assert_eq!(errs, vec!["code is required".to_string()]);
}

#[test]
fn test_optional_empty_field_is_valid() {
    let mut field = make_field("code", "text", false);
    field.validation = ValidationRules::new().min_length(4);
    assert!(validate_field(&field, None).is_empty());
    assert!(validate_field(&field, Some(&FieldValue::Null)).is_empty());
    assert!(validate_field(&field, Some(&FieldValue::Text(String::new()))).is_empty());
}

#[test]
fn test_email_error_message() {
    // An Email-typed required field with a malformed value reports the
    // email message.
    let mut field = make_field("email", "email", true);
    field.label = "Work email".to_string();
    let errs = validate_field(&field, Some(&text("test@")));
    assert_eq!(
        errs,
        vec!["Work email must be a valid email address".to_string()]
    );
}

#[test]
fn test_number_type_error_message() {
    let field = make_field("age", "number", false);
    let errs = validate_field(&field, Some(&text("not a number")));
    assert_eq!(errs, vec!["age must be a number".to_string()]);
}

#[test]
fn test_multi_step_grouping_and_flatten() {
    // Two steps, each with one required, currently-empty field: two step
    // keys, one field error each, and a flat view with two entries.
    let step1 = make_step("One", None);
    let step2 = make_step("Two", None);
    let steps = vec![
        (step1, vec![make_field("name", "text", true)]),
        (step2, vec![make_field("email", "email", true)]),
    ];
    let data = ValueMap::new();
    let errors = validate_multi_step_submission(&steps, &data);
    assert_eq!(errors.steps.len(), 2);
    assert_eq!(errors.field_count(), 2);
    assert_eq!(errors.error_count(), 2);
    for (_, inner) in &errors.steps {
        assert_eq!(inner.len(), 1);
    }
    let flat = errors.flatten();
    assert_eq!(flat.len(), 2);
    assert!(flat.get("name").is_some());
    assert!(flat.get("email").is_some());
}

#[test]
fn test_validate_submission_is_idempotent() {
    let mut pattern_field = make_field("code", "text", false);
    pattern_field.validation = ValidationRules::new().pattern(r"^\d+$".to_string());
    let fields = vec![
        make_field("name", "text", true),
        make_field("email", "email", true),
        pattern_field,
    ];
    let data = make_data(vec![
        ("email", text("oops")),
        ("code", text("12a")),
    ]);
    let first = validate_submission(&fields, &data);
    let second = validate_submission(&fields, &data);
    assert_eq!(first.errors, second.errors);
    assert!(!first.is_empty());
}

#[test]
fn test_validate_step_skips_hidden_step() {
    let step = make_step(
        "Hidden",
        Some(ConditionRule::eq("show", FieldValue::Bool(true))),
    );
    let fields = vec![make_field("name", "text", true)];
    let data = ValueMap::new();
    let errors = validate_step(&step, &fields, &data);
    assert!(errors.is_empty());

    let data = make_data(vec![("show", FieldValue::Bool(true))]);
    let errors = validate_step(&step, &fields, &data);
    assert!(!errors.is_empty());
}

#[test]
fn test_validate_submission_looks_up_by_id_then_name() {
    let field = make_field("name", "text", true);
    let id = field.id.clone();
    let fields = vec![field];

    // Value keyed by the field identifier is found.
    let mut data = ValueMap::new();
    data.insert(id, text("by id"));
    assert!(validate_submission(&fields, &data).is_empty());

    // Value keyed by the field name is the fallback.
    let data = make_data(vec![("name", text("by name"))]);
    assert!(validate_submission(&fields, &data).is_empty());
}

#[test]
fn test_display_only_fields_are_skipped() {
    let mut heading = make_field("title", "heading", true);
    heading.validation = ValidationRules::new().min_length(100);
    let fields = vec![heading];
    let data = ValueMap::new();
    assert!(validate_submission(&fields, &data).is_empty());
}

#[test]
fn test_validate_submission_required_errors() {
    let fields = vec![
        make_field("name", "text", true),
        make_field("note", "text", false),
    ];
    let data = ValueMap::new();
    let errors = validate_submission(&fields, &data);
    assert_eq!(errors.len(), 1);
    assert_eq!(
        errors.get("name").unwrap(),
        &vec!["name is required".to_string()]
    );
    assert!(errors.get("note").is_none());

    let data = make_data(vec![("name", text("Ada"))]);
    assert!(validate_submission(&fields, &data).is_empty());
}

#[test]
fn test_ordered_messages_type_then_rules() {
    // Type errors come before rule errors, in validation order.
    let mut field = make_field("email", "email", false);
    field.validation = ValidationRules::new().min_length(10);
    let errs = validate_field(&field, Some(&text("bad")));
    assert_eq!(
        errs,
        vec![
            "email must be a valid email address".to_string(),
            "email must be at least 10 characters".to_string(),
        ]
    );
}
