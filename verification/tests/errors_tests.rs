//! Tests for the error reports and the error type.

use anyform::errors::{FormError, StepValidationErrors, ValidationErrors};

#[test]
fn test_validation_errors_add_and_get() {
    let mut errors = ValidationErrors::new();
    assert!(errors.is_empty());
    assert_eq!(errors.len(), 0);

    errors.add("name", "Name is required");
    errors.add("name", "Name is too short");
    errors.add("email", "Email is invalid");

    assert!(!errors.is_empty());
    assert_eq!(errors.len(), 2);
    assert_eq!(
        errors.get("name").unwrap(),
        &vec![
            "Name is required".to_string(),
            "Name is too short".to_string(),
        ]
    );
    assert_eq!(
        errors.get("email").unwrap(),
        &vec!["Email is invalid".to_string()]
    );
    assert!(errors.get("other").is_none());
}

#[test]
fn test_validation_errors_merge() {
    let mut a = ValidationErrors::new();
    a.add("name", "first");
    let mut b = ValidationErrors::new();
    b.add("name", "second");
    b.add("email", "third");

    a.merge(b);
    assert_eq!(a.len(), 2);
    assert_eq!(
        a.get("name").unwrap(),
        &vec!["first".to_string(), "second".to_string()]
    );
    assert_eq!(a.get("email").unwrap(), &vec!["third".to_string()]);
}

#[test]
fn test_step_errors_counts() {
    let mut errors = StepValidationErrors::new();
    assert!(errors.is_empty());
    assert_eq!(errors.field_count(), 0);
    assert_eq!(errors.error_count(), 0);

    errors.add("s1", "name", "one");
    errors.add("s1", "name", "two");
    errors.add("s1", "email", "three");
    errors.add("s2", "phone", "four");

    assert!(!errors.is_empty());
    assert_eq!(errors.steps.len(), 2);
    assert_eq!(errors.field_count(), 3);
    assert_eq!(errors.error_count(), 4);
    assert_eq!(
        errors.get_field("s1", "name").unwrap(),
        &vec!["one".to_string(), "two".to_string()]
    );
    assert!(errors.get_field("s1", "phone").is_none());
    assert!(errors.get_step("s3").is_none());
}

#[test]
fn test_flatten_concatenates_shared_field_names() {
    // The same field name in two steps has its lists concatenated.
    let mut errors = StepValidationErrors::new();
    errors.add("s1", "name", "from step one");
    errors.add("s2", "name", "from step two");

    let flat = errors.flatten();
    assert_eq!(flat.len(), 1);
    assert_eq!(
        flat.get("name").unwrap(),
        &vec!["from step one".to_string(), "from step two".to_string()]
    );
}

#[test]
fn test_form_error_codes() {
    let cases: Vec<(FormError, &str, u16)> = vec![
        (FormError::NotFound("f".into()), "FORM_NOT_FOUND", 404),
        (FormError::StepNotFound("s".into()), "STEP_NOT_FOUND", 404),
        (FormError::FieldNotFound("x".into()), "FIELD_NOT_FOUND", 404),
        (
            FormError::ValidationFailed(ValidationErrors::new()),
            "VALIDATION_FAILED",
            400,
        ),
        (
            FormError::StepValidationFailed(StepValidationErrors::new()),
            "VALIDATION_FAILED",
            400,
        ),
        (FormError::Database("d".into()), "DATABASE_ERROR", 500),
        (
            FormError::InvalidFieldType("t".into()),
            "INVALID_FIELD_TYPE",
            400,
        ),
        (FormError::ConditionError("c".into()), "CONDITION_ERROR", 500),
        (FormError::FileUpload("u".into()), "FILE_UPLOAD_ERROR", 400),
        (FormError::InvalidData("i".into()), "INVALID_DATA", 400),
        (FormError::FormDeleted, "FORM_DELETED", 410),
        (
            FormError::SubmissionNotFound("s".into()),
            "SUBMISSION_NOT_FOUND",
            404,
        ),
    ];
    for (err, code, status) in cases {
        assert_eq!(err.error_code(), code);
        assert_eq!(err.status_code(), status);
    }
}
