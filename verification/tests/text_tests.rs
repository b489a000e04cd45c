//! Tests for field types, escaping, and small text helpers.

use anyform::field::ValueType;
use anyform::html::{escape_html, HtmlOptions};
use anyform::request_id::RequestId;
use anyform::text::{escape_csv, truncate};

#[test]
fn test_value_type_from_name() {
    assert_eq!(ValueType::from_name("text"), Some(ValueType::Text));
    assert_eq!(ValueType::from_name("EMAIL"), Some(ValueType::Email));
    assert_eq!(ValueType::from_name("phone"), Some(ValueType::Tel));
    assert_eq!(ValueType::from_name("integer"), Some(ValueType::Number));
    assert_eq!(ValueType::from_name("longtext"), Some(ValueType::Textarea));
    assert_eq!(ValueType::from_name("dropdown"), Some(ValueType::Select));
    assert_eq!(
        ValueType::from_name("multiselect"),
        Some(ValueType::MultiSelect)
    );
    assert_eq!(ValueType::from_name("date_time"), Some(ValueType::DateTime));
    assert_eq!(ValueType::from_name("h2"), Some(ValueType::Heading));
    assert_eq!(
        ValueType::from_name("description"),
        Some(ValueType::Paragraph)
    );
    assert_eq!(ValueType::from_name("stars"), Some(ValueType::Rating));
    assert_eq!(ValueType::from_name("slider"), Some(ValueType::Scale));
    assert_eq!(ValueType::from_name("grid"), Some(ValueType::Matrix));
    assert_eq!(ValueType::from_name("bogus"), None);
}

#[test]
fn test_value_type_names_round_trip() {
    let all = [
        ValueType::Text,
        ValueType::Email,
        ValueType::Url,
        ValueType::Tel,
        ValueType::Number,
        ValueType::Textarea,
        ValueType::Select,
        ValueType::MultiSelect,
        ValueType::Radio,
        ValueType::Checkbox,
        ValueType::Date,
        ValueType::DateTime,
        ValueType::Time,
        ValueType::File,
        ValueType::Image,
        ValueType::Hidden,
        ValueType::Heading,
        ValueType::Paragraph,
        ValueType::Rating,
        ValueType::Scale,
        ValueType::Nps,
        ValueType::Matrix,
    ];
    for vt in all {
        assert_eq!(ValueType::from_name(vt.as_name()), Some(vt));
    }
}

#[test]
fn test_value_type_predicates() {
    assert_eq!(ValueType::Text.html_input_type(), "text");
    assert_eq!(ValueType::Nps.html_input_type(), "number");
    assert_eq!(ValueType::DateTime.html_input_type(), "datetime-local");
    assert_eq!(ValueType::Textarea.html_input_type(), "");

    assert!(ValueType::Select.requires_options());
    assert!(!ValueType::Text.requires_options());

    assert!(ValueType::Heading.is_display_only());
    assert!(ValueType::Paragraph.is_display_only());
    assert!(!ValueType::Hidden.is_display_only());

    assert!(ValueType::File.is_file_type());
    assert!(!ValueType::Text.is_file_type());

    assert!(ValueType::MultiSelect.is_multi_value());
    assert!(ValueType::Checkbox.is_multi_value());
    assert!(!ValueType::Radio.is_multi_value());
}

#[test]
fn test_escape_html() {
    assert_eq!(
        escape_html(r#"<a href="x">Bob & Carol's</a>"#),
        "&lt;a href=&quot;x&quot;&gt;Bob &amp; Carol&#39;s&lt;/a&gt;"
    );
    assert_eq!(escape_html("plain"), "plain");
    assert_eq!(escape_html(""), "");
}

#[test]
fn test_escape_csv() {
    assert_eq!(escape_csv("plain"), "plain");
    assert_eq!(escape_csv("a,b"), "\"a,b\"");
    assert_eq!(escape_csv("say \"hi\""), "\"say \"\"hi\"\"\"");
    assert_eq!(escape_csv("line\nbreak"), "\"line\nbreak\"");
}

#[test]
fn test_truncate() {
    assert_eq!(truncate("short", 10), "short");
    assert_eq!(truncate("exactly10!", 10), "exactly10!");
    assert_eq!(truncate("a longer sentence", 10), "a longe...");
}

#[test]
fn test_html_options_builders() {
    let opts = HtmlOptions::new();
    assert!(opts.show_required_indicator);
    assert!(opts.include_styles);
    assert!(opts.form_class.is_none());

    let opts = HtmlOptions::new()
        .form_class("form".to_string())
        .field_class("field".to_string())
        .action("/submit".to_string())
        .wasm_base_url("/pkg".to_string())
        .multi_step(true)
        .include_styles(false);
    assert_eq!(opts.form_class.as_deref(), Some("form"));
    assert_eq!(opts.field_class.as_deref(), Some("field"));
    assert_eq!(opts.action.as_deref(), Some("/submit"));
    assert_eq!(opts.wasm_base_url.as_deref(), Some("/pkg"));
    assert_eq!(opts.multi_step, Some(true));
    assert!(!opts.include_styles);
}

#[test]
fn test_request_id() {
    let id = RequestId("abc-123".to_string());
    assert_eq!(id.as_str(), "abc-123");
    assert_eq!(id.into_inner(), "abc-123");
}
