//! Field and step definitions.
//!
//! A field is one form input: a name, a display label, a value type, a
//! required flag, validation rules, and an optional visibility condition.
//! A step is an ordered group of fields with an optional condition of its
//! own. Display-only field types (headings, paragraphs) take no input and
//! are exempt from validation.

use vstd::prelude::*;
use crate::condition::ConditionRule;
use crate::rules::ValidationRules;
use crate::text::{ascii_lower, eq_ascii_ci};

verus! {

/// Supported field types for form fields.
#[derive(Debug, Clone, Copy, PartialEq, Eq, Structural)]
pub enum ValueType {
    /// Single-line text input.
    Text,
    /// Email input with format validation.
    Email,
    /// URL input with format validation.
    Url,
    /// Telephone number input.
    Tel,
    /// Numeric input.
    Number,
    /// Multi-line text input.
    Textarea,
    /// Single-select dropdown.
    Select,
    /// Multi-select dropdown.
    MultiSelect,
    /// Radio button group.
    Radio,
    /// Single checkbox.
    Checkbox,
    /// Date picker.
    Date,
    /// Date and time picker.
    DateTime,
    /// Time picker.
    Time,
    /// File upload.
    File,
    /// Image upload.
    Image,
    /// Hidden field.
    Hidden,
    /// Heading text (display only).
    Heading,
    /// Paragraph text (display only).
    Paragraph,
    /// Star rating.
    Rating,
    /// Numeric scale (e.g., 1-10).
    Scale,
    /// Net Promoter Score (0-10).
    Nps,
    /// Matrix/grid of questions.
    Matrix,
}

/// The canonical name of a field type.
pub open spec fn spec_value_type_name(t: ValueType) -> Seq<char> {
    match t {
        ValueType::Text => "text"@,
        ValueType::Email => "email"@,
        ValueType::Url => "url"@,
        ValueType::Tel => "tel"@,
        ValueType::Number => "number"@,
        ValueType::Textarea => "textarea"@,
        ValueType::Select => "select"@,
        ValueType::MultiSelect => "multi_select"@,
        ValueType::Radio => "radio"@,
        ValueType::Checkbox => "checkbox"@,
        ValueType::Date => "date"@,
        ValueType::DateTime => "datetime"@,
        ValueType::Time => "time"@,
        ValueType::File => "file"@,
        ValueType::Image => "image"@,
        ValueType::Hidden => "hidden"@,
        ValueType::Heading => "heading"@,
        ValueType::Paragraph => "paragraph"@,
        ValueType::Rating => "rating"@,
        ValueType::Scale => "scale"@,
        ValueType::Nps => "nps"@,
        ValueType::Matrix => "matrix"@,
    }
}

/// The field type a stored name denotes, letter case ignored, with the
/// accepted aliases; `None` for an unknown name.
pub open spec fn spec_value_type_of(s: Seq<char>) -> Option<ValueType> {
    let l = ascii_lower(s);
    if l == "text"@ {
        Some(ValueType::Text)
    } else if l == "email"@ {
        Some(ValueType::Email)
    } else if l == "url"@ {
        Some(ValueType::Url)
    } else if l == "tel"@ || l == "telephone"@ || l == "phone"@ {
        Some(ValueType::Tel)
    } else if l == "number"@ || l == "numeric"@ || l == "integer"@ || l == "decimal"@ {
        Some(ValueType::Number)
    } else if l == "textarea"@ || l == "longtext"@ || l == "long_text"@ {
        Some(ValueType::Textarea)
    } else if l == "select"@ || l == "dropdown"@ {
        Some(ValueType::Select)
    } else if l == "multi_select"@ || l == "multiselect"@ {
        Some(ValueType::MultiSelect)
    } else if l == "radio"@ {
        Some(ValueType::Radio)
    } else if l == "checkbox"@ {
        Some(ValueType::Checkbox)
    } else if l == "date"@ {
        Some(ValueType::Date)
    } else if l == "datetime"@ || l == "date_time"@ {
        Some(ValueType::DateTime)
    } else if l == "time"@ {
        Some(ValueType::Time)
    } else if l == "file"@ {
        Some(ValueType::File)
    } else if l == "image"@ {
        Some(ValueType::Image)
    } else if l == "hidden"@ {
        Some(ValueType::Hidden)
    } else if l == "heading"@ || l == "header"@ || l == "h1"@ || l == "h2"@ || l == "h3"@ {
        Some(ValueType::Heading)
    } else if l == "paragraph"@ || l == "text_block"@ || l == "description"@ {
        Some(ValueType::Paragraph)
    } else if l == "rating"@ || l == "stars"@ {
        Some(ValueType::Rating)
    } else if l == "scale"@ || l == "slider"@ {
        Some(ValueType::Scale)
    } else if l == "nps"@ {
        Some(ValueType::Nps)
    } else if l == "matrix"@ || l == "grid"@ {
        Some(ValueType::Matrix)
    } else {
        None
    }
}

/// Every accepted field-type name is already lower case, so ASCII
/// lowercasing leaves each of them as it stands.
#[verifier::rlimit(60)]
proof fn lemma_type_names_lower()
    ensures
        ascii_lower("text"@) == "text"@,
        ascii_lower("email"@) == "email"@,
        ascii_lower("url"@) == "url"@,
        ascii_lower("tel"@) == "tel"@,
        ascii_lower("telephone"@) == "telephone"@,
        ascii_lower("phone"@) == "phone"@,
        ascii_lower("number"@) == "number"@,
        ascii_lower("numeric"@) == "numeric"@,
        ascii_lower("integer"@) == "integer"@,
        ascii_lower("decimal"@) == "decimal"@,
        ascii_lower("textarea"@) == "textarea"@,
        ascii_lower("longtext"@) == "longtext"@,
        ascii_lower("long_text"@) == "long_text"@,
        ascii_lower("select"@) == "select"@,
        ascii_lower("dropdown"@) == "dropdown"@,
        ascii_lower("multi_select"@) == "multi_select"@,
        ascii_lower("multiselect"@) == "multiselect"@,
        ascii_lower("radio"@) == "radio"@,
        ascii_lower("checkbox"@) == "checkbox"@,
        ascii_lower("date"@) == "date"@,
        ascii_lower("datetime"@) == "datetime"@,
        ascii_lower("date_time"@) == "date_time"@,
        ascii_lower("time"@) == "time"@,
        ascii_lower("file"@) == "file"@,
        ascii_lower("image"@) == "image"@,
        ascii_lower("hidden"@) == "hidden"@,
        ascii_lower("heading"@) == "heading"@,
        ascii_lower("header"@) == "header"@,
        ascii_lower("h1"@) == "h1"@,
        ascii_lower("h2"@) == "h2"@,
        ascii_lower("h3"@) == "h3"@,
        ascii_lower("paragraph"@) == "paragraph"@,
        ascii_lower("text_block"@) == "text_block"@,
        ascii_lower("description"@) == "description"@,
        ascii_lower("rating"@) == "rating"@,
        ascii_lower("stars"@) == "stars"@,
        ascii_lower("scale"@) == "scale"@,
        ascii_lower("slider"@) == "slider"@,
        ascii_lower("nps"@) == "nps"@,
        ascii_lower("matrix"@) == "matrix"@,
        ascii_lower("grid"@) == "grid"@,
{
    reveal_strlit("text");
    reveal_strlit("email");
    reveal_strlit("url");
    reveal_strlit("tel");
    reveal_strlit("telephone");
    reveal_strlit("phone");
    reveal_strlit("number");
    reveal_strlit("numeric");
    reveal_strlit("integer");
    reveal_strlit("decimal");
    reveal_strlit("textarea");
    reveal_strlit("longtext");
    reveal_strlit("long_text");
    reveal_strlit("select");
    reveal_strlit("dropdown");
    reveal_strlit("multi_select");
    reveal_strlit("multiselect");
    reveal_strlit("radio");
    reveal_strlit("checkbox");
    reveal_strlit("date");
    reveal_strlit("datetime");
    reveal_strlit("date_time");
    reveal_strlit("time");
    reveal_strlit("file");
    reveal_strlit("image");
    reveal_strlit("hidden");
    reveal_strlit("heading");
    reveal_strlit("header");
    reveal_strlit("h1");
    reveal_strlit("h2");
    reveal_strlit("h3");
    reveal_strlit("paragraph");
    reveal_strlit("text_block");
    reveal_strlit("description");
    reveal_strlit("rating");
    reveal_strlit("stars");
    reveal_strlit("scale");
    reveal_strlit("slider");
    reveal_strlit("nps");
    reveal_strlit("matrix");
    reveal_strlit("grid");
    assert(ascii_lower("text"@) =~= "text"@);
    assert(ascii_lower("email"@) =~= "email"@);
    assert(ascii_lower("url"@) =~= "url"@);
    assert(ascii_lower("tel"@) =~= "tel"@);
    assert(ascii_lower("telephone"@) =~= "telephone"@);
    assert(ascii_lower("phone"@) =~= "phone"@);
    assert(ascii_lower("number"@) =~= "number"@);
    assert(ascii_lower("numeric"@) =~= "numeric"@);
    assert(ascii_lower("integer"@) =~= "integer"@);
    assert(ascii_lower("decimal"@) =~= "decimal"@);
    assert(ascii_lower("textarea"@) =~= "textarea"@);
    assert(ascii_lower("longtext"@) =~= "longtext"@);
    assert(ascii_lower("long_text"@) =~= "long_text"@);
    assert(ascii_lower("select"@) =~= "select"@);
    assert(ascii_lower("dropdown"@) =~= "dropdown"@);
    assert(ascii_lower("multi_select"@) =~= "multi_select"@);
    assert(ascii_lower("multiselect"@) =~= "multiselect"@);
    assert(ascii_lower("radio"@) =~= "radio"@);
    assert(ascii_lower("checkbox"@) =~= "checkbox"@);
    assert(ascii_lower("date"@) =~= "date"@);
    assert(ascii_lower("datetime"@) =~= "datetime"@);
    assert(ascii_lower("date_time"@) =~= "date_time"@);
    assert(ascii_lower("time"@) =~= "time"@);
    assert(ascii_lower("file"@) =~= "file"@);
    assert(ascii_lower("image"@) =~= "image"@);
    assert(ascii_lower("hidden"@) =~= "hidden"@);
    assert(ascii_lower("heading"@) =~= "heading"@);
    assert(ascii_lower("header"@) =~= "header"@);
    assert(ascii_lower("h1"@) =~= "h1"@);
    assert(ascii_lower("h2"@) =~= "h2"@);
    assert(ascii_lower("h3"@) =~= "h3"@);
    assert(ascii_lower("paragraph"@) =~= "paragraph"@);
    assert(ascii_lower("text_block"@) =~= "text_block"@);
    assert(ascii_lower("description"@) =~= "description"@);
    assert(ascii_lower("rating"@) =~= "rating"@);
    assert(ascii_lower("stars"@) =~= "stars"@);
    assert(ascii_lower("scale"@) =~= "scale"@);
    assert(ascii_lower("slider"@) =~= "slider"@);
    assert(ascii_lower("nps"@) =~= "nps"@);
    assert(ascii_lower("matrix"@) =~= "matrix"@);
    assert(ascii_lower("grid"@) =~= "grid"@);
}

impl ValueType {
    /// Reads a field type from its stored name, letter case ignored;
    /// aliases are accepted.
    #[verifier::rlimit(60)]
    pub fn from_name(s: &str) -> (r: Option<ValueType>)
        ensures
            r == spec_value_type_of(s@),
    {
        proof {
            lemma_type_names_lower();
        }
        if eq_ascii_ci(s, "text") {
            Some(ValueType::Text)
        } else if eq_ascii_ci(s, "email") {
            Some(ValueType::Email)
        } else if eq_ascii_ci(s, "url") {
            Some(ValueType::Url)
        } else if eq_ascii_ci(s, "tel") || eq_ascii_ci(s, "telephone") || eq_ascii_ci(s, "phone") {
            Some(ValueType::Tel)
        } else if eq_ascii_ci(s, "number") || eq_ascii_ci(s, "numeric") || eq_ascii_ci(s, "integer")
            || eq_ascii_ci(s, "decimal") {
            Some(ValueType::Number)
        } else if eq_ascii_ci(s, "textarea") || eq_ascii_ci(s, "longtext") || eq_ascii_ci(
            s,
            "long_text",
        ) {
            Some(ValueType::Textarea)
        } else if eq_ascii_ci(s, "select") || eq_ascii_ci(s, "dropdown") {
            Some(ValueType::Select)
        } else if eq_ascii_ci(s, "multi_select") || eq_ascii_ci(s, "multiselect") {
            Some(ValueType::MultiSelect)
        } else if eq_ascii_ci(s, "radio") {
            Some(ValueType::Radio)
        } else if eq_ascii_ci(s, "checkbox") {
            Some(ValueType::Checkbox)
        } else if eq_ascii_ci(s, "date") {
            Some(ValueType::Date)
        } else if eq_ascii_ci(s, "datetime") || eq_ascii_ci(s, "date_time") {
            Some(ValueType::DateTime)
        } else if eq_ascii_ci(s, "time") {
            Some(ValueType::Time)
        } else if eq_ascii_ci(s, "file") {
            Some(ValueType::File)
        } else if eq_ascii_ci(s, "image") {
            Some(ValueType::Image)
        } else if eq_ascii_ci(s, "hidden") {
            Some(ValueType::Hidden)
        } else if eq_ascii_ci(s, "heading") || eq_ascii_ci(s, "header") || eq_ascii_ci(s, "h1")
            || eq_ascii_ci(s, "h2") || eq_ascii_ci(s, "h3") {
            Some(ValueType::Heading)
        } else if eq_ascii_ci(s, "paragraph") || eq_ascii_ci(s, "text_block") || eq_ascii_ci(
            s,
            "description",
        ) {
            Some(ValueType::Paragraph)
        } else if eq_ascii_ci(s, "rating") || eq_ascii_ci(s, "stars") {
            Some(ValueType::Rating)
        } else if eq_ascii_ci(s, "scale") || eq_ascii_ci(s, "slider") {
            Some(ValueType::Scale)
        } else if eq_ascii_ci(s, "nps") {
            Some(ValueType::Nps)
        } else if eq_ascii_ci(s, "matrix") || eq_ascii_ci(s, "grid") {
            Some(ValueType::Matrix)
        } else {
            None
        }
    }

    /// The canonical stored name of this field type.
    pub fn as_name(&self) -> (r: &'static str)
        ensures
            r@ == spec_value_type_name(*self),
    {
        match self {
            ValueType::Text => "text",
            ValueType::Email => "email",
            ValueType::Url => "url",
            ValueType::Tel => "tel",
            ValueType::Number => "number",
            ValueType::Textarea => "textarea",
            ValueType::Select => "select",
            ValueType::MultiSelect => "multi_select",
            ValueType::Radio => "radio",
            ValueType::Checkbox => "checkbox",
            ValueType::Date => "date",
            ValueType::DateTime => "datetime",
            ValueType::Time => "time",
            ValueType::File => "file",
            ValueType::Image => "image",
            ValueType::Hidden => "hidden",
            ValueType::Heading => "heading",
            ValueType::Paragraph => "paragraph",
            ValueType::Rating => "rating",
            ValueType::Scale => "scale",
            ValueType::Nps => "nps",
            ValueType::Matrix => "matrix",
        }
    }

    /// Returns the HTML input type for this field type.
    pub fn html_input_type(&self) -> (r: &'static str)
        ensures
            (*self == ValueType::Text || *self == ValueType::Hidden) ==> r@ == "text"@,
            *self == ValueType::Email ==> r@ == "email"@,
            *self == ValueType::Url ==> r@ == "url"@,
            *self == ValueType::Tel ==> r@ == "tel"@,
            (*self == ValueType::Number || *self == ValueType::Rating || *self == ValueType::Scale
                || *self == ValueType::Nps) ==> r@ == "number"@,
            *self == ValueType::Date ==> r@ == "date"@,
            *self == ValueType::DateTime ==> r@ == "datetime-local"@,
            *self == ValueType::Time ==> r@ == "time"@,
            (*self == ValueType::File || *self == ValueType::Image) ==> r@ == "file"@,
            *self == ValueType::Checkbox ==> r@ == "checkbox"@,
            *self == ValueType::Radio ==> r@ == "radio"@,
            (*self == ValueType::Textarea || *self == ValueType::Select || *self
                == ValueType::MultiSelect || *self == ValueType::Heading || *self
                == ValueType::Paragraph || *self == ValueType::Matrix) ==> r@ == ""@,
    {
        match self {
            ValueType::Text | ValueType::Hidden => "text",
            ValueType::Email => "email",
            ValueType::Url => "url",
            ValueType::Tel => "tel",
            ValueType::Number | ValueType::Rating | ValueType::Scale | ValueType::Nps => "number",
            ValueType::Date => "date",
            ValueType::DateTime => "datetime-local",
            ValueType::Time => "time",
            ValueType::File | ValueType::Image => "file",
            ValueType::Checkbox => "checkbox",
            ValueType::Radio => "radio",
            ValueType::Textarea
            | ValueType::Select
            | ValueType::MultiSelect
            | ValueType::Heading
            | ValueType::Paragraph
            | ValueType::Matrix => "",
        }
    }

    /// Returns true if this field type requires options (select, radio,
    /// etc.).
    pub fn requires_options(&self) -> (r: bool)
        ensures
            r == (*self == ValueType::Select || *self == ValueType::MultiSelect || *self
                == ValueType::Radio || *self == ValueType::Matrix),
    {
        match self {
            ValueType::Select | ValueType::MultiSelect | ValueType::Radio | ValueType::Matrix =>
                true,
            _ => false,
        }
    }

    /// Returns true if this field type is display-only (no input value).
    pub fn is_display_only(&self) -> (r: bool)
        ensures
            r == (*self == ValueType::Heading || *self == ValueType::Paragraph),
    {
        match self {
            ValueType::Heading | ValueType::Paragraph => true,
            _ => false,
        }
    }

    /// Returns true if this field type accepts file uploads.
    pub fn is_file_type(&self) -> (r: bool)
        ensures
            r == (*self == ValueType::File || *self == ValueType::Image),
    {
        match self {
            ValueType::File | ValueType::Image => true,
            _ => false,
        }
    }

    /// Returns true if this field type accepts multiple values.
    pub fn is_multi_value(&self) -> (r: bool)
        ensures
            r == (*self == ValueType::MultiSelect || *self == ValueType::Checkbox || *self
                == ValueType::Matrix),
    {
        match self {
            ValueType::MultiSelect | ValueType::Checkbox | ValueType::Matrix => true,
            _ => false,
        }
    }
}

/// One form input definition.
#[derive(Debug)]
pub struct Field {
    /// Identifier of the field; submitted data may be keyed by it.
    pub id: String,
    /// Name of the field, unique within its step; submitted data falls
    /// back to it.
    pub name: String,
    /// Display label, interpolated into error messages.
    pub label: String,
    /// The field's value type.
    pub value_type: ValueType,
    /// Whether a value must be supplied.
    pub required: bool,
    /// The field's validation rules.
    pub validation: ValidationRules,
    /// Visibility condition; an absent condition means always visible.
    pub condition: Option<ConditionRule>,
}

impl Field {
    /// The field's value type.
    pub fn value_type(&self) -> (r: ValueType)
        ensures
            r == self.value_type,
    {
        self.value_type
    }

    /// The field's validation rules.
    pub fn validation(&self) -> (r: &ValidationRules)
        ensures
            *r == self.validation,
    {
        &self.validation
    }

    /// The field's visibility condition, if it has one.
    pub fn condition(&self) -> (r: Option<&ConditionRule>)
        ensures
            match r {
                Some(c) => self.condition == Some(*c),
                None => self.condition is None,
            },
    {
        self.condition.as_ref()
    }

    /// Returns true if the field is display-only and takes no input.
    pub fn is_display_only(&self) -> (r: bool)
        ensures
            r == (self.value_type == ValueType::Heading || self.value_type
                == ValueType::Paragraph),
    {
        self.value_type.is_display_only()
    }
}

/// An ordered group of fields, optionally itself conditionally visible.
#[derive(Debug)]
pub struct Step {
    /// Identifier of the step; grouped errors are keyed by it.
    pub id: String,
    /// Display name of the step.
    pub name: String,
    /// Visibility condition; an absent condition means always visible.
    pub condition: Option<ConditionRule>,
}

impl Step {
    /// The step's visibility condition, if it has one.
    pub fn condition_rule(&self) -> (r: Option<&ConditionRule>)
        ensures
            match r {
                Some(c) => self.condition == Some(*c),
                None => self.condition is None,
            },
    {
        self.condition.as_ref()
    }
}

} // verus!
