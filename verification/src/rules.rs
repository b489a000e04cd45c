//! Validation rules for form fields.
//!
//! A flat record of optional constraints: string length bounds, inclusive
//! numeric bounds, a regular-expression pattern with an optional custom
//! message, and selection-count bounds for arrays. A rule that is absent
//! is simply not checked.

use vstd::prelude::*;
use crate::num::Number;

verus! {

/// Validation rules for a form field, applied during submission
/// validation.
#[derive(Debug, Clone)]
pub struct ValidationRules {
    /// Minimum string length, in characters.
    pub min_length: Option<usize>,
    /// Maximum string length, in characters.
    pub max_length: Option<usize>,
    /// Minimum numeric value, inclusive.
    pub min: Option<Number>,
    /// Maximum numeric value, inclusive.
    pub max: Option<Number>,
    /// Regex pattern for validation.
    pub pattern: Option<String>,
    /// Custom error message for pattern validation.
    pub pattern_message: Option<String>,
    /// Minimum number of selections (for multi-select).
    pub min_selections: Option<usize>,
    /// Maximum number of selections (for multi-select).
    pub max_selections: Option<usize>,
}

/// True when no constraint is set at all. A custom pattern message is
/// wording, not a constraint: a rule set holding only one still counts
/// as empty.
pub open spec fn spec_rules_empty(r: ValidationRules) -> bool {
    &&& r.min_length is None
    &&& r.max_length is None
    &&& r.min is None
    &&& r.max is None
    &&& r.pattern is None
    &&& r.min_selections is None
    &&& r.max_selections is None
}

impl ValidationRules {
    /// Creates a new empty `ValidationRules`.
    pub fn new() -> (r: ValidationRules)
        ensures
            spec_rules_empty(r),
    {
        ValidationRules {
            min_length: None,
            max_length: None,
            min: None,
            max: None,
            pattern: None,
            pattern_message: None,
            min_selections: None,
            max_selections: None,
        }
    }

    /// Sets the minimum string length.
    pub fn min_length(self, len: usize) -> (r: ValidationRules)
        ensures
            r == (ValidationRules { min_length: Some(len), ..self }),
    {
        ValidationRules { min_length: Some(len), ..self }
    }

    /// Sets the maximum string length.
    pub fn max_length(self, len: usize) -> (r: ValidationRules)
        ensures
            r == (ValidationRules { max_length: Some(len), ..self }),
    {
        ValidationRules { max_length: Some(len), ..self }
    }

    /// Sets the minimum numeric value.
    pub fn min(self, value: Number) -> (r: ValidationRules)
        ensures
            r == (ValidationRules { min: Some(value), ..self }),
    {
        ValidationRules { min: Some(value), ..self }
    }

    /// Sets the maximum numeric value.
    pub fn max(self, value: Number) -> (r: ValidationRules)
        ensures
            r == (ValidationRules { max: Some(value), ..self }),
    {
        ValidationRules { max: Some(value), ..self }
    }

    /// Sets the regex pattern.
    pub fn pattern(self, pattern: String) -> (r: ValidationRules)
        ensures
            r == (ValidationRules { pattern: Some(pattern), ..self }),
    {
        ValidationRules { pattern: Some(pattern), ..self }
    }

    /// Sets the pattern error message.
    pub fn pattern_message(self, message: String) -> (r: ValidationRules)
        ensures
            r == (ValidationRules { pattern_message: Some(message), ..self }),
    {
        ValidationRules { pattern_message: Some(message), ..self }
    }

    /// Sets the minimum number of selections.
    pub fn min_selections(self, n: usize) -> (r: ValidationRules)
        ensures
            r == (ValidationRules { min_selections: Some(n), ..self }),
    {
        ValidationRules { min_selections: Some(n), ..self }
    }

    /// Sets the maximum number of selections.
    pub fn max_selections(self, n: usize) -> (r: ValidationRules)
        ensures
            r == (ValidationRules { max_selections: Some(n), ..self }),
    {
        ValidationRules { max_selections: Some(n), ..self }
    }

    /// Returns true if no validation rules are set; a pattern message on
    /// its own does not count.
    pub fn is_empty(&self) -> (r: bool)
        ensures
            r == spec_rules_empty(*self),
    {
        self.min_length.is_none() && self.max_length.is_none() && self.min.is_none()
            && self.max.is_none() && self.pattern.is_none() && self.min_selections.is_none()
            && self.max_selections.is_none()
    }
}

} // verus!
