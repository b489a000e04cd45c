//! A schema-driven form engine: visibility conditions over submitted values,
//! and per-field validation with structured, step-grouped error reports.
//!
//! Forms are described as data: ordered steps, each holding ordered field
//! definitions. A field carries a value type, a required flag, a set of
//! optional validation rules, and an optional visibility condition. A
//! submission is a map from field names to values. The engine decides which
//! steps and fields are visible, checks each visible value against its
//! field's rules, and returns the failures as error messages grouped by
//! field (and, for multi-step forms, by step).

pub mod condition;
pub mod errors;
pub mod field;
pub mod html;
pub mod num;
pub mod request_id;
pub mod rules;
pub mod text;
pub mod validate;
pub mod value;
pub mod wire;
