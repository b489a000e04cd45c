//! Form validation engine.
//!
//! One field's value is checked against its required flag, its value
//! type's format, and its rule set, producing an ordered list of
//! human-readable error messages. Submission-level validators walk a
//! form's fields (and, for multi-step forms, its steps), skip what a
//! condition hides, and aggregate the messages by field or by step and
//! field.

use vstd::prelude::*;
use vstd::string::*;
use crate::condition::spec_eval;
use crate::errors::{
    merge2, spec_err_get, spec_err_wf, spec_step_field_get, spec_step_get, spec_steps_wf,
    StepValidationErrors, ValidationErrors,
};
use crate::field::{Field, Step, ValueType};
use crate::num::{number_str, Number};
use crate::rules::ValidationRules;
use crate::text::{dec_digits, is_digit, uint_to_string};
use crate::value::{
    spec_as_number, spec_as_str, spec_get, spec_is_empty, FieldValue, ValueMap,
};

verus! {

/// Whether a pattern is accepted by the regex engine: a function of the
/// pattern alone.
pub uninterp spec fn pattern_compiles(p: Seq<char>) -> bool;

/// Whether a pattern matches a text: a function of the pattern and the
/// text alone.
pub uninterp spec fn pattern_matches(p: Seq<char>, s: Seq<char>) -> bool;

/// Relies on regex::Regex::new and regex::Regex::is_match: whether the
/// pattern compiles, and whether the compiled pattern matches the text,
/// depend on the pattern and the text alone.
#[verifier::external_body]
fn regex_is_match(pattern: &str, text: &str) -> (r: Option<bool>)
    ensures
        r is Some <==> pattern_compiles(pattern@),
        r matches Some(b) ==> b == pattern_matches(pattern@, text@),
{
    match regex::Regex::new(pattern) {
        Ok(re) => Some(re.is_match(text)),
        Err(_) => None,
    }
}

/// White space, as the format checks count it: the Unicode white-space
/// characters.
pub open spec fn is_space(c: char) -> bool {
    ('\u{9}' <= c && c <= '\u{d}') || c == ' ' || c == '\u{85}' || c == '\u{a0}' || c == '\u{1680}'
        || ('\u{2000}' <= c && c <= '\u{200a}') || c == '\u{2028}' || c == '\u{2029}' || c
        == '\u{202f}' || c == '\u{205f}' || c == '\u{3000}'
}

/// A well-formed email address: text before one `@`, text after it
/// holding a dot with text on both sides, and no whitespace or second
/// `@` anywhere.
pub open spec fn email_ok(s: Seq<char>) -> bool {
    exists|a: int, d: int|
        {
            &&& 0 < a && a + 2 <= d && d + 1 < s.len()
            &&& s[a] == '@' && s[d] == '.'
            &&& forall|i: int|
                0 <= i < s.len() && i != a ==> s[i] != '@' && !is_space(#[trigger] s[i])
        }
}

/// A well-formed URL: the scheme is `http://` or `https://`.
pub open spec fn url_ok(s: Seq<char>) -> bool {
    (s.len() >= 7 && s.subrange(0, 7) == "http://"@) || (s.len() >= 8 && s.subrange(0, 8)
        == "https://"@)
}

/// A character a phone number may hold.
pub open spec fn phone_char(c: char) -> bool {
    is_digit(c) || is_space(c) || c == '-' || c == '(' || c == ')' || c == '+'
}

/// How many digit characters `s` holds.
pub open spec fn digit_count(s: Seq<char>) -> int
    decreases s.len(),
{
    if s.len() == 0 {
        0
    } else {
        digit_count(s.drop_last()) + (if is_digit(s.last()) {
            1int
        } else {
            0int
        })
    }
}

/// A well-formed phone number: only digits, whitespace, dashes,
/// parentheses and plus signs, with at least seven digits.
pub open spec fn phone_ok(s: Seq<char>) -> bool {
    s.len() > 0 && (forall|i: int| 0 <= i < s.len() ==> phone_char(#[trigger] s[i]))
        && digit_count(s) >= 7
}

/// A well-formed date: exactly `YYYY-MM-DD` by shape (not calendar
/// validity).
pub open spec fn date_ok(s: Seq<char>) -> bool {
    &&& s.len() == 10
    &&& is_digit(s[0]) && is_digit(s[1]) && is_digit(s[2]) && is_digit(s[3])
    &&& s[4] == '-'
    &&& is_digit(s[5]) && is_digit(s[6])
    &&& s[7] == '-'
    &&& is_digit(s[8]) && is_digit(s[9])
}

/// A well-formed time: `HH:MM`, with seconds optional.
pub open spec fn time_ok(s: Seq<char>) -> bool {
    &&& s.len() == 5 || s.len() == 8
    &&& is_digit(s[0]) && is_digit(s[1])
    &&& s[2] == ':'
    &&& is_digit(s[3]) && is_digit(s[4])
    &&& s.len() == 8 ==> s[5] == ':' && is_digit(s[6]) && is_digit(s[7])
}

/// A well-formed date and time: a date, `T` or a space, then `HH:MM`;
/// what follows is not constrained.
pub open spec fn datetime_ok(s: Seq<char>) -> bool {
    &&& s.len() >= 16
    &&& date_ok(s.subrange(0, 10))
    &&& s[10] == 'T' || s[10] == ' '
    &&& is_digit(s[11]) && is_digit(s[12])
    &&& s[13] == ':'
    &&& is_digit(s[14]) && is_digit(s[15])
}

/// True when the character is an ASCII digit.
fn is_digit_exec(c: char) -> (r: bool)
    ensures
        r == is_digit(c),
{
    let u = c as u32;
    48 <= u && u <= 57
}

/// True when the character is white space.
fn is_space_exec(c: char) -> (r: bool)
    ensures
        r == is_space(c),
{
    let u = c as u32;
    (9 <= u && u <= 13) || u == 32 || u == 0x85 || u == 0xa0 || u == 0x1680 || (0x2000 <= u && u
        <= 0x200a) || u == 0x2028 || u == 0x2029 || u == 0x202f || u == 0x205f || u == 0x3000
}

/// Checks if a string is a well-formed email address.
#[verifier::loop_isolation(false)]
pub fn is_valid_email(s: &str) -> (r: bool)
    ensures
        r == email_ok(s@),
{
    let len = s.unicode_len();
    // One pass: find the single at sign, reject whitespace.
    let mut i: usize = 0;
    let mut at_count: usize = 0;
    let mut at_pos: usize = 0;
    while i < len
        invariant
            0 <= i <= len,
            at_count > 0 ==> at_pos < i && s@[at_pos as int] == '@',
            at_count == 0 ==> forall|j: int| 0 <= j < i ==> s@[j] != '@',
            at_count == 1 ==> forall|j: int| 0 <= j < i && j != at_pos ==> s@[j] != '@',
            forall|j: int| 0 <= j < i ==> !is_space(#[trigger] s@[j]),
            at_count <= 1,
        decreases len - i,
    {
        let c = s.get_char(i);
        if is_space_exec(c) {
            proof {
                assert(forall|a: int, d: int|
                    !(0 < a && a + 2 <= d && d + 1 < s@.len() && s@[a] == '@' && s@[d] == '.'
                        && (forall|j: int|
                        0 <= j < s@.len() && j != a ==> s@[j] != '@' && !is_space(
                            #[trigger] s@[j],
                        )))) by {
                    assert(is_space(s@[i as int]));
                }
            }
            return false;
        }
        if c == '@' {
            if at_count >= 1 {
                proof {
                    assert forall|a: int, d: int|
                        !(0 < a && a + 2 <= d && d + 1 < s@.len() && s@[a] == '@' && s@[d] == '.'
                            && (forall|j: int|
                            0 <= j < s@.len() && j != a ==> s@[j] != '@' && !is_space(
                                #[trigger] s@[j],
                            ))) by {
                        if a != at_pos {
                            assert(s@[at_pos as int] == '@');
                        } else {
                            assert(s@[i as int] == '@');
                        }
                    }
                }
                return false;
            }
            at_pos = i;
            at_count = 1;
        }
        i = i + 1;
    }
    if at_count == 0 {
        proof {
            assert forall|a: int, d: int|
                !(0 < a && a + 2 <= d && d + 1 < s@.len() && s@[a] == '@' && s@[d] == '.' && (
                forall|j: int|
                    0 <= j < s@.len() && j != a ==> s@[j] != '@' && !is_space(
                        #[trigger] s@[j],
                    ))) by {
                if 0 < a && a < s@.len() {
                    assert(s@[a] != '@');
                }
            }
        }
        return false;
    }
    if at_pos == 0 {
        proof {
            assert forall|a: int, d: int|
                !(0 < a && a + 2 <= d && d + 1 < s@.len() && s@[a] == '@' && s@[d] == '.' && (
                forall|j: int|
                    0 <= j < s@.len() && j != a ==> s@[j] != '@' && !is_space(
                        #[trigger] s@[j],
                    ))) by {
                if 0 < a && a < s@.len() {
                    assert(s@[a] != '@');
                }
            }
        }
        return false;
    }
    if len - at_pos < 4 {
        proof {
            assert forall|a: int, dd: int|
                !(0 < a && a + 2 <= dd && dd + 1 < s@.len() && s@[a] == '@' && s@[dd] == '.' && (
                forall|j: int|
                    0 <= j < s@.len() && j != a ==> s@[j] != '@' && !is_space(#[trigger] s@[j])))
                by {
                if 0 < a && a < s@.len() && s@[a] == '@' && a != at_pos {
                    assert(s@[at_pos as int] == '@');
                }
            }
        }
        return false;
    }
    // Find a dot with text between it and the at sign, and text after.
    let mut d: usize = at_pos + 2;
    while d < len - 1
        invariant
            at_pos + 2 <= d <= len,
            forall|j: int| at_pos + 2 <= j < d ==> s@[j] != '.',
        decreases len - d,
    {
        if s.get_char(d) == '.' {
            proof {
                let a = at_pos as int;
                let dd = d as int;
                assert(s@[a] == '@');
                assert(s@[dd] == '.');
                assert(forall|j: int|
                    0 <= j < s@.len() && j != a ==> s@[j] != '@' && !is_space(#[trigger] s@[j]));
                assert(email_ok(s@));
            }
            return true;
        }
        d = d + 1;
    }
    proof {
        assert forall|a: int, dd: int|
            !(0 < a && a + 2 <= dd && dd + 1 < s@.len() && s@[a] == '@' && s@[dd] == '.' && (
            forall|j: int|
                0 <= j < s@.len() && j != a ==> s@[j] != '@' && !is_space(#[trigger] s@[j])))
            by {
            if 0 < a && a < s@.len() && s@[a] == '@' && a != at_pos {
                assert(s@[at_pos as int] == '@');
            }
        }
    }
    false
}

/// Checks if a string is a well-formed URL.
#[verifier::loop_isolation(false)]
pub fn is_valid_url(s: &str) -> (r: bool)
    ensures
        r == url_ok(s@),
{
    proof {
        reveal_strlit("http://");
        reveal_strlit("https://");
    }
    let len = s.unicode_len();
    if len >= 7 && s.get_char(0) == 'h' && s.get_char(1) == 't' && s.get_char(2) == 't'
        && s.get_char(3) == 'p' {
        if s.get_char(4) == ':' && s.get_char(5) == '/' && s.get_char(6) == '/' {
            proof {
                assert(s@.subrange(0, 7) =~= "http://"@);
            }
            return true;
        }
        if len >= 8 && s.get_char(4) == 's' && s.get_char(5) == ':' && s.get_char(6) == '/'
            && s.get_char(7) == '/' {
            proof {
                assert(s@.subrange(0, 8) =~= "https://"@);
            }
            return true;
        }
    }
    proof {
        if s@.len() >= 7 && s@.subrange(0, 7) == "http://"@ {
            assert(s@[0] == 'h' && s@[1] == 't' && s@[2] == 't' && s@[3] == 'p' && s@[4] == ':'
                && s@[5] == '/' && s@[6] == '/') by {
                assert(forall|j: int| 0 <= j < 7 ==> s@.subrange(0, 7)[j] == s@[j]);
            }
        }
        if s@.len() >= 8 && s@.subrange(0, 8) == "https://"@ {
            assert(s@[0] == 'h' && s@[1] == 't' && s@[2] == 't' && s@[3] == 'p' && s@[4] == 's'
                && s@[5] == ':' && s@[6] == '/' && s@[7] == '/') by {
                assert(forall|j: int| 0 <= j < 8 ==> s@.subrange(0, 8)[j] == s@[j]);
            }
        }
    }
    false
}

/// Checks if a string is a well-formed phone number.
#[verifier::loop_isolation(false)]
pub fn is_valid_phone(s: &str) -> (r: bool)
    ensures
        r == phone_ok(s@),
{
    let len = s.unicode_len();
    if len == 0 {
        return false;
    }
    let mut i: usize = 0;
    let mut digits: usize = 0;
    while i < len
        invariant
            0 <= i <= len,
            forall|j: int| 0 <= j < i ==> phone_char(#[trigger] s@[j]),
            digits == digit_count(s@.subrange(0, i as int)),
            digits <= i,
        decreases len - i,
    {
        let c = s.get_char(i);
        let d = is_digit_exec(c);
        if !d && !(is_space_exec(c) || c == '-' || c == '(' || c == ')' || c == '+') {
            proof {
                assert(!phone_char(s@[i as int]));
            }
            return false;
        }
        proof {
            assert(s@.subrange(0, i + 1).drop_last() =~= s@.subrange(0, i as int));
            assert(s@.subrange(0, i + 1).last() == s@[i as int]);
        }
        if d {
            digits = digits + 1;
        }
        i = i + 1;
    }
    proof {
        assert(s@.subrange(0, len as int) =~= s@);
    }
    digits >= 7
}

/// Checks if a string is a well-formed date (`YYYY-MM-DD` by shape).
pub fn is_valid_date(s: &str) -> (r: bool)
    ensures
        r == date_ok(s@),
{
    let len = s.unicode_len();
    if len != 10 {
        return false;
    }
    is_digit_exec(s.get_char(0)) && is_digit_exec(s.get_char(1)) && is_digit_exec(s.get_char(2))
        && is_digit_exec(s.get_char(3)) && s.get_char(4) == '-' && is_digit_exec(s.get_char(5))
        && is_digit_exec(s.get_char(6)) && s.get_char(7) == '-' && is_digit_exec(s.get_char(8))
        && is_digit_exec(s.get_char(9))
}

/// Checks if a string is a well-formed time (`HH:MM`, seconds optional).
pub fn is_valid_time(s: &str) -> (r: bool)
    ensures
        r == time_ok(s@),
{
    let len = s.unicode_len();
    if len != 5 && len != 8 {
        return false;
    }
    let head = is_digit_exec(s.get_char(0)) && is_digit_exec(s.get_char(1)) && s.get_char(2) == ':'
        && is_digit_exec(s.get_char(3)) && is_digit_exec(s.get_char(4));
    if len == 8 {
        head && s.get_char(5) == ':' && is_digit_exec(s.get_char(6)) && is_digit_exec(
            s.get_char(7),
        )
    } else {
        head
    }
}

/// The message for a missing required field.
pub open spec fn msg_required(label: Seq<char>) -> Seq<char> {
    label + " is required"@
}

/// The message for a malformed email address.
pub open spec fn msg_email(label: Seq<char>) -> Seq<char> {
    label + " must be a valid email address"@
}

/// The message for a malformed URL.
pub open spec fn msg_url(label: Seq<char>) -> Seq<char> {
    label + " must be a valid URL"@
}

/// The message for a value that does not read as a number.
pub open spec fn msg_number(label: Seq<char>) -> Seq<char> {
    label + " must be a number"@
}

/// The message for a malformed phone number.
pub open spec fn msg_phone(label: Seq<char>) -> Seq<char> {
    label + " must be a valid phone number"@
}

/// The message for a malformed date.
pub open spec fn msg_date(label: Seq<char>) -> Seq<char> {
    label + " must be a valid date (YYYY-MM-DD)"@
}

/// The message for a malformed date and time.
pub open spec fn msg_datetime(label: Seq<char>) -> Seq<char> {
    label + " must be a valid date and time"@
}

/// The message for a malformed time.
pub open spec fn msg_time(label: Seq<char>) -> Seq<char> {
    label + " must be a valid time (HH:MM)"@
}

/// The message for text shorter than the minimum length.
pub open spec fn msg_min_length(label: Seq<char>, min: nat) -> Seq<char> {
    label + " must be at least "@ + dec_digits(min) + " characters"@
}

/// The message for text longer than the maximum length.
pub open spec fn msg_max_length(label: Seq<char>, max: nat) -> Seq<char> {
    label + " must be at most "@ + dec_digits(max) + " characters"@
}

/// The message for a failed pattern check: the rule's own message, or a
/// generic one.
pub open spec fn msg_pattern(label: Seq<char>, custom: Option<Seq<char>>) -> Seq<char> {
    label + ": "@ + (match custom {
        Some(m) => m,
        None => "Invalid format"@,
    })
}

/// The message for a number below the minimum.
pub open spec fn msg_min(label: Seq<char>, min_raw: int) -> Seq<char> {
    label + " must be at least "@ + number_str(min_raw)
}

/// The message for a number above the maximum.
pub open spec fn msg_max(label: Seq<char>, max_raw: int) -> Seq<char> {
    label + " must be at most "@ + number_str(max_raw)
}

/// The message for too few selections.
pub open spec fn msg_min_selections(label: Seq<char>, min: nat) -> Seq<char> {
    label + " requires at least "@ + dec_digits(min) + " selections"@
}

/// The message for too many selections.
pub open spec fn msg_max_selections(label: Seq<char>, max: nat) -> Seq<char> {
    label + " allows at most "@ + dec_digits(max) + " selections"@
}

/// The type-specific errors for one nonempty value: format checks for
/// emails, URLs, phone numbers, dates and times on text values, and a
/// numeric-reading check for the numeric types.
pub open spec fn spec_validate_by_type(vt: ValueType, v: FieldValue, label: Seq<char>) -> Seq<
    Seq<char>,
> {
    match vt {
        ValueType::Email => match spec_as_str(v) {
            Some(s) => if email_ok(s) {
                Seq::empty()
            } else {
                seq![msg_email(label)]
            },
            None => Seq::empty(),
        },
        ValueType::Url => match spec_as_str(v) {
            Some(s) => if url_ok(s) {
                Seq::empty()
            } else {
                seq![msg_url(label)]
            },
            None => Seq::empty(),
        },
        ValueType::Number | ValueType::Rating | ValueType::Scale | ValueType::Nps => if
        spec_as_number(v) is None {
            seq![msg_number(label)]
        } else {
            Seq::empty()
        },
        ValueType::Tel => match spec_as_str(v) {
            Some(s) => if phone_ok(s) {
                Seq::empty()
            } else {
                seq![msg_phone(label)]
            },
            None => Seq::empty(),
        },
        ValueType::Date => match spec_as_str(v) {
            Some(s) => if date_ok(s) {
                Seq::empty()
            } else {
                seq![msg_date(label)]
            },
            None => Seq::empty(),
        },
        ValueType::DateTime => match spec_as_str(v) {
            Some(s) => if datetime_ok(s) {
                Seq::empty()
            } else {
                seq![msg_datetime(label)]
            },
            None => Seq::empty(),
        },
        ValueType::Time => match spec_as_str(v) {
            Some(s) => if time_ok(s) {
                Seq::empty()
            } else {
                seq![msg_time(label)]
            },
            None => Seq::empty(),
        },
        _ => Seq::empty(),
    }
}

/// The rule errors a text value earns: length bounds in characters, and
/// the pattern check. A pattern the regex engine rejects is skipped.
pub open spec fn spec_text_rule_errors(r: ValidationRules, s: Seq<char>, label: Seq<char>) -> Seq<
    Seq<char>,
> {
    (match r.min_length {
        Some(m) => if s.len() < m {
            seq![msg_min_length(label, m as nat)]
        } else {
            Seq::empty()
        },
        None => Seq::empty(),
    }) + (match r.max_length {
        Some(m) => if s.len() > m {
            seq![msg_max_length(label, m as nat)]
        } else {
            Seq::empty()
        },
        None => Seq::empty(),
    }) + (match r.pattern {
        Some(p) => if pattern_compiles(p@) && !pattern_matches(p@, s) {
            seq![
                msg_pattern(
                    label,
                    match r.pattern_message {
                        Some(m) => Some(m@),
                        None => None,
                    },
                ),
            ]
        } else {
            Seq::empty()
        },
        None => Seq::empty(),
    })
}

/// The rule errors a numeric reading earns: the inclusive bounds.
pub open spec fn spec_num_rule_errors(r: ValidationRules, x: int, label: Seq<char>) -> Seq<
    Seq<char>,
> {
    (match r.min {
        Some(m) => if x < m.raw {
            seq![msg_min(label, m.raw as int)]
        } else {
            Seq::empty()
        },
        None => Seq::empty(),
    }) + (match r.max {
        Some(m) => if x > m.raw {
            seq![msg_max(label, m.raw as int)]
        } else {
            Seq::empty()
        },
        None => Seq::empty(),
    })
}

/// The rule errors an array value earns: the selection-count bounds.
pub open spec fn spec_sel_rule_errors(r: ValidationRules, n: int, label: Seq<char>) -> Seq<
    Seq<char>,
> {
    (match r.min_selections {
        Some(m) => if n < m {
            seq![msg_min_selections(label, m as nat)]
        } else {
            Seq::empty()
        },
        None => Seq::empty(),
    }) + (match r.max_selections {
        Some(m) => if n > m {
            seq![msg_max_selections(label, m as nat)]
        } else {
            Seq::empty()
        },
        None => Seq::empty(),
    })
}

/// The rule-based errors for one nonempty value: text rules where the
/// value is text, numeric bounds where it reads as a number, selection
/// bounds where it is an array, all applicable ones appended in that
/// order.
pub open spec fn spec_validate_by_rules(r: ValidationRules, v: FieldValue, label: Seq<char>) -> Seq<
    Seq<char>,
> {
    (match spec_as_str(v) {
        Some(s) => spec_text_rule_errors(r, s, label),
        None => Seq::empty(),
    }) + (match spec_as_number(v) {
        Some(x) => spec_num_rule_errors(r, x, label),
        None => Seq::empty(),
    }) + (match v {
        FieldValue::Array(a) => spec_sel_rule_errors(r, a@.len() as int, label),
        _ => Seq::empty(),
    })
}

/// The full error list for one field and one optional submitted value:
/// a lone required-field message when a required field is empty; nothing
/// when an optional field is empty; otherwise the type-specific errors
/// followed by the rule-based errors.
pub open spec fn spec_validate_field(f: Field, value: Option<FieldValue>) -> Seq<Seq<char>> {
    let empty_value = match value {
        None => true,
        Some(v) => spec_is_empty(v),
    };
    if f.required && empty_value {
        seq![msg_required(f.label@)]
    } else if empty_value {
        Seq::empty()
    } else {
        spec_validate_by_type(f.value_type, value->Some_0, f.label@) + spec_validate_by_rules(
            f.validation,
            value->Some_0,
            f.label@,
        )
    }
}

/// Builds `label` followed by a fixed tail.
fn message(label: &str, tail: &str) -> (r: String)
    ensures
        r@ == label@ + tail@,
{
    label.to_owned().concat(tail)
}

/// Builds `label`, a fixed middle, a number, and a fixed tail.
fn message_counted(label: &str, middle: &str, n: usize, tail: &str) -> (r: String)
    ensures
        r@ == label@ + middle@ + dec_digits(n as nat) + tail@,
{
    let num = uint_to_string(n as u128);
    label.to_owned().concat(middle).concat(num.as_str()).concat(tail)
}

/// Validates a value based on its type.
fn validate_by_type(value_type: ValueType, value: &FieldValue, label: &str) -> (r: Vec<String>)
    ensures
        r.deep_view() == spec_validate_by_type(value_type, *value, label@),
{
    let mut errors: Vec<String> = Vec::new();
    proof {
        assert(errors.deep_view() =~= Seq::<Seq<char>>::empty());
    }
    match value_type {
        ValueType::Email => {
            match value.as_str() {
                Some(s) => {
                    if !is_valid_email(s) {
                        errors.push(message(label, " must be a valid email address"));
                        proof {
                            assert(errors.deep_view() =~= seq![msg_email(label@)]);
                        }
                    }
                },
                None => (),
            }
        },
        ValueType::Url => {
            match value.as_str() {
                Some(s) => {
                    if !is_valid_url(s) {
                        errors.push(message(label, " must be a valid URL"));
                        proof {
                            assert(errors.deep_view() =~= seq![msg_url(label@)]);
                        }
                    }
                },
                None => (),
            }
        },
        ValueType::Number | ValueType::Rating | ValueType::Scale | ValueType::Nps => {
            if value.as_number().is_none() {
                errors.push(message(label, " must be a number"));
                proof {
                    assert(errors.deep_view() =~= seq![msg_number(label@)]);
                }
            }
        },
        ValueType::Tel => {
            match value.as_str() {
                Some(s) => {
                    if !is_valid_phone(s) {
                        errors.push(message(label, " must be a valid phone number"));
                        proof {
                            assert(errors.deep_view() =~= seq![msg_phone(label@)]);
                        }
                    }
                },
                None => (),
            }
        },
        ValueType::Date => {
            match value.as_str() {
                Some(s) => {
                    if !is_valid_date(s) {
                        errors.push(message(label, " must be a valid date (YYYY-MM-DD)"));
                        proof {
                            assert(errors.deep_view() =~= seq![msg_date(label@)]);
                        }
                    }
                },
                None => (),
            }
        },
        ValueType::DateTime => {
            match value.as_str() {
                Some(s) => {
                    if !is_valid_datetime(s) {
                        errors.push(message(label, " must be a valid date and time"));
                        proof {
                            assert(errors.deep_view() =~= seq![msg_datetime(label@)]);
                        }
                    }
                },
                None => (),
            }
        },
        ValueType::Time => {
            match value.as_str() {
                Some(s) => {
                    if !is_valid_time(s) {
                        errors.push(message(label, " must be a valid time (HH:MM)"));
                        proof {
                            assert(errors.deep_view() =~= seq![msg_time(label@)]);
                        }
                    }
                },
                None => (),
            }
        },
        _ => (),
    }
    errors
}

/// Validates a value based on validation rules.
fn validate_by_rules(rules: &ValidationRules, value: &FieldValue, label: &str) -> (r: Vec<String>)
    ensures
        r.deep_view() == spec_validate_by_rules(*rules, *value, label@),
{
    let mut errors: Vec<String> = Vec::new();
    let ghost mut done: Seq<Seq<char>> = Seq::empty();
    proof {
        assert(errors.deep_view() =~= done);
    }
    // String length and pattern validation.
    match value.as_str() {
        Some(s) => {
            let n = s.unicode_len();
            match rules.min_length {
                Some(m) => {
                    if n < m {
                        errors.push(message_counted(label, " must be at least ", m, " characters"));
                    }
                },
                None => (),
            }
            match rules.max_length {
                Some(m) => {
                    if n > m {
                        errors.push(message_counted(label, " must be at most ", m, " characters"));
                    }
                },
                None => (),
            }
            match &rules.pattern {
                Some(p) => {
                    match regex_is_match(p.as_str(), s) {
                        Some(false) => {
                            let m = match &rules.pattern_message {
                                Some(m) => message(label, ": ").concat(m.as_str()),
                                None => message(label, ": ").concat("Invalid format"),
                            };
                            errors.push(m);
                        },
                        _ => (),
                    }
                },
                None => (),
            }
            proof {
                done = spec_text_rule_errors(*rules, s@, label@);
                assert(errors.deep_view() =~= done);
            }
        },
        None => (),
    }
    // Numeric bounds.
    match value.as_number() {
        Some(x) => {
            match rules.min {
                Some(m) => {
                    if x.raw < m.raw {
                        let num = m.to_decimal_string();
                        errors.push(
                            message(label, " must be at least ").concat(num.as_str()),
                        );
                    }
                },
                None => (),
            }
            match rules.max {
                Some(m) => {
                    if x.raw > m.raw {
                        let num = m.to_decimal_string();
                        errors.push(message(label, " must be at most ").concat(num.as_str()));
                    }
                },
                None => (),
            }
            proof {
                done = done + spec_num_rule_errors(*rules, x.raw as int, label@);
                assert(errors.deep_view() =~= done);
            }
        },
        None => (),
    }
    // Selection counts.
    match value {
        FieldValue::Array(arr) => {
            let n = arr.len();
            match rules.min_selections {
                Some(m) => {
                    if n < m {
                        errors.push(
                            message_counted(label, " requires at least ", m, " selections"),
                        );
                    }
                },
                None => (),
            }
            match rules.max_selections {
                Some(m) => {
                    if n > m {
                        errors.push(message_counted(label, " allows at most ", m, " selections"));
                    }
                },
                None => (),
            }
            proof {
                done = done + spec_sel_rule_errors(*rules, arr@.len() as int, label@);
                assert(errors.deep_view() =~= done);
            }
        },
        _ => (),
    }
    proof {
        assert(errors.deep_view() =~= spec_validate_by_rules(*rules, *value, label@));
    }
    errors
}

/// Validates a single field value: the required check first (it alone
/// short-circuits), then the type-specific and rule-based checks.
pub fn validate_field(field: &Field, value: Option<&FieldValue>) -> (r: Vec<String>)
    ensures
        r.deep_view() == spec_validate_field(*field, crate::condition::opt_read(value)),
{
    let is_empty_value = match value {
        None => true,
        Some(v) => v.is_empty(),
    };
    if field.required && is_empty_value {
        let mut errors: Vec<String> = Vec::new();
        errors.push(message(field.label.as_str(), " is required"));
        proof {
            assert(errors.deep_view() =~= seq![msg_required(field.label@)]);
        }
        return errors;
    }
    if is_empty_value {
        let errors: Vec<String> = Vec::new();
        proof {
            assert(errors.deep_view() =~= Seq::<Seq<char>>::empty());
        }
        return errors;
    }
    let v = match value {
        Some(v) => v,
        None => unreached(),
    };
    let mut errors = validate_by_type(field.value_type, v, field.label.as_str());
    let mut more = validate_by_rules(&field.validation, v, field.label.as_str());
    let ghost pre = errors.deep_view();
    let ghost extra = more.deep_view();
    errors.append(&mut more);
    proof {
        assert(errors.deep_view() =~= pre + extra);
    }
    errors
}

/// A field is visible when it has no condition or its condition holds.
pub open spec fn spec_field_visible(f: Field, entries: Seq<(String, FieldValue)>) -> bool {
    match f.condition {
        Some(c) => spec_eval(c, entries),
        None => true,
    }
}

/// A step is visible when it has no condition or its condition holds.
pub open spec fn spec_step_visible(s: Step, entries: Seq<(String, FieldValue)>) -> bool {
    match s.condition {
        Some(c) => spec_eval(c, entries),
        None => true,
    }
}

/// The submitted value a field sees: looked up by the field's
/// identifier, falling back to its name.
pub open spec fn spec_lookup(entries: Seq<(String, FieldValue)>, f: Field) -> Option<FieldValue> {
    match spec_get(entries, f.id@) {
        Some(v) => Some(v),
        None => spec_get(entries, f.name@),
    }
}

/// The messages one field contributes to a submission's report: nothing
/// for a display-only field, nothing for a hidden field when conditions
/// are honoured, the field's own validation otherwise.
pub open spec fn spec_field_msgs(
    f: Field,
    entries: Seq<(String, FieldValue)>,
    conditions: bool,
) -> Seq<Seq<char>> {
    if f.value_type == ValueType::Heading || f.value_type == ValueType::Paragraph {
        Seq::empty()
    } else if conditions && !spec_field_visible(f, entries) {
        Seq::empty()
    } else {
        spec_validate_field(f, spec_lookup(entries, f))
    }
}

/// The messages a submission's report holds under name `k`: the
/// concatenation, in field order, of what each field named `k`
/// contributes; `None` when none contributes anything.
pub open spec fn spec_sub_get(
    fields: Seq<Field>,
    entries: Seq<(String, FieldValue)>,
    k: Seq<char>,
    conditions: bool,
) -> Option<Seq<Seq<char>>>
    decreases fields.len(),
{
    if fields.len() == 0 {
        None
    } else {
        let head = if fields[0].name@ == k && spec_field_msgs(fields[0], entries, conditions).len()
            > 0 {
            Some(spec_field_msgs(fields[0], entries, conditions))
        } else {
            None
        };
        merge2(head, spec_sub_get(fields.drop_first(), entries, k, conditions))
    }
}

/// Appending one field to the walk concatenates its messages last.
proof fn lemma_sub_get_push(
    fields: Seq<Field>,
    f: Field,
    entries: Seq<(String, FieldValue)>,
    k: Seq<char>,
    conditions: bool,
)
    ensures
        spec_sub_get(fields.push(f), entries, k, conditions) == merge2(
            spec_sub_get(fields, entries, k, conditions),
            (if f.name@ == k && spec_field_msgs(f, entries, conditions).len() > 0 {
                Some(spec_field_msgs(f, entries, conditions))
            } else {
                None
            }),
        ),
    decreases fields.len(),
{
    reveal_with_fuel(spec_sub_get, 3);
    let tail = if f.name@ == k && spec_field_msgs(f, entries, conditions).len() > 0 {
        Some(spec_field_msgs(f, entries, conditions))
    } else {
        None
    };
    if fields.len() == 0 {
        assert(fields.push(f)[0] == f);
        assert(fields.push(f).drop_first() =~= Seq::<Field>::empty());
        assert(spec_sub_get(fields.push(f), entries, k, conditions) =~~= merge2(
            spec_sub_get(fields, entries, k, conditions),
            tail,
        ));
    } else {
        assert(fields.push(f)[0] == fields[0]);
        assert(fields.push(f).drop_first() =~= fields.drop_first().push(f));
        lemma_sub_get_push(fields.drop_first(), f, entries, k, conditions);
        let head = if fields[0].name@ == k && spec_field_msgs(fields[0], entries, conditions).len()
            > 0 {
            Some(spec_field_msgs(fields[0], entries, conditions))
        } else {
            None
        };
        lemma_merge2_assoc(head, spec_sub_get(fields.drop_first(), entries, k, conditions), tail);
        assert(spec_sub_get(fields.push(f), entries, k, conditions) =~~= merge2(
            spec_sub_get(fields, entries, k, conditions),
            tail,
        ));
    }
}

/// Concatenation of optional message lists is associative.
proof fn lemma_merge2_assoc(
    a: Option<Seq<Seq<char>>>,
    b: Option<Seq<Seq<char>>>,
    c: Option<Seq<Seq<char>>>,
)
    ensures
        merge2(a, merge2(b, c)) == merge2(merge2(a, b), c),
{
    match (a, b, c) {
        (Some(x), Some(y), Some(z)) => {
            assert(x + (y + z) =~= (x + y) + z);
        },
        _ => (),
    }
    assert(merge2(a, merge2(b, c)) =~~= merge2(merge2(a, b), c));
}

/// Checks if a field is visible based on its condition.
///
/// Returns `true` if the field has no condition or if the condition
/// evaluates to true.
pub fn is_field_visible(field: &Field, data: &ValueMap) -> (r: bool)
    ensures
        r == spec_field_visible(*field, data.entries@),
{
    match field.condition() {
        Some(c) => c.evaluate(data),
        None => true,
    }
}

/// Checks if a step is visible based on its condition.
///
/// Returns `true` if the step has no condition or if the condition
/// evaluates to true.
pub fn is_step_visible(step: &Step, data: &ValueMap) -> (r: bool)
    ensures
        r == spec_step_visible(*step, data.entries@),
{
    match step.condition_rule() {
        Some(c) => c.evaluate(data),
        None => true,
    }
}

/// Walks the fields in order, validating each one that takes part, and
/// records each field's messages under its name.
#[verifier::loop_isolation(false)]
fn validate_fields(fields: &Vec<Field>, data: &ValueMap, conditions: bool) -> (r: ValidationErrors)
    ensures
        forall|k: Seq<char>| #[trigger] spec_err_get(r.errors@, k) == spec_sub_get(
            fields@,
            data.entries@,
            k,
            conditions,
        ),
        spec_err_wf(r.errors@),
{
    let mut errors = ValidationErrors::new();
    let mut i: usize = 0;
    proof {
        assert forall|k: Seq<char>| #[trigger] spec_err_get(errors.errors@, k) == spec_sub_get(
            fields@.take(0),
            data.entries@,
            k,
            conditions,
        ) by {
            assert(fields@.take(0) =~= Seq::<Field>::empty());
        }
    }
    while i < fields.len()
        invariant
            0 <= i <= fields@.len(),
            forall|k: Seq<char>| #[trigger] spec_err_get(errors.errors@, k) == spec_sub_get(
                fields@.take(i as int),
                data.entries@,
                k,
                conditions,
            ),
            spec_err_wf(errors.errors@),
        decreases fields@.len() - i,
    {
        let field = &fields[i];
        let ghost pre = errors.errors@;
        let skip = field.is_display_only() || (conditions && !is_field_visible(field, data));
        if !skip {
            let value = match data.get(field.id.as_str()) {
                Some(v) => Some(v),
                None => data.get(field.name.as_str()),
            };
            proof {
                assert(crate::condition::opt_read(value) == spec_lookup(
                    data.entries@,
                    fields@[i as int],
                ));
            }
            let msgs = validate_field(field, value);
            errors.add_list(field.name.as_str(), &msgs);
            proof {
                assert(msgs.deep_view() == spec_field_msgs(
                    fields@[i as int],
                    data.entries@,
                    conditions,
                ));
            }
        }
        proof {
            assert(fields@.take(i + 1) =~= fields@.take(i as int).push(fields@[i as int]));
            assert forall|k: Seq<char>| #[trigger] spec_err_get(errors.errors@, k) == spec_sub_get(
                fields@.take(i + 1),
                data.entries@,
                k,
                conditions,
            ) by {
                lemma_sub_get_push(
                    fields@.take(i as int),
                    fields@[i as int],
                    data.entries@,
                    k,
                    conditions,
                );
                if skip {
                    assert(spec_field_msgs(fields@[i as int], data.entries@, conditions)
                        =~= Seq::<Seq<char>>::empty());
                }
            }
        }
        i = i + 1;
    }
    proof {
        assert(fields@.take(fields@.len() as int) =~= fields@);
    }
    errors
}

/// Validates a submission against a form's fields, in order; display-only
/// fields are skipped, conditions are not consulted.
///
/// Returns a `ValidationErrors` containing any validation failures.
pub fn validate_submission(fields: &Vec<Field>, data: &ValueMap) -> (r: ValidationErrors)
    ensures
        forall|k: Seq<char>| #[trigger] spec_err_get(r.errors@, k) == spec_sub_get(
            fields@,
            data.entries@,
            k,
            false,
        ),
        spec_err_wf(r.errors@),
{
    validate_fields(fields, data, false)
}

/// Validates a single step's fields with condition evaluation: nothing is
/// reported when the step itself is hidden; otherwise hidden and
/// display-only fields are skipped.
pub fn validate_step(step: &Step, fields: &Vec<Field>, data: &ValueMap) -> (r: ValidationErrors)
    ensures
        spec_step_visible(*step, data.entries@) ==> forall|k: Seq<char>| #[trigger] spec_err_get(
            r.errors@,
            k,
        ) == spec_sub_get(fields@, data.entries@, k, true),
        !spec_step_visible(*step, data.entries@) ==> r.errors@.len() == 0,
        spec_err_wf(r.errors@),
{
    if !is_step_visible(step, data) {
        return ValidationErrors::new();
    }
    validate_fields(fields, data, true)
}

/// The messages a multi-step report holds for step `sk` and field `fk`:
/// the concatenation, in step order, of what each visible step with that
/// identifier records for that field; hidden steps record nothing.
pub open spec fn spec_multi_get(
    steps: Seq<(Step, Vec<Field>)>,
    entries: Seq<(String, FieldValue)>,
    sk: Seq<char>,
    fk: Seq<char>,
) -> Option<Seq<Seq<char>>>
    decreases steps.len(),
{
    if steps.len() == 0 {
        None
    } else {
        let head = if steps[0].0.id@ == sk && spec_step_visible(steps[0].0, entries) {
            spec_sub_get(steps[0].1@, entries, fk, true)
        } else {
            None
        };
        merge2(head, spec_multi_get(steps.drop_first(), entries, sk, fk))
    }
}

/// Appending one step to the walk concatenates its messages last.
proof fn lemma_multi_get_push(
    steps: Seq<(Step, Vec<Field>)>,
    p: (Step, Vec<Field>),
    entries: Seq<(String, FieldValue)>,
    sk: Seq<char>,
    fk: Seq<char>,
)
    ensures
        spec_multi_get(steps.push(p), entries, sk, fk) == merge2(
            spec_multi_get(steps, entries, sk, fk),
            (if p.0.id@ == sk && spec_step_visible(p.0, entries) {
                spec_sub_get(p.1@, entries, fk, true)
            } else {
                None
            }),
        ),
    decreases steps.len(),
{
    reveal_with_fuel(spec_multi_get, 3);
    let tail = if p.0.id@ == sk && spec_step_visible(p.0, entries) {
        spec_sub_get(p.1@, entries, fk, true)
    } else {
        None
    };
    if steps.len() == 0 {
        assert(steps.push(p)[0] == p);
        assert(steps.push(p).drop_first() =~= Seq::<(Step, Vec<Field>)>::empty());
        assert(spec_multi_get(steps.push(p), entries, sk, fk) =~~= merge2(
            spec_multi_get(steps, entries, sk, fk),
            tail,
        ));
    } else {
        assert(steps.push(p)[0] == steps[0]);
        assert(steps.push(p).drop_first() =~= steps.drop_first().push(p));
        lemma_multi_get_push(steps.drop_first(), p, entries, sk, fk);
        let head = if steps[0].0.id@ == sk && spec_step_visible(steps[0].0, entries) {
            spec_sub_get(steps[0].1@, entries, fk, true)
        } else {
            None
        };
        lemma_merge2_assoc(head, spec_multi_get(steps.drop_first(), entries, sk, fk), tail);
        assert(spec_multi_get(steps.push(p), entries, sk, fk) =~~= merge2(
            spec_multi_get(steps, entries, sk, fk),
            tail,
        ));
    }
}

/// Validates a multi-step form submission with condition evaluation.
///
/// Steps whose condition is false are skipped whole; within a visible
/// step, display-only and hidden fields are skipped; errors are grouped
/// by step identifier. Conditions are evaluated against the complete
/// submitted dataset, whatever step a referenced field belongs to.
#[verifier::loop_isolation(false)]
pub fn validate_multi_step_submission(steps: &Vec<(Step, Vec<Field>)>, data: &ValueMap) -> (r:
    StepValidationErrors)
    ensures
        forall|sk: Seq<char>, fk: Seq<char>| #[trigger] spec_step_field_get(r.steps@, sk, fk)
            == spec_multi_get(steps@, data.entries@, sk, fk),
        spec_steps_wf(r.steps@),
{
    let mut result = StepValidationErrors::new();
    let mut i: usize = 0;
    proof {
        assert forall|sk: Seq<char>, fk: Seq<char>| #[trigger] spec_step_field_get(
            result.steps@,
            sk,
            fk,
        ) == spec_multi_get(steps@.take(0), data.entries@, sk, fk) by {
            assert(steps@.take(0) =~= Seq::<(Step, Vec<Field>)>::empty());
        }
    }
    while i < steps.len()
        invariant
            0 <= i <= steps@.len(),
            forall|sk: Seq<char>, fk: Seq<char>| #[trigger] spec_step_field_get(
                result.steps@,
                sk,
                fk,
            ) == spec_multi_get(steps@.take(i as int), data.entries@, sk, fk),
            spec_steps_wf(result.steps@),
        decreases steps@.len() - i,
    {
        let ghost pre = result.steps@;
        let visible = is_step_visible(&steps[i].0, data);
        if visible {
            let inner = validate_fields(&steps[i].1, data, true);
            result.add_step_errors(steps[i].0.id.as_str(), inner);
        }
        proof {
            assert(steps@.take(i + 1) =~= steps@.take(i as int).push(steps@[i as int]));
            assert forall|sk: Seq<char>, fk: Seq<char>| #[trigger] spec_step_field_get(
                result.steps@,
                sk,
                fk,
            ) == spec_multi_get(steps@.take(i + 1), data.entries@, sk, fk) by {
                lemma_multi_get_push(
                    steps@.take(i as int),
                    steps@[i as int],
                    data.entries@,
                    sk,
                    fk,
                );
                let id = steps@[i as int].0.id@;
                if visible {
                    if sk == id {
                        assert(spec_step_field_get(pre, sk, fk) == spec_multi_get(
                            steps@.take(i as int),
                            data.entries@,
                            sk,
                            fk,
                        ));
                        assert(spec_step_field_get(result.steps@, sk, fk) == merge2(
                            spec_step_field_get(pre, sk, fk),
                            spec_sub_get(steps@[i as int].1@, data.entries@, fk, true),
                        ));
                    } else {
                        assert(spec_step_get(result.steps@, sk) == spec_step_get(pre, sk));
                        assert(spec_step_field_get(result.steps@, sk, fk) == spec_step_field_get(
                            pre,
                            sk,
                            fk,
                        ));
                        assert(spec_step_field_get(pre, sk, fk) == spec_multi_get(
                            steps@.take(i as int),
                            data.entries@,
                            sk,
                            fk,
                        ));
                    }
                } else {
                    assert(result.steps@ == pre);
                    assert(spec_step_field_get(pre, sk, fk) == spec_multi_get(
                        steps@.take(i as int),
                        data.entries@,
                        sk,
                        fk,
                    ));
                }
            }
        }
        i = i + 1;
    }
    proof {
        assert(steps@.take(steps@.len() as int) =~= steps@);
    }
    result
}

/// A required field whose value is absent or empty earns exactly the one
/// required-field message: no type or rule check runs.
pub proof fn lemma_required_empty_short_circuit(f: Field, value: Option<FieldValue>)
    requires
        f.required,
        match value {
            Some(v) => spec_is_empty(v),
            None => true,
        },
    ensures
        spec_validate_field(f, value) == seq![msg_required(f.label@)],
{
}

/// A step whose condition is false contributes no errors at all: a
/// multi-step report holds nothing under its identifier when every step
/// bearing it is hidden.
pub proof fn lemma_hidden_step_validates_nothing(
    steps: Seq<(Step, Vec<Field>)>,
    entries: Seq<(String, FieldValue)>,
    sk: Seq<char>,
    fk: Seq<char>,
)
    requires
        forall|i: int|
            0 <= i < steps.len() && (#[trigger] steps[i].0).id@ == sk ==> !spec_step_visible(
                steps[i].0,
                entries,
            ),
    ensures
        spec_multi_get(steps, entries, sk, fk) is None,
    decreases steps.len(),
{
    if steps.len() > 0 {
        assert(forall|i: int|
            0 <= i < steps.len() - 1 ==> #[trigger] steps.drop_first()[i] == steps[i + 1]);
        lemma_hidden_step_validates_nothing(steps.drop_first(), entries, sk, fk);
    }
}

/// Validating the same fields against the same data twice gives reports
/// that agree on every field name: the outcome is a function of the
/// inputs alone.
pub proof fn lemma_validate_submission_deterministic(
    a: ValidationErrors,
    b: ValidationErrors,
    fields: Seq<Field>,
    entries: Seq<(String, FieldValue)>,
)
    requires
        forall|k: Seq<char>| #[trigger] spec_err_get(a.errors@, k) == spec_sub_get(
            fields,
            entries,
            k,
            false,
        ),
        forall|k: Seq<char>| #[trigger] spec_err_get(b.errors@, k) == spec_sub_get(
            fields,
            entries,
            k,
            false,
        ),
    ensures
        forall|k: Seq<char>| #[trigger] spec_err_get(a.errors@, k) == spec_err_get(b.errors@, k),
{
}

/// Checks if a string is a well-formed date and time.
pub fn is_valid_datetime(s: &str) -> (r: bool)
    ensures
        r == datetime_ok(s@),
{
    let len = s.unicode_len();
    if len < 16 {
        return false;
    }
    proof {
        assert(forall|j: int| 0 <= j < 10 ==> s@.subrange(0, 10)[j] == s@[j]);
    }
    let date_part = is_digit_exec(s.get_char(0)) && is_digit_exec(s.get_char(1)) && is_digit_exec(
        s.get_char(2),
    ) && is_digit_exec(s.get_char(3)) && s.get_char(4) == '-' && is_digit_exec(s.get_char(5))
        && is_digit_exec(s.get_char(6)) && s.get_char(7) == '-' && is_digit_exec(s.get_char(8))
        && is_digit_exec(s.get_char(9));
    let sep = s.get_char(10);
    date_part && (sep == 'T' || sep == ' ') && is_digit_exec(s.get_char(11)) && is_digit_exec(
        s.get_char(12),
    ) && s.get_char(13) == ':' && is_digit_exec(s.get_char(14)) && is_digit_exec(s.get_char(15))
}

} // verus!
