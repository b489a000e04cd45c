//! Condition rules for dynamic step/field visibility.
//!
//! A condition is a recursive boolean expression over submitted values:
//! a comparison of one field against an expected value, or a conjunction
//! or disjunction of sub-conditions. Evaluation is total: an absent field,
//! a type mismatch, or an unreadable number makes a comparison false,
//! never an error.

use vstd::prelude::*;
use vstd::string::*;
use crate::text::str_eq;
use crate::value::{
    spec_as_number, spec_as_str, spec_get, spec_is_empty, FieldValue, ValueMap,
};

verus! {

/// Condition operators for comparing field values.
#[derive(Debug, Clone, Copy, PartialEq, Eq, Structural)]
pub enum ConditionOp {
    /// Equals (==)
    Eq,
    /// Not equals (!=)
    Neq,
    /// Greater than (>)
    Gt,
    /// Greater than or equal (>=)
    Gte,
    /// Less than (<)
    Lt,
    /// Less than or equal (<=)
    Lte,
    /// String contains substring
    Contains,
    /// Value is in array
    In,
    /// Field is empty (null, "", or missing)
    Empty,
    /// Field is not empty
    NotEmpty,
}

/// A condition rule that determines visibility of steps or fields.
///
/// Supports simple comparisons, AND, and OR logic with arbitrary nesting.
#[derive(Debug)]
pub enum ConditionRule {
    /// Simple comparison of one field against an expected value.
    Simple {
        /// Field name to check
        field: String,
        /// Comparison operator
        op: ConditionOp,
        /// Expected value (absent for the empty/not-empty operators)
        value: Option<FieldValue>,
    },
    /// All conditions must be true.
    And {
        /// The sub-conditions.
        and: Vec<ConditionRule>,
    },
    /// At least one condition must be true.
    Or {
        /// The sub-conditions.
        or: Vec<ConditionRule>,
    },
}

/// The strict boolean reading used by coercing equality: a boolean
/// itself, or exactly the text `true` or `false`.
pub open spec fn spec_bool_read(v: FieldValue) -> Option<bool> {
    match v {
        FieldValue::Bool(b) => Some(b),
        FieldValue::Text(s) => if s@ == "true"@ {
            Some(true)
        } else if s@ == "false"@ {
            Some(false)
        } else {
            None
        },
        _ => None,
    }
}

/// Elementwise equality of two string arrays.
pub open spec fn spec_arrays_equal(x: Seq<String>, y: Seq<String>) -> bool {
    x.len() == y.len() && forall|i: int| 0 <= i < x.len() ==> x[i]@ == #[trigger] y[i]@
}

/// Structural equality for the pairs the coercions do not cover: two
/// arrays compare elementwise, two nulls are equal, everything else
/// differs.
pub open spec fn spec_raw_equal(a: FieldValue, b: FieldValue) -> bool {
    match (a, b) {
        (FieldValue::Array(x), FieldValue::Array(y)) => spec_arrays_equal(x@, y@),
        (FieldValue::Null, FieldValue::Null) => true,
        _ => false,
    }
}

/// Coercing equality: numeric when both sides read as numbers, then
/// textual, then boolean (accepting the words `true` and `false`), and
/// structural as the last resort.
pub open spec fn spec_values_equal(a: FieldValue, b: FieldValue) -> bool {
    if spec_as_number(a) is Some && spec_as_number(b) is Some {
        spec_as_number(a) == spec_as_number(b)
    } else if spec_as_str(a) is Some && spec_as_str(b) is Some {
        spec_as_str(a) == spec_as_str(b)
    } else if spec_bool_read(a) is Some && spec_bool_read(b) is Some {
        spec_bool_read(a) == spec_bool_read(b)
    } else {
        spec_raw_equal(a, b)
    }
}

/// The needle stands at position `i` of the haystack.
pub open spec fn contains_at(h: Seq<char>, n: Seq<char>, i: int) -> bool {
    0 <= i && i + n.len() <= h.len() && h.subrange(i, i + n.len()) == n
}

/// The haystack holds the needle somewhere.
pub open spec fn seq_contains(h: Seq<char>, n: Seq<char>) -> bool {
    exists|i: int| contains_at(h, n, i)
}

/// Containment: substring search when the field value is text, exact
/// element containment when it is an array, false otherwise.
pub open spec fn spec_contains(f: FieldValue, e: FieldValue) -> bool {
    match f {
        FieldValue::Text(s) => match spec_as_str(e) {
            Some(needle) => seq_contains(s@, needle),
            None => false,
        },
        FieldValue::Array(xs) => match e {
            FieldValue::Text(t) => exists|i: int| 0 <= i < xs@.len() && #[trigger] xs@[i]@ == t@,
            _ => false,
        },
        _ => false,
    }
}

/// Membership: the expected value must be an array, and the field value
/// must equal one of its elements under coercing equality.
pub open spec fn spec_in(f: FieldValue, e: FieldValue) -> bool {
    match e {
        FieldValue::Array(xs) => exists|i: int|
            0 <= i < xs@.len() && spec_values_equal(f, FieldValue::Text(#[trigger] xs@[i])),
        _ => false,
    }
}

/// One comparison of a present field value against a present expected
/// value; the empty/not-empty operators are not comparisons.
pub open spec fn spec_compare(op: ConditionOp, f: FieldValue, e: FieldValue) -> bool {
    match op {
        ConditionOp::Eq => spec_values_equal(f, e),
        ConditionOp::Neq => !spec_values_equal(f, e),
        ConditionOp::Gt => match (spec_as_number(f), spec_as_number(e)) {
            (Some(x), Some(y)) => x > y,
            _ => false,
        },
        ConditionOp::Gte => match (spec_as_number(f), spec_as_number(e)) {
            (Some(x), Some(y)) => x >= y,
            _ => false,
        },
        ConditionOp::Lt => match (spec_as_number(f), spec_as_number(e)) {
            (Some(x), Some(y)) => x < y,
            _ => false,
        },
        ConditionOp::Lte => match (spec_as_number(f), spec_as_number(e)) {
            (Some(x), Some(y)) => x <= y,
            _ => false,
        },
        ConditionOp::Contains => spec_contains(f, e),
        ConditionOp::In => spec_in(f, e),
        ConditionOp::Empty => false,
        ConditionOp::NotEmpty => false,
    }
}

/// Emptiness of a looked-up field: absent, or present and empty.
pub open spec fn spec_opt_empty(fv: Option<FieldValue>) -> bool {
    match fv {
        None => true,
        Some(v) => spec_is_empty(v),
    }
}

/// One operator applied to a looked-up field value and an optional
/// expected value. An absent field or absent expected value makes every
/// comparison false; only emptiness tests see absence itself.
pub open spec fn spec_op_eval(
    op: ConditionOp,
    fv: Option<FieldValue>,
    expected: Option<FieldValue>,
) -> bool {
    match op {
        ConditionOp::Empty => spec_opt_empty(fv),
        ConditionOp::NotEmpty => !spec_opt_empty(fv),
        _ => match (fv, expected) {
            (Some(f), Some(e)) => spec_compare(op, f, e),
            _ => false,
        },
    }
}

/// The meaning of a condition over submitted data.
pub open spec fn spec_eval(c: ConditionRule, entries: Seq<(String, FieldValue)>) -> bool
    decreases c,
{
    match c {
        ConditionRule::Simple { field, op, value } => spec_op_eval(
            op,
            spec_get(entries, field@),
            value,
        ),
        ConditionRule::And { and } => spec_eval_all(and@, entries),
        ConditionRule::Or { or } => spec_eval_any(or@, entries),
    }
}

/// All conditions of the sequence hold (an empty sequence holds).
pub open spec fn spec_eval_all(cs: Seq<ConditionRule>, entries: Seq<(String, FieldValue)>) -> bool
    decreases cs,
{
    if cs.len() == 0 {
        true
    } else {
        spec_eval(cs[0], entries) && spec_eval_all(cs.drop_first(), entries)
    }
}

/// Some condition of the sequence holds (an empty sequence does not).
pub open spec fn spec_eval_any(cs: Seq<ConditionRule>, entries: Seq<(String, FieldValue)>) -> bool
    decreases cs,
{
    if cs.len() == 0 {
        false
    } else {
        spec_eval(cs[0], entries) || spec_eval_any(cs.drop_first(), entries)
    }
}

/// A conjunction holds exactly when every member holds.
pub proof fn lemma_eval_all_forall(cs: Seq<ConditionRule>, entries: Seq<(String, FieldValue)>)
    ensures
        spec_eval_all(cs, entries) <==> (forall|i: int|
            0 <= i < cs.len() ==> spec_eval(#[trigger] cs[i], entries)),
    decreases cs.len(),
{
    if cs.len() > 0 {
        lemma_eval_all_forall(cs.drop_first(), entries);
        assert(forall|i: int|
            0 <= i < cs.len() - 1 ==> #[trigger] cs.drop_first()[i] == cs[i + 1]);
        assert(forall|i: int| 1 <= i < cs.len() ==> #[trigger] cs[i] == cs.drop_first()[i - 1]);
    }
}

/// A disjunction holds exactly when some member holds.
pub proof fn lemma_eval_any_exists(cs: Seq<ConditionRule>, entries: Seq<(String, FieldValue)>)
    ensures
        spec_eval_any(cs, entries) <==> (exists|i: int|
            0 <= i < cs.len() && spec_eval(#[trigger] cs[i], entries)),
    decreases cs.len(),
{
    if cs.len() > 0 {
        lemma_eval_any_exists(cs.drop_first(), entries);
        assert(forall|i: int|
            0 <= i < cs.len() - 1 ==> #[trigger] cs.drop_first()[i] == cs[i + 1]);
        assert(forall|i: int| 1 <= i < cs.len() ==> #[trigger] cs[i] == cs.drop_first()[i - 1]);
        if spec_eval(cs[0], entries) {
            assert(spec_eval(cs[0], entries));
        } else if spec_eval_any(cs.drop_first(), entries) {
            let i = choose|i: int|
                0 <= i < cs.drop_first().len() && spec_eval(#[trigger] cs.drop_first()[i], entries);
            assert(spec_eval(cs[i + 1], entries));
        }
    }
}

/// Reads through an optional reference.
pub open spec fn opt_read(x: Option<&FieldValue>) -> Option<FieldValue> {
    match x {
        Some(v) => Some(*v),
        None => None,
    }
}

/// True when the two strings hold the same array elements.
fn arrays_equal(x: &Vec<String>, y: &Vec<String>) -> (r: bool)
    ensures
        r == spec_arrays_equal(x@, y@),
{
    if x.len() != y.len() {
        return false;
    }
    let mut i: usize = 0;
    while i < x.len()
        invariant
            0 <= i <= x@.len(),
            x@.len() == y@.len(),
            forall|j: int| 0 <= j < i ==> x@[j]@ == #[trigger] y@[j]@,
        decreases x@.len() - i,
    {
        if !str_eq(x[i].as_str(), y[i].as_str()) {
            return false;
        }
        i = i + 1;
    }
    true
}

/// The strict boolean reading used by coercing equality.
fn bool_read(v: &FieldValue) -> (r: Option<bool>)
    ensures
        r == spec_bool_read(*v),
{
    match v {
        FieldValue::Bool(b) => Some(*b),
        FieldValue::Text(s) => {
            if str_eq(s.as_str(), "true") {
                Some(true)
            } else if str_eq(s.as_str(), "false") {
                Some(false)
            } else {
                None
            }
        },
        _ => None,
    }
}

/// True when the haystack holds the needle as a substring.
#[verifier::loop_isolation(false)]
fn str_contains(h: &str, n: &str) -> (r: bool)
    ensures
        r == seq_contains(h@, n@),
{
    let hl = h.unicode_len();
    let nl = n.unicode_len();
    if nl > hl {
        return false;
    }
    let bound = hl - nl;
    let mut i: usize = 0;
    while i <= bound
        invariant
            0 <= i <= bound,
            forall|j: int| 0 <= j < i ==> !contains_at(h@, n@, j),
        decreases bound - i,
    {
        let sub = h.substring_char(i, i + nl);
        if str_eq(sub, n) {
            proof {
                assert(contains_at(h@, n@, i as int));
            }
            return true;
        }
        if i == bound {
            proof {
                assert(!contains_at(h@, n@, bound as int));
                assert(forall|j: int| j > bound ==> !contains_at(h@, n@, j));
            }
            return false;
        }
        i = i + 1;
    }
    false
}

/// True when the field value equals the expected value under coercing
/// equality.
fn values_equal(a: &FieldValue, b: &FieldValue) -> (r: bool)
    ensures
        r == spec_values_equal(*a, *b),
{
    match (a.as_number(), b.as_number()) {
        (Some(x), Some(y)) => x.raw == y.raw,
        _ => match (a.as_str(), b.as_str()) {
            (Some(x), Some(y)) => str_eq(x, y),
            _ => match (bool_read(a), bool_read(b)) {
                (Some(x), Some(y)) => x == y,
                _ => match (a, b) {
                    (FieldValue::Array(x), FieldValue::Array(y)) => arrays_equal(x, y),
                    (FieldValue::Null, FieldValue::Null) => true,
                    _ => false,
                },
            },
        },
    }
}

impl ConditionOp {
    /// One comparison of two present values; the empty/not-empty
    /// operators never reach this.
    #[verifier::loop_isolation(false)]
    fn compare(&self, f: &FieldValue, e: &FieldValue) -> (r: bool)
        requires
            !(*self is Empty),
            !(*self is NotEmpty),
        ensures
            r == spec_compare(*self, *f, *e),
    {
        match self {
            ConditionOp::Eq => values_equal(f, e),
            ConditionOp::Neq => !values_equal(f, e),
            ConditionOp::Gt | ConditionOp::Gte | ConditionOp::Lt | ConditionOp::Lte => {
                match (f.as_number(), e.as_number()) {
                    (Some(x), Some(y)) => match self {
                        ConditionOp::Gt => x.raw > y.raw,
                        ConditionOp::Gte => x.raw >= y.raw,
                        ConditionOp::Lt => x.raw < y.raw,
                        _ => x.raw <= y.raw,
                    },
                    _ => false,
                }
            },
            ConditionOp::Contains => {
                match f {
                    FieldValue::Text(s) => match e.as_str() {
                        Some(needle) => str_contains(s.as_str(), needle),
                        None => false,
                    },
                    FieldValue::Array(xs) => match e {
                        FieldValue::Text(t) => {
                            let mut i: usize = 0;
                            while i < xs.len()
                                invariant
                                    0 <= i <= xs@.len(),
                                    forall|j: int| 0 <= j < i ==> #[trigger] xs@[j]@ != t@,
                                decreases xs@.len() - i,
                            {
                                if str_eq(xs[i].as_str(), t.as_str()) {
                                    proof {
                                        assert(xs@[i as int]@ == t@);
                                    }
                                    return true;
                                }
                                i = i + 1;
                            }
                            false
                        },
                        _ => false,
                    },
                    _ => false,
                }
            },
            ConditionOp::In => {
                match e {
                    FieldValue::Array(xs) => {
                        let mut i: usize = 0;
                        while i < xs.len()
                            invariant
                                0 <= i <= xs@.len(),
                                forall|j: int|
                                    0 <= j < i ==> !spec_values_equal(
                                        *f,
                                        FieldValue::Text(#[trigger] xs@[j]),
                                    ),
                            decreases xs@.len() - i,
                        {
                            let item = FieldValue::Text(xs[i].clone());
                            if values_equal(f, &item) {
                                proof {
                                    assert(spec_values_equal(*f, FieldValue::Text(xs@[i as int])));
                                }
                                return true;
                            }
                            i = i + 1;
                        }
                        false
                    },
                    _ => false,
                }
            },
            ConditionOp::Empty | ConditionOp::NotEmpty => false,
        }
    }

    /// Evaluate the operator against a field value and expected value.
    pub fn evaluate(&self, field_value: Option<&FieldValue>, expected: Option<&FieldValue>) -> (r:
        bool)
        ensures
            r == spec_op_eval(*self, opt_read(field_value), opt_read(expected)),
    {
        match self {
            ConditionOp::Empty => match field_value {
                None => true,
                Some(v) => v.is_empty(),
            },
            ConditionOp::NotEmpty => match field_value {
                None => false,
                Some(v) => !v.is_empty(),
            },
            _ => match (field_value, expected) {
                (Some(f), Some(e)) => self.compare(f, e),
                _ => false,
            },
        }
    }
}

impl ConditionRule {
    /// Create a simple equality condition.
    pub fn eq(field: &str, value: FieldValue) -> (r: ConditionRule)
        ensures
            (r matches ConditionRule::Simple { field: f, op: o, value: v } && f@ == field@ && o
                == ConditionOp::Eq && v == Some(value)),
    {
        ConditionRule::Simple { field: field.to_owned(), op: ConditionOp::Eq, value: Some(value) }
    }

    /// Create a simple not-equals condition.
    pub fn neq(field: &str, value: FieldValue) -> (r: ConditionRule)
        ensures
            (r matches ConditionRule::Simple { field: f, op: o, value: v } && f@ == field@ && o
                == ConditionOp::Neq && v == Some(value)),
    {
        ConditionRule::Simple { field: field.to_owned(), op: ConditionOp::Neq, value: Some(value) }
    }

    /// Create an "is empty" condition.
    pub fn empty(field: &str) -> (r: ConditionRule)
        ensures
            (r matches ConditionRule::Simple { field: f, op: o, value: v } && f@ == field@ && o
                == ConditionOp::Empty && v is None),
    {
        ConditionRule::Simple { field: field.to_owned(), op: ConditionOp::Empty, value: None }
    }

    /// Create an "is not empty" condition.
    pub fn not_empty(field: &str) -> (r: ConditionRule)
        ensures
            (r matches ConditionRule::Simple { field: f, op: o, value: v } && f@ == field@ && o
                == ConditionOp::NotEmpty && v is None),
    {
        ConditionRule::Simple { field: field.to_owned(), op: ConditionOp::NotEmpty, value: None }
    }

    /// Create an AND condition from multiple rules.
    pub fn and(rules: Vec<ConditionRule>) -> (r: ConditionRule)
        ensures
            r == (ConditionRule::And { and: rules }),
    {
        ConditionRule::And { and: rules }
    }

    /// Create an OR condition from multiple rules.
    pub fn or(rules: Vec<ConditionRule>) -> (r: ConditionRule)
        ensures
            r == (ConditionRule::Or { or: rules }),
    {
        ConditionRule::Or { or: rules }
    }

    /// Evaluate the condition against form data.
    #[verifier::loop_isolation(false)]
    pub fn evaluate(&self, data: &ValueMap) -> (r: bool)
        ensures
            r == spec_eval(*self, data.entries@),
        decreases *self,
    {
        match self {
            ConditionRule::Simple { field, op, value } => {
                let fv = data.get(field.as_str());
                op.evaluate(fv, value.as_ref())
            },
            ConditionRule::And { and } => {
                let mut i: usize = 0;
                proof {
                    lemma_eval_all_forall(and@, data.entries@);
                }
                while i < and.len()
                    invariant
                        0 <= i <= and@.len(),
                        forall|j: int| 0 <= j < i ==> spec_eval(#[trigger] and@[j], data.entries@),
                        spec_eval_all(and@, data.entries@) <==> (forall|j: int|
                            0 <= j < and@.len() ==> spec_eval(#[trigger] and@[j], data.entries@)),
                        spec_eval(*self, data.entries@) == spec_eval_all(and@, data.entries@),
                    decreases and@.len() - i,
                {
                    if !and[i].evaluate(data) {
                        return false;
                    }
                    i = i + 1;
                }
                true
            },
            ConditionRule::Or { or } => {
                let mut i: usize = 0;
                proof {
                    lemma_eval_any_exists(or@, data.entries@);
                }
                while i < or.len()
                    invariant
                        0 <= i <= or@.len(),
                        forall|j: int| 0 <= j < i ==> !spec_eval(#[trigger] or@[j], data.entries@),
                        spec_eval_any(or@, data.entries@) <==> (exists|j: int|
                            0 <= j < or@.len() && spec_eval(#[trigger] or@[j], data.entries@)),
                        spec_eval(*self, data.entries@) == spec_eval_any(or@, data.entries@),
                    decreases or@.len() - i,
                {
                    if or[i].evaluate(data) {
                        return true;
                    }
                    i = i + 1;
                }
                false
            },
        }
    }
}

/// An empty conjunction is true and an empty disjunction is false,
/// whatever the data.
pub proof fn lemma_empty_connectives(c: ConditionRule, entries: Seq<(String, FieldValue)>)
    ensures
        (c matches ConditionRule::And { and } && and@.len() == 0) ==> spec_eval(c, entries),
        (c matches ConditionRule::Or { or } && or@.len() == 0) ==> !spec_eval(c, entries),
{
}

/// A conjunction or disjunction of a single condition means just that
/// condition, whatever the data.
pub proof fn lemma_single_child(
    wrapper: ConditionRule,
    child: ConditionRule,
    entries: Seq<(String, FieldValue)>,
)
    requires
        (wrapper matches ConditionRule::And { and } && and@ =~= seq![child]) || (wrapper
            matches ConditionRule::Or { or } && or@ =~= seq![child]),
    ensures
        spec_eval(wrapper, entries) == spec_eval(child, entries),
{
    match wrapper {
        ConditionRule::And { and } => {
            assert(and@[0] == child);
            assert(and@.drop_first() =~= Seq::<ConditionRule>::empty());
            assert(spec_eval_all(and@.drop_first(), entries));
            assert(spec_eval_all(and@, entries) == spec_eval(child, entries));
        },
        ConditionRule::Or { or } => {
            assert(or@[0] == child);
            assert(or@.drop_first() =~= Seq::<ConditionRule>::empty());
            assert(!spec_eval_any(or@.drop_first(), entries));
            assert(spec_eval_any(or@, entries) == spec_eval(child, entries));
        },
        _ => (),
    }
}

/// Equality and inequality on the same field and expected value are
/// exact complements whenever the field is present and the expected
/// value is given.
pub proof fn lemma_eq_neq_complement(
    field: String,
    value: FieldValue,
    entries: Seq<(String, FieldValue)>,
)
    requires
        spec_get(entries, field@) is Some,
    ensures
        spec_eval(
            ConditionRule::Simple { field, op: ConditionOp::Neq, value: Some(value) },
            entries,
        ) == !spec_eval(
            ConditionRule::Simple { field, op: ConditionOp::Eq, value: Some(value) },
            entries,
        ),
{
}

/// Exactly one of the emptiness tests on a field holds, for every data
/// map, present or absent field alike.
pub proof fn lemma_empty_partition(field: String, entries: Seq<(String, FieldValue)>)
    ensures
        spec_eval(ConditionRule::Simple { field, op: ConditionOp::Empty, value: None }, entries)
            == !spec_eval(
            ConditionRule::Simple { field, op: ConditionOp::NotEmpty, value: None },
            entries,
        ),
{
}

} // verus!
