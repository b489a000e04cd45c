//! The stored wire format for conditions.
//!
//! A condition is stored as JSON: a comparison is an object with `field`
//! and `op` entries (and `value`, where the condition carries an expected
//! value), in any order and with any further entries ignored; compound
//! conditions are `{"and": [...]}` and `{"or": [...]}`. The operator
//! names accept the aliases `ne`, `is_empty` and `is_not_empty`. The JSON
//! tree itself is modelled by [`JsonValue`]; reading the raw text into
//! that tree belongs to the persistence layer.
//!
//! [`json_reads_as`] is the grammar: it relates a JSON tree to the
//! condition it denotes. The writer produces a tree that reads back as its
//! input, the reader returns a condition the tree reads as — and fails
//! exactly on trees that read as nothing — and the grammar is functional:
//! two readings of one tree are equivalent and evaluate alike.

use vstd::prelude::*;
use vstd::string::*;
use crate::condition::{
    spec_eval, spec_eval_all, spec_eval_any, spec_values_equal, ConditionOp, ConditionRule,
};
use crate::num::Number;
use crate::text::str_eq;
use crate::value::FieldValue;

verus! {

/// A JSON value, as the wire format sees one.
#[derive(Debug)]
pub enum JsonValue {
    /// JSON null.
    Null,
    /// A JSON boolean.
    Bool(bool),
    /// A JSON number, as the engine's fixed-point decimal.
    Number(Number),
    /// A JSON string.
    Text(String),
    /// A JSON array.
    Array(Vec<JsonValue>),
    /// A JSON object: entries in order.
    Object(Vec<(String, JsonValue)>),
}

/// The canonical wire name of an operator.
pub open spec fn spec_op_name(op: ConditionOp) -> Seq<char> {
    match op {
        ConditionOp::Eq => "eq"@,
        ConditionOp::Neq => "neq"@,
        ConditionOp::Gt => "gt"@,
        ConditionOp::Gte => "gte"@,
        ConditionOp::Lt => "lt"@,
        ConditionOp::Lte => "lte"@,
        ConditionOp::Contains => "contains"@,
        ConditionOp::In => "in"@,
        ConditionOp::Empty => "empty"@,
        ConditionOp::NotEmpty => "not_empty"@,
    }
}

/// The operator a wire name denotes, aliases accepted.
pub open spec fn spec_op_of(s: Seq<char>) -> Option<ConditionOp> {
    if s == "eq"@ {
        Some(ConditionOp::Eq)
    } else if s == "neq"@ || s == "ne"@ {
        Some(ConditionOp::Neq)
    } else if s == "gt"@ {
        Some(ConditionOp::Gt)
    } else if s == "gte"@ {
        Some(ConditionOp::Gte)
    } else if s == "lt"@ {
        Some(ConditionOp::Lt)
    } else if s == "lte"@ {
        Some(ConditionOp::Lte)
    } else if s == "contains"@ {
        Some(ConditionOp::Contains)
    } else if s == "in"@ {
        Some(ConditionOp::In)
    } else if s == "empty"@ || s == "is_empty"@ {
        Some(ConditionOp::Empty)
    } else if s == "not_empty"@ || s == "is_not_empty"@ {
        Some(ConditionOp::NotEmpty)
    } else {
        None
    }
}

/// Every canonical operator name reads back as its operator.
pub proof fn lemma_op_name_round_trip(op: ConditionOp)
    ensures
        spec_op_of(spec_op_name(op)) == Some(op),
{
    reveal_strlit("eq");
    reveal_strlit("neq");
    reveal_strlit("ne");
    reveal_strlit("gt");
    reveal_strlit("gte");
    reveal_strlit("lt");
    reveal_strlit("lte");
    reveal_strlit("contains");
    reveal_strlit("in");
    reveal_strlit("empty");
    reveal_strlit("is_empty");
    reveal_strlit("not_empty");
    reveal_strlit("is_not_empty");
    match op {
        ConditionOp::Eq => {
            assert(spec_op_of("eq"@) == Some(ConditionOp::Eq));
        },
        ConditionOp::Neq => {
            assert(!("neq"@ =~= "eq"@));
            assert(spec_op_of("neq"@) == Some(ConditionOp::Neq));
        },
        ConditionOp::Gt => {
            assert("gt"@[0] != "eq"@[0]);
            assert(!("gt"@ =~= "eq"@));
            assert(!("gt"@ =~= "neq"@));
            assert("gt"@[0] != "ne"@[0]);
            assert(!("gt"@ =~= "ne"@));
            assert(spec_op_of("gt"@) == Some(ConditionOp::Gt));
        },
        ConditionOp::Gte => {
            assert(!("gte"@ =~= "eq"@));
            assert("gte"@[0] != "neq"@[0]);
            assert(!("gte"@ =~= "neq"@));
            assert(!("gte"@ =~= "ne"@));
            assert(!("gte"@ =~= "gt"@));
            assert(spec_op_of("gte"@) == Some(ConditionOp::Gte));
        },
        ConditionOp::Lt => {
            assert("lt"@[0] != "eq"@[0]);
            assert(!("lt"@ =~= "eq"@));
            assert(!("lt"@ =~= "neq"@));
            assert("lt"@[0] != "ne"@[0]);
            assert(!("lt"@ =~= "ne"@));
            assert("lt"@[0] != "gt"@[0]);
            assert(!("lt"@ =~= "gt"@));
            assert(!("lt"@ =~= "gte"@));
            assert(spec_op_of("lt"@) == Some(ConditionOp::Lt));
        },
        ConditionOp::Lte => {
            assert(!("lte"@ =~= "eq"@));
            assert("lte"@[0] != "neq"@[0]);
            assert(!("lte"@ =~= "neq"@));
            assert(!("lte"@ =~= "ne"@));
            assert(!("lte"@ =~= "gt"@));
            assert("lte"@[0] != "gte"@[0]);
            assert(!("lte"@ =~= "gte"@));
            assert(!("lte"@ =~= "lt"@));
            assert(spec_op_of("lte"@) == Some(ConditionOp::Lte));
        },
        ConditionOp::Contains => {
            assert(!("contains"@ =~= "eq"@));
            assert(!("contains"@ =~= "neq"@));
            assert(!("contains"@ =~= "ne"@));
            assert(!("contains"@ =~= "gt"@));
            assert(!("contains"@ =~= "gte"@));
            assert(!("contains"@ =~= "lt"@));
            assert(!("contains"@ =~= "lte"@));
            assert(spec_op_of("contains"@) == Some(ConditionOp::Contains));
        },
        ConditionOp::In => {
            assert("in"@[0] != "eq"@[0]);
            assert(!("in"@ =~= "eq"@));
            assert(!("in"@ =~= "neq"@));
            assert("in"@[0] != "ne"@[0]);
            assert(!("in"@ =~= "ne"@));
            assert("in"@[0] != "gt"@[0]);
            assert(!("in"@ =~= "gt"@));
            assert(!("in"@ =~= "gte"@));
            assert("in"@[0] != "lt"@[0]);
            assert(!("in"@ =~= "lt"@));
            assert(!("in"@ =~= "lte"@));
            assert(!("in"@ =~= "contains"@));
            assert(spec_op_of("in"@) == Some(ConditionOp::In));
        },
        ConditionOp::Empty => {
            assert(!("empty"@ =~= "eq"@));
            assert(!("empty"@ =~= "neq"@));
            assert(!("empty"@ =~= "ne"@));
            assert(!("empty"@ =~= "gt"@));
            assert(!("empty"@ =~= "gte"@));
            assert(!("empty"@ =~= "lt"@));
            assert(!("empty"@ =~= "lte"@));
            assert(!("empty"@ =~= "contains"@));
            assert(!("empty"@ =~= "in"@));
            assert(spec_op_of("empty"@) == Some(ConditionOp::Empty));
        },
        ConditionOp::NotEmpty => {
            assert(!("not_empty"@ =~= "eq"@));
            assert(!("not_empty"@ =~= "neq"@));
            assert(!("not_empty"@ =~= "ne"@));
            assert(!("not_empty"@ =~= "gt"@));
            assert(!("not_empty"@ =~= "gte"@));
            assert(!("not_empty"@ =~= "lt"@));
            assert(!("not_empty"@ =~= "lte"@));
            assert(!("not_empty"@ =~= "contains"@));
            assert(!("not_empty"@ =~= "in"@));
            assert(!("not_empty"@ =~= "empty"@));
            assert(!("not_empty"@ =~= "is_empty"@));
            assert(spec_op_of("not_empty"@) == Some(ConditionOp::NotEmpty));
        },
    }
}

/// `s` is the string an array element denotes: text itself, a number in
/// decimal, a boolean or null as a word. Nested arrays and objects
/// denote nothing.
pub open spec fn wire_elem_rel(j: JsonValue, s: Seq<char>) -> bool {
    match j {
        JsonValue::Text(t) => t@ == s,
        JsonValue::Number(n) => s == crate::num::number_str(n.raw as int),
        JsonValue::Bool(b) => s == (if b {
            "true"@
        } else {
            "false"@
        }),
        JsonValue::Null => s == "null"@,
        _ => false,
    }
}

/// `j` is the wire form of the expected value `v`: like for like, with
/// array elements read as strings.
pub open spec fn wire_value_rel(j: JsonValue, v: FieldValue) -> bool {
    match (j, v) {
        (JsonValue::Null, FieldValue::Null) => true,
        (JsonValue::Bool(a), FieldValue::Bool(b)) => a == b,
        (JsonValue::Number(a), FieldValue::Number(b)) => a == b,
        (JsonValue::Text(a), FieldValue::Text(b)) => a@ == b@,
        (JsonValue::Array(items), FieldValue::Array(xs)) => {
            &&& items@.len() == xs@.len()
            &&& forall|i: int| 0 <= i < items@.len() ==> wire_elem_rel(#[trigger] items@[i], xs@[i]@)
        },
        _ => false,
    }
}

/// The first entry of a JSON object named `k`, if any.
pub open spec fn jassoc(fs: Seq<(String, JsonValue)>, k: Seq<char>) -> Option<JsonValue>
    decreases fs.len(),
{
    if fs.len() == 0 {
        None
    } else if fs[0].0@ == k {
        Some(fs[0].1)
    } else {
        jassoc(fs.drop_first(), k)
    }
}

/// The wire grammar: JSON tree `j` denotes condition `c`.
///
/// A comparison is an object holding a `field` entry (a string), an `op`
/// entry (a string naming the operator), and, exactly when the condition
/// carries an expected value, a `value` entry; entry order does not
/// matter, entries beyond these are ignored, and of entries sharing a
/// name the first counts. A conjunction or disjunction is a one-entry
/// object, `and` or `or`, holding an array that denotes the
/// sub-conditions elementwise.
pub open spec fn json_reads_as(j: JsonValue, c: ConditionRule) -> bool
    decreases c,
{
    match c {
        ConditionRule::Simple { field, op, value } => match j {
            JsonValue::Object(fs) => {
                &&& match jassoc(fs@, "field"@) {
                    Some(JsonValue::Text(t)) => t@ == field@,
                    _ => false,
                }
                &&& match jassoc(fs@, "op"@) {
                    Some(JsonValue::Text(o)) => spec_op_of(o@) == Some(op),
                    _ => false,
                }
                &&& match (value, jassoc(fs@, "value"@)) {
                    (Some(v), Some(jv)) => wire_value_rel(jv, v),
                    (None, None) => true,
                    _ => false,
                }
            },
            _ => false,
        },
        ConditionRule::And { and } => match j {
            JsonValue::Object(fs) => {
                &&& fs@.len() == 1
                &&& fs@[0].0@ == "and"@
                &&& match fs@[0].1 {
                    JsonValue::Array(items) => items@.len() == and@.len() && (forall|i: int|
                        0 <= i < and@.len() ==> json_reads_as(#[trigger] items@[i], and@[i])),
                    _ => false,
                }
            },
            _ => false,
        },
        ConditionRule::Or { or } => match j {
            JsonValue::Object(fs) => {
                &&& fs@.len() == 1
                &&& fs@[0].0@ == "or"@
                &&& match fs@[0].1 {
                    JsonValue::Array(items) => items@.len() == or@.len() && (forall|i: int|
                        0 <= i < or@.len() ==> json_reads_as(#[trigger] items@[i], or@[i])),
                    _ => false,
                }
            },
            _ => false,
        },
    }
}

/// Two expected values with the same wire form mean the same thing.
pub open spec fn value_equiv(a: FieldValue, b: FieldValue) -> bool {
    match (a, b) {
        (FieldValue::Null, FieldValue::Null) => true,
        (FieldValue::Bool(x), FieldValue::Bool(y)) => x == y,
        (FieldValue::Number(x), FieldValue::Number(y)) => x == y,
        (FieldValue::Text(x), FieldValue::Text(y)) => x@ == y@,
        (FieldValue::Array(x), FieldValue::Array(y)) => x@.len() == y@.len() && (forall|i: int|
            0 <= i < x@.len() ==> x@[i]@ == #[trigger] y@[i]@),
        _ => false,
    }
}

/// Two conditions are equivalent when they differ at most in string
/// identity, never in content.
pub open spec fn cond_equiv(a: ConditionRule, b: ConditionRule) -> bool
    decreases a,
{
    match (a, b) {
        (
            ConditionRule::Simple { field: f1, op: o1, value: v1 },
            ConditionRule::Simple { field: f2, op: o2, value: v2 },
        ) => {
            &&& f1@ == f2@
            &&& o1 == o2
            &&& match (v1, v2) {
                (Some(x), Some(y)) => value_equiv(x, y),
                (None, None) => true,
                _ => false,
            }
        },
        (ConditionRule::And { and: a1 }, ConditionRule::And { and: a2 }) => a1@.len() == a2@.len()
            && (forall|i: int| 0 <= i < a1@.len() ==> cond_equiv(#[trigger] a1@[i], a2@[i])),
        (ConditionRule::Or { or: o1 }, ConditionRule::Or { or: o2 }) => o1@.len() == o2@.len() && (
        forall|i: int| 0 <= i < o1@.len() ==> cond_equiv(#[trigger] o1@[i], o2@[i])),
        _ => false,
    }
}

/// One wire tree is the form of at most one expected value, up to
/// equivalence.
proof fn lemma_value_rel_functional(jv: JsonValue, x: FieldValue, y: FieldValue)
    requires
        wire_value_rel(jv, x),
        wire_value_rel(jv, y),
    ensures
        value_equiv(x, y),
{
    match (jv, x, y) {
        (JsonValue::Array(items), FieldValue::Array(xs), FieldValue::Array(ys)) => {
            assert forall|i: int| 0 <= i < xs@.len() implies xs@[i]@ == #[trigger] ys@[i]@ by {
                assert(wire_elem_rel(items@[i], xs@[i]@));
                assert(wire_elem_rel(items@[i], ys@[i]@));
            }
        },
        _ => (),
    }
}

/// The grammar is functional: one tree reads as at most one condition, up
/// to equivalence.
pub proof fn lemma_reads_functional(j: JsonValue, a: ConditionRule, b: ConditionRule)
    requires
        json_reads_as(j, a),
        json_reads_as(j, b),
    ensures
        cond_equiv(a, b),
    decreases a,
{
    reveal_strlit("and");
    reveal_strlit("or");
    reveal_strlit("field");
    match (a, b) {
        (
            ConditionRule::Simple { field: f1, op: o1, value: v1 },
            ConditionRule::Simple { field: f2, op: o2, value: v2 },
        ) => {
            match j {
                JsonValue::Object(fs) => {
                    match (v1, v2) {
                        (Some(x), Some(y)) => {
                            match jassoc(fs@, "value"@) {
                                Some(jv) => {
                                    lemma_value_rel_functional(jv, x, y);
                                },
                                None => (),
                            }
                        },
                        _ => (),
                    }
                },
                _ => (),
            }
        },
        (ConditionRule::And { and: a1 }, ConditionRule::And { and: a2 }) => {
            match j {
                JsonValue::Object(fs) => {
                    match fs@[0].1 {
                        JsonValue::Array(items) => {
                            assert forall|i: int| 0 <= i < a1@.len() implies cond_equiv(
                                #[trigger] a1@[i],
                                a2@[i],
                            ) by {
                                lemma_reads_functional(items@[i], a1@[i], a2@[i]);
                            }
                        },
                        _ => (),
                    }
                },
                _ => (),
            }
        },
        (ConditionRule::Or { or: o1 }, ConditionRule::Or { or: o2 }) => {
            match j {
                JsonValue::Object(fs) => {
                    match fs@[0].1 {
                        JsonValue::Array(items) => {
                            assert forall|i: int| 0 <= i < o1@.len() implies cond_equiv(
                                #[trigger] o1@[i],
                                o2@[i],
                            ) by {
                                lemma_reads_functional(items@[i], o1@[i], o2@[i]);
                            }
                        },
                        _ => (),
                    }
                },
                _ => (),
            }
        },
        _ => {
            // Mixed shapes cannot both read from one tree: a connective
            // is a one-entry object keyed `and` or `or` (and the two keys
            // differ), so it holds no `field` entry, while a comparison
            // demands one.
            match j {
                JsonValue::Object(fs) => {
                    assert("and"@.len() == 3);
                    assert("or"@.len() == 2);
                    assert("field"@.len() == 5);
                    assert(!("and"@ =~= "or"@));
                    assert((a is And) ==> fs@.len() == 1 && fs@[0].0@ == "and"@);
                    assert((a is Or) ==> fs@.len() == 1 && fs@[0].0@ == "or"@);
                    assert((b is And) ==> fs@.len() == 1 && fs@[0].0@ == "and"@);
                    assert((b is Or) ==> fs@.len() == 1 && fs@[0].0@ == "or"@);
                    if fs@.len() == 1 && (fs@[0].0@ == "and"@ || fs@[0].0@ == "or"@) {
                        lemma_jassoc_none(fs@, "field"@);
                        assert(!(a is Simple) && !(b is Simple));
                    }
                    assert(false);
                },
                _ => {
                    assert(false);
                },
            }
        },
    }
}

/// Equivalent expected values compare alike against any field value.
proof fn lemma_value_equiv_compare(op: ConditionOp, f: FieldValue, x: FieldValue, y: FieldValue)
    requires
        value_equiv(x, y),
    ensures
        crate::condition::spec_compare(op, f, x) == crate::condition::spec_compare(op, f, y),
{
    lemma_value_equiv_values_equal(f, x, y);
    match (x, y) {
        (FieldValue::Array(xs), FieldValue::Array(ys)) => {
            assert(crate::condition::spec_in(f, x) == crate::condition::spec_in(f, y)) by {
                if crate::condition::spec_in(f, x) {
                    let i = choose|i: int|
                        0 <= i < xs@.len() && spec_values_equal(
                            f,
                            FieldValue::Text(#[trigger] xs@[i]),
                        );
                    assert(value_equiv(FieldValue::Text(xs@[i]), FieldValue::Text(ys@[i])));
                    lemma_value_equiv_values_equal(f, FieldValue::Text(xs@[i]), FieldValue::Text(ys@[i]));
                    assert(spec_values_equal(f, FieldValue::Text(ys@[i])));
                }
                if crate::condition::spec_in(f, y) {
                    let i = choose|i: int|
                        0 <= i < ys@.len() && spec_values_equal(
                            f,
                            FieldValue::Text(#[trigger] ys@[i]),
                        );
                    assert(value_equiv(FieldValue::Text(xs@[i]), FieldValue::Text(ys@[i])));
                    lemma_value_equiv_values_equal(f, FieldValue::Text(xs@[i]), FieldValue::Text(ys@[i]));
                    assert(spec_values_equal(f, FieldValue::Text(xs@[i])));
                }
            }
            match f {
                FieldValue::Array(fa) => {
                    assert(crate::condition::spec_contains(f, x) == crate::condition::spec_contains(
                        f,
                        y,
                    ));
                },
                _ => (),
            }
        },
        _ => (),
    }
}

/// Equivalent expected values are equal to the same field values under
/// coercing equality.
proof fn lemma_value_equiv_values_equal(f: FieldValue, x: FieldValue, y: FieldValue)
    requires
        value_equiv(x, y),
    ensures
        spec_values_equal(f, x) == spec_values_equal(f, y),
{
    assert(crate::value::spec_as_number(x) == crate::value::spec_as_number(y));
    assert(crate::value::spec_as_str(x) == crate::value::spec_as_str(y));
    assert(crate::condition::spec_bool_read(x) == crate::condition::spec_bool_read(y));
    match (x, y) {
        (FieldValue::Array(xs), FieldValue::Array(ys)) => {
            match f {
                FieldValue::Array(fa) => {
                    lemma_arrays_pointwise(fa@, xs@, ys@);
                },
                _ => (),
            }
        },
        _ => (),
    }
}

/// Pointwise-equal string arrays compare alike against a third.
proof fn lemma_arrays_pointwise(fa: Seq<String>, xs: Seq<String>, ys: Seq<String>)
    requires
        xs.len() == ys.len(),
        forall|i: int| 0 <= i < xs.len() ==> xs[i]@ == #[trigger] ys[i]@,
    ensures
        crate::condition::spec_arrays_equal(fa, xs) == crate::condition::spec_arrays_equal(fa, ys),
{
    if crate::condition::spec_arrays_equal(fa, xs) {
        assert forall|i: int| 0 <= i < fa.len() implies fa[i]@ == #[trigger] ys[i]@ by {
            assert(fa[i]@ == xs[i]@);
        }
    }
    if crate::condition::spec_arrays_equal(fa, ys) {
        assert forall|i: int| 0 <= i < fa.len() implies fa[i]@ == #[trigger] xs[i]@ by {
            assert(fa[i]@ == ys[i]@);
        }
    }
}

/// Equivalent conditions evaluate alike on every data map.
pub proof fn lemma_equiv_same_eval(
    a: ConditionRule,
    b: ConditionRule,
    entries: Seq<(String, FieldValue)>,
)
    requires
        cond_equiv(a, b),
    ensures
        spec_eval(a, entries) == spec_eval(b, entries),
    decreases a,
{
    match (a, b) {
        (
            ConditionRule::Simple { field: f1, op: o1, value: v1 },
            ConditionRule::Simple { field: f2, op: o2, value: v2 },
        ) => {
            assert(crate::value::spec_get(entries, f1@) == crate::value::spec_get(entries, f2@));
            match (v1, v2) {
                (Some(x), Some(y)) => {
                    match crate::value::spec_get(entries, f1@) {
                        Some(fv) => {
                            lemma_value_equiv_compare(o1, fv, x, y);
                        },
                        None => (),
                    }
                },
                _ => (),
            }
        },
        (ConditionRule::And { and: a1 }, ConditionRule::And { and: a2 }) => {
            lemma_equiv_same_eval_all(a1@, a2@, entries);
        },
        (ConditionRule::Or { or: o1 }, ConditionRule::Or { or: o2 }) => {
            lemma_equiv_same_eval_any(o1@, o2@, entries);
        },
        _ => (),
    }
}

/// Pointwise-equivalent conjunction lists evaluate alike.
proof fn lemma_equiv_same_eval_all(
    cs1: Seq<ConditionRule>,
    cs2: Seq<ConditionRule>,
    entries: Seq<(String, FieldValue)>,
)
    requires
        cs1.len() == cs2.len(),
        forall|i: int| 0 <= i < cs1.len() ==> cond_equiv(#[trigger] cs1[i], cs2[i]),
    ensures
        spec_eval_all(cs1, entries) == spec_eval_all(cs2, entries),
    decreases cs1,
{
    if cs1.len() > 0 {
        lemma_equiv_same_eval(cs1[0], cs2[0], entries);
        assert(forall|i: int|
            0 <= i < cs1.len() - 1 ==> #[trigger] cs1.drop_first()[i] == cs1[i + 1]
                && cs2.drop_first()[i] == cs2[i + 1]);
        lemma_equiv_same_eval_all(cs1.drop_first(), cs2.drop_first(), entries);
    }
}

/// Pointwise-equivalent disjunction lists evaluate alike.
proof fn lemma_equiv_same_eval_any(
    cs1: Seq<ConditionRule>,
    cs2: Seq<ConditionRule>,
    entries: Seq<(String, FieldValue)>,
)
    requires
        cs1.len() == cs2.len(),
        forall|i: int| 0 <= i < cs1.len() ==> cond_equiv(#[trigger] cs1[i], cs2[i]),
    ensures
        spec_eval_any(cs1, entries) == spec_eval_any(cs2, entries),
    decreases cs1,
{
    if cs1.len() > 0 {
        lemma_equiv_same_eval(cs1[0], cs2[0], entries);
        assert(forall|i: int|
            0 <= i < cs1.len() - 1 ==> #[trigger] cs1.drop_first()[i] == cs1[i + 1]
                && cs2.drop_first()[i] == cs2[i + 1]);
        lemma_equiv_same_eval_any(cs1.drop_first(), cs2.drop_first(), entries);
    }
}

/// Writing a condition and reading the result back preserves its
/// meaning: any reading of the written tree evaluates as the condition
/// written did, on every data map.
pub proof fn lemma_wire_round_trip(
    c: ConditionRule,
    j: JsonValue,
    c2: ConditionRule,
    entries: Seq<(String, FieldValue)>,
)
    requires
        json_reads_as(j, c),
        json_reads_as(j, c2),
    ensures
        cond_equiv(c, c2),
        spec_eval(c, entries) == spec_eval(c2, entries),
{
    lemma_reads_functional(j, c, c2);
    lemma_equiv_same_eval(c, c2, entries);
}

impl ConditionOp {
    /// The canonical wire name of this operator.
    pub fn as_name(&self) -> (r: &'static str)
        ensures
            r@ == spec_op_name(*self),
    {
        match self {
            ConditionOp::Eq => "eq",
            ConditionOp::Neq => "neq",
            ConditionOp::Gt => "gt",
            ConditionOp::Gte => "gte",
            ConditionOp::Lt => "lt",
            ConditionOp::Lte => "lte",
            ConditionOp::Contains => "contains",
            ConditionOp::In => "in",
            ConditionOp::Empty => "empty",
            ConditionOp::NotEmpty => "not_empty",
        }
    }

    /// Reads an operator from its wire name, aliases accepted.
    pub fn from_name(s: &str) -> (r: Option<ConditionOp>)
        ensures
            r == spec_op_of(s@),
    {
        if str_eq(s, "eq") {
            Some(ConditionOp::Eq)
        } else if str_eq(s, "neq") || str_eq(s, "ne") {
            Some(ConditionOp::Neq)
        } else if str_eq(s, "gt") {
            Some(ConditionOp::Gt)
        } else if str_eq(s, "gte") {
            Some(ConditionOp::Gte)
        } else if str_eq(s, "lt") {
            Some(ConditionOp::Lt)
        } else if str_eq(s, "lte") {
            Some(ConditionOp::Lte)
        } else if str_eq(s, "contains") {
            Some(ConditionOp::Contains)
        } else if str_eq(s, "in") {
            Some(ConditionOp::In)
        } else if str_eq(s, "empty") || str_eq(s, "is_empty") {
            Some(ConditionOp::Empty)
        } else if str_eq(s, "not_empty") || str_eq(s, "is_not_empty") {
            Some(ConditionOp::NotEmpty)
        } else {
            None
        }
    }
}

/// Looking a name up finds the entry at `i` when it is the first so
/// named.
proof fn lemma_jassoc_at(fs: Seq<(String, JsonValue)>, i: int, k: Seq<char>)
    requires
        0 <= i < fs.len(),
        fs[i].0@ == k,
        forall|m: int| 0 <= m < i ==> fs[m].0@ != k,
    ensures
        jassoc(fs, k) == Some(fs[i].1),
    decreases i,
{
    if i > 0 {
        lemma_jassoc_at(fs.drop_first(), i - 1, k);
    }
}

/// Looking a name up finds nothing when no entry bears it.
proof fn lemma_jassoc_none(fs: Seq<(String, JsonValue)>, k: Seq<char>)
    requires
        forall|m: int| 0 <= m < fs.len() ==> fs[m].0@ != k,
    ensures
        jassoc(fs, k) is None,
    decreases fs.len(),
{
    if fs.len() > 0 {
        lemma_jassoc_none(fs.drop_first(), k);
    }
}

/// The first entry of a JSON object named `k`, if any.
#[verifier::loop_isolation(false)]
fn jlookup<'a>(fs: &'a Vec<(String, JsonValue)>, k: &str) -> (r: Option<&'a JsonValue>)
    ensures
        match r {
            Some(v) => jassoc(fs@, k@) == Some(*v),
            None => jassoc(fs@, k@) is None,
        },
{
    let mut i: usize = 0;
    proof {
        assert(fs@.skip(0) =~= fs@);
    }
    while i < fs.len()
        invariant
            0 <= i <= fs@.len(),
            jassoc(fs@.skip(i as int), k@) == jassoc(fs@, k@),
        decreases fs@.len() - i,
    {
        if str_eq(fs[i].0.as_str(), k) {
            proof {
                assert(fs@.skip(i as int)[0] == fs@[i as int]);
            }
            return Some(&fs[i].1);
        }
        proof {
            assert(fs@.skip(i as int).drop_first() =~= fs@.skip(i + 1));
        }
        i = i + 1;
    }
    None
}

/// Writes a condition in its wire form; the result reads back as the
/// condition written.
#[verifier::loop_isolation(false)]
pub fn condition_to_json(c: &ConditionRule) -> (r: JsonValue)
    ensures
        json_reads_as(r, *c),
    decreases *c,
{
    proof {
        reveal_strlit("field");
        reveal_strlit("op");
        reveal_strlit("value");
        reveal_strlit("and");
        reveal_strlit("or");
    }
    match c {
        ConditionRule::Simple { field, op, value } => {
            let mut fs: Vec<(String, JsonValue)> = Vec::new();
            fs.push(("field".to_owned(), JsonValue::Text(field.clone())));
            fs.push(("op".to_owned(), JsonValue::Text(op.as_name().to_owned())));
            match value {
                Some(v) => {
                    fs.push(("value".to_owned(), value_to_json(v)));
                },
                None => (),
            }
            proof {
                lemma_op_name_round_trip(*op);
                assert(!("field"@ =~= "op"@));
                assert("field"@[0] != "value"@[0]);
                assert(!("field"@ =~= "value"@));
                assert(!("op"@ =~= "value"@));
                lemma_jassoc_at(fs@, 0, "field"@);
                lemma_jassoc_at(fs@, 1, "op"@);
                if value is Some {
                    lemma_jassoc_at(fs@, 2, "value"@);
                } else {
                    lemma_jassoc_none(fs@, "value"@);
                }
            }
            JsonValue::Object(fs)
        },
        ConditionRule::And { and } => {
            let mut items: Vec<JsonValue> = Vec::new();
            let mut i: usize = 0;
            while i < and.len()
                invariant
                    0 <= i <= and@.len(),
                    items@.len() == i,
                    forall|k: int| 0 <= k < i ==> json_reads_as(#[trigger] items@[k], and@[k]),
                decreases and@.len() - i,
            {
                let child = condition_to_json(&and[i]);
                items.push(child);
                i = i + 1;
            }
            let mut fs: Vec<(String, JsonValue)> = Vec::new();
            fs.push(("and".to_owned(), JsonValue::Array(items)));
            JsonValue::Object(fs)
        },
        ConditionRule::Or { or } => {
            let mut items: Vec<JsonValue> = Vec::new();
            let mut i: usize = 0;
            while i < or.len()
                invariant
                    0 <= i <= or@.len(),
                    items@.len() == i,
                    forall|k: int| 0 <= k < i ==> json_reads_as(#[trigger] items@[k], or@[k]),
                decreases or@.len() - i,
            {
                let child = condition_to_json(&or[i]);
                items.push(child);
                i = i + 1;
            }
            let mut fs: Vec<(String, JsonValue)> = Vec::new();
            fs.push(("or".to_owned(), JsonValue::Array(items)));
            JsonValue::Object(fs)
        },
    }
}

/// Reads a condition from its wire form. Fails exactly on a tree that
/// denotes no condition under the grammar.
#[verifier::loop_isolation(false)]
#[verifier::rlimit(60)]
pub fn parse_condition(j: &JsonValue) -> (r: Option<ConditionRule>)
    ensures
        r matches Some(c) ==> json_reads_as(*j, c),
        r is None ==> forall|c: ConditionRule| !(#[trigger] json_reads_as(*j, c)),
    decreases *j,
{
    proof {
        reveal_strlit("field");
        reveal_strlit("op");
        reveal_strlit("value");
        reveal_strlit("and");
        reveal_strlit("or");
        assert("field"@.len() == 5);
        assert("op"@.len() == 2);
        assert("value"@.len() == 5);
        assert("and"@.len() == 3);
        assert("or"@.len() == 2);
    }
    match j {
        JsonValue::Object(fs) => {
            if fs.len() == 1 {
                let single_key = fs[0].0.as_str();
                let is_and = str_eq(single_key, "and");
                let is_or = str_eq(single_key, "or");
                if is_and || is_or {
                    match &fs[0].1 {
                        JsonValue::Array(items) => {
                            let mut children: Vec<ConditionRule> = Vec::new();
                            let mut i: usize = 0;
                            while i < items.len()
                                invariant
                                    0 <= i <= items@.len(),
                                    children@.len() == i,
                                    forall|k: int|
                                        0 <= k < i ==> json_reads_as(
                                            #[trigger] items@[k],
                                            children@[k],
                                        ),
                                decreases items@.len() - i,
                            {
                                match parse_condition(&items[i]) {
                                    Some(child) => {
                                        children.push(child);
                                    },
                                    None => {
                                        proof {
                                            let bad = i as int;
                                            assert forall|c: ConditionRule| !(#[trigger] json_reads_as(
                                                *j,
                                                c,
                                            )) by {
                                                match c {
                                                    ConditionRule::Simple { field, op, value } => {
                                                        if json_reads_as(*j, c) {
                                                            lemma_jassoc_none(fs@, "field"@);
                                                        }
                                                    },
                                                    ConditionRule::And { and } => {
                                                        if json_reads_as(*j, c) {
                                                            assert(json_reads_as(
                                                                items@[bad],
                                                                and@[bad],
                                                            ));
                                                        }
                                                    },
                                                    ConditionRule::Or { or } => {
                                                        if json_reads_as(*j, c) {
                                                            assert(json_reads_as(
                                                                items@[bad],
                                                                or@[bad],
                                                            ));
                                                        }
                                                    },
                                                }
                                            }
                                        }
                                        return None;
                                    },
                                }
                                i = i + 1;
                            }
                            if is_and {
                                let result = ConditionRule::And { and: children };
                                return Some(result);
                            }
                            let result = ConditionRule::Or { or: children };
                            return Some(result);
                        },
                        _ => {
                            proof {
                                assert forall|c: ConditionRule| !(#[trigger] json_reads_as(*j, c))
                                    by {
                                    match c {
                                        ConditionRule::Simple { field, op, value } => {
                                            if json_reads_as(*j, c) {
                                                lemma_jassoc_none(fs@, "field"@);
                                            }
                                        },
                                        _ => (),
                                    }
                                }
                            }
                            return None;
                        },
                    }
                }
            }
            // A comparison object: field, op, and possibly value;
            // anything else the object carries is ignored.
            let field_name: &String = match jlookup(fs, "field") {
                Some(JsonValue::Text(t)) => t,
                _ => {
                    proof {
                        assert(fs@.len() == 1 ==> fs@[0].0@ != "and"@ && fs@[0].0@ != "or"@);
                    }
                    return None;
                },
            };
            let op = match jlookup(fs, "op") {
                Some(JsonValue::Text(o)) => {
                    match ConditionOp::from_name(o.as_str()) {
                        Some(op) => op,
                        None => {
                            proof {
                                assert(fs@.len() == 1 ==> fs@[0].0@ != "and"@ && fs@[0].0@
                                    != "or"@);
                            }
                            return None;
                        },
                    }
                },
                _ => {
                    proof {
                        assert(fs@.len() == 1 ==> fs@[0].0@ != "and"@ && fs@[0].0@ != "or"@);
                    }
                    return None;
                },
            };
            let value: Option<FieldValue> = match jlookup(fs, "value") {
                Some(jv) => {
                    match json_to_value(jv) {
                        Some(v) => Some(v),
                        None => {
                            proof {
                                assert(fs@.len() == 1 ==> fs@[0].0@ != "and"@ && fs@[0].0@
                                    != "or"@);
                            }
                            return None;
                        },
                    }
                },
                None => None,
            };
            let result = ConditionRule::Simple { field: field_name.clone(), op, value };
            proof {
                assert(fs@.len() == 1 ==> fs@[0].0@ != "and"@ && fs@[0].0@ != "or"@);
            }
            Some(result)
        },
        _ => {
            None
        },
    }
}

/// Writes an expected value in its wire form.
#[verifier::loop_isolation(false)]
pub fn value_to_json(v: &FieldValue) -> (r: JsonValue)
    ensures
        wire_value_rel(r, *v),
{
    match v {
        FieldValue::Null => JsonValue::Null,
        FieldValue::Bool(b) => JsonValue::Bool(*b),
        FieldValue::Number(n) => JsonValue::Number(*n),
        FieldValue::Text(s) => JsonValue::Text(s.clone()),
        FieldValue::Array(xs) => {
            let mut items: Vec<JsonValue> = Vec::new();
            let mut i: usize = 0;
            while i < xs.len()
                invariant
                    0 <= i <= xs@.len(),
                    items@.len() == i,
                    forall|k: int| 0 <= k < i ==> wire_elem_rel(#[trigger] items@[k], xs@[k]@),
                decreases xs@.len() - i,
            {
                items.push(JsonValue::Text(xs[i].clone()));
                i = i + 1;
            }
            JsonValue::Array(items)
        },
    }
}

/// Reads an expected value from its wire form; fails on a tree no value
/// has as its wire form.
#[verifier::loop_isolation(false)]
pub fn json_to_value(j: &JsonValue) -> (r: Option<FieldValue>)
    ensures
        r matches Some(v) ==> wire_value_rel(*j, v),
        r is None ==> forall|v: FieldValue| !wire_value_rel(*j, v),
{
    match j {
        JsonValue::Null => Some(FieldValue::Null),
        JsonValue::Bool(b) => Some(FieldValue::Bool(*b)),
        JsonValue::Number(n) => Some(FieldValue::Number(*n)),
        JsonValue::Text(s) => Some(FieldValue::Text(s.clone())),
        JsonValue::Array(items) => {
            let mut xs: Vec<String> = Vec::new();
            let mut i: usize = 0;
            while i < items.len()
                invariant
                    0 <= i <= items@.len(),
                    xs@.len() == i,
                    forall|k: int| 0 <= k < i ==> wire_elem_rel(#[trigger] items@[k], xs@[k]@),
                decreases items@.len() - i,
            {
                match &items[i] {
                    JsonValue::Text(t) => {
                        xs.push(t.clone());
                    },
                    JsonValue::Number(n) => {
                        xs.push(n.to_decimal_string());
                    },
                    JsonValue::Bool(b) => {
                        if *b {
                            xs.push("true".to_owned());
                        } else {
                            xs.push("false".to_owned());
                        }
                    },
                    JsonValue::Null => {
                        xs.push("null".to_owned());
                    },
                    _ => {
                        proof {
                            let witness = i as int;
                            assert forall|v: FieldValue| !wire_value_rel(*j, v) by {
                                match v {
                                    FieldValue::Array(vs) => {
                                        if items@.len() == vs@.len() {
                                            assert(!wire_elem_rel(items@[witness], vs@[witness]@));
                                        }
                                    },
                                    _ => (),
                                }
                            }
                        }
                        return None;
                    },
                }
                i = i + 1;
            }
            Some(FieldValue::Array(xs))
        },
        JsonValue::Object(_) => None,
    }
}

} // verus!
