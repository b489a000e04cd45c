//! Submitted field values.
//!
//! A value is a closed tagged union: text, a number, a boolean, an array
//! of strings, or null. Empty text and empty arrays are the same "absent"
//! state as null, and the constructors normalise them to `Null`. Coercions
//! to numbers and booleans are lossy and return `None` instead of failing.

use vstd::prelude::*;
use vstd::string::*;
use crate::num::{parse_decimal, Number};
use crate::text::{ascii_lower, eq_ascii_ci, str_eq};

verus! {

/// A value submitted for a form field.
#[derive(Debug, Clone)]
pub enum FieldValue {
    /// Text value.
    Text(String),
    /// Numeric value.
    Number(Number),
    /// Boolean value.
    Bool(bool),
    /// Array of values (for multi-select, checkboxes).
    Array(Vec<String>),
    /// Null/empty value.
    Null,
}

/// True when the value is the absent state: null, empty text, or an
/// empty array. Numbers and booleans are never empty.
pub open spec fn spec_is_empty(v: FieldValue) -> bool {
    match v {
        FieldValue::Text(s) => s@.len() == 0,
        FieldValue::Array(a) => a@.len() == 0,
        FieldValue::Null => true,
        FieldValue::Number(_) => false,
        FieldValue::Bool(_) => false,
    }
}

/// The text a value holds, if it is text.
pub open spec fn spec_as_str(v: FieldValue) -> Option<Seq<char>> {
    match v {
        FieldValue::Text(s) => Some(s@),
        _ => None,
    }
}

/// The scaled numeric reading of a value: a number directly, text through
/// the plain decimal grammar (no exponent notation), nothing else.
pub open spec fn spec_as_number(v: FieldValue) -> Option<int> {
    match v {
        FieldValue::Number(n) => Some(n.raw as int),
        FieldValue::Text(s) => parse_decimal(s@),
        _ => None,
    }
}

/// The boolean reading of a value: a boolean directly; a nonzero test for
/// a number; for text, the words true/1/yes/on and false/0/no/off, read
/// without regard to letter case.
pub open spec fn spec_as_bool(v: FieldValue) -> Option<bool> {
    match v {
        FieldValue::Bool(b) => Some(b),
        FieldValue::Number(n) => Some(n.raw != 0),
        FieldValue::Text(s) => {
            let l = ascii_lower(s@);
            if l == "true"@ || l == "1"@ || l == "yes"@ || l == "on"@ {
                Some(true)
            } else if l == "false"@ || l == "0"@ || l == "no"@ || l == "off"@ {
                Some(false)
            } else {
                None
            }
        },
        _ => None,
    }
}

/// The elements of an array value, joined by a comma and a space.
pub open spec fn join_comma(a: Seq<String>) -> Seq<char>
    decreases a.len(),
{
    if a.len() == 0 {
        Seq::empty()
    } else if a.len() == 1 {
        a[0]@
    } else {
        join_comma(a.drop_last()) + ", "@ + a.last()@
    }
}

/// The display text of a value: text itself, a number in decimal, a
/// boolean as a word, array elements joined by commas, nothing for null.
pub open spec fn spec_to_string_value(v: FieldValue) -> Seq<char> {
    match v {
        FieldValue::Text(s) => s@,
        FieldValue::Number(n) => crate::num::number_str(n.raw as int),
        FieldValue::Bool(b) => if b {
            "true"@
        } else {
            "false"@
        },
        FieldValue::Array(a) => join_comma(a@),
        FieldValue::Null => Seq::empty(),
    }
}

impl FieldValue {
    /// A text value, with empty text normalised to null.
    pub fn from_text(s: &str) -> (r: FieldValue)
        ensures
            s@.len() == 0 ==> r is Null,
            s@.len() > 0 ==> r is Text && spec_as_str(r) == Some(s@),
    {
        if s.is_empty() {
            FieldValue::Null
        } else {
            FieldValue::Text(s.to_owned())
        }
    }

    /// A text value from an owned string, with empty text normalised to
    /// null.
    pub fn from_string(s: String) -> (r: FieldValue)
        ensures
            s@.len() == 0 ==> r is Null,
            s@.len() > 0 ==> r == FieldValue::Text(s),
    {
        if s.as_str().is_empty() {
            FieldValue::Null
        } else {
            FieldValue::Text(s)
        }
    }

    /// An optional text value: absent or empty text is null.
    pub fn from_opt_string(s: Option<String>) -> (r: FieldValue)
        ensures
            match s {
                Some(x) => (x@.len() == 0 ==> r is Null) && (x@.len() > 0 ==> r
                    == FieldValue::Text(x)),
                None => r is Null,
            },
    {
        match s {
            Some(x) => FieldValue::from_string(x),
            None => FieldValue::Null,
        }
    }

    /// An array value, with an empty array normalised to null.
    pub fn from_vec(a: Vec<String>) -> (r: FieldValue)
        ensures
            a@.len() == 0 ==> r is Null,
            a@.len() > 0 ==> r == FieldValue::Array(a),
    {
        if a.len() == 0 {
            FieldValue::Null
        } else {
            FieldValue::Array(a)
        }
    }

    /// A boolean value.
    pub fn from_bool(b: bool) -> (r: FieldValue)
        ensures
            r == FieldValue::Bool(b),
    {
        FieldValue::Bool(b)
    }

    /// Returns the value as a string, if it is one.
    pub fn as_str(&self) -> (r: Option<&str>)
        ensures
            match r {
                Some(s) => spec_as_str(*self) == Some(s@),
                None => spec_as_str(*self) is None,
            },
    {
        match self {
            FieldValue::Text(s) => Some(s.as_str()),
            _ => None,
        }
    }

    /// Returns the value as a number, if one can be read from it.
    pub fn as_number(&self) -> (r: Option<Number>)
        ensures
            match r {
                Some(n) => spec_as_number(*self) == Some(n.raw as int),
                None => spec_as_number(*self) is None,
            },
    {
        match self {
            FieldValue::Number(n) => Some(*n),
            FieldValue::Text(s) => Number::parse(s.as_str()),
            _ => None,
        }
    }

    /// Returns the value as a boolean, if one can be read from it.
    pub fn as_bool(&self) -> (r: Option<bool>)
        ensures
            r == spec_as_bool(*self),
    {
        match self {
            FieldValue::Bool(b) => Some(*b),
            FieldValue::Number(n) => Some(n.raw != 0),
            FieldValue::Text(s) => {
                let st = s.as_str();
                if eq_ascii_ci(st, "true") || eq_ascii_ci(st, "1") || eq_ascii_ci(st, "yes")
                    || eq_ascii_ci(st, "on") {
                    proof {
                        lemma_keywords_lower();
                    }
                    Some(true)
                } else if eq_ascii_ci(st, "false") || eq_ascii_ci(st, "0") || eq_ascii_ci(st, "no")
                    || eq_ascii_ci(st, "off") {
                    proof {
                        lemma_keywords_lower();
                    }
                    Some(false)
                } else {
                    proof {
                        lemma_keywords_lower();
                    }
                    None
                }
            },
            FieldValue::Array(_) => None,
            FieldValue::Null => None,
        }
    }

    /// Returns the value as an array, if it is one.
    pub fn as_array(&self) -> (r: Option<&Vec<String>>)
        ensures
            match r {
                Some(a) => *self == FieldValue::Array(*a),
                None => !(*self is Array),
            },
    {
        match self {
            FieldValue::Array(a) => Some(a),
            _ => None,
        }
    }

    /// Returns true if the value is null or empty.
    pub fn is_empty(&self) -> (r: bool)
        ensures
            r == spec_is_empty(*self),
    {
        match self {
            FieldValue::Text(s) => s.as_str().is_empty(),
            FieldValue::Array(a) => a.len() == 0,
            FieldValue::Null => true,
            FieldValue::Number(_) => false,
            FieldValue::Bool(_) => false,
        }
    }

    /// Returns true if the value is null.
    pub fn is_null(&self) -> (r: bool)
        ensures
            r == (*self is Null),
    {
        match self {
            FieldValue::Null => true,
            _ => false,
        }
    }

    /// Returns the value as display text, converting if necessary.
    pub fn to_string_value(&self) -> (r: String)
        ensures
            r@ == spec_to_string_value(*self),
    {
        match self {
            FieldValue::Text(s) => s.clone(),
            FieldValue::Number(n) => n.to_decimal_string(),
            FieldValue::Bool(b) => if *b {
                "true".to_owned()
            } else {
                "false".to_owned()
            },
            FieldValue::Array(a) => join_comma_exec(a),
            FieldValue::Null => String::new(),
        }
    }
}

/// Joins string elements with a comma and a space.
#[verifier::loop_isolation(false)]
fn join_comma_exec(a: &Vec<String>) -> (r: String)
    ensures
        r@ == join_comma(a@),
{
    let mut acc = String::new();
    let mut i: usize = 0;
    proof {
        reveal_strlit(", ");
    }
    while i < a.len()
        invariant
            0 <= i <= a@.len(),
            acc@ == join_comma(a@.subrange(0, i as int)),
        decreases a@.len() - i,
    {
        if i > 0 {
            acc.append(", ");
        }
        acc.append(a[i].as_str());
        proof {
            let pre = a@.subrange(0, i as int);
            let post = a@.subrange(0, i + 1);
            assert(post.drop_last() =~= pre);
            assert(post.last() == a@[i as int]);
            if i == 0 {
                assert(acc@ =~= join_comma(post));
            } else {
                assert(acc@ =~= join_comma(post));
            }
        }
        i = i + 1;
    }
    proof {
        assert(a@.subrange(0, a@.len() as int) =~= a@);
    }
    acc
}

/// The eight boolean keywords are already lower case, so ASCII
/// lowercasing leaves them as they stand.
proof fn lemma_keywords_lower()
    ensures
        ascii_lower("true"@) == "true"@,
        ascii_lower("1"@) == "1"@,
        ascii_lower("yes"@) == "yes"@,
        ascii_lower("on"@) == "on"@,
        ascii_lower("false"@) == "false"@,
        ascii_lower("0"@) == "0"@,
        ascii_lower("no"@) == "no"@,
        ascii_lower("off"@) == "off"@,
{
    reveal_strlit("true");
    reveal_strlit("1");
    reveal_strlit("yes");
    reveal_strlit("on");
    reveal_strlit("false");
    reveal_strlit("0");
    reveal_strlit("no");
    reveal_strlit("off");
    assert(ascii_lower("true"@) =~= "true"@);
    assert(ascii_lower("1"@) =~= "1"@);
    assert(ascii_lower("yes"@) =~= "yes"@);
    assert(ascii_lower("on"@) =~= "on"@);
    assert(ascii_lower("false"@) =~= "false"@);
    assert(ascii_lower("0"@) =~= "0"@);
    assert(ascii_lower("no"@) =~= "no"@);
    assert(ascii_lower("off"@) =~= "off"@);
}

/// Looks a key up in an association sequence; the earliest binding wins.
pub open spec fn spec_get(entries: Seq<(String, FieldValue)>, k: Seq<char>) -> Option<FieldValue>
    decreases entries.len(),
{
    if entries.len() == 0 {
        None
    } else if entries[0].0@ == k {
        Some(entries[0].1)
    } else {
        spec_get(entries.drop_first(), k)
    }
}

/// The submitted data: a mapping from field names (or field identifiers)
/// to values.
#[derive(Debug, Clone)]
pub struct ValueMap {
    /// The bindings, earliest first.
    pub entries: Vec<(String, FieldValue)>,
}

impl ValueMap {
    /// An empty map.
    pub fn new() -> (r: ValueMap)
        ensures
            r.entries@.len() == 0,
    {
        ValueMap { entries: Vec::new() }
    }

    /// Binds `k` to `v`, shadowing any earlier binding of `k`.
    pub fn insert(&mut self, k: String, v: FieldValue)
        ensures
            spec_get(final(self).entries@, k@) == Some(v),
            forall|k2: Seq<char>| k2 != k@ ==> #[trigger] spec_get(final(self).entries@, k2)
                == spec_get(old(self).entries@, k2),
    {
        self.entries.insert(0, (k, v));
        proof {
            assert(self.entries@.drop_first() =~= old(self).entries@);
        }
    }

    /// The value bound to `k`, if any.
    pub fn get(&self, k: &str) -> (r: Option<&FieldValue>)
        ensures
            match r {
                Some(v) => spec_get(self.entries@, k@) == Some(*v),
                None => spec_get(self.entries@, k@) is None,
            },
    {
        let mut i: usize = 0;
        proof {
            assert(self.entries@.skip(0) =~= self.entries@);
        }
        while i < self.entries.len()
            invariant
                0 <= i <= self.entries@.len(),
                spec_get(self.entries@.skip(i as int), k@) == spec_get(self.entries@, k@),
            decreases self.entries@.len() - i,
        {
            if str_eq(self.entries[i].0.as_str(), k) {
                proof {
                    assert(self.entries@.skip(i as int)[0] == self.entries@[i as int]);
                }
                return Some(&self.entries[i].1);
            }
            proof {
                assert(self.entries@.skip(i as int).drop_first() =~= self.entries@.skip(i + 1));
            }
            i = i + 1;
        }
        proof {
            assert(self.entries@.skip(i as int).len() == 0);
        }
        None
    }
}

} // verus!
