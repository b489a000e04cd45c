//! Validation error reports.
//!
//! A flat report maps field names to ordered lists of error messages;
//! a grouped report keys the same structure by step first. Both keep
//! insertion order, and both signal success by being empty.

use vstd::prelude::*;
use vstd::string::*;
use crate::text::str_eq;

verus! {

/// Validation errors mapped by field name.
#[derive(Debug)]
pub struct ValidationErrors {
    /// Errors keyed by field name, in first-insertion order; each field's
    /// messages in insertion order.
    pub errors: Vec<(String, Vec<String>)>,
}

/// The messages recorded for field `k`: the earliest binding wins.
pub open spec fn spec_err_get(s: Seq<(String, Vec<String>)>, k: Seq<char>) -> Option<
    Seq<Seq<char>>,
>
    decreases s.len(),
{
    if s.len() == 0 {
        None
    } else if s[0].0@ == k {
        Some(s[0].1.deep_view())
    } else {
        spec_err_get(s.drop_first(), k)
    }
}

/// The field names of a report, in order.
pub open spec fn spec_err_keys(s: Seq<(String, Vec<String>)>) -> Seq<Seq<char>> {
    Seq::new(s.len(), |i: int| s[i].0@)
}

/// Well-formedness of a flat report: field names distinct, no field with
/// an empty message list.
pub open spec fn spec_err_wf(s: Seq<(String, Vec<String>)>) -> bool {
    &&& forall|i: int, j: int| #![trigger s[i].0, s[j].0] 0 <= i < j < s.len() ==> s[i].0@
        != s[j].0@
    &&& forall|i: int| 0 <= i < s.len() ==> (#[trigger] s[i].1)@.len() > 0
}

/// Appending one message to a field's entry: a new one-message list when
/// the field had none.
pub open spec fn opt_append(a: Option<Seq<Seq<char>>>, m: Seq<char>) -> Option<Seq<Seq<char>>> {
    match a {
        Some(x) => Some(x.push(m)),
        None => Some(seq![m]),
    }
}

/// Concatenation of two optional message lists.
pub open spec fn merge2(a: Option<Seq<Seq<char>>>, b: Option<Seq<Seq<char>>>) -> Option<
    Seq<Seq<char>>,
> {
    match (a, b) {
        (Some(x), Some(y)) => Some(x + y),
        (Some(x), None) => Some(x),
        (None, Some(y)) => Some(y),
        (None, None) => None,
    }
}

/// Looking up `k` finds the entry at `i` when it is the first with that
/// name.
proof fn lemma_err_get_at(s: Seq<(String, Vec<String>)>, i: int, k: Seq<char>)
    requires
        0 <= i < s.len(),
        s[i].0@ == k,
        forall|j: int| 0 <= j < i ==> s[j].0@ != k,
    ensures
        spec_err_get(s, k) == Some(s[i].1.deep_view()),
    decreases i,
{
    if i > 0 {
        lemma_err_get_at(s.drop_first(), i - 1, k);
    }
}

/// Looking up `k` finds nothing when no entry bears that name.
proof fn lemma_err_get_none(s: Seq<(String, Vec<String>)>, k: Seq<char>)
    requires
        forall|j: int| 0 <= j < s.len() ==> s[j].0@ != k,
    ensures
        spec_err_get(s, k) is None,
    decreases s.len(),
{
    if s.len() > 0 {
        lemma_err_get_none(s.drop_first(), k);
    }
}

/// Replacing an entry by one with the same name leaves every other
/// name's lookup unchanged.
proof fn lemma_err_get_update_other(
    s: Seq<(String, Vec<String>)>,
    i: int,
    p: (String, Vec<String>),
    k: Seq<char>,
)
    requires
        0 <= i < s.len(),
        s[i].0@ == p.0@,
        k != p.0@,
    ensures
        spec_err_get(s.update(i, p), k) == spec_err_get(s, k),
    decreases s.len(),
{
    if i == 0 {
        assert(s.update(0, p).drop_first() =~= s.drop_first());
    } else {
        assert(s.update(i, p).drop_first() =~= s.drop_first().update(i - 1, p));
        lemma_err_get_update_other(s.drop_first(), i - 1, p, k);
    }
}

/// Appending an entry changes only the lookup of a name not yet bound.
proof fn lemma_err_get_push(s: Seq<(String, Vec<String>)>, p: (String, Vec<String>), k: Seq<char>)
    ensures
        spec_err_get(s.push(p), k) == (if spec_err_get(s, k) is Some {
            spec_err_get(s, k)
        } else if p.0@ == k {
            Some(p.1.deep_view())
        } else {
            None
        }),
    decreases s.len(),
{
    reveal_with_fuel(spec_err_get, 3);
    if s.len() == 0 {
        assert(s.push(p)[0] == p);
        assert(s.push(p).drop_first() =~= Seq::<(String, Vec<String>)>::empty());
        assert(spec_err_get(s, k) is None);
        if p.0@ == k {
            assert(spec_err_get(s.push(p), k) == Some(p.1.deep_view()));
        } else {
            assert(spec_err_get(s.push(p), k) is None);
        }
    } else {
        assert(s.push(p)[0] == s[0]);
        assert(s.push(p).drop_first() =~= s.drop_first().push(p));
        lemma_err_get_push(s.drop_first(), p, k);
        if s[0].0@ == k {
            assert(spec_err_get(s.push(p), k) == Some(s[0].1.deep_view()));
            assert(spec_err_get(s, k) == Some(s[0].1.deep_view()));
        } else {
            assert(spec_err_get(s.push(p), k) == spec_err_get(s.drop_first().push(p), k));
            assert(spec_err_get(s, k) == spec_err_get(s.drop_first(), k));
        }
    }
    assert(spec_err_get(s.push(p), k) =~= (if spec_err_get(s, k) is Some {
        spec_err_get(s, k)
    } else if p.0@ == k {
        Some(p.1.deep_view())
    } else {
        None
    }));
}

impl ValidationErrors {
    /// Creates a new empty `ValidationErrors`.
    pub fn new() -> (r: ValidationErrors)
        ensures
            r.errors@.len() == 0,
            spec_err_wf(r.errors@),
            forall|k: Seq<char>| #[trigger] spec_err_get(r.errors@, k) is None,
    {
        ValidationErrors { errors: Vec::new() }
    }

    /// Returns true if there are no validation errors.
    pub fn is_empty(&self) -> (r: bool)
        ensures
            r == (self.errors@.len() == 0),
    {
        self.errors.len() == 0
    }

    /// Returns the number of fields with errors.
    pub fn len(&self) -> (r: usize)
        ensures
            r == self.errors@.len(),
    {
        self.errors.len()
    }

    /// Gets errors for a specific field.
    #[verifier::loop_isolation(false)]
    pub fn get(&self, field: &str) -> (r: Option<&Vec<String>>)
        ensures
            match r {
                Some(v) => spec_err_get(self.errors@, field@) == Some(v.deep_view()),
                None => spec_err_get(self.errors@, field@) is None,
            },
    {
        let mut i: usize = 0;
        proof {
            assert(self.errors@.skip(0) =~= self.errors@);
        }
        while i < self.errors.len()
            invariant
                0 <= i <= self.errors@.len(),
                spec_err_get(self.errors@.skip(i as int), field@) == spec_err_get(
                    self.errors@,
                    field@,
                ),
            decreases self.errors@.len() - i,
        {
            if str_eq(self.errors[i].0.as_str(), field) {
                proof {
                    assert(self.errors@.skip(i as int)[0] == self.errors@[i as int]);
                }
                return Some(&self.errors[i].1);
            }
            proof {
                assert(self.errors@.skip(i as int).drop_first() =~= self.errors@.skip(i + 1));
            }
            i = i + 1;
        }
        None
    }

    /// Adds an error message for a field, appending to any messages the
    /// field already has.
    #[verifier::loop_isolation(false)]
    pub fn add(&mut self, field: &str, message: &str)
        ensures
            spec_err_get(final(self).errors@, field@) == opt_append(
                spec_err_get(old(self).errors@, field@),
                message@,
            ),
            forall|k2: Seq<char>| k2 != field@ ==> #[trigger] spec_err_get(final(self).errors@, k2)
                == spec_err_get(old(self).errors@, k2),
            spec_err_keys(final(self).errors@) == (if spec_err_get(old(self).errors@, field@)
                is Some {
                spec_err_keys(old(self).errors@)
            } else {
                spec_err_keys(old(self).errors@).push(field@)
            }),
            spec_err_wf(old(self).errors@) ==> spec_err_wf(final(self).errors@),
            final(self).errors@.len() >= old(self).errors@.len(),
    {
        let ghost olds = self.errors@;
        let mut i: usize = 0;
        while i < self.errors.len()
            invariant
                0 <= i <= self.errors@.len(),
                self.errors@ == olds,
                forall|j: int| 0 <= j < i ==> olds[j].0@ != field@,
            decreases self.errors@.len() - i,
        {
            if str_eq(self.errors[i].0.as_str(), field) {
                let mut pair = self.errors.remove(i);
                pair.1.push(message.to_owned());
                self.errors.insert(i, pair);
                proof {
                    let news = self.errors@;
                    let p = news[i as int];
                    assert(news =~= olds.update(i as int, p));
                    assert(p.0@ == field@);
                    assert(p.1.deep_view() =~= olds[i as int].1.deep_view().push(message@));
                    lemma_err_get_at(olds, i as int, field@);
                    lemma_err_get_at(news, i as int, field@);
                    assert forall|k2: Seq<char>| k2 != field@ implies #[trigger] spec_err_get(
                        news,
                        k2,
                    ) == spec_err_get(olds, k2) by {
                        lemma_err_get_update_other(olds, i as int, p, k2);
                    }
                    assert(spec_err_keys(news) =~= spec_err_keys(olds));
                }
                return;
            }
            i = i + 1;
        }
        let mut msgs: Vec<String> = Vec::new();
        msgs.push(message.to_owned());
        self.errors.push((field.to_owned(), msgs));
        proof {
            let news = self.errors@;
            let p = news.last();
            assert(news =~= olds.push(p));
            assert(p.0@ == field@);
            assert(p.1.deep_view() =~= seq![message@]);
            lemma_err_get_none(olds, field@);
            lemma_err_get_push(olds, p, field@);
            assert forall|k2: Seq<char>| k2 != field@ implies #[trigger] spec_err_get(news, k2)
                == spec_err_get(olds, k2) by {
                lemma_err_get_push(olds, p, k2);
            }
            assert(spec_err_keys(news) =~= spec_err_keys(olds).push(field@));
            if spec_err_wf(olds) {
                assert forall|a: int, b: int| 0 <= a < b < news.len() implies news[a].0@
                    != news[b].0@ by {
                    if b == news.len() - 1 {
                        assert(olds[a].0@ != field@);
                    }
                }
                assert(spec_err_wf(news));
            }
        }
    }

    /// Appends a batch of messages for one field, in order.
    #[verifier::loop_isolation(false)]
    pub fn add_list(&mut self, field: &str, msgs: &Vec<String>)
        ensures
            forall|k: Seq<char>| #[trigger] spec_err_get(final(self).errors@, k) == merge2(
                spec_err_get(old(self).errors@, k),
                (if field@ == k && msgs.deep_view().len() > 0 {
                    Some(msgs.deep_view())
                } else {
                    None
                }),
            ),
            spec_err_wf(old(self).errors@) ==> spec_err_wf(final(self).errors@),
            final(self).errors@.len() >= old(self).errors@.len(),
    {
        let ghost pre = self.errors@;
        let ghost key = field@;
        let ghost ms = msgs.deep_view();
        let mut j: usize = 0;
        while j < msgs.len()
            invariant
                0 <= j <= ms.len(),
                ms == msgs.deep_view(),
                spec_err_get(self.errors@, key) == opt_append_all(
                    spec_err_get(pre, key),
                    ms.take(j as int),
                ),
                forall|k2: Seq<char>| k2 != key ==> #[trigger] spec_err_get(self.errors@, k2)
                    == spec_err_get(pre, k2),
                spec_err_wf(pre) ==> spec_err_wf(self.errors@),
                self.errors@.len() >= pre.len(),
            decreases ms.len() - j,
        {
            let msg = msgs[j].as_str();
            proof {
                assert(msg@ == ms[j as int]);
            }
            self.add(field, msg);
            proof {
                assert(ms.take(j + 1).drop_last() =~= ms.take(j as int));
                assert(ms.take(j + 1).last() == ms[j as int]);
                lemma_opt_append_all_step(spec_err_get(pre, key), ms.take(j + 1));
            }
            j = j + 1;
        }
        proof {
            assert(ms.take(ms.len() as int) =~= ms);
            if ms.len() > 0 {
                lemma_opt_append_all_merge(spec_err_get(pre, key), ms);
            }
            assert forall|k: Seq<char>| #[trigger] spec_err_get(self.errors@, k) == merge2(
                spec_err_get(pre, k),
                (if field@ == k && ms.len() > 0 {
                    Some(ms)
                } else {
                    None
                }),
            ) by {
                if k == key && ms.len() == 0 {
                    assert(spec_err_get(self.errors@, k) == spec_err_get(pre, k));
                }
            }
        }
    }

    /// Appends every entry of `entries` into this report, message by
    /// message, fields in order.
    #[verifier::loop_isolation(false)]
    pub(crate) fn add_all(&mut self, entries: &Vec<(String, Vec<String>)>)
        requires
            spec_err_wf(entries@),
        ensures
            forall|k: Seq<char>| #[trigger] spec_err_get(final(self).errors@, k) == merge2(
                spec_err_get(old(self).errors@, k),
                spec_err_get(entries@, k),
            ),
            spec_err_wf(old(self).errors@) ==> spec_err_wf(final(self).errors@),
            final(self).errors@.len() >= old(self).errors@.len(),
    {
        let ghost olds = self.errors@;
        let mut i: usize = 0;
        proof {
            assert forall|k: Seq<char>| #[trigger] spec_err_get(self.errors@, k) == merge2(
                spec_err_get(olds, k),
                spec_err_get(entries@.take(0), k),
            ) by {
                assert(entries@.take(0) =~= Seq::<(String, Vec<String>)>::empty());
            }
        }
        while i < entries.len()
            invariant
                0 <= i <= entries@.len(),
                forall|k: Seq<char>| #[trigger] spec_err_get(self.errors@, k) == merge2(
                    spec_err_get(olds, k),
                    spec_err_get(entries@.take(i as int), k),
                ),
                spec_err_wf(olds) ==> spec_err_wf(self.errors@),
                self.errors@.len() >= olds.len(),
            decreases entries@.len() - i,
        {
            let ghost pre = self.errors@;
            let ghost key = entries@[i as int].0@;
            let ghost ms = entries@[i as int].1.deep_view();
            self.add_list(entries[i].0.as_str(), &entries[i].1);
            proof {
                assert(ms.len() == entries@[i as int].1@.len());
                assert(ms.len() > 0);
                assert(entries@.take(i + 1) =~= entries@.take(i as int).push(entries@[i as int]));
                assert forall|k: Seq<char>| #[trigger] spec_err_get(self.errors@, k) == merge2(
                    spec_err_get(olds, k),
                    spec_err_get(entries@.take(i + 1), k),
                ) by {
                    lemma_err_get_push(entries@.take(i as int), entries@[i as int], k);
                    if k == key {
                        assert forall|j2: int| 0 <= j2 < i implies entries@.take(i as int)[j2].0@
                            != key by {
                            assert(entries@[j2].0@ != entries@[i as int].0@);
                        }
                        lemma_err_get_none(entries@.take(i as int), key);
                        lemma_merge2_assoc(
                            spec_err_get(olds, k),
                            spec_err_get(entries@.take(i as int), k),
                            Some(ms),
                        );
                    }
                }
            }
            i = i + 1;
        }
        proof {
            assert(entries@.take(entries@.len() as int) =~= entries@);
        }
    }

    /// Merges another `ValidationErrors` into this one, appending its
    /// messages after any already recorded.
    pub fn merge(&mut self, other: ValidationErrors)
        requires
            spec_err_wf(other.errors@),
        ensures
            forall|k: Seq<char>| #[trigger] spec_err_get(final(self).errors@, k) == merge2(
                spec_err_get(old(self).errors@, k),
                spec_err_get(other.errors@, k),
            ),
            spec_err_wf(old(self).errors@) ==> spec_err_wf(final(self).errors@),
    {
        self.add_all(&other.errors);
    }
}

/// Validation errors grouped by step.
///
/// For multi-step forms, errors are organized by step ID, allowing
/// clients to display errors contextually within each step.
#[derive(Debug)]
pub struct StepValidationErrors {
    /// Errors keyed by step ID, in first-insertion order.
    pub steps: Vec<(String, ValidationErrors)>,
}

/// The flat report recorded for step `k`: the earliest binding wins.
pub open spec fn spec_step_get(s: Seq<(String, ValidationErrors)>, k: Seq<char>) -> Option<
    Seq<(String, Vec<String>)>,
>
    decreases s.len(),
{
    if s.len() == 0 {
        None
    } else if s[0].0@ == k {
        Some(s[0].1.errors@)
    } else {
        spec_step_get(s.drop_first(), k)
    }
}

/// The messages recorded for field `fk` within step `sk`.
pub open spec fn spec_step_field_get(
    s: Seq<(String, ValidationErrors)>,
    sk: Seq<char>,
    fk: Seq<char>,
) -> Option<Seq<Seq<char>>> {
    match spec_step_get(s, sk) {
        Some(inner) => spec_err_get(inner, fk),
        None => None,
    }
}

/// Well-formedness of a grouped report: step identifiers distinct, each
/// step's flat report well-formed and holding at least one field.
pub open spec fn spec_steps_wf(s: Seq<(String, ValidationErrors)>) -> bool {
    &&& forall|i: int, j: int| #![trigger s[i].0, s[j].0] 0 <= i < j < s.len() ==> s[i].0@
        != s[j].0@
    &&& forall|i: int| 0 <= i < s.len() ==> spec_err_wf((#[trigger] s[i].1).errors@)
    &&& forall|i: int| 0 <= i < s.len() ==> (#[trigger] s[i].1).errors@.len() > 0
}

/// Number of fields with errors in one flat report.
pub open spec fn spec_msg_count(e: Seq<(String, Vec<String>)>) -> int
    decreases e.len(),
{
    if e.len() == 0 {
        0
    } else {
        spec_msg_count(e.drop_last()) + e.last().1@.len()
    }
}

/// Total number of fields with errors across all steps.
pub open spec fn spec_field_count(s: Seq<(String, ValidationErrors)>) -> int
    decreases s.len(),
{
    if s.len() == 0 {
        0
    } else {
        spec_field_count(s.drop_last()) + s.last().1.errors@.len()
    }
}

/// Total number of error messages across all steps and fields.
pub open spec fn spec_error_count(s: Seq<(String, ValidationErrors)>) -> int
    decreases s.len(),
{
    if s.len() == 0 {
        0
    } else {
        spec_error_count(s.drop_last()) + spec_msg_count(s.last().1.errors@)
    }
}

/// The flattened messages of field `k`: the concatenation, in step
/// order, of what each step records for `k`.
pub open spec fn spec_flat_get(s: Seq<(String, ValidationErrors)>, k: Seq<char>) -> Option<
    Seq<Seq<char>>,
>
    decreases s.len(),
{
    if s.len() == 0 {
        None
    } else {
        merge2(spec_err_get(s[0].1.errors@, k), spec_flat_get(s.drop_first(), k))
    }
}

/// Concatenation of optional message lists is associative.
proof fn lemma_merge2_assoc(
    a: Option<Seq<Seq<char>>>,
    b: Option<Seq<Seq<char>>>,
    c: Option<Seq<Seq<char>>>,
)
    ensures
        merge2(a, merge2(b, c)) == merge2(merge2(a, b), c),
{
    match (a, b, c) {
        (Some(x), Some(y), Some(z)) => {
            assert(x + (y + z) =~= (x + y) + z);
        },
        _ => (),
    }
    assert(merge2(a, merge2(b, c)) =~~= merge2(merge2(a, b), c));
}

/// Appending one step to the group concatenates its messages last.
proof fn lemma_flat_get_push(
    s: Seq<(String, ValidationErrors)>,
    p: (String, ValidationErrors),
    k: Seq<char>,
)
    ensures
        spec_flat_get(s.push(p), k) == merge2(spec_flat_get(s, k), spec_err_get(p.1.errors@, k)),
    decreases s.len(),
{
    reveal_with_fuel(spec_flat_get, 3);
    if s.len() == 0 {
        assert(s.push(p)[0] == p);
        assert(s.push(p).drop_first() =~= Seq::<(String, ValidationErrors)>::empty());
        assert(spec_flat_get(s.push(p), k) =~~= merge2(
            spec_flat_get(s, k),
            spec_err_get(p.1.errors@, k),
        ));
    } else {
        assert(s.push(p)[0] == s[0]);
        assert(s.push(p).drop_first() =~= s.drop_first().push(p));
        lemma_flat_get_push(s.drop_first(), p, k);
        lemma_merge2_assoc(
            spec_err_get(s[0].1.errors@, k),
            spec_flat_get(s.drop_first(), k),
            spec_err_get(p.1.errors@, k),
        );
        assert(spec_flat_get(s.push(p), k) =~~= merge2(
            spec_flat_get(s, k),
            spec_err_get(p.1.errors@, k),
        ));
    }
}

/// Looking up step `k` finds the entry at `i` when it is the first with
/// that identifier.
proof fn lemma_step_get_at(s: Seq<(String, ValidationErrors)>, i: int, k: Seq<char>)
    requires
        0 <= i < s.len(),
        s[i].0@ == k,
        forall|j: int| 0 <= j < i ==> s[j].0@ != k,
    ensures
        spec_step_get(s, k) == Some(s[i].1.errors@),
    decreases i,
{
    if i > 0 {
        lemma_step_get_at(s.drop_first(), i - 1, k);
    }
}

/// Looking up step `k` finds nothing when no entry bears that
/// identifier.
proof fn lemma_step_get_none(s: Seq<(String, ValidationErrors)>, k: Seq<char>)
    requires
        forall|j: int| 0 <= j < s.len() ==> s[j].0@ != k,
    ensures
        spec_step_get(s, k) is None,
    decreases s.len(),
{
    if s.len() > 0 {
        lemma_step_get_none(s.drop_first(), k);
    }
}

/// Replacing a step entry by one with the same identifier leaves every
/// other step's lookup unchanged.
proof fn lemma_step_get_update_other(
    s: Seq<(String, ValidationErrors)>,
    i: int,
    p: (String, ValidationErrors),
    k: Seq<char>,
)
    requires
        0 <= i < s.len(),
        s[i].0@ == p.0@,
        k != p.0@,
    ensures
        spec_step_get(s.update(i, p), k) == spec_step_get(s, k),
    decreases s.len(),
{
    if i == 0 {
        assert(s.update(0, p).drop_first() =~= s.drop_first());
    } else {
        assert(s.update(i, p).drop_first() =~= s.drop_first().update(i - 1, p));
        lemma_step_get_update_other(s.drop_first(), i - 1, p, k);
    }
}

/// Appending a step entry changes only the lookup of an identifier not
/// yet bound.
proof fn lemma_step_get_push(
    s: Seq<(String, ValidationErrors)>,
    p: (String, ValidationErrors),
    k: Seq<char>,
)
    ensures
        spec_step_get(s.push(p), k) == (if spec_step_get(s, k) is Some {
            spec_step_get(s, k)
        } else if p.0@ == k {
            Some(p.1.errors@)
        } else {
            None
        }),
    decreases s.len(),
{
    reveal_with_fuel(spec_step_get, 3);
    if s.len() == 0 {
        assert(s.push(p)[0] == p);
        assert(s.push(p).drop_first() =~= Seq::<(String, ValidationErrors)>::empty());
    } else {
        assert(s.push(p)[0] == s[0]);
        assert(s.push(p).drop_first() =~= s.drop_first().push(p));
        lemma_step_get_push(s.drop_first(), p, k);
    }
    assert(spec_step_get(s.push(p), k) =~~= (if spec_step_get(s, k) is Some {
        spec_step_get(s, k)
    } else if p.0@ == k {
        Some(p.1.errors@)
    } else {
        None
    }));
}

impl StepValidationErrors {
    /// Creates new empty step validation errors.
    pub fn new() -> (r: StepValidationErrors)
        ensures
            r.steps@.len() == 0,
            spec_steps_wf(r.steps@),
            forall|k: Seq<char>| #[trigger] spec_step_get(r.steps@, k) is None,
    {
        StepValidationErrors { steps: Vec::new() }
    }

    /// Returns true if there are no validation errors.
    #[verifier::loop_isolation(false)]
    pub fn is_empty(&self) -> (r: bool)
        ensures
            r == (self.steps@.len() == 0 || (forall|i: int|
                0 <= i < self.steps@.len() ==> (#[trigger] self.steps@[i].1).errors@.len() == 0)),
    {
        let mut i: usize = 0;
        while i < self.steps.len()
            invariant
                0 <= i <= self.steps@.len(),
                forall|j: int| 0 <= j < i ==> (#[trigger] self.steps@[j].1).errors@.len() == 0,
            decreases self.steps@.len() - i,
        {
            if self.steps[i].1.len() != 0 {
                return false;
            }
            i = i + 1;
        }
        true
    }

    /// Returns the total number of fields with errors across all steps,
    /// saturating at the machine limit.
    #[verifier::loop_isolation(false)]
    pub fn field_count(&self) -> (r: usize)
        ensures
            spec_field_count(self.steps@) <= usize::MAX ==> r == spec_field_count(self.steps@),
            spec_field_count(self.steps@) > usize::MAX ==> r == usize::MAX,
    {
        let mut acc: usize = 0;
        let mut i: usize = 0;
        while i < self.steps.len()
            invariant
                0 <= i <= self.steps@.len(),
                spec_field_count(self.steps@.take(i as int)) <= usize::MAX ==> acc
                    == spec_field_count(self.steps@.take(i as int)),
                spec_field_count(self.steps@.take(i as int)) > usize::MAX ==> acc == usize::MAX,
                acc <= spec_field_count(self.steps@.take(i as int)),
            decreases self.steps@.len() - i,
        {
            let n = self.steps[i].1.len();
            proof {
                assert(self.steps@.take(i + 1).drop_last() =~= self.steps@.take(i as int));
                assert(self.steps@.take(i + 1).last() == self.steps@[i as int]);
                lemma_field_count_nonneg(self.steps@.take(i as int));
            }
            if usize::MAX - acc < n {
                acc = usize::MAX;
            } else {
                acc = acc + n;
            }
            i = i + 1;
        }
        proof {
            assert(self.steps@.take(self.steps@.len() as int) =~= self.steps@);
        }
        acc
    }

    /// Returns the total number of error messages across all fields,
    /// saturating at the machine limit.
    #[verifier::loop_isolation(false)]
    pub fn error_count(&self) -> (r: usize)
        ensures
            spec_error_count(self.steps@) <= usize::MAX ==> r == spec_error_count(self.steps@),
            spec_error_count(self.steps@) > usize::MAX ==> r == usize::MAX,
    {
        let mut acc: usize = 0;
        let mut i: usize = 0;
        while i < self.steps.len()
            invariant
                0 <= i <= self.steps@.len(),
                spec_error_count(self.steps@.take(i as int)) <= usize::MAX ==> acc
                    == spec_error_count(self.steps@.take(i as int)),
                spec_error_count(self.steps@.take(i as int)) > usize::MAX ==> acc == usize::MAX,
                acc <= spec_error_count(self.steps@.take(i as int)),
            decreases self.steps@.len() - i,
        {
            let n = msg_count(&self.steps[i].1);
            proof {
                assert(self.steps@.take(i + 1).drop_last() =~= self.steps@.take(i as int));
                assert(self.steps@.take(i + 1).last() == self.steps@[i as int]);
                lemma_error_count_nonneg(self.steps@.take(i as int));
            }
            if usize::MAX - acc < n {
                acc = usize::MAX;
            } else {
                acc = acc + n;
            }
            i = i + 1;
        }
        proof {
            assert(self.steps@.take(self.steps@.len() as int) =~= self.steps@);
        }
        acc
    }

    /// Adds an error for a field within a step.
    #[verifier::loop_isolation(false)]
    pub fn add(&mut self, step_id: &str, field: &str, message: &str)
        ensures
            spec_step_field_get(final(self).steps@, step_id@, field@) == opt_append(
                spec_step_field_get(old(self).steps@, step_id@, field@),
                message@,
            ),
            forall|sk: Seq<char>| sk != step_id@ ==> #[trigger] spec_step_get(
                final(self).steps@,
                sk,
            ) == spec_step_get(old(self).steps@, sk),
            forall|fk: Seq<char>| fk != field@ ==> #[trigger] spec_step_field_get(
                final(self).steps@,
                step_id@,
                fk,
            ) == spec_step_field_get(old(self).steps@, step_id@, fk),
            spec_step_get(final(self).steps@, step_id@) is Some,
            spec_steps_wf(old(self).steps@) ==> spec_steps_wf(final(self).steps@),
    {
        let ghost olds = self.steps@;
        let mut i: usize = 0;
        while i < self.steps.len()
            invariant
                0 <= i <= self.steps@.len(),
                self.steps@ == olds,
                forall|j: int| 0 <= j < i ==> olds[j].0@ != step_id@,
            decreases self.steps@.len() - i,
        {
            if str_eq(self.steps[i].0.as_str(), step_id) {
                let mut pair = self.steps.remove(i);
                pair.1.add(field, message);
                self.steps.insert(i, pair);
                proof {
                    let news = self.steps@;
                    let p = news[i as int];
                    assert(news =~= olds.update(i as int, p));
                    assert(p.0@ == step_id@);
                    lemma_step_get_at(olds, i as int, step_id@);
                    lemma_step_get_at(news, i as int, step_id@);
                    assert forall|sk: Seq<char>| sk != step_id@ implies #[trigger] spec_step_get(
                        news,
                        sk,
                    ) == spec_step_get(olds, sk) by {
                        lemma_step_get_update_other(olds, i as int, p, sk);
                    }
                }
                return;
            }
            i = i + 1;
        }
        let mut inner = ValidationErrors::new();
        inner.add(field, message);
        self.steps.push((step_id.to_owned(), inner));
        proof {
            let news = self.steps@;
            let p = news.last();
            assert(news =~= olds.push(p));
            assert(p.0@ == step_id@);
            lemma_step_get_none(olds, step_id@);
            lemma_step_get_push(olds, p, step_id@);
            assert forall|sk: Seq<char>| sk != step_id@ implies #[trigger] spec_step_get(news, sk)
                == spec_step_get(olds, sk) by {
                lemma_step_get_push(olds, p, sk);
            }
            if spec_steps_wf(olds) {
                assert forall|a: int, b: int| 0 <= a < b < news.len() implies news[a].0@
                    != news[b].0@ by {
                    if b == news.len() - 1 {
                        assert(olds[a].0@ != step_id@);
                    }
                }
                assert(spec_steps_wf(news));
            }
        }
    }

    /// Gets errors for a specific step.
    #[verifier::loop_isolation(false)]
    pub fn get_step(&self, step_id: &str) -> (r: Option<&ValidationErrors>)
        ensures
            match r {
                Some(v) => spec_step_get(self.steps@, step_id@) == Some(v.errors@),
                None => spec_step_get(self.steps@, step_id@) is None,
            },
    {
        let mut i: usize = 0;
        proof {
            assert(self.steps@.skip(0) =~= self.steps@);
        }
        while i < self.steps.len()
            invariant
                0 <= i <= self.steps@.len(),
                spec_step_get(self.steps@.skip(i as int), step_id@) == spec_step_get(
                    self.steps@,
                    step_id@,
                ),
            decreases self.steps@.len() - i,
        {
            if str_eq(self.steps[i].0.as_str(), step_id) {
                proof {
                    assert(self.steps@.skip(i as int)[0] == self.steps@[i as int]);
                }
                return Some(&self.steps[i].1);
            }
            proof {
                assert(self.steps@.skip(i as int).drop_first() =~= self.steps@.skip(i + 1));
            }
            i = i + 1;
        }
        None
    }

    /// Gets errors for a specific field within a step.
    pub fn get_field(&self, step_id: &str, field: &str) -> (r: Option<&Vec<String>>)
        ensures
            match r {
                Some(v) => spec_step_field_get(self.steps@, step_id@, field@) == Some(
                    v.deep_view(),
                ),
                None => spec_step_field_get(self.steps@, step_id@, field@) is None,
            },
    {
        match self.get_step(step_id) {
            Some(inner) => inner.get(field),
            None => None,
        }
    }

    /// Merges a flat report into one step's entry, appending its
    /// messages after any already recorded there; an empty report adds
    /// nothing.
    #[verifier::loop_isolation(false)]
    pub fn add_step_errors(&mut self, step_id: &str, inner: ValidationErrors)
        requires
            spec_err_wf(inner.errors@),
        ensures
            forall|fk: Seq<char>| #[trigger] spec_step_field_get(final(self).steps@, step_id@, fk)
                == merge2(
                spec_step_field_get(old(self).steps@, step_id@, fk),
                spec_err_get(inner.errors@, fk),
            ),
            forall|sk: Seq<char>| sk != step_id@ ==> #[trigger] spec_step_get(
                final(self).steps@,
                sk,
            ) == spec_step_get(old(self).steps@, sk),
            spec_steps_wf(old(self).steps@) ==> spec_steps_wf(final(self).steps@),
    {
        if inner.is_empty() {
            proof {
                assert forall|fk: Seq<char>| spec_err_get(inner.errors@, fk) is None by {
                    assert(inner.errors@.len() == 0);
                }
            }
            return;
        }
        let ghost olds = self.steps@;
        let mut i: usize = 0;
        while i < self.steps.len()
            invariant
                0 <= i <= self.steps@.len(),
                self.steps@ == olds,
                forall|j: int| 0 <= j < i ==> olds[j].0@ != step_id@,
            decreases self.steps@.len() - i,
        {
            if str_eq(self.steps[i].0.as_str(), step_id) {
                let mut pair = self.steps.remove(i);
                pair.1.add_all(&inner.errors);
                self.steps.insert(i, pair);
                proof {
                    let news = self.steps@;
                    let p = news[i as int];
                    assert(news =~= olds.update(i as int, p));
                    assert(p.0@ == step_id@);
                    lemma_step_get_at(olds, i as int, step_id@);
                    lemma_step_get_at(news, i as int, step_id@);
                    assert forall|sk: Seq<char>| sk != step_id@ implies #[trigger] spec_step_get(
                        news,
                        sk,
                    ) == spec_step_get(olds, sk) by {
                        lemma_step_get_update_other(olds, i as int, p, sk);
                    }
                }
                return;
            }
            i = i + 1;
        }
        self.steps.push((step_id.to_owned(), inner));
        proof {
            let news = self.steps@;
            let p = news.last();
            assert(news =~= olds.push(p));
            assert(p.0@ == step_id@);
            lemma_step_get_none(olds, step_id@);
            lemma_step_get_push(olds, p, step_id@);
            assert forall|sk: Seq<char>| sk != step_id@ implies #[trigger] spec_step_get(news, sk)
                == spec_step_get(olds, sk) by {
                lemma_step_get_push(olds, p, sk);
            }
            if spec_steps_wf(olds) {
                assert forall|a: int, b: int| 0 <= a < b < news.len() implies news[a].0@
                    != news[b].0@ by {
                    if b == news.len() - 1 {
                        assert(olds[a].0@ != step_id@);
                    }
                }
                assert(spec_steps_wf(news));
            }
        }
    }

    /// Converts to flat `ValidationErrors`, losing step grouping: each
    /// field's messages are concatenated in step order.
    #[verifier::loop_isolation(false)]
    pub fn flatten(&self) -> (r: ValidationErrors)
        requires
            spec_steps_wf(self.steps@),
        ensures
            forall|k: Seq<char>| #[trigger] spec_err_get(r.errors@, k) == spec_flat_get(
                self.steps@,
                k,
            ),
            spec_err_wf(r.errors@),
    {
        let mut result = ValidationErrors::new();
        let mut i: usize = 0;
        proof {
            assert forall|k: Seq<char>| #[trigger] spec_err_get(result.errors@, k)
                == spec_flat_get(self.steps@.take(0), k) by {
                assert(self.steps@.take(0) =~= Seq::<(String, ValidationErrors)>::empty());
            }
        }
        while i < self.steps.len()
            invariant
                0 <= i <= self.steps@.len(),
                forall|k: Seq<char>| #[trigger] spec_err_get(result.errors@, k) == spec_flat_get(
                    self.steps@.take(i as int),
                    k,
                ),
                spec_err_wf(result.errors@),
            decreases self.steps@.len() - i,
        {
            let ghost pre = result.errors@;
            result.add_all(&self.steps[i].1.errors);
            proof {
                assert(self.steps@.take(i + 1) =~= self.steps@.take(i as int).push(
                    self.steps@[i as int],
                ));
                assert forall|k: Seq<char>| #[trigger] spec_err_get(result.errors@, k)
                    == spec_flat_get(self.steps@.take(i + 1), k) by {
                    lemma_flat_get_push(
                        self.steps@.take(i as int),
                        self.steps@[i as int],
                        k,
                    );
                }
            }
            i = i + 1;
        }
        proof {
            assert(self.steps@.take(self.steps@.len() as int) =~= self.steps@);
        }
        result
    }
}

/// Number of error messages in one flat report, saturating at the
/// machine limit.
#[verifier::loop_isolation(false)]
fn msg_count(e: &ValidationErrors) -> (r: usize)
    ensures
        spec_msg_count(e.errors@) <= usize::MAX ==> r == spec_msg_count(e.errors@),
        spec_msg_count(e.errors@) > usize::MAX ==> r == usize::MAX,
{
    let mut acc: usize = 0;
    let mut i: usize = 0;
    while i < e.errors.len()
        invariant
            0 <= i <= e.errors@.len(),
            spec_msg_count(e.errors@.take(i as int)) <= usize::MAX ==> acc == spec_msg_count(
                e.errors@.take(i as int),
            ),
            spec_msg_count(e.errors@.take(i as int)) > usize::MAX ==> acc == usize::MAX,
            acc <= spec_msg_count(e.errors@.take(i as int)),
        decreases e.errors@.len() - i,
    {
        let n = e.errors[i].1.len();
        proof {
            assert(e.errors@.take(i + 1).drop_last() =~= e.errors@.take(i as int));
            assert(e.errors@.take(i + 1).last() == e.errors@[i as int]);
            lemma_msg_count_nonneg(e.errors@.take(i as int));
        }
        if usize::MAX - acc < n {
            acc = usize::MAX;
        } else {
            acc = acc + n;
        }
        i = i + 1;
    }
    proof {
        assert(e.errors@.take(e.errors@.len() as int) =~= e.errors@);
    }
    acc
}

/// Message counts are never negative.
proof fn lemma_msg_count_nonneg(e: Seq<(String, Vec<String>)>)
    ensures
        spec_msg_count(e) >= 0,
    decreases e.len(),
{
    if e.len() > 0 {
        lemma_msg_count_nonneg(e.drop_last());
    }
}

/// Field counts are never negative.
proof fn lemma_field_count_nonneg(s: Seq<(String, ValidationErrors)>)
    ensures
        spec_field_count(s) >= 0,
    decreases s.len(),
{
    if s.len() > 0 {
        lemma_field_count_nonneg(s.drop_last());
    }
}

/// Error counts are never negative.
proof fn lemma_error_count_nonneg(s: Seq<(String, ValidationErrors)>)
    ensures
        spec_error_count(s) >= 0,
    decreases s.len(),
{
    if s.len() > 0 {
        lemma_error_count_nonneg(s.drop_last());
        lemma_msg_count_nonneg(s.last().1.errors@);
    }
}

/// Core error type for the form engine.
#[derive(Debug)]
pub enum FormError {
    /// A form was not found.
    NotFound(String),
    /// A step was not found.
    StepNotFound(String),
    /// A field was not found.
    FieldNotFound(String),
    /// A submission failed validation.
    ValidationFailed(ValidationErrors),
    /// A multi-step submission failed validation.
    StepValidationFailed(StepValidationErrors),
    /// The persistence collaborator reported an error.
    Database(String),
    /// A stored field type name was not recognised.
    InvalidFieldType(String),
    /// A stored condition could not be evaluated.
    ConditionError(String),
    /// A file upload was rejected.
    FileUpload(String),
    /// Submitted form data was malformed.
    InvalidData(String),
    /// The form has been deleted.
    FormDeleted,
    /// A submission was not found.
    SubmissionNotFound(String),
}

impl FormError {
    /// Returns the HTTP status code for this error.
    pub fn status_code(&self) -> (r: u16)
        ensures
            (*self is NotFound || *self is StepNotFound || *self is FieldNotFound || *self
                is SubmissionNotFound) ==> r == 404,
            (*self is ValidationFailed || *self is StepValidationFailed || *self
                is InvalidFieldType || *self is InvalidData || *self is FileUpload) ==> r == 400,
            *self is FormDeleted ==> r == 410,
            (*self is Database || *self is ConditionError) ==> r == 500,
    {
        match self {
            FormError::NotFound(_)
            | FormError::StepNotFound(_)
            | FormError::FieldNotFound(_)
            | FormError::SubmissionNotFound(_) => 404,
            FormError::ValidationFailed(_)
            | FormError::StepValidationFailed(_)
            | FormError::InvalidFieldType(_)
            | FormError::InvalidData(_) => 400,
            FormError::FormDeleted => 410,
            FormError::Database(_) | FormError::ConditionError(_) => 500,
            FormError::FileUpload(_) => 400,
        }
    }

    /// Returns the error code string for this error.
    pub fn error_code(&self) -> (r: &'static str)
        ensures
            *self is NotFound ==> r@ == "FORM_NOT_FOUND"@,
            *self is StepNotFound ==> r@ == "STEP_NOT_FOUND"@,
            *self is FieldNotFound ==> r@ == "FIELD_NOT_FOUND"@,
            (*self is ValidationFailed || *self is StepValidationFailed) ==> r@
                == "VALIDATION_FAILED"@,
            *self is Database ==> r@ == "DATABASE_ERROR"@,
            *self is InvalidFieldType ==> r@ == "INVALID_FIELD_TYPE"@,
            *self is ConditionError ==> r@ == "CONDITION_ERROR"@,
            *self is FileUpload ==> r@ == "FILE_UPLOAD_ERROR"@,
            *self is InvalidData ==> r@ == "INVALID_DATA"@,
            *self is FormDeleted ==> r@ == "FORM_DELETED"@,
            *self is SubmissionNotFound ==> r@ == "SUBMISSION_NOT_FOUND"@,
    {
        match self {
            FormError::NotFound(_) => "FORM_NOT_FOUND",
            FormError::StepNotFound(_) => "STEP_NOT_FOUND",
            FormError::FieldNotFound(_) => "FIELD_NOT_FOUND",
            FormError::ValidationFailed(_) | FormError::StepValidationFailed(_) =>
                "VALIDATION_FAILED",
            FormError::Database(_) => "DATABASE_ERROR",
            FormError::InvalidFieldType(_) => "INVALID_FIELD_TYPE",
            FormError::ConditionError(_) => "CONDITION_ERROR",
            FormError::FileUpload(_) => "FILE_UPLOAD_ERROR",
            FormError::InvalidData(_) => "INVALID_DATA",
            FormError::FormDeleted => "FORM_DELETED",
            FormError::SubmissionNotFound(_) => "SUBMISSION_NOT_FOUND",
        }
    }
}

/// Appending each message of `ms` in turn.
pub open spec fn opt_append_all(a: Option<Seq<Seq<char>>>, ms: Seq<Seq<char>>) -> Option<
    Seq<Seq<char>>,
>
    decreases ms.len(),
{
    if ms.len() == 0 {
        a
    } else {
        opt_append(opt_append_all(a, ms.drop_last()), ms.last())
    }
}

/// Appending messages one more at a time unfolds from the right.
proof fn lemma_opt_append_all_step(a: Option<Seq<Seq<char>>>, ms: Seq<Seq<char>>)
    requires
        ms.len() > 0,
    ensures
        opt_append_all(a, ms) == opt_append(opt_append_all(a, ms.drop_last()), ms.last()),
{
}

/// Appending a nonempty batch of messages is concatenation.
proof fn lemma_opt_append_all_merge(a: Option<Seq<Seq<char>>>, ms: Seq<Seq<char>>)
    requires
        ms.len() > 0,
    ensures
        opt_append_all(a, ms) == merge2(a, Some(ms)),
    decreases ms.len(),
{
    reveal_with_fuel(opt_append_all, 3);
    if ms.len() == 1 {
        assert(ms.drop_last() =~= Seq::<Seq<char>>::empty());
        match a {
            Some(x) => {
                assert(x.push(ms[0]) =~= x + ms);
            },
            None => {
                assert(seq![ms[0]] =~= ms);
            },
        }
    } else {
        lemma_opt_append_all_merge(a, ms.drop_last());
        match merge2(a, Some(ms.drop_last())) {
            Some(y) => {
                assert(y.push(ms.last()) =~= y + seq![ms.last()]);
                match a {
                    Some(x) => {
                        assert((x + ms.drop_last()).push(ms.last()) =~= x + ms);
                    },
                    None => {
                        assert(ms.drop_last().push(ms.last()) =~= ms);
                    },
                }
            },
            None => {},
        }
    }
    assert(opt_append_all(a, ms) =~~= merge2(a, Some(ms)));
}

} // verus!
