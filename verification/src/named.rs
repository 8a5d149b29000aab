//! Things kept by name, in the order of the names.

use crate::text::{
    comes_before, lemma_before_total, lemma_before_transitive, same_text, text_before,
};
use vstd::prelude::*;

verus! {

/// The names are in order, and none occurs twice.
pub open spec fn by_name<V>(list: Seq<(String, V)>) -> bool {
    forall|i: int, j: int|
        0 <= i < j < list.len() ==> text_before(#[trigger] list[i].0@, #[trigger] list[j].0@)
}

/// Whether something has the name.
pub open spec fn has_name<V>(list: Seq<(String, V)>, name: Seq<char>) -> bool {
    exists|i: int| 0 <= i < list.len() && #[trigger] list[i].0@ == name
}

/// What has the name, if anything has.
pub open spec fn named<V>(list: Seq<(String, V)>, name: Seq<char>) -> Option<V> {
    if has_name(list, name) {
        Some(list[choose|i: int| 0 <= i < list.len() && #[trigger] list[i].0@ == name].1)
    } else {
        None
    }
}

/// `after` is `before` with `value` under `name`.
pub open spec fn put_in<V>(
    before: Seq<(String, V)>,
    name: Seq<char>,
    value: V,
    after: Seq<(String, V)>,
) -> bool {
    &&& by_name(after)
    &&& named(after, name) == Some(value)
    &&& forall|other: Seq<char>| other != name ==> #[trigger] named(after, other) == named(before, other)
}

/// `after` is `before` without `name`.
pub open spec fn taken_out<V>(
    before: Seq<(String, V)>,
    name: Seq<char>,
    after: Seq<(String, V)>,
) -> bool {
    &&& by_name(after)
    &&& named(after, name) is None
    &&& forall|other: Seq<char>| other != name ==> #[trigger] named(after, other) == named(before, other)
}

/// In a list by name, the item at `i` is the one with its name.
pub proof fn lemma_named_at<V>(list: Seq<(String, V)>, i: int)
    requires
        by_name(list),
        0 <= i < list.len(),
    ensures
        named(list, list[i].0@) == Some(list[i].1),
{
    let name = list[i].0@;
    assert(has_name(list, name));
    let k = choose|k: int| 0 <= k < list.len() && #[trigger] list[k].0@ == name;
    lemma_before_total(name, name);
    if k < i {
        assert(text_before(list[k].0@, list[i].0@));
    } else if i < k {
        assert(text_before(list[i].0@, list[k].0@));
    }
}

/// Finds what has a name.
pub fn find_named<'a, V>(list: &'a Vec<(String, V)>, name: &str) -> (r: Option<&'a V>)
    requires
        by_name(list@),
    ensures
        match r {
            Some(value) => named(list@, name@) == Some(*value),
            None => named(list@, name@) is None,
        },
{
    let mut i: usize = 0;
    while i < list.len()
        invariant
            i <= list@.len(),
            by_name(list@),
            forall|k: int| 0 <= k < i ==> #[trigger] list@[k].0@ != name@,
        decreases list@.len() - i,
    {
        if same_text(list[i].0.as_str(), name) {
            proof {
                lemma_named_at(list@, i as int);
            }
            return Some(&list[i].1);
        }
        i += 1;
    }
    None
}

/// The place of a name: those before it stand before the place.
fn place_of<V>(list: &Vec<(String, V)>, name: &str) -> (r: usize)
    requires
        by_name(list@),
    ensures
        r <= list@.len(),
        forall|i: int| 0 <= i < r ==> text_before(#[trigger] list@[i].0@, name@),
        forall|i: int| r <= i < list@.len() ==> !text_before(#[trigger] list@[i].0@, name@),
{
    let mut i: usize = 0;
    while i < list.len()
        invariant
            i <= list@.len(),
            by_name(list@),
            forall|k: int| 0 <= k < i ==> text_before(#[trigger] list@[k].0@, name@),
        decreases list@.len() - i,
    {
        if !comes_before(list[i].0.as_str(), name) {
            assert forall|k: int| i <= k < list@.len() implies !text_before(
                #[trigger] list@[k].0@,
                name@,
            ) by {
                if k > i && text_before(list@[k].0@, name@) {
                    lemma_before_transitive(list@[i as int].0@, list@[k].0@, name@);
                }
            }
            return i;
        }
        i += 1;
    }
    i
}

/// Takes what has a name out of the list.
pub fn take_out<V>(list: &mut Vec<(String, V)>, name: &str)
    requires
        by_name(old(list)@),
    ensures
        taken_out(old(list)@, name@, final(list)@),
{
    let ghost before = list@;
    let at = place_of(list, name);
    if at < list.len() && same_text(list[at].0.as_str(), name) {
        list.remove(at);
        proof {
            assert(list@ =~= before.remove(at as int));
            lemma_removed(before, at as int, name@);
        }
    } else {
        proof {
            assert forall|i: int| 0 <= i < before.len() implies #[trigger] before[i].0@ != name@ by {
                lemma_before_total(before[i].0@, name@);
                if i > at {
                    assert(text_before(before[at as int].0@, before[i].0@));
                    lemma_before_total(before[at as int].0@, name@);
                }
            }
            assert(!has_name(before, name@));
        }
    }
}

proof fn lemma_removed<V>(before: Seq<(String, V)>, at: int, name: Seq<char>)
    requires
        by_name(before),
        0 <= at < before.len(),
        before[at].0@ == name,
    ensures
        taken_out(before, name, before.remove(at)),
{
    let after = before.remove(at);
    assert forall|i: int, j: int| 0 <= i < j < after.len() implies text_before(
        #[trigger] after[i].0@,
        #[trigger] after[j].0@,
    ) by {
        let k = if i < at {
            i
        } else {
            i + 1
        };
        let l = if j < at {
            j
        } else {
            j + 1
        };
        assert(after[i] == before[k] && after[j] == before[l]);
        assert(text_before(before[k].0@, before[l].0@));
    }
    assert forall|i: int| 0 <= i < after.len() implies #[trigger] after[i].0@ != name by {
        let k = if i < at {
            i
        } else {
            i + 1
        };
        assert(after[i] == before[k]);
        lemma_before_total(before[k].0@, name);
        if k < at {
            assert(text_before(before[k].0@, before[at].0@));
        } else {
            assert(text_before(before[at].0@, before[k].0@));
        }
    }
    assert forall|other: Seq<char>| other != name implies #[trigger] named(after, other) == named(
        before,
        other,
    ) by {
        if has_name(before, other) {
            let k = choose|k: int| 0 <= k < before.len() && #[trigger] before[k].0@ == other;
            let i = if k < at {
                k
            } else {
                k - 1
            };
            assert(after[i] == before[k]);
            lemma_named_at(before, k);
            lemma_named_at(after, i);
        } else if has_name(after, other) {
            let i = choose|i: int| 0 <= i < after.len() && #[trigger] after[i].0@ == other;
            let k = if i < at {
                i
            } else {
                i + 1
            };
            assert(before[k].0@ == other);
        }
    }
}

/// Puts a value under a name.
pub fn put<V>(list: &mut Vec<(String, V)>, name: &str, value: V)
    requires
        by_name(old(list)@),
    ensures
        put_in(old(list)@, name@, value, final(list)@),
{
    take_out(list, name);
    let ghost before = list@;
    let at = place_of(list, name);
    let key = name.to_owned();
    list.insert(at, (key, value));
    proof {
        assert(list@ =~= before.insert(at as int, (key, value)));
        lemma_inserted(before, at as int, key, value);
    }
}

proof fn lemma_inserted<V>(before: Seq<(String, V)>, at: int, key: String, value: V)
    requires
        by_name(before),
        0 <= at <= before.len(),
        !has_name(before, key@),
        forall|i: int| 0 <= i < at ==> text_before(#[trigger] before[i].0@, key@),
        forall|i: int| at <= i < before.len() ==> !text_before(#[trigger] before[i].0@, key@),
    ensures
        put_in(before, key@, value, before.insert(at, (key, value))),
{
    let after = before.insert(at, (key, value));
    assert forall|i: int, j: int| 0 <= i < j < after.len() implies text_before(
        #[trigger] after[i].0@,
        #[trigger] after[j].0@,
    ) by {
        if i < at {
            assert(after[i] == before[i]);
        } else if i > at {
            assert(after[i] == before[i - 1]);
        }
        if j < at {
            assert(after[j] == before[j]);
        } else if j > at {
            assert(after[j] == before[j - 1]);
            lemma_before_total(before[j - 1].0@, key@);
        }
    }
    assert(after[at].0@ == key@);
    lemma_named_at(after, at);
    assert forall|other: Seq<char>| other != key@ implies #[trigger] named(after, other) == named(
        before,
        other,
    ) by {
        if has_name(before, other) {
            let k = choose|k: int| 0 <= k < before.len() && #[trigger] before[k].0@ == other;
            let i = if k < at {
                k
            } else {
                k + 1
            };
            assert(after[i] == before[k]);
            lemma_named_at(before, k);
            lemma_named_at(after, i);
        } else if has_name(after, other) {
            let i = choose|i: int| 0 <= i < after.len() && #[trigger] after[i].0@ == other;
            let k = if i < at {
                i
            } else {
                i - 1
            };
            assert(i != at);
            assert(before[k].0@ == other);
        }
    }
}

} // verus!
