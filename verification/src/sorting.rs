//! Lists in the order of a text that each item has.

use crate::text::{
    comes_before, lemma_before_total, lemma_before_transitive, text_before,
};
use vstd::multiset::Multiset;
use vstd::prelude::*;

verus! {

/// An item with a text by which lists of it are ordered.
pub trait Keyed: Sized {
    spec fn key(&self) -> Seq<char>;

    fn key_text(&self) -> (r: &str)
        ensures
            r@ == self.key(),
    ;
}

/// Whether the item with the key `a` may stand before the one with the key `b`.
pub open spec fn in_order(a: Seq<char>, b: Seq<char>, descending: bool) -> bool {
    if descending {
        a == b || text_before(b, a)
    } else {
        a == b || text_before(a, b)
    }
}

/// The list is ordered by key.
pub open spec fn ordered<T: Keyed>(list: Seq<T>, descending: bool) -> bool {
    forall|i: int, j: int|
        0 <= i < j < list.len() ==> in_order(
            #[trigger] list[i].key(),
            #[trigger] list[j].key(),
            descending,
        )
}

proof fn lemma_in_order_transitive(a: Seq<char>, b: Seq<char>, c: Seq<char>, descending: bool)
    requires
        in_order(a, b, descending),
        in_order(b, c, descending),
    ensures
        in_order(a, c, descending),
{
    if a != b && b != c {
        if descending {
            lemma_before_transitive(c, b, a);
        } else {
            lemma_before_transitive(a, b, c);
        }
    }
}

/// The items of `list` with the key `key`, in the order in which they stand there.
pub open spec fn with_key<T: Keyed>(list: Seq<T>, key: Seq<char>) -> Seq<T> {
    list.filter(|item: T| item.key() == key)
}

/// `r` holds the items of `list` in the order of their keys, and items with the
/// same key in the order in which they stand in `list`.
pub open spec fn sorted_from<T: Keyed>(list: Seq<T>, r: Seq<T>, descending: bool) -> bool {
    &&& ordered(r, descending)
    &&& r.to_multiset() == list.to_multiset()
    &&& forall|key: Seq<char>| #[trigger] with_key(r, key) == with_key(list, key)
}

proof fn lemma_with_key_add<T: Keyed>(a: Seq<T>, b: Seq<T>, key: Seq<char>)
    ensures
        with_key(a + b, key) == with_key(a, key) + with_key(b, key),
{
    Seq::filter_distributes_over_add(a, b, |item: T| item.key() == key);
}

proof fn lemma_with_key_one<T: Keyed>(item: T, key: Seq<char>)
    ensures
        with_key(seq![item], key) == if item.key() == key {
            seq![item]
        } else {
            Seq::<T>::empty()
        },
{
    let keep = |item: T| item.key() == key;
    let one = seq![item];
    reveal_with_fuel(Seq::filter, 2);
    assert(one.drop_last() =~= Seq::<T>::empty());
    assert(one.drop_last().filter(keep) =~= Seq::<T>::empty());
    assert(one.last() == item);
    assert(Seq::<T>::empty().push(item) =~= one);
    assert(one.filter(keep) =~= if keep(item) {
        one
    } else {
        Seq::<T>::empty()
    });
}

proof fn lemma_with_key_none<T: Keyed>(list: Seq<T>, key: Seq<char>)
    requires
        forall|i: int| 0 <= i < list.len() ==> #[trigger] list[i].key() != key,
    ensures
        with_key(list, key) == Seq::<T>::empty(),
    decreases list.len(),
{
    reveal(Seq::filter);
    if list.len() > 0 {
        assert(list.last() == list[list.len() - 1]);
        let rest = list.drop_last();
        assert forall|i: int| 0 <= i < rest.len() implies #[trigger] rest[i].key() != key by {
            assert(rest[i] == list[i]);
        }
        lemma_with_key_none(rest, key);
    }
}

/// What an item that is put before all items with its key does to the items
/// with a key.
proof fn lemma_with_key_insert<T: Keyed>(list: Seq<T>, at: int, item: T, key: Seq<char>)
    requires
        0 <= at <= list.len(),
        forall|i: int| 0 <= i < at ==> #[trigger] list[i].key() != item.key(),
    ensures
        with_key(list.insert(at, item), key) == with_key(seq![item], key) + with_key(list, key),
{
    let front = list.take(at);
    let back = list.skip(at);
    assert(list =~= front + back);
    assert(list.insert(at, item) =~= front + (seq![item] + back));
    lemma_with_key_add(front, back, key);
    lemma_with_key_add(front, seq![item] + back, key);
    lemma_with_key_add(seq![item], back, key);
    lemma_with_key_one(item, key);
    if item.key() == key {
        assert forall|i: int| 0 <= i < front.len() implies #[trigger] front[i].key() != key by {
            assert(front[i] == list[i]);
        }
        lemma_with_key_none(front, key);
    }
    assert(with_key(list.insert(at, item), key) =~= with_key(seq![item], key) + with_key(
        list,
        key,
    ));
}

/// Where an item with the key `key` goes in an ordered list: behind the items
/// that come before it.
fn place<T: Keyed>(list: &Vec<T>, key: &str, descending: bool) -> (r: usize)
    requires
        ordered(list@, descending),
    ensures
        r <= list@.len(),
        forall|i: int|
            0 <= i < r ==> in_order(#[trigger] list@[i].key(), key@, descending) && list@[i].key()
                != key@,
        forall|i: int|
            r <= i < list@.len() ==> in_order(key@, #[trigger] list@[i].key(), descending),
{
    let mut i: usize = 0;
    while i < list.len()
        invariant
            i <= list@.len(),
            ordered(list@, descending),
            forall|k: int|
                0 <= k < i ==> in_order(#[trigger] list@[k].key(), key@, descending)
                    && list@[k].key() != key@,
        decreases list@.len() - i,
    {
        let other = list[i].key_text();
        let before = if descending {
            comes_before(key, other)
        } else {
            comes_before(other, key)
        };
        proof {
            lemma_before_total(key@, other@);
        }
        if !before {
            assert forall|k: int| i <= k < list@.len() implies in_order(
                key@,
                #[trigger] list@[k].key(),
                descending,
            ) by {
                if k > i {
                    lemma_in_order_transitive(
                        key@,
                        list@[i as int].key(),
                        list@[k].key(),
                        descending,
                    );
                }
            }
            return i;
        }
        i += 1;
    }
    i
}

/// The items of `list` in the order of their keys. Items with the same key keep
/// their order.
pub fn sort_by_key<T: Keyed>(list: Vec<T>, descending: bool) -> (r: Vec<T>)
    ensures
        sorted_from(list@, r@, descending),
{
    let ghost given = list@;
    let mut rest = list;
    let mut out: Vec<T> = Vec::new();
    let ghost all = rest@.to_multiset();
    proof {
        out@.to_multiset_ensures();
        assert(out@.to_multiset() =~= Multiset::<T>::empty());
        assert(all =~= rest@.to_multiset().add(out@.to_multiset()));
        assert forall|key: Seq<char>| #[trigger] with_key(given, key) == with_key(rest@, key)
            + with_key(out@, key) by {
            lemma_with_key_none(out@, key);
            assert(with_key(rest@, key) + Seq::<T>::empty() =~= with_key(rest@, key));
        }
    }
    while rest.len() > 0
        invariant
            ordered(out@, descending),
            all == rest@.to_multiset().add(out@.to_multiset()),
            forall|key: Seq<char>| #[trigger]
                with_key(given, key) == with_key(rest@, key) + with_key(out@, key),
        decreases rest@.len(),
    {
        let ghost before = rest@;
        let ghost sorted = out@;
        match rest.pop() {
            Some(item) => {
                let at = place(&out, item.key_text(), descending);
                out.insert(at, item);
                proof {
                    assert(before =~= rest@.push(item));
                    rest@.to_multiset_ensures();
                    out@.to_multiset_ensures();
                    assert(out@[at as int] == item);
                    assert(out@.remove(at as int) =~= sorted);
                    assert(out@.contains(item));
                    assert(before.to_multiset() =~= rest@.to_multiset().insert(item));
                    assert(out@.to_multiset() =~= sorted.to_multiset().insert(item));
                    assert(all =~= rest@.to_multiset().add(out@.to_multiset()));
                    assert forall|key: Seq<char>| #[trigger] with_key(given, key) == with_key(
                        rest@,
                        key,
                    ) + with_key(out@, key) by {
                        assert(before =~= rest@ + seq![item]);
                        lemma_with_key_add(rest@, seq![item], key);
                        lemma_with_key_insert(sorted, at as int, item, key);
                        assert(with_key(rest@, key) + with_key(seq![item], key) + with_key(
                            sorted,
                            key,
                        ) =~= with_key(rest@, key) + with_key(out@, key));
                    }
                }
            },
            None => {},
        }
    }
    proof {
        rest@.to_multiset_ensures();
        assert(rest@.to_multiset() =~= Multiset::<T>::empty());
        assert(all =~= out@.to_multiset());
        assert forall|key: Seq<char>| #[trigger] with_key(out@, key) == with_key(given, key) by {
            lemma_with_key_none(rest@, key);
            assert(Seq::<T>::empty() + with_key(out@, key) =~= with_key(out@, key));
        }
    }
    out
}

} // verus!
