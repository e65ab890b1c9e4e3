//! Stable sorting by a rank and a name.

use vstd::prelude::*;

use crate::util::text::{
    is_less, law_text_less_is_irreflexive, law_text_less_is_total, law_text_less_is_transitive,
    text_less,
};

verus! {

/// What something is sorted by: its rank first and its name second.
pub struct ListKey {
    pub rank: int,
    pub name: Seq<char>,
}

/// Something that can be sorted.
pub trait Listed {
    spec fn list_key(&self) -> ListKey;

    fn get_rank(&self) -> (rank: u8)
        ensures
            rank == self.list_key().rank,
    ;

    fn get_name(&self) -> (name: &str)
        ensures
            name@ == self.list_key().name,
    ;
}

pub open spec fn key_less(a: ListKey, b: ListKey) -> bool {
    a.rank < b.rank || a.rank == b.rank && text_less(a.name, b.name)
}

/// What is at `i` comes before what is at `j`; equal keys keep their order.
pub open spec fn comes_before(keys: Seq<ListKey>, i: int, j: int) -> bool {
    key_less(keys[i], keys[j]) || !key_less(keys[j], keys[i]) && i < j
}

/// `order` gives the places of the keys in sorted order. As no place comes before itself, each
/// place occurs once.
pub open spec fn is_stable_order(keys: Seq<ListKey>, order: Seq<int>) -> bool {
    &&& order.len() == keys.len()
    &&& forall|i: int| 0 <= i < order.len() ==> 0 <= #[trigger] order[i] < keys.len()
    &&& forall|i: int, j: int|
        0 <= i < j < order.len() ==> comes_before(keys, #[trigger] order[i], #[trigger] order[j])
}

/// The items at the given places.
pub open spec fn reordered<T>(items: Seq<T>, order: Seq<int>) -> Seq<T> {
    Seq::new(order.len(), |i: int| items[order[i]])
}

pub open spec fn list_keys<T: Listed>(items: Seq<T>) -> Seq<ListKey> {
    Seq::new(items.len(), |i: int| items[i].list_key())
}

/// A key that is not less than another one is not less than what is not less than that one.
proof fn lemma_not_less_is_transitive(a: ListKey, b: ListKey, c: ListKey)
    requires
        !key_less(b, a),
        !key_less(c, b),
    ensures
        !key_less(c, a),
{
    law_text_less_is_total(a.name, b.name);
    law_text_less_is_total(b.name, c.name);
    law_text_less_is_irreflexive(a.name);
    if key_less(c, a) && a.rank == b.rank && b.rank == c.rank {
        if text_less(a.name, b.name) {
            law_text_less_is_transitive(c.name, a.name, b.name);
        }
    }
}

proof fn lemma_less_is_asymmetric(a: ListKey, b: ListKey)
    requires
        key_less(a, b),
    ensures
        !key_less(b, a),
{
    if key_less(b, a) && a.rank == b.rank {
        law_text_less_is_transitive(a.name, b.name, a.name);
        law_text_less_is_irreflexive(a.name);
    }
}

/// No place comes before itself, and of two places only one comes before the other.
proof fn lemma_comes_before_is_asymmetric(keys: Seq<ListKey>, i: int, j: int)
    requires
        comes_before(keys, i, j),
    ensures
        !comes_before(keys, j, i),
{
    if key_less(keys[i], keys[j]) {
        lemma_less_is_asymmetric(keys[i], keys[j]);
    }
}

/// A sorted order lists each place once.
pub proof fn law_order_has_no_duplicates(keys: Seq<ListKey>, order: Seq<int>)
    requires
        is_stable_order(keys, order),
    ensures
        order.no_duplicates(),
{
    assert forall|i: int, j: int| 0 <= i < order.len() && 0 <= j < order.len() && i != j implies
        order[i] != order[j] by {
        if i < j {
            lemma_comes_before_is_asymmetric(keys, order[i], order[j]);
        } else {
            lemma_comes_before_is_asymmetric(keys, order[j], order[i]);
        }
    }
}

fn is_listed_less<T: Listed>(a: &T, b: &T) -> (less: bool)
    ensures
        less == key_less(a.list_key(), b.list_key()),
{
    let a_rank: u8 = a.get_rank();
    let b_rank: u8 = b.get_rank();
    a_rank < b_rank || a_rank == b_rank && is_less(a.get_name(), b.get_name())
}

/// Where a new key belongs in a sorted order.
proof fn lemma_insert_in_order(keys: Seq<ListKey>, key: ListKey, order: Seq<int>, place: int)
    requires
        is_stable_order(keys, order),
        0 <= place <= order.len(),
        place > 0 ==> !key_less(key, keys[order[place - 1]]),
        forall|i: int| place <= i < order.len() ==> key_less(key, keys[#[trigger] order[i]]),
    ensures
        is_stable_order(keys.push(key), order.insert(place, keys.len() as int)),
{
    let count = keys.len() as int;
    let more = keys.push(key);
    let new_order = order.insert(place, count);
    assert forall|i: int| 0 <= i < place implies !key_less(key, keys[#[trigger] order[i]]) by {
        if i < place - 1 {
            assert(comes_before(keys, order[i], order[place - 1]));
            let last = keys[order[place - 1]];
            if key_less(keys[order[i]], last) {
                lemma_less_is_asymmetric(keys[order[i]], last);
            }
            lemma_not_less_is_transitive(keys[order[i]], last, key);
        }
    }
    assert forall|i: int, j: int| 0 <= i < j < new_order.len() implies comes_before(
        more,
        #[trigger] new_order[i],
        #[trigger] new_order[j],
    ) by {
        let oi = if i < place {
            i
        } else {
            i - 1
        };
        let oj = if j < place {
            j
        } else {
            j - 1
        };
        if i == place {
            assert(new_order[j] == order[oj]);
        } else if j == place {
            assert(new_order[i] == order[oi]);
        } else {
            assert(new_order[i] == order[oi]);
            assert(new_order[j] == order[oj]);
            assert(comes_before(keys, order[oi], order[oj]));
        }
    }
    assert forall|i: int| 0 <= i < new_order.len() implies 0 <= #[trigger] new_order[i]
        < more.len() by {
        if i < place {
            assert(new_order[i] == order[i]);
        } else if i > place {
            assert(new_order[i] == order[i - 1]);
        }
    }
}

/// Sorts the items by their keys. Items with equal keys stay in their order.
pub fn sort_listed<T: Listed>(items: Vec<T>) -> (sorted: Vec<T>)
    ensures
        exists|order: Seq<int>| #[trigger]
            is_stable_order(list_keys(items@), order) && sorted@ == reordered(items@, order),
{
    let ghost all = items@;
    let mut rest = items;
    let mut sorted: Vec<T> = Vec::new();
    let ghost mut order: Seq<int> = Seq::empty();
    while rest.len() > 0
        invariant
            order.len() + rest@.len() == all.len(),
            rest@ == all.skip(order.len() as int),
            sorted@ =~= reordered(all, order),
            is_stable_order(list_keys(all.take(order.len() as int)), order),
        decreases rest@.len(),
    {
        let ghost count = order.len() as int;
        let ghost keys = list_keys(all.take(count));
        let item = rest.remove(0);
        assert(item == all[count]);
        let mut place: usize = sorted.len();
        while place > 0 && is_listed_less(&item, &sorted[place - 1])
            invariant
                place <= sorted@.len(),
                forall|i: int|
                    place <= i < sorted@.len() ==> key_less(
                        item.list_key(),
                        (#[trigger] sorted@[i]).list_key(),
                    ),
            decreases place,
        {
            place -= 1;
        }
        let ghost new_order = order.insert(place as int, count);
        proof {
            assert forall|i: int| 0 <= i < order.len() implies keys[#[trigger] order[i]]
                == sorted@[i].list_key() by {
            }
            lemma_insert_in_order(keys, item.list_key(), order, place as int);
            assert(keys.push(item.list_key()) =~= list_keys(all.take(count + 1)));
        }
        sorted.insert(place, item);
        proof {
            order = new_order;
            assert(rest@ =~= all.skip(count + 1));
        }
    }
    proof {
        assert(all.take(order.len() as int) =~= all);
        assert(is_stable_order(list_keys(all), order));
    }
    sorted
}

/// Sorting loses nothing and adds nothing. Lower ranks come first, names ascend within a rank, and what
/// has the same rank and name keeps its order.
pub proof fn law_sorted_items<T>(items: Seq<T>, keys: Seq<ListKey>, order: Seq<int>)
    requires
        keys.len() == items.len(),
        is_stable_order(keys, order),
    ensures
        reordered(items, order).len() == items.len(),
        order.no_duplicates(),
        forall|i: int|
            0 <= i < items.len() ==> 0 <= #[trigger] order[i] < items.len() && reordered(
                items,
                order,
            )[i] == items[order[i]],
        forall|i: int, j: int|
            0 <= i < j < items.len() ==> {
                let first = keys[#[trigger] order[i]];
                let second = keys[#[trigger] order[j]];
                &&& first.rank <= second.rank
                &&& first.rank == second.rank ==> !text_less(second.name, first.name)
                &&& first.rank == second.rank && first.name == second.name ==> order[i] < order[j]
            },
{
    law_order_has_no_duplicates(keys, order);
    assert forall|i: int, j: int| 0 <= i < j < items.len() implies {
        let first = keys[#[trigger] order[i]];
        let second = keys[#[trigger] order[j]];
        &&& first.rank <= second.rank
        &&& first.rank == second.rank ==> !text_less(second.name, first.name)
        &&& first.rank == second.rank && first.name == second.name ==> order[i] < order[j]
    } by {
        let first = keys[order[i]];
        let second = keys[order[j]];
        assert(comes_before(keys, order[i], order[j]));
        law_text_less_is_irreflexive(first.name);
        if text_less(first.name, second.name) && text_less(second.name, first.name) {
            law_text_less_is_transitive(first.name, second.name, first.name);
        }
    }
}

} // verus!
