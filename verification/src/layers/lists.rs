//! Lists of identifiers.

use vstd::prelude::*;

use crate::layers::layer::{LayerCollectionId, LayerId};
use crate::util::string_map::StringMap;
use crate::util::text::same_text;

verus! {

/// An identifier is known by its text.
pub trait Identifier: Sized {
    spec fn text(&self) -> Seq<char>;

    fn as_text(&self) -> (text: &str)
        ensures
            text@ == self.text(),
    ;

    fn copy(&self) -> (copy: Self)
        ensures
            copy == *self,
    ;
}

impl Identifier for LayerId {
    open spec fn text(&self) -> Seq<char> {
        self@
    }

    fn as_text(&self) -> (text: &str) {
        self.0.as_str()
    }

    fn copy(&self) -> (copy: Self) {
        self.clone()
    }
}

impl Identifier for LayerCollectionId {
    open spec fn text(&self) -> Seq<char> {
        self@
    }

    fn as_text(&self) -> (text: &str) {
        self.0.as_str()
    }

    fn copy(&self) -> (copy: Self) {
        self.clone()
    }
}

/// The texts of identifiers.
pub open spec fn ids_view<I: Identifier>(ids: Seq<I>) -> Seq<Seq<char>> {
    Seq::new(ids.len(), |i: int| ids[i].text())
}

/// The texts of identifiers in lists.
pub open spec fn lists_view<I: Identifier>(lists: Map<Seq<char>, Vec<I>>) -> Map<
    Seq<char>,
    Seq<Seq<char>>,
> {
    lists.map_values(|list: Vec<I>| ids_view(list@))
}

/// The list of a key; a key without a list has nothing in it.
pub open spec fn list_at(lists: Map<Seq<char>, Seq<Seq<char>>>, key: Seq<char>) -> Seq<Seq<char>> {
    if lists.contains_key(key) {
        lists[key]
    } else {
        Seq::empty()
    }
}

/// The list of `key` has `id` in it.
pub open spec fn lists_in(
    lists: Map<Seq<char>, Seq<Seq<char>>>,
    key: Seq<char>,
    id: Seq<char>,
) -> bool {
    lists.contains_key(key) && lists[key].contains(id)
}

/// Some list has `id` in it.
pub open spec fn is_listed(lists: Map<Seq<char>, Seq<Seq<char>>>, id: Seq<char>) -> bool {
    exists|key: Seq<char>| lists_in(lists, key, id)
}

/// The lists with `id` at the end of the list of `key`.
pub open spec fn with_pushed(
    lists: Map<Seq<char>, Seq<Seq<char>>>,
    key: Seq<char>,
    id: Seq<char>,
) -> Map<Seq<char>, Seq<Seq<char>>> {
    lists.insert(key, list_at(lists, key).push(id))
}

/// What is left of a list without some identifiers.
pub open spec fn outside(list: Seq<Seq<char>>, gone: Set<Seq<char>>) -> Seq<Seq<char>>
    decreases list.len(),
{
    if list.len() == 0 {
        Seq::empty()
    } else if gone.contains(list.last()) {
        outside(list.drop_last(), gone)
    } else {
        outside(list.drop_last(), gone).push(list.last())
    }
}

/// What is left are those that are not gone.
pub proof fn lemma_outside_contains(list: Seq<Seq<char>>, gone: Set<Seq<char>>, id: Seq<char>)
    ensures
        outside(list, gone).contains(id) <==> list.contains(id) && !gone.contains(id),
    decreases list.len(),
{
    if list.len() > 0 {
        let front = list.drop_last();
        lemma_outside_contains(front, gone, id);
        assert(list =~= front.push(list.last()));
        if list.contains(id) && id != list.last() {
            let i = choose|i: int| 0 <= i < list.len() && list[i] == id;
            assert(front[i] == id);
        }
        if front.contains(id) {
            let i = choose|i: int| 0 <= i < front.len() && front[i] == id;
            assert(list[i] == id);
        }
        let rest = outside(front, gone);
        if rest.contains(id) {
            let i = choose|i: int| 0 <= i < rest.len() && rest[i] == id;
            assert(rest.push(list.last())[i] == id);
        }
        if !gone.contains(list.last()) {
            assert(rest.push(list.last())[rest.len() as int] == list.last());
            if rest.push(list.last()).contains(id) && id != list.last() {
                let i = choose|i: int|
                    0 <= i < rest.len() + 1 && rest.push(list.last())[i] == id;
                assert(rest[i] == id);
            }
        }
    }
}

/// Leaving out some and then others is leaving out all of them.
pub proof fn lemma_outside_twice(
    list: Seq<Seq<char>>,
    first: Set<Seq<char>>,
    second: Set<Seq<char>>,
)
    ensures
        outside(outside(list, first), second) == outside(list, first.union(second)),
    decreases list.len(),
{
    if list.len() > 0 {
        lemma_outside_twice(list.drop_last(), first, second);
        if !first.contains(list.last()) {
            let rest = outside(list.drop_last(), first);
            assert(rest.push(list.last()).drop_last() =~= rest);
        }
    }
}

/// What is left only depends on which of the identifiers in the list are left out.
pub proof fn lemma_outside_same(
    list: Seq<Seq<char>>,
    first: Set<Seq<char>>,
    second: Set<Seq<char>>,
)
    requires
        forall|id: Seq<char>| #[trigger]
            list.contains(id) ==> first.contains(id) == second.contains(id),
    ensures
        outside(list, first) == outside(list, second),
    decreases list.len(),
{
    if list.len() > 0 {
        let front = list.drop_last();
        assert(list.contains(list[list.len() - 1]));
        assert forall|id: Seq<char>| #[trigger] front.contains(id) implies first.contains(id)
            == second.contains(id) by {
            let i = choose|i: int| 0 <= i < front.len() && front[i] == id;
            assert(list[i] == id);
            assert(list.contains(id));
        }
        lemma_outside_same(front, first, second);
    }
}

/// Nothing changes if nothing in the list is left out.
pub proof fn lemma_outside_none(list: Seq<Seq<char>>, gone: Set<Seq<char>>)
    requires
        forall|i: int| 0 <= i < list.len() ==> !gone.contains(#[trigger] list[i]),
    ensures
        outside(list, gone) == list,
    decreases list.len(),
{
    if list.len() > 0 {
        lemma_outside_none(list.drop_last(), gone);
        assert(list =~= list.drop_last().push(list.last()));
    } else {
        assert(list =~= Seq::empty());
    }
}

/// What occurs once is left out by removing it from its place.
pub proof fn lemma_outside_once(list: Seq<Seq<char>>, id: Seq<char>, place: int)
    requires
        0 <= place < list.len(),
        list[place] == id,
        forall|i: int| 0 <= i < list.len() && i != place ==> #[trigger] list[i] != id,
    ensures
        outside(list, set![id]) == list.remove(place),
    decreases list.len(),
{
    let front = list.drop_last();
    if place == list.len() - 1 {
        lemma_outside_none(front, set![id]);
        assert(list.remove(place) =~= front);
    } else {
        lemma_outside_once(front, id, place);
        assert(list.remove(place) =~= front.remove(place).push(list.last()));
    }
}

/// The number of identifiers left changes exactly if one of them was in the list.
pub proof fn lemma_outside_len(list: Seq<Seq<char>>, id: Seq<char>)
    ensures
        outside(list, set![id]).len() <= list.len(),
        outside(list, set![id]).len() == list.len() <==> !list.contains(id),
    decreases list.len(),
{
    if list.len() > 0 {
        let front = list.drop_last();
        lemma_outside_len(front, id);
        if list.contains(id) && list.last() != id {
            let i = choose|i: int| 0 <= i < list.len() && list[i] == id;
            assert(front[i] == id);
        }
        if front.contains(id) {
            let i = choose|i: int| 0 <= i < front.len() && front[i] == id;
            assert(list[i] == id);
        }
        if list.last() == id {
            assert(list[list.len() - 1] == id);
        }
    }
}

/// Whether an identifier is in a list.
pub fn contains_id<I: Identifier>(list: &Vec<I>, id: &str) -> (contains: bool)
    ensures
        contains == ids_view(list@).contains(id@),
{
    match find_id(list, id) {
        Some(place) => {
            assert(ids_view(list@)[place as int] == id@);
            true
        },
        None => {
            proof {
                if ids_view(list@).contains(id@) {
                    let i = choose|i: int|
                        0 <= i < ids_view(list@).len() && ids_view(list@)[i] == id@;
                    assert(list@[i].text() == id@);
                }
            }
            false
        },
    }
}

/// The first place of an identifier in a list.
pub fn find_id<I: Identifier>(list: &Vec<I>, id: &str) -> (place: Option<usize>)
    ensures
        match place {
            Some(place) => {
                &&& place < list@.len()
                &&& list@[place as int].text() == id@
                &&& forall|i: int| 0 <= i < place ==> (#[trigger] list@[i]).text() != id@
            },
            None => forall|i: int| 0 <= i < list@.len() ==> (#[trigger] list@[i]).text() != id@,
        },
{
    let mut i: usize = 0;
    while i < list.len()
        invariant
            i <= list@.len(),
            forall|j: int| 0 <= j < i ==> (#[trigger] list@[j]).text() != id@,
        decreases list@.len() - i,
    {
        if same_text(list[i].as_text(), id) {
            return Some(i);
        }
        i += 1;
    }
    None
}

/// Whether an identifier is in any of the lists.
pub fn any_list_contains<I: Identifier>(lists: &StringMap<Vec<I>>, id: &str) -> (contains: bool)
    requires
        lists.wf(),
    ensures
        contains == is_listed(lists_view(lists@), id@),
{
    let mut i: usize = 0;
    proof {
        lists.lemma_keys();
    }
    while i < lists.len()
        invariant
            i <= lists.keys().len(),
            lists.wf(),
            forall|j: int|
                0 <= j < i ==> !lists_in(lists_view(lists@), #[trigger] lists.keys()[j], id@),
        decreases lists.keys().len() - i,
    {
        if contains_id(lists.value_at(i), id) {
            assert(lists_in(lists_view(lists@), lists.keys()[i as int], id@));
            return true;
        }
        i += 1;
    }
    proof {
        assert forall|key: Seq<char>| !lists_in(lists_view(lists@), key, id@) by {
            if lists@.contains_key(key) {
                assert(lists.keys().contains(key));
                let j = choose|j: int| 0 <= j < lists.keys().len() && lists.keys()[j] == key;
                assert(!lists_in(lists_view(lists@), lists.keys()[j], id@));
            }
        }
    }
    false
}

/// The identifiers in the list that are different from `id`.
pub fn others<I: Identifier>(list: &Vec<I>, id: &str) -> (rest: Vec<I>)
    ensures
        ids_view(rest@) == outside(ids_view(list@), set![id@]),
{
    let mut rest: Vec<I> = Vec::new();
    let mut i: usize = 0;
    while i < list.len()
        invariant
            i <= list@.len(),
            ids_view(rest@) =~= outside(ids_view(list@.take(i as int)), set![id@]),
        decreases list@.len() - i,
    {
        let ghost seen = ids_view(list@.take(i + 1));
        assert(seen.drop_last() =~= ids_view(list@.take(i as int)));
        if !same_text(list[i].as_text(), id) {
            rest.push(list[i].copy());
        }
        i += 1;
    }
    assert(list@.take(i as int) =~= list@);
    rest
}

/// Adds an identifier to the list of a key.
pub fn push_id<I: Identifier>(lists: &mut StringMap<Vec<I>>, key: &str, id: I)
    requires
        old(lists).wf(),
    ensures
        final(lists).wf(),
        lists_view(final(lists)@) == with_pushed(lists_view(old(lists)@), key@, id.text()),
{
    let mut list = match lists.remove(key) {
        Some(list) => list,
        None => Vec::new(),
    };
    let ghost before = ids_view(list@);
    list.push(id);
    assert(ids_view(list@) =~= before.push(id.text()));
    assert(before =~= list_at(lists_view(old(lists)@), key@));
    lists.insert(key.to_owned(), list);
    assert(lists_view(lists@) =~= with_pushed(lists_view(old(lists)@), key@, id.text()));
}

} // verus!
