//! A map from texts to values that keeps its keys in order.

use vstd::prelude::*;

use crate::util::text::{
    is_less, law_text_less_is_irreflexive, law_text_less_is_total, law_text_less_is_transitive,
    same_text, text_less,
};

verus! {

/// A map whose keys are texts. The entries are kept in the order of their keys.
pub struct StringMap<V> {
    entries: Vec<(String, V)>,
}

impl<V> View for StringMap<V> {
    type V = Map<Seq<char>, V>;

    closed spec fn view(&self) -> Map<Seq<char>, V> {
        entries_to_map(self.entries@)
    }
}

/// The entry at place `i` has the key `key`.
spec fn has_key_at<V>(entries: Seq<(String, V)>, i: int, key: Seq<char>) -> bool {
    0 <= i < entries.len() && entries[i].0@ == key
}

spec fn entries_to_map<V>(entries: Seq<(String, V)>) -> Map<Seq<char>, V> {
    Map::new(
        |key: Seq<char>| exists|i: int| has_key_at(entries, i, key),
        |key: Seq<char>| entries[choose|i: int| has_key_at(entries, i, key)].1,
    )
}

spec fn is_sorted<V>(entries: Seq<(String, V)>) -> bool {
    forall|i: int, j: int|
        0 <= i < j < entries.len() ==> text_less(#[trigger] entries[i].0@, #[trigger] entries[j].0@)
}

/// Keys are distinct.
proof fn lemma_key_is_unique<V>(entries: Seq<(String, V)>, i: int, j: int)
    requires
        is_sorted(entries),
        0 <= i < entries.len(),
        0 <= j < entries.len(),
        entries[i].0@ == entries[j].0@,
    ensures
        i == j,
{
    law_text_less_is_irreflexive(entries[i].0@);
}

/// The map at the key of an entry.
proof fn lemma_map_at<V>(entries: Seq<(String, V)>, i: int)
    requires
        is_sorted(entries),
        0 <= i < entries.len(),
    ensures
        entries_to_map(entries).contains_key(entries[i].0@),
        entries_to_map(entries)[entries[i].0@] == entries[i].1,
{
    let key = entries[i].0@;
    assert(has_key_at(entries, i, key));
    let j = choose|j: int| has_key_at(entries, j, key);
    lemma_key_is_unique(entries, i, j);
}

impl<V> StringMap<V> {
    /// The entries are in the order of their keys, and no key occurs twice.
    pub closed spec fn wf(&self) -> bool {
        is_sorted(self.entries@)
    }

    /// The keys in their order.
    pub closed spec fn keys(&self) -> Seq<Seq<char>> {
        Seq::new(self.entries@.len(), |i: int| self.entries@[i].0@)
    }

    /// The keys are in order and are exactly the keys of the map.
    pub proof fn lemma_keys(&self)
        requires
            self.wf(),
        ensures
            forall|i: int, j: int|
                0 <= i < j < self.keys().len() ==> text_less(
                    #[trigger] self.keys()[i],
                    #[trigger] self.keys()[j],
                ),
            self.keys().no_duplicates(),
            forall|i: int|
                0 <= i < self.keys().len() ==> self@.contains_key(#[trigger] self.keys()[i]),
            forall|key: Seq<char>| #[trigger]
                self@.contains_key(key) ==> self.keys().contains(key),
    {
        assert forall|i: int, j: int|
            0 <= i < self.keys().len() && 0 <= j < self.keys().len() && i != j implies
            self.keys()[i] != self.keys()[j] by {
            if self.keys()[i] == self.keys()[j] {
                lemma_key_is_unique(self.entries@, i, j);
            }
        }
        assert forall|i: int| 0 <= i < self.keys().len() implies self@.contains_key(
            #[trigger] self.keys()[i],
        ) by {
            lemma_map_at(self.entries@, i);
        }
        assert forall|key: Seq<char>| #[trigger] self@.contains_key(key) implies self.keys().contains(
            key,
        ) by {
            let i = choose|i: int| has_key_at(self.entries@, i, key);
            assert(self.keys()[i] == key);
        }
    }

    pub fn new() -> (map: Self)
        ensures
            map.wf(),
            map@ == Map::<Seq<char>, V>::empty(),
            map.keys() == Seq::<Seq<char>>::empty(),
    {
        let map = StringMap { entries: Vec::new() };
        assert(map@ =~= Map::<Seq<char>, V>::empty());
        assert(map.keys() =~= Seq::<Seq<char>>::empty());
        map
    }

    pub fn len(&self) -> (len: usize)
        ensures
            len == self.keys().len(),
    {
        self.entries.len()
    }

    /// The key at a place.
    pub fn key_at(&self, i: usize) -> (key: &String)
        requires
            self.wf(),
            i < self.keys().len(),
        ensures
            key@ == self.keys()[i as int],
    {
        &self.entries[i].0
    }

    /// The value of the key at a place.
    pub fn value_at(&self, i: usize) -> (value: &V)
        requires
            self.wf(),
            i < self.keys().len(),
        ensures
            self@.contains_key(self.keys()[i as int]),
            *value == self@[self.keys()[i as int]],
    {
        proof {
            lemma_map_at(self.entries@, i as int);
        }
        &self.entries[i].1
    }

    /// The place of the first key that is not less than `key`.
    fn place_of(&self, key: &str) -> (place: usize)
        requires
            self.wf(),
        ensures
            place <= self.entries@.len(),
            forall|i: int|
                0 <= i < place ==> text_less((#[trigger] self.entries@[i]).0@, key@),
            forall|i: int|
                place <= i < self.entries@.len() ==> !text_less(
                    (#[trigger] self.entries@[i]).0@,
                    key@,
                ),
    {
        let mut place: usize = 0;
        while place < self.entries.len() && is_less(self.entries[place].0.as_str(), key)
            invariant
                place <= self.entries@.len(),
                forall|i: int|
                    0 <= i < place ==> text_less((#[trigger] self.entries@[i]).0@, key@),
            decreases self.entries@.len() - place,
        {
            place += 1;
        }
        proof {
            assert forall|i: int| place <= i < self.entries@.len() implies !text_less(
                (#[trigger] self.entries@[i]).0@,
                key@,
            ) by {
                if place < i && text_less(self.entries@[i].0@, key@) {
                    law_text_less_is_transitive(
                        self.entries@[place as int].0@,
                        self.entries@[i].0@,
                        key@,
                    );
                }
            }
        }
        place
    }

    /// The place of a key.
    fn find(&self, key: &str) -> (place: Option<usize>)
        requires
            self.wf(),
        ensures
            match place {
                Some(place) => has_key_at(self.entries@, place as int, key@),
                None => !self@.contains_key(key@),
            },
    {
        let place: usize = self.place_of(key);
        if place < self.entries.len() && same_text(self.entries[place].0.as_str(), key) {
            return Some(place);
        }
        proof {
            if self@.contains_key(key@) {
                let i = choose|i: int| has_key_at(self.entries@, i, key@);
                law_text_less_is_irreflexive(key@);
                assert(i > place);
                assert(text_less(self.entries@[place as int].0@, self.entries@[i].0@));
            }
        }
        None
    }

    pub fn contains_key(&self, key: &str) -> (contains: bool)
        requires
            self.wf(),
        ensures
            contains == self@.contains_key(key@),
    {
        match self.find(key) {
            Some(place) => {
                proof {
                    lemma_map_at(self.entries@, place as int);
                }
                true
            },
            None => false,
        }
    }

    pub fn get(&self, key: &str) -> (value: Option<&V>)
        requires
            self.wf(),
        ensures
            match value {
                Some(value) => self@.contains_key(key@) && *value == self@[key@],
                None => !self@.contains_key(key@),
            },
    {
        match self.find(key) {
            Some(place) => {
                proof {
                    lemma_map_at(self.entries@, place as int);
                }
                Some(&self.entries[place].1)
            },
            None => None,
        }
    }

    /// Sets the value of a key, which need not be in the map.
    pub fn insert(&mut self, key: String, value: V)
        requires
            old(self).wf(),
        ensures
            final(self).wf(),
            final(self)@ == old(self)@.insert(key@, value),
    {
        let ghost before = self.entries@;
        let place: usize = self.place_of(key.as_str());
        if place < self.entries.len() && same_text(self.entries[place].0.as_str(), key.as_str()) {
            let ghost new_entry = (key, value);
            let _ = self.entries.remove(place);
            self.entries.insert(place, (key, value));
            proof {
                assert(self.entries@ =~= before.update(place as int, new_entry));
                lemma_update(before, place as int, new_entry);
            }
        } else {
            proof {
                assert forall|i: int| place <= i < before.len() implies text_less(
                    key@,
                    (#[trigger] before[i]).0@,
                ) by {
                    law_text_less_is_total(key@, before[place as int].0@);
                    if i > place {
                        law_text_less_is_transitive(key@, before[place as int].0@, before[i].0@);
                    }
                }
            }
            let ghost new_entry = (key, value);
            self.entries.insert(place, (key, value));
            proof {
                let after = self.entries@;
                assert(after =~= before.insert(place as int, new_entry));
                assert forall|i: int, j: int| 0 <= i < j < after.len() implies text_less(
                    #[trigger] after[i].0@,
                    #[trigger] after[j].0@,
                ) by {
                    let bi = if i < place {
                        i
                    } else {
                        i - 1
                    };
                    let bj = if j < place {
                        j
                    } else {
                        j - 1
                    };
                    if i != place {
                        assert(after[i] == before[bi]);
                    }
                    if j != place {
                        assert(after[j] == before[bj]);
                    }
                }
                lemma_insert_new(before, place as int, new_entry);
            }
        }
    }

    /// Removes a key and gives the value that it had.
    pub fn remove(&mut self, key: &str) -> (value: Option<V>)
        requires
            old(self).wf(),
        ensures
            final(self).wf(),
            final(self)@ == old(self)@.remove(key@),
            final(self).keys().len() + (if old(self)@.contains_key(key@) {
                1int
            } else {
                0int
            }) == old(self).keys().len(),
            match value {
                Some(value) => old(self)@.contains_key(key@) && value == old(self)@[key@],
                None => !old(self)@.contains_key(key@),
            },
    {
        let ghost before = self.entries@;
        match self.find(key) {
            Some(place) => {
                let (_, value) = self.entries.remove(place);
                proof {
                    lemma_map_at(before, place as int);
                    lemma_remove(before, place as int);
                }
                Some(value)
            },
            None => {
                assert(self@ =~= self@.remove(key@));
                None
            },
        }
    }

    /// Replaces the value of the key at a place.
    pub fn set_value_at(&mut self, i: usize, value: V)
        requires
            old(self).wf(),
            i < old(self).keys().len(),
        ensures
            final(self).wf(),
            final(self).keys() == old(self).keys(),
            final(self)@ == old(self)@.insert(old(self).keys()[i as int], value),
    {
        let ghost before = self.entries@;
        let (key, _) = self.entries.remove(i);
        let ghost new_entry = (key, value);
        self.entries.insert(i, (key, value));
        proof {
            assert(self.entries@ =~= before.update(i as int, new_entry));
            assert(self.keys() =~= old(self).keys());
            lemma_update(before, i as int, new_entry);
        }
    }
}

impl StringMap<String> {
    /// A copy of the map.
    pub fn clone_texts(&self) -> (copy: Self)
        requires
            self.wf(),
        ensures
            copy.wf(),
            copy@ == self@,
            copy.keys() == self.keys(),
    {
        let mut entries: Vec<(String, String)> = Vec::new();
        let mut i: usize = 0;
        while i < self.entries.len()
            invariant
                i <= self.entries@.len(),
                entries@ =~= self.entries@.take(i as int),
            decreases self.entries@.len() - i,
        {
            entries.push((self.entries[i].0.clone(), self.entries[i].1.clone()));
            i += 1;
        }
        assert(self.entries@.take(i as int) =~= self.entries@);
        StringMap { entries }
    }
}

/// An entry with the same key changes the value of this key.
proof fn lemma_update<V>(before: Seq<(String, V)>, place: int, entry: (String, V))
    requires
        0 <= place < before.len(),
        before[place].0@ == entry.0@,
        is_sorted(before),
    ensures
        is_sorted(before.update(place, entry)),
        entries_to_map(before.update(place, entry)) == entries_to_map(before).insert(
            entry.0@,
            entry.1,
        ),
{
    let after = before.update(place, entry);
    let expected = entries_to_map(before).insert(entry.0@, entry.1);
    assert forall|i: int| 0 <= i < after.len() implies (#[trigger] after[i]).0@ == before[i].0@ by {
    }
    assert(is_sorted(after)) by {
        assert forall|i: int, j: int| 0 <= i < j < after.len() implies text_less(
            #[trigger] after[i].0@,
            #[trigger] after[j].0@,
        ) by {
            assert(text_less(before[i].0@, before[j].0@));
        }
    }
    assert forall|k: Seq<char>| #[trigger]
        entries_to_map(after).contains_key(k) <==> expected.contains_key(k) by {
        if entries_to_map(after).contains_key(k) {
            let i = choose|i: int| has_key_at(after, i, k);
            assert(has_key_at(before, i, k));
        }
        if expected.contains_key(k) {
            let i = if k == entry.0@ {
                place
            } else {
                choose|i: int| has_key_at(before, i, k)
            };
            assert(has_key_at(after, i, k));
        }
    }
    assert forall|k: Seq<char>| #[trigger]
        entries_to_map(after).contains_key(k) implies entries_to_map(after)[k] == expected[k] by {
        let i = choose|i: int| has_key_at(after, i, k);
        lemma_map_at(after, i);
        lemma_map_at(before, i);
        if k == entry.0@ {
            lemma_key_is_unique(after, i, place);
        }
    }
    assert(entries_to_map(after) =~= expected);
}

/// A new entry is a new key of the map.
proof fn lemma_insert_new<V>(before: Seq<(String, V)>, place: int, entry: (String, V))
    requires
        0 <= place <= before.len(),
        is_sorted(before),
        is_sorted(before.insert(place, entry)),
    ensures
        entries_to_map(before.insert(place, entry)) == entries_to_map(before).insert(
            entry.0@,
            entry.1,
        ),
{
    let after = before.insert(place, entry);
    let expected = entries_to_map(before).insert(entry.0@, entry.1);
    assert forall|k: Seq<char>| #[trigger]
        entries_to_map(after).contains_key(k) <==> expected.contains_key(k) by {
        if entries_to_map(after).contains_key(k) {
            let i = choose|i: int| has_key_at(after, i, k);
            if i < place {
                assert(has_key_at(before, i, k));
            } else if i > place {
                assert(has_key_at(before, i - 1, k));
            }
        }
        if expected.contains_key(k) {
            if k == entry.0@ {
                assert(has_key_at(after, place, k));
            } else {
                let i = choose|i: int| has_key_at(before, i, k);
                assert(has_key_at(
                    after,
                    if i < place {
                        i
                    } else {
                        i + 1
                    },
                    k,
                ));
            }
        }
    }
    assert forall|k: Seq<char>| #[trigger]
        entries_to_map(after).contains_key(k) implies entries_to_map(after)[k] == expected[k] by {
        let i = choose|i: int| has_key_at(after, i, k);
        lemma_map_at(after, i);
        if k == entry.0@ {
            lemma_key_is_unique(after, i, place);
        } else if i < place {
            lemma_map_at(before, i);
        } else {
            lemma_map_at(before, i - 1);
        }
    }
    assert(entries_to_map(after) =~= expected);
}

/// Removing an entry removes its key from the map.
proof fn lemma_remove<V>(before: Seq<(String, V)>, place: int)
    requires
        0 <= place < before.len(),
        is_sorted(before),
    ensures
        is_sorted(before.remove(place)),
        entries_to_map(before.remove(place)) == entries_to_map(before).remove(before[place].0@),
{
    let after = before.remove(place);
    let expected = entries_to_map(before).remove(before[place].0@);
    assert forall|i: int, j: int| 0 <= i < j < after.len() implies text_less(
        #[trigger] after[i].0@,
        #[trigger] after[j].0@,
    ) by {
        let bi = if i < place {
            i
        } else {
            i + 1
        };
        let bj = if j < place {
            j
        } else {
            j + 1
        };
        assert(after[i] == before[bi]);
        assert(after[j] == before[bj]);
    }
    assert forall|k: Seq<char>| #[trigger]
        entries_to_map(after).contains_key(k) <==> expected.contains_key(k) by {
        if entries_to_map(after).contains_key(k) {
            let i = choose|i: int| has_key_at(after, i, k);
            let b = if i < place {
                i
            } else {
                i + 1
            };
            assert(has_key_at(before, b, k));
            if k == before[place].0@ {
                lemma_key_is_unique(before, b, place);
            }
        }
        if expected.contains_key(k) {
            let i = choose|i: int| has_key_at(before, i, k);
            assert(has_key_at(
                after,
                if i < place {
                    i
                } else {
                    i - 1
                },
                k,
            ));
        }
    }
    assert forall|k: Seq<char>| #[trigger]
        entries_to_map(after).contains_key(k) implies entries_to_map(after)[k] == expected[k] by {
        let i = choose|i: int| has_key_at(after, i, k);
        lemma_map_at(after, i);
        if i < place {
            lemma_map_at(before, i);
        } else {
            lemma_map_at(before, i + 1);
        }
    }
    assert(entries_to_map(after) =~= expected);
}

} // verus!
