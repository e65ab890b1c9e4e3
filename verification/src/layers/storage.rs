//! The layer database that keeps everything in memory.

use vstd::prelude::*;

use crate::ids::{is_random_uuid_text, new_uuid_text, uuid_text, uuid_to_string};
use crate::layers::layer::{
    clone_properties, items_view, lemma_window_push, properties_view, window, AddLayer,
    AddLayerCollection, CollectionInfo, CollectionItem, DataProviderId, ItemView, Layer,
    LayerCollection, LayerCollectionId, LayerCollectionListOptions, LayerCollectionListing,
    LayerCollectionView, LayerId, LayerListing, LayerView, Property, ProviderLayerCollectionId,
    ProviderLayerId,
};
use crate::layers::lists::{
    any_list_contains, contains_id, find_id, ids_view, is_listed, lemma_outside_len,
    lemma_outside_twice, list_at, lists_in, lists_view, others, outside, push_id, Identifier,
};
use crate::layers::model::{
    is_removal_in_progress, lemma_orphans, lemma_removal_end, lemma_removal_step, lemma_without_lists,
    lemma_without_none, lemma_without_one_more, LayerDbView, Mention,
};
use crate::util::sort::{is_stable_order, list_keys, reordered, sort_listed, ListKey};
use crate::util::string_map::StringMap;
use crate::util::text::same_text;

verus! {

pub const INTERNAL_PROVIDER_ID: u128 = 0xce5e_84db_cbf9_48a2_9a32_d4b7_cc56_ea74;

pub const INTERNAL_LAYER_DB_ROOT_COLLECTION_ID: u128 = 0x0510_2bb3_a855_4a37_8a8a_3002_6a91_fef1;

pub const UNSORTED_COLLECTION_ID: u128 = 0xffb2_dd9e_f5ad_427c_b7f1_c9a0_c7a0_ae3f;

/// The reasons for which the layer database rejects a request.
#[derive(Debug, PartialEq, Eq)]
#[allow(inconsistent_fields)]
pub enum LayerDbError {
    NoLayerForGivenId { id: LayerId },
    NoLayerCollectionForGivenId { id: LayerCollectionId },
    NoLayerForGivenIdInCollection { layer: LayerId, collection: LayerCollectionId },
    CannotRemoveRootCollection,
}

impl LayerDbError {
    pub open spec fn is_no_layer(self, layer: Seq<char>) -> bool {
        self matches LayerDbError::NoLayerForGivenId { id } && id@ == layer
    }

    pub open spec fn is_no_collection(self, collection: Seq<char>) -> bool {
        self matches LayerDbError::NoLayerCollectionForGivenId { id } && id@ == collection
    }
}

/// The identifier of the root collection.
pub open spec fn root_collection() -> Seq<char> {
    uuid_text(INTERNAL_LAYER_DB_ROOT_COLLECTION_ID)
}

/// The identifier of the collection for layers that belong nowhere else.
pub open spec fn unsorted_collection() -> Seq<char> {
    uuid_text(UNSORTED_COLLECTION_ID)
}

/// The layers and collections, and what is in each collection.
pub struct HashMapLayerDbBackend<W, S> {
    layers: StringMap<AddLayer<W, S>>,
    collections: StringMap<AddLayerCollection>,
    collection_children: StringMap<Vec<LayerCollectionId>>,
    collection_layers: StringMap<Vec<LayerId>>,
}

impl<W, S> View for HashMapLayerDbBackend<W, S> {
    type V = LayerDbView<W, S>;

    closed spec fn view(&self) -> LayerDbView<W, S> {
        LayerDbView {
            layers: self.layers@.map_values(|layer: AddLayer<W, S>| layer@),
            collections: self.collections@.map_values(|collection: AddLayerCollection| collection@),
            children: lists_view(self.collection_children@),
            collection_layers: lists_view(self.collection_layers@),
        }
    }
}

impl<W, S> HashMapLayerDbBackend<W, S> {
    pub closed spec fn wf(&self) -> bool {
        &&& self.layers.wf()
        &&& self.collections.wf()
        &&& self.collection_children.wf()
        &&& self.collection_layers.wf()
        &&& forall|id: Seq<char>|
            #![trigger self.layers@[id]]
            self.layers@.contains_key(id) ==> self.layers@[id].metadata.wf()
    }

    /// How many collections have a list of children.
    closed spec fn parents(&self) -> nat {
        self.collection_children.keys().len()
    }

    /// Takes a collection out of all lists of children.
    fn remove_from_parents(&mut self, collection: &LayerCollectionId)
        requires
            old(self).wf(),
        ensures
            final(self).wf(),
            final(self).parents() == old(self).parents(),
            final(self)@ == (LayerDbView {
                children: old(self)@.children.map_values(
                    |list: Seq<Seq<char>>| outside(list, set![collection@]),
                ),
                ..old(self)@
            }),
    {
        let ghost gone = set![collection@];
        let ghost before = self.collection_children@;
        let ghost keys = self.collection_children.keys();
        let ghost without = |list: Seq<Seq<char>>| outside(list, gone);
        let mut i: usize = 0;
        proof {
            self.collection_children.lemma_keys();
        }
        while i < self.collection_children.len()
            invariant
                i <= keys.len(),
                self.wf(),
                self.layers == old(self).layers,
                self.collections == old(self).collections,
                self.collection_layers == old(self).collection_layers,
                self.collection_children.keys() == keys,
                self.collection_children@.dom() == before.dom(),
                gone == set![collection@],
                keys.no_duplicates(),
                forall|j: int|
                    0 <= j < keys.len() ==> before.contains_key(#[trigger] keys[j]),
                forall|j: int|
                    0 <= j < i ==> ids_view(self.collection_children@[#[trigger] keys[j]]@)
                        == outside(ids_view(before[keys[j]]@), gone),
                forall|j: int|
                    i <= j < keys.len() ==> self.collection_children@[#[trigger] keys[j]]
                        == before[keys[j]],
            decreases keys.len() - i,
        {
            let rest = others(self.collection_children.value_at(i), collection.0.as_str());
            self.collection_children.set_value_at(i, rest);
            i += 1;
        }
        proof {
            let after = lists_view(self.collection_children@);
            let expected = lists_view(before).map_values(without);
            assert forall|key: Seq<char>| after.contains_key(key) implies after[key]
                == expected[key] by {
                old(self).collection_children.lemma_keys();
                assert(keys.contains(key));
                let j = choose|j: int| 0 <= j < keys.len() && keys[j] == key;
                assert(ids_view(self.collection_children@[keys[j]]@) == outside(
                    ids_view(before[keys[j]]@),
                    gone,
                ));
            }
            assert(after =~= expected);
            assert(expected =~= old(self)@.children.map_values(
                |list: Seq<Seq<char>>| outside(list, set![collection@]),
            ));
        }
    }

    /// Removes a collection and gives the collections that have no more parent because of this, in
    /// their order. They have to be removed, too.
    fn remove_collection(&mut self, collection: &LayerCollectionId) -> (orphans: Vec<
        LayerCollectionId,
    >)
        requires
            old(self).wf(),
        ensures
            final(self).wf(),
            final(self)@ == old(self)@.without(set![collection@]),
            final(self).parents() + (if old(self)@.children.contains_key(collection@) {
                1int
            } else {
                0int
            }) == old(self).parents(),
            ids_view(orphans@) == old(self)@.orphans_of(collection@),
    {
        let ghost db = old(self)@;
        let ghost gone = set![collection@];
        let _ = self.collections.remove(collection.0.as_str());
        assert(self@.collections =~= db.collections.remove_keys(gone));
        self.remove_from_parents(collection);
        let ghost lists = self@.children;
        proof {
            let key = collection@;
            assert(lists.contains_key(key) <==> db.children.contains_key(key));
            assert(self.collection_children@.contains_key(key) <==> lists.contains_key(key));
            if lists.contains_key(key) {
                assert(lists[key] == outside(db.children[key], gone));
                assert(lists[key] == ids_view(self.collection_children@[key]@));
            }
        }
        let children = match self.collection_children.remove(collection.0.as_str()) {
            Some(children) => children,
            None => Vec::new(),
        };
        proof {
            assert(self@.children =~= lists.remove(collection@));
            assert forall|id: Seq<char>| #[trigger] db.children.contains_key(id) implies lists[id]
                == outside(db.children[id], gone) by {
            }
            assert(self@.children =~= db.without(gone).children);
            assert(ids_view(children@) =~= outside(list_at(db.children, collection@), gone));
        }
        let ghost with_parent = Set::new(|id: Seq<char>| is_listed(self@.children, id));
        let mut orphans: Vec<LayerCollectionId> = Vec::new();
        let mut i: usize = 0;
        while i < children.len()
            invariant
                i <= children@.len(),
                self.wf(),
                with_parent == Set::new(|id: Seq<char>| is_listed(self@.children, id)),
                ids_view(orphans@) =~= outside(ids_view(children@.take(i as int)), with_parent),
            decreases children@.len() - i,
        {
            let ghost seen = ids_view(children@.take(i + 1));
            assert(seen.drop_last() =~= ids_view(children@.take(i as int)));
            let has_parent = any_list_contains(&self.collection_children, children[i].0.as_str());
            assert(with_parent.contains(seen.last()) == has_parent);
            if !has_parent {
                orphans.push(children[i].clone());
            }
            i += 1;
        }
        proof {
            assert(children@.take(i as int) =~= children@);
            lemma_outside_twice(list_at(db.children, collection@), gone, with_parent);
            assert(gone.union(with_parent) =~= db.no_orphans_of(collection@));
        }
        self.remove_layers_of(collection, Ghost(db));
        orphans
    }
}

/// A list with one more identifier.
proof fn lemma_push_view<I: Identifier>(ids: Seq<I>, id: I)
    ensures
        forall|text: Seq<char>| #[trigger]
            ids_view(ids.push(id)).contains(text) <==> ids_view(ids).contains(text) || text
                == id.text(),
{
    let after = ids_view(ids.push(id));
    assert(after =~= ids_view(ids).push(id.text()));
    assert forall|text: Seq<char>| #[trigger] after.contains(text) <==> ids_view(ids).contains(text)
        || text == id.text() by {
        if ids_view(ids).contains(text) {
            let i = choose|i: int| 0 <= i < ids_view(ids).len() && ids_view(ids)[i] == text;
            assert(after[i] == text);
        }
        if text == id.text() {
            assert(after[ids.len() as int] == text);
        }
        if after.contains(text) && text != id.text() {
            let i = choose|i: int| 0 <= i < after.len() && after[i] == text;
            assert(ids_view(ids)[i] == text);
        }
    }
}

impl<W, S> HashMapLayerDbBackend<W, S> {
    /// Removes the list of layers of a collection, and those of them that are in no other
    /// collection.
    fn remove_layers_of(
        &mut self,
        collection: &LayerCollectionId,
        Ghost(db): Ghost<LayerDbView<W, S>>,
    )
        requires
            old(self).wf(),
            old(self)@.layers == db.layers,
            old(self)@.collection_layers == db.collection_layers,
        ensures
            final(self).wf(),
            final(self).parents() == old(self).parents(),
            final(self)@ == (LayerDbView {
                layers: db.without(set![collection@]).layers,
                collection_layers: db.without(set![collection@]).collection_layers,
                ..old(self)@
            }),
    {
        let ghost gone = set![collection@];
        let layers = match self.collection_layers.remove(collection.0.as_str()) {
            Some(layers) => layers,
            None => Vec::new(),
        };
        proof {
            assert(self@.collection_layers =~= db.without(gone).collection_layers);
            assert(ids_view(layers@) =~= list_at(db.collection_layers, collection@));
        }
        let mut i: usize = 0;
        while i < layers.len()
            invariant
                i <= layers@.len(),
                self.wf(),
                self.parents() == old(self).parents(),
                gone == set![collection@],
                self@.collections == old(self)@.collections,
                self@.children == old(self)@.children,
                self@.collection_layers == db.without(gone).collection_layers,
                forall|id: Seq<char>| #[trigger]
                    self@.layers.contains_key(id) <==> db.layers.contains_key(id) && !(ids_view(
                        layers@.take(i as int),
                    ).contains(id) && !is_listed(self@.collection_layers, id)),
                forall|id: Seq<char>| #[trigger]
                    self@.layers.contains_key(id) ==> self@.layers[id] == db.layers[id],
            decreases layers@.len() - i,
        {
            let ghost before = self@.layers;
            let ghost id = layers@[i as int]@;
            proof {
                lemma_push_view(layers@.take(i as int), layers@[i as int]);
                assert(layers@.take(i as int).push(layers@[i as int]) =~= layers@.take(i + 1));
            }
            let has_parent = any_list_contains(&self.collection_layers, layers[i].0.as_str());
            if !has_parent {
                let _ = self.layers.remove(layers[i].0.as_str());
                assert(self@.layers =~= before.remove(id));
            }
            i += 1;
        }
        proof {
            assert(layers@.take(i as int) =~= layers@);
            let expected = db.without(gone).layers;
            assert forall|id: Seq<char>| #[trigger]
                self@.layers.contains_key(id) <==> expected.contains_key(id) by {
                assert forall|key: Seq<char>| #[trigger]
                    lists_in(self@.collection_layers, key, id) <==> lists_in(
                        db.collection_layers,
                        key,
                        id,
                    ) && key != collection@ by {
                    lemma_without_lists(db, gone, key, id);
                }
                if db.is_layer_orphaned_by(gone, id) {
                    assert(lists_in(db.collection_layers, collection@, id));
                    assert(!is_listed(self@.collection_layers, id));
                }
                if ids_view(layers@).contains(id) && !is_listed(self@.collection_layers, id) {
                    assert(lists_in(db.collection_layers, collection@, id));
                    assert forall|key: Seq<char>| #[trigger]
                        lists_in(db.collection_layers, key, id) implies gone.contains(key) by {
                        if key != collection@ {
                            assert(lists_in(self@.collection_layers, key, id));
                        }
                    }
                }
            }
            assert(self@.layers =~= expected);
        }
    }
}

/// The identifiers in a list.
spec fn ids_set(ids: Seq<LayerCollectionId>) -> Set<Seq<char>> {
    Set::new(|id: Seq<char>| ids_view(ids).contains(id))
}

impl<W, S> HashMapLayerDbBackend<W, S> {
    /// Removes a collection and everything that is left without a parent.
    fn remove_with_orphans(&mut self, collection: &LayerCollectionId)
        requires
            old(self).wf(),
        ensures
            final(self).wf(),
            final(self)@ == old(self)@.with_removed(collection@),
    {
        let ghost db = old(self)@;
        let ghost mut gone: Set<Seq<char>> = Set::empty();
        let mut pending: Vec<LayerCollectionId> = Vec::new();
        pending.push(collection.clone());
        proof {
            lemma_without_none(db);
            assert(ids_view(pending@)[0] == collection@);
        }
        while pending.len() > 0
            invariant
                self.wf(),
                self@ == db.without(gone),
                is_removal_in_progress(db, collection@, gone, ids_set(pending@)),
            decreases self.parents(), pending@.len(),
        {
            let ghost before = pending@;
            match pending.pop() {
                Some(next) => {
                    let ghost rest = pending@;
                    proof {
                        lemma_orphans(self@, next@);
                    }
                    let mut orphans = self.remove_collection(&next);
                    let ghost new = orphans@;
                    pending.append(&mut orphans);
                    proof {
                        lemma_without_one_more(db, gone, next@);
                        assert(before =~= rest.push(next));
                        lemma_push_view(rest, next);
                        lemma_append_view(rest, new);
                        lemma_removal_step(
                            db,
                            collection@,
                            gone,
                            ids_set(before),
                            next@,
                            ids_set(new),
                            ids_set(pending@),
                        );
                        gone = gone.insert(next@);
                    }
                },
                None => {},
            }
        }
        proof {
            assert(ids_set(pending@) =~= Set::empty());
            lemma_removal_end(db, collection@, gone);
        }
    }
}

/// Two lists in one.
proof fn lemma_append_view<I: Identifier>(first: Seq<I>, second: Seq<I>)
    ensures
        forall|id: Seq<char>| #[trigger]
            ids_view(first + second).contains(id) <==> ids_view(first).contains(id) || ids_view(
                second,
            ).contains(id),
    decreases second.len(),
{
    if second.len() == 0 {
        assert(first + second =~= first);
    } else {
        lemma_append_view(first, second.drop_last());
        lemma_push_view(first + second.drop_last(), second.last());
        lemma_push_view(second.drop_last(), second.last());
        assert(first + second =~= (first + second.drop_last()).push(second.last()));
        assert(second =~= second.drop_last().push(second.last()));
    }
}

/// Storage for layers and layer collections
pub trait LayerDb<W, S> {
    /// What is stored.
    spec fn db(&self) -> LayerDbView<W, S>;

    spec fn db_wf(&self) -> bool;

    /// add new `layer` to the given `collection`
    fn add_layer(&mut self, layer: AddLayer<W, S>, collection: &LayerCollectionId) -> (id: Result<
        LayerId,
        LayerDbError,
    >)
        requires
            old(self).db_wf(),
            layer.metadata.wf(),
        ensures
            final(self).db_wf(),
            id matches Ok(id) && is_random_uuid_text(id@) && final(self).db()
                == old(self).db().with_layer(id@, layer@, collection@),
    ;

    /// add new `layer` with fixed `id` to the given `collection`
    fn add_layer_with_id(
        &mut self,
        id: &LayerId,
        layer: AddLayer<W, S>,
        collection: &LayerCollectionId,
    ) -> (result: Result<(), LayerDbError>)
        requires
            old(self).db_wf(),
            layer.metadata.wf(),
        ensures
            final(self).db_wf(),
            result is Ok,
            final(self).db() == old(self).db().with_layer(id@, layer@, collection@),
    ;

    /// add existing `layer` to the given `collection`
    fn add_layer_to_collection(
        &mut self,
        layer: &LayerId,
        collection: &LayerCollectionId,
    ) -> (result: Result<(), LayerDbError>)
        requires
            old(self).db_wf(),
        ensures
            final(self).db_wf(),
            match result {
                Ok(()) => old(self).db().layers.contains_key(layer@) && final(self).db()
                    == old(self).db().with_layer_in(layer@, collection@),
                Err(error) => !old(self).db().layers.contains_key(layer@) && error.is_no_layer(
                    layer@,
                ) && final(self).db() == old(self).db(),
            },
    ;

    /// add new `collection` to the given `parent`
    fn add_layer_collection(
        &mut self,
        collection: AddLayerCollection,
        parent: &LayerCollectionId,
    ) -> (id: Result<LayerCollectionId, LayerDbError>)
        requires
            old(self).db_wf(),
        ensures
            final(self).db_wf(),
            id matches Ok(id) && is_random_uuid_text(id@) && final(self).db()
                == old(self).db().with_collection(id@, collection@, parent@),
    ;

    /// add new `collection` with fixed `id` to the given `parent`
    fn add_layer_collection_with_id(
        &mut self,
        id: &LayerCollectionId,
        collection: AddLayerCollection,
        parent: &LayerCollectionId,
    ) -> (result: Result<(), LayerDbError>)
        requires
            old(self).db_wf(),
        ensures
            final(self).db_wf(),
            result is Ok,
            final(self).db() == old(self).db().with_collection(id@, collection@, parent@),
    ;

    /// add existing `collection` to given `parent`
    fn add_collection_to_parent(
        &mut self,
        collection: &LayerCollectionId,
        parent: &LayerCollectionId,
    ) -> (result: Result<(), LayerDbError>)
        requires
            old(self).db_wf(),
        ensures
            final(self).db_wf(),
            result is Ok,
            final(self).db() == old(self).db().with_child(collection@, parent@),
    ;

    /// Removes a collection from the database.
    ///
    /// Does not work on the root collection.
    ///
    /// Potentially removes sub-collections if they have no other parent.
    /// Potentially removes layers if they have no other parent.
    fn remove_layer_collection(&mut self, collection: &LayerCollectionId) -> (result: Result<
        (),
        LayerDbError,
    >)
        requires
            old(self).db_wf(),
        ensures
            final(self).db_wf(),
            match result {
                Ok(()) => collection@ != root_collection() && final(self).db()
                    == old(self).db().with_removed(collection@),
                Err(error) => collection@ == root_collection() && error is CannotRemoveRootCollection
                    && final(self).db() == old(self).db(),
            },
    ;

    /// Removes a collection from a parent collection.
    ///
    /// Does not work on the root collection.
    ///
    /// Potentially removes sub-collections if they have no other parent.
    /// Potentially removes layers if they have no other parent.
    fn remove_layer_collection_from_parent(
        &mut self,
        collection: &LayerCollectionId,
        parent: &LayerCollectionId,
    ) -> (result: Result<(), LayerDbError>)
        requires
            old(self).db_wf(),
        ensures
            final(self).db_wf(),
            match result {
                Ok(()) => {
                    &&& lists_in(old(self).db().children, parent@, collection@)
                    &&& collection@ != root_collection()
                    &&& final(self).db() == old(self).db().with_removed_from_parent(
                        collection@,
                        parent@,
                    )
                },
                Err(error) => {
                    &&& final(self).db() == old(self).db()
                    &&& if !old(self).db().children.contains_key(parent@) {
                        error.is_no_collection(parent@)
                    } else if !old(self).db().children[parent@].contains(collection@) {
                        error.is_no_collection(collection@)
                    } else {
                        collection@ == root_collection() && error is CannotRemoveRootCollection
                    }
                },
            },
    ;

    /// Removes a layer from a collection.
    fn remove_layer_from_collection(
        &mut self,
        layer: &LayerId,
        collection: &LayerCollectionId,
    ) -> (result: Result<(), LayerDbError>)
        requires
            old(self).db_wf(),
        ensures
            final(self).db_wf(),
            match result {
                Ok(()) => lists_in(old(self).db().collection_layers, collection@, layer@)
                    && final(self).db() == old(self).db().with_layer_removed_from(
                    layer@,
                    collection@,
                ),
                Err(error) => {
                    &&& final(self).db() == old(self).db()
                    &&& if !old(self).db().collection_layers.contains_key(collection@) {
                        error.is_no_collection(collection@)
                    } else {
                        &&& !old(self).db().collection_layers[collection@].contains(layer@)
                        &&& error matches LayerDbError::NoLayerForGivenIdInCollection {
                            layer: layer_id,
                            collection: collection_id,
                        } && layer_id@ == layer@ && collection_id@ == collection@
                    }
                },
            },
    ;
}

/// A layer database that keeps everything in memory.
pub struct HashMapLayerDb<W, S> {
    pub backend: HashMapLayerDbBackend<W, S>,
}

impl<W, S> LayerDb<W, S> for HashMapLayerDb<W, S> {
    open spec fn db(&self) -> LayerDbView<W, S> {
        self.backend@
    }

    open spec fn db_wf(&self) -> bool {
        self.backend.wf()
    }

    fn add_layer(&mut self, layer: AddLayer<W, S>, collection: &LayerCollectionId) -> (id: Result<
        LayerId,
        LayerDbError,
    >) {
        let id = LayerId(new_uuid_text());
        self.backend.store_layer(&id, layer, collection);
        Ok(id)
    }

    fn add_layer_with_id(
        &mut self,
        id: &LayerId,
        layer: AddLayer<W, S>,
        collection: &LayerCollectionId,
    ) -> (result: Result<(), LayerDbError>) {
        self.backend.store_layer(id, layer, collection);
        Ok(())
    }

    fn add_layer_to_collection(
        &mut self,
        layer: &LayerId,
        collection: &LayerCollectionId,
    ) -> (result: Result<(), LayerDbError>) {
        self.backend.mention_layer(layer, collection)
    }

    fn add_layer_collection(
        &mut self,
        collection: AddLayerCollection,
        parent: &LayerCollectionId,
    ) -> (id: Result<LayerCollectionId, LayerDbError>) {
        let id = LayerCollectionId(new_uuid_text());
        self.backend.store_collection(&id, collection, parent);
        Ok(id)
    }

    fn add_layer_collection_with_id(
        &mut self,
        id: &LayerCollectionId,
        collection: AddLayerCollection,
        parent: &LayerCollectionId,
    ) -> (result: Result<(), LayerDbError>) {
        self.backend.store_collection(id, collection, parent);
        Ok(())
    }

    fn add_collection_to_parent(
        &mut self,
        collection: &LayerCollectionId,
        parent: &LayerCollectionId,
    ) -> (result: Result<(), LayerDbError>) {
        self.backend.mention_collection(collection, parent);
        Ok(())
    }

    fn remove_layer_collection(&mut self, collection: &LayerCollectionId) -> (result: Result<
        (),
        LayerDbError,
    >) {
        if is_root(collection) {
            return Err(LayerDbError::CannotRemoveRootCollection);
        }
        self.backend.remove_with_orphans(collection);
        Ok(())
    }

    fn remove_layer_collection_from_parent(
        &mut self,
        collection: &LayerCollectionId,
        parent: &LayerCollectionId,
    ) -> (result: Result<(), LayerDbError>) {
        self.backend.remove_from_parent(collection, parent)
    }

    fn remove_layer_from_collection(
        &mut self,
        layer: &LayerId,
        collection: &LayerCollectionId,
    ) -> (result: Result<(), LayerDbError>) {
        self.backend.remove_layer_from(layer, collection)
    }
}

/// Whether this is the root collection.
fn is_root(collection: &LayerCollectionId) -> (root: bool)
    ensures
        root == (collection@ == root_collection()),
{
    same_text(
        collection.0.as_str(),
        uuid_to_string(INTERNAL_LAYER_DB_ROOT_COLLECTION_ID).as_str(),
    )
}

impl<W, S> HashMapLayerDbBackend<W, S> {
    fn store_layer(&mut self, id: &LayerId, layer: AddLayer<W, S>, collection: &LayerCollectionId)
        requires
            old(self).wf(),
            layer.metadata.wf(),
        ensures
            final(self).wf(),
            final(self)@ == old(self)@.with_layer(id@, layer@, collection@),
    {
        self.layers.insert(id.0.clone(), layer);
        assert(self@.layers =~= old(self)@.layers.insert(id@, layer@));
        push_id(&mut self.collection_layers, collection.0.as_str(), id.clone());
    }

    fn mention_layer(&mut self, layer: &LayerId, collection: &LayerCollectionId) -> (result: Result<
        (),
        LayerDbError,
    >)
        requires
            old(self).wf(),
        ensures
            final(self).wf(),
            match result {
                Ok(()) => old(self)@.layers.contains_key(layer@) && final(self)@
                    == old(self)@.with_layer_in(layer@, collection@),
                Err(error) => !old(self)@.layers.contains_key(layer@) && error.is_no_layer(layer@)
                    && final(self)@ == old(self)@,
            },
    {
        if !self.layers.contains_key(layer.0.as_str()) {
            return Err(LayerDbError::NoLayerForGivenId { id: layer.clone() });
        }
        let listed = match self.collection_layers.get(collection.0.as_str()) {
            Some(layers) => contains_id(layers, layer.0.as_str()),
            None => false,
        };
        if !listed {
            push_id(&mut self.collection_layers, collection.0.as_str(), layer.clone());
        }
        Ok(())
    }

    fn store_collection(
        &mut self,
        id: &LayerCollectionId,
        collection: AddLayerCollection,
        parent: &LayerCollectionId,
    )
        requires
            old(self).wf(),
        ensures
            final(self).wf(),
            final(self)@ == old(self)@.with_collection(id@, collection@, parent@),
    {
        self.collections.insert(id.0.clone(), collection);
        assert(self@.collections =~= old(self)@.collections.insert(id@, collection@));
        push_id(&mut self.collection_children, parent.0.as_str(), id.clone());
    }

    fn mention_collection(&mut self, collection: &LayerCollectionId, parent: &LayerCollectionId)
        requires
            old(self).wf(),
        ensures
            final(self).wf(),
            final(self)@ == old(self)@.with_child(collection@, parent@),
    {
        let listed = match self.collection_children.get(parent.0.as_str()) {
            Some(children) => contains_id(children, collection.0.as_str()),
            None => false,
        };
        if !listed {
            push_id(&mut self.collection_children, parent.0.as_str(), collection.clone());
        }
    }

    fn remove_from_parent(
        &mut self,
        collection: &LayerCollectionId,
        parent: &LayerCollectionId,
    ) -> (result: Result<(), LayerDbError>)
        requires
            old(self).wf(),
        ensures
            final(self).wf(),
            match result {
                Ok(()) => {
                    &&& lists_in(old(self)@.children, parent@, collection@)
                    &&& collection@ != root_collection()
                    &&& final(self)@ == old(self)@.with_removed_from_parent(collection@, parent@)
                },
                Err(error) => {
                    &&& final(self)@ == old(self)@
                    &&& if !old(self)@.children.contains_key(parent@) {
                        error.is_no_collection(parent@)
                    } else if !old(self)@.children[parent@].contains(collection@) {
                        error.is_no_collection(collection@)
                    } else {
                        collection@ == root_collection() && error is CannotRemoveRootCollection
                    }
                },
            },
    {
        let children = match self.collection_children.get(parent.0.as_str()) {
            Some(children) => children,
            None => {
                return Err(LayerDbError::NoLayerCollectionForGivenId { id: parent.clone() });
            },
        };
        let rest = others(children, collection.0.as_str());
        proof {
            lemma_outside_len(ids_view(children@), collection@);
        }
        if rest.len() == children.len() {
            return Err(LayerDbError::NoLayerCollectionForGivenId { id: collection.clone() });
        }
        if is_root(collection) {
            return Err(LayerDbError::CannotRemoveRootCollection);
        }
        self.collection_children.insert(parent.0.clone(), rest);
        assert(self@.children =~= old(self)@.detached(collection@, parent@).children);
        if !any_list_contains(&self.collection_children, collection.0.as_str()) {
            self.remove_with_orphans(collection);
        }
        Ok(())
    }

    fn remove_layer_from(&mut self, layer: &LayerId, collection: &LayerCollectionId) -> (result:
        Result<(), LayerDbError>)
        requires
            old(self).wf(),
        ensures
            final(self).wf(),
            match result {
                Ok(()) => lists_in(old(self)@.collection_layers, collection@, layer@) && final(self)@
                    == old(self)@.with_layer_removed_from(layer@, collection@),
                Err(error) => {
                    &&& final(self)@ == old(self)@
                    &&& if !old(self)@.collection_layers.contains_key(collection@) {
                        error.is_no_collection(collection@)
                    } else {
                        &&& !old(self)@.collection_layers[collection@].contains(layer@)
                        &&& error matches LayerDbError::NoLayerForGivenIdInCollection {
                            layer: layer_id,
                            collection: collection_id,
                        } && layer_id@ == layer@ && collection_id@ == collection@
                    }
                },
            },
    {
        let place: usize = match self.collection_layers.get(collection.0.as_str()) {
            Some(layers) => match find_id(layers, layer.0.as_str()) {
                Some(place) => place,
                None => {
                    return Err(
                        LayerDbError::NoLayerForGivenIdInCollection {
                            layer: layer.clone(),
                            collection: collection.clone(),
                        },
                    );
                },
            },
            None => {
                return Err(LayerDbError::NoLayerCollectionForGivenId { id: collection.clone() });
            },
        };
        let ghost list = old(self)@.collection_layers[collection@];
        proof {
            assert(list[place as int] == layer@);
            assert forall|i: int| 0 <= i < place implies list[i] != layer@ by {
                assert(old(self).collection_layers@[collection@]@[i].text() == list[i]);
            }
            lemma_first_place(list, layer@, place as int);
        }
        match self.collection_layers.remove(collection.0.as_str()) {
            Some(layers) => {
                let mut layers = layers;
                let ghost before = ids_view(layers@);
                let _ = layers.remove(place);
                assert(ids_view(layers@) =~= before.remove(place as int));
                self.collection_layers.insert(collection.0.clone(), layers);
                assert(self@.collection_layers =~= old(self)@.collection_layers.insert(
                    collection@,
                    list.remove(place as int),
                ));
                if !any_list_contains(&self.collection_layers, layer.0.as_str()) {
                    let _ = self.layers.remove(layer.0.as_str());
                    assert(self@.layers =~= old(self)@.layers.remove(layer@));
                }
            },
            None => {},
        }
        Ok(())
    }
}

/// The first place of an identifier.
proof fn lemma_first_place(list: Seq<Seq<char>>, id: Seq<char>, place: int)
    requires
        0 <= place < list.len(),
        list[place] == id,
        forall|i: int| 0 <= i < place ==> list[i] != id,
    ensures
        list.contains(id),
        list.index_of_first(id) == Some(place),
{
    list.index_of_first_ensures(id);
}

/// A new database: the root collection with the collection for unsorted layers in it.
pub open spec fn default_db<W, S>() -> LayerDbView<W, S> {
    LayerDbView {
        layers: Map::empty(),
        collections: Map::<Seq<char>, CollectionInfo>::empty().insert(
            root_collection(),
            CollectionInfo {
                name: "LayerDB"@,
                description: "Root collection for LayerDB"@,
                properties: Seq::empty(),
            },
        ).insert(
            unsorted_collection(),
            CollectionInfo {
                name: "Unsorted"@,
                description: "Unsorted Layers"@,
                properties: Seq::empty(),
            },
        ),
        children: Map::<Seq<char>, Seq<Seq<char>>>::empty().insert(
            root_collection(),
            seq![unsorted_collection()],
        ),
        collection_layers: Map::empty(),
    }
}

impl<W, S> Default for HashMapLayerDbBackend<W, S> {
    fn default() -> (backend: Self)
        ensures
            backend.wf(),
            backend@ == default_db::<W, S>(),
    {
        let mut collections: StringMap<AddLayerCollection> = StringMap::new();
        let root = AddLayerCollection {
            name: "LayerDB".to_owned(),
            description: "Root collection for LayerDB".to_owned(),
            properties: Vec::new(),
        };
        let unsorted = AddLayerCollection {
            name: "Unsorted".to_owned(),
            description: "Unsorted Layers".to_owned(),
            properties: Vec::new(),
        };
        assert(properties_view(root.properties@) =~= Seq::empty());
        assert(properties_view(unsorted.properties@) =~= Seq::empty());
        collections.insert(uuid_to_string(INTERNAL_LAYER_DB_ROOT_COLLECTION_ID), root);
        collections.insert(uuid_to_string(UNSORTED_COLLECTION_ID), unsorted);
        let mut children: Vec<LayerCollectionId> = Vec::new();
        children.push(LayerCollectionId(uuid_to_string(UNSORTED_COLLECTION_ID)));
        assert(ids_view(children@) =~= seq![unsorted_collection()]);
        let mut collection_children: StringMap<Vec<LayerCollectionId>> = StringMap::new();
        collection_children.insert(
            uuid_to_string(INTERNAL_LAYER_DB_ROOT_COLLECTION_ID),
            children,
        );
        let backend = HashMapLayerDbBackend {
            layers: StringMap::new(),
            collections,
            collection_children,
            collection_layers: StringMap::new(),
        };
        proof {
            let expected = default_db::<W, S>();
            assert(backend@.layers =~= expected.layers);
            assert(backend@.collections =~= expected.collections);
            assert(backend@.children =~= expected.children);
            assert(backend@.collection_layers =~= expected.collection_layers);
        }
        backend
    }
}

impl<W, S> Default for HashMapLayerDb<W, S> {
    fn default() -> (db: Self)
        ensures
            db.db_wf(),
            db.db() == default_db::<W, S>(),
    {
        HashMapLayerDb { backend: HashMapLayerDbBackend::default() }
    }
}

impl<W, S> LayerDbView<W, S> {
    /// What is listed of a collection, in the order in which it was added.
    pub open spec fn listed(
        self,
        collection: Seq<char>,
        options: LayerCollectionListOptions,
    ) -> Seq<ItemView> {
        window(
            self.content(collection).map_values(
                |mention: Mention| self.item(INTERNAL_PROVIDER_ID, mention),
            ),
            options.offset as int,
            options.limit as int,
        )
    }

    /// What has to be looked at to list a collection exists: the listed items and, if there are any,
    /// those in front of them.
    pub open spec fn is_listable(
        self,
        collection: Seq<char>,
        options: LayerCollectionListOptions,
    ) -> bool {
        self.collections.contains_key(collection) && options.limit > 0 ==> forall|i: int|
            0 <= i < self.content(collection).len() && i < options.offset + options.limit
                ==> self.has(#[trigger] self.content(collection)[i])
    }

    /// `loaded` is a collection with the listed items, where collections come before layers and both
    /// are sorted by name.
    pub open spec fn is_loaded(
        self,
        collection: Seq<char>,
        options: LayerCollectionListOptions,
        loaded: LayerCollectionView,
    ) -> bool {
        &&& self.collections.contains_key(collection)
        &&& loaded.provider == INTERNAL_PROVIDER_ID
        &&& loaded.id == collection
        &&& loaded.name == self.collections[collection].name
        &&& loaded.description == self.collections[collection].description
        &&& loaded.entry_label is None
        &&& loaded.properties == Seq::<(Seq<char>, Seq<char>)>::empty()
        &&& is_sorted_listing(self.listed(collection, options), loaded.items)
    }
}

/// `sorted` has the items in the order of their keys.
pub open spec fn is_sorted_listing(items: Seq<ItemView>, sorted: Seq<ItemView>) -> bool {
    exists|order: Seq<int>| #[trigger]
        is_stable_order(item_keys(items), order) && sorted == reordered(items, order)
}

pub open spec fn item_keys(items: Seq<ItemView>) -> Seq<ListKey> {
    Seq::new(items.len(), |i: int| items[i].list_key())
}

/// `loaded` is the stored layer.
pub open spec fn is_loaded_layer<W: Clone, S: Clone>(
    stored: LayerView<W, S>,
    loaded: LayerView<W, S>,
) -> bool {
    &&& loaded.name == stored.name
    &&& loaded.description == stored.description
    &&& cloned(stored.workflow, loaded.workflow)
    &&& cloned(stored.symbology, loaded.symbology)
    &&& loaded.metadata == stored.metadata
    &&& loaded.properties == stored.properties
}

/// Something that lists layer collections and loads layers.
pub trait LayerCollectionProvider<W: Clone, S: Clone> {
    /// What can be listed and loaded.
    spec fn provided(&self) -> LayerDbView<W, S>;

    spec fn provider_wf(&self) -> bool;

    fn load_layer_collection(
        &self,
        collection_id: &LayerCollectionId,
        options: LayerCollectionListOptions,
    ) -> (collection: Result<LayerCollection, LayerDbError>)
        requires
            self.provider_wf(),
            self.provided().is_listable(collection_id@, options),
        ensures
            match collection {
                Ok(collection) => self.provided().is_loaded(collection_id@, options, collection@),
                Err(error) => !self.provided().collections.contains_key(collection_id@)
                    && error.is_no_collection(collection_id@),
            },
    ;

    fn get_root_layer_collection_id(&self) -> (id: Result<LayerCollectionId, LayerDbError>)
        ensures
            id matches Ok(id) && id@ == root_collection(),
    ;

    fn load_layer(&self, id: &LayerId) -> (layer: Result<Layer<W, S>, LayerDbError>)
        requires
            self.provider_wf(),
        ensures
            match layer {
                Ok(layer) => {
                    &&& self.provided().layers.contains_key(id@)
                    &&& layer.id.provider_id.0 == INTERNAL_PROVIDER_ID
                    &&& layer.id.layer_id@ == id@
                    &&& is_loaded_layer(self.provided().layers[id@], layer.content())
                },
                Err(error) => !self.provided().layers.contains_key(id@) && error.is_no_layer(id@),
            },
    ;
}

impl<W, S> HashMapLayerDbBackend<W, S> {
    /// How a collection is listed.
    fn collection_item(&self, id: &LayerCollectionId) -> (item: CollectionItem)
        requires
            self.wf(),
            self@.collections.contains_key(id@),
        ensures
            item@ == self@.item(INTERNAL_PROVIDER_ID, Mention::Collection(id@)),
    {
        let collection = self.collections.get(id.0.as_str()).unwrap();
        let properties: Vec<Property> = Vec::new();
        assert(properties_view(properties@) =~= Seq::empty());
        CollectionItem::Collection(
            LayerCollectionListing {
                id: ProviderLayerCollectionId {
                    provider_id: DataProviderId(INTERNAL_PROVIDER_ID),
                    collection_id: id.clone(),
                },
                name: collection.name.clone(),
                description: collection.description.clone(),
                properties,
            },
        )
    }

    /// How a layer is listed.
    fn layer_item(&self, id: &LayerId) -> (item: CollectionItem)
        requires
            self.wf(),
            self@.layers.contains_key(id@),
        ensures
            item@ == self@.item(INTERNAL_PROVIDER_ID, Mention::Layer(id@)),
    {
        let layer = self.layers.get(id.0.as_str()).unwrap();
        CollectionItem::Layer(
            LayerListing {
                id: ProviderLayerId {
                    provider_id: DataProviderId(INTERNAL_PROVIDER_ID),
                    layer_id: id.clone(),
                },
                name: layer.name.clone(),
                description: layer.description.clone(),
                properties: clone_properties(&layer.properties),
            },
        )
    }

    /// The items of a collection, in the order in which they were added.
    fn list_items(
        &self,
        collection_id: &LayerCollectionId,
        options: LayerCollectionListOptions,
    ) -> (items: Vec<CollectionItem>)
        requires
            self.wf(),
            self@.collections.contains_key(collection_id@),
            self@.is_listable(collection_id@, options),
        ensures
            items_view(items@) == self@.listed(collection_id@, options),
    {
        let ghost content = self@.content(collection_id@);
        let ghost all = content.map_values(
            |mention: Mention| self@.item(INTERNAL_PROVIDER_ID, mention),
        );
        let no_children: Vec<LayerCollectionId> = Vec::new();
        let no_layers: Vec<LayerId> = Vec::new();
        let children = match self.collection_children.get(collection_id.0.as_str()) {
            Some(children) => children,
            None => &no_children,
        };
        let layers = match self.collection_layers.get(collection_id.0.as_str()) {
            Some(layers) => layers,
            None => &no_layers,
        };
        proof {
            assert(ids_view(children@) =~= list_at(self@.children, collection_id@));
            assert(ids_view(layers@) =~= list_at(self@.collection_layers, collection_id@));
        }
        let limit: usize = options.limit as usize;
        let offset: usize = options.offset as usize;
        let mut items: Vec<CollectionItem> = Vec::new();
        let mut i: usize = 0;
        while i < children.len()
            invariant
                i <= children@.len(),
                self.wf(),
                self@.collections.contains_key(collection_id@),
                self@.is_listable(collection_id@, options),
                limit == options.limit,
                offset == options.offset,
                content == self@.content(collection_id@),
                all == content.map_values(
                    |mention: Mention| self@.item(INTERNAL_PROVIDER_ID, mention),
                ),
                content.len() == children@.len() + layers@.len(),
                forall|j: int|
                    0 <= j < children@.len() ==> #[trigger] content[j] == Mention::Collection(
                        children@[j]@,
                    ),
                items_view(items@) =~= window(all.take(i as int), offset as int, limit as int),
            decreases children@.len() - i,
        {
            proof {
                lemma_window_push(all, i as int, offset as int, limit as int);
            }
            if i >= offset && items.len() < limit {
                assert(self@.has(content[i as int]));
                items.push(self.collection_item(&children[i]));
            }
            i += 1;
        }
        let ghost count = i as int;
        let mut j: usize = 0;
        while j < layers.len()
            invariant
                j <= layers@.len(),
                count == children@.len(),
                self.wf(),
                self@.collections.contains_key(collection_id@),
                self@.is_listable(collection_id@, options),
                limit == options.limit,
                offset == options.offset,
                content == self@.content(collection_id@),
                all == content.map_values(
                    |mention: Mention| self@.item(INTERNAL_PROVIDER_ID, mention),
                ),
                content.len() == children@.len() + layers@.len(),
                forall|k: int|
                    0 <= k < layers@.len() ==> #[trigger] content[count + k] == Mention::Layer(
                        layers@[k]@,
                    ),
                items_view(items@) =~= window(all.take(count + j), offset as int, limit as int),
            decreases layers@.len() - j,
        {
            proof {
                lemma_window_push(all, count + j, offset as int, limit as int);
            }
            let skipped = j < offset && children.len() < offset - j;
            if !skipped && items.len() < limit {
                assert(self@.has(content[count + j]));
                items.push(self.layer_item(&layers[j]));
            }
            j += 1;
        }
        assert(all.take(count + j) =~= all);
        items
    }
}

impl<W, S> HashMapLayerDb<W, S> {
    /// Whether everything exists that has to be looked at to list a collection.
    pub fn can_list(
        &self,
        collection_id: &LayerCollectionId,
        options: LayerCollectionListOptions,
    ) -> (can: bool)
        requires
            self.backend.wf(),
        ensures
            can == self.backend@.is_listable(collection_id@, options),
    {
        self.backend.can_list(collection_id, options)
    }
}

impl<W, S> HashMapLayerDbBackend<W, S> {
    fn can_list(
        &self,
        collection_id: &LayerCollectionId,
        options: LayerCollectionListOptions,
    ) -> (can: bool)
        requires
            self.wf(),
        ensures
            can == self@.is_listable(collection_id@, options),
    {
        if options.limit == 0 || !self.collections.contains_key(collection_id.0.as_str()) {
            return true;
        }
        let ghost content = self@.content(collection_id@);
        let end: u64 = options.offset as u64 + options.limit as u64;
        let no_children: Vec<LayerCollectionId> = Vec::new();
        let no_layers: Vec<LayerId> = Vec::new();
        let children = match self.collection_children.get(collection_id.0.as_str()) {
            Some(children) => children,
            None => &no_children,
        };
        let layers = match self.collection_layers.get(collection_id.0.as_str()) {
            Some(layers) => layers,
            None => &no_layers,
        };
        proof {
            assert(ids_view(children@) =~= list_at(self@.children, collection_id@));
            assert(ids_view(layers@) =~= list_at(self@.collection_layers, collection_id@));
        }
        let mut i: usize = 0;
        while i < children.len() && (i as u64) < end
            invariant
                i <= children@.len(),
                self.wf(),
                options.limit > 0,
                self@.collections.contains_key(collection_id@),
                end == options.offset + options.limit,
                content == self@.content(collection_id@),
                content.len() >= children@.len(),
                forall|j: int|
                    0 <= j < children@.len() ==> #[trigger] content[j] == Mention::Collection(
                        children@[j]@,
                    ),
                forall|j: int| 0 <= j < i ==> self@.has(#[trigger] content[j]),
            decreases children@.len() - i,
        {
            if !self.collections.contains_key(children[i].0.as_str()) {
                assert(!self@.has(content[i as int]));
                return false;
            }
            i += 1;
        }
        if (i as u64) >= end {
            return true;
        }
        let rest: u64 = end - i as u64;
        let mut j: usize = 0;
        while j < layers.len() && (j as u64) < rest
            invariant
                j <= layers@.len(),
                i == children@.len(),
                rest == end - i,
                self.wf(),
                options.limit > 0,
                self@.collections.contains_key(collection_id@),
                end == options.offset + options.limit,
                content == self@.content(collection_id@),
                content.len() == children@.len() + layers@.len(),
                forall|k: int|
                    0 <= k < layers@.len() ==> #[trigger] content[i + k] == Mention::Layer(
                        layers@[k]@,
                    ),
                forall|k: int| 0 <= k < i + j ==> self@.has(#[trigger] content[k]),
            decreases layers@.len() - j,
        {
            if !self.layers.contains_key(layers[j].0.as_str()) {
                assert(!self@.has(content[i + j]));
                return false;
            }
            assert(self@.has(content[i + j]));
            j += 1;
        }
        true
    }
}

impl<W: Clone, S: Clone> LayerCollectionProvider<W, S> for HashMapLayerDb<W, S> {
    open spec fn provided(&self) -> LayerDbView<W, S> {
        self.backend@
    }

    open spec fn provider_wf(&self) -> bool {
        self.backend.wf()
    }

    fn load_layer_collection(
        &self,
        collection_id: &LayerCollectionId,
        options: LayerCollectionListOptions,
    ) -> (loaded: Result<LayerCollection, LayerDbError>) {
        let collection = match self.backend.collections.get(collection_id.0.as_str()) {
            Some(collection) => collection,
            None => {
                return Err(
                    LayerDbError::NoLayerCollectionForGivenId { id: collection_id.clone() },
                );
            },
        };
        let listed = self.backend.list_items(collection_id, options);
        let ghost before = listed@;
        let items = sort_listed(listed);
        proof {
            let order = choose|order: Seq<int>| #[trigger]
                is_stable_order(list_keys(before), order) && items@ == reordered(before, order);
            assert(list_keys(before) =~= item_keys(items_view(before)));
            assert(is_stable_order(item_keys(items_view(before)), order));
            assert(items_view(items@) =~= reordered(items_view(before), order));
        }
        let properties: Vec<Property> = Vec::new();
        assert(properties_view(properties@) =~= Seq::empty());
        Ok(
            LayerCollection {
                id: ProviderLayerCollectionId {
                    provider_id: DataProviderId(INTERNAL_PROVIDER_ID),
                    collection_id: collection_id.clone(),
                },
                name: collection.name.clone(),
                description: collection.description.clone(),
                items,
                entry_label: None,
                properties,
            },
        )
    }

    fn get_root_layer_collection_id(&self) -> (id: Result<LayerCollectionId, LayerDbError>) {
        Ok(LayerCollectionId(uuid_to_string(INTERNAL_LAYER_DB_ROOT_COLLECTION_ID)))
    }

    fn load_layer(&self, id: &LayerId) -> (loaded: Result<Layer<W, S>, LayerDbError>) {
        match self.backend.layers.get(id.0.as_str()) {
            Some(layer) => Ok(
                Layer {
                    id: ProviderLayerId {
                        provider_id: DataProviderId(INTERNAL_PROVIDER_ID),
                        layer_id: id.clone(),
                    },
                    name: layer.name.clone(),
                    description: layer.description.clone(),
                    workflow: layer.workflow.clone(),
                    symbology: layer.symbology.clone(),
                    properties: clone_properties(&layer.properties),
                    metadata: layer.metadata.clone_texts(),
                },
            ),
            None => Err(LayerDbError::NoLayerForGivenId { id: id.clone() }),
        }
    }
}

} // verus!
