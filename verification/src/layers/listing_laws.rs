//! What the operations of a layer database are for: what was put into a collection is in it, what was
//! taken out is not, and a listing shows what is there.

use vstd::prelude::*;

use crate::ids::{law_texts_tell_uuids_apart, uuid_text};
use crate::layers::in_memory::InMemoryDb;
use crate::layers::layer::{
    window, AddLayer, AddLayerCollection, CollectionInfo, CollectionItem, ItemView, Layer,
    LayerCollection, LayerCollectionListOptions, LayerCollectionView, LayerView, ListingView,
};
use crate::layers::lists::{
    is_listed, lemma_outside_contains, list_at, lists_in, outside,
};
use crate::layers::laws::law_removed_collections_are_gone;
use crate::layers::model::{lemma_without_lists, LayerDbView, Mention};
use crate::layers::provider_db::LayerProviderDb;
use crate::layers::storage::{
    default_db, is_loaded_layer, item_keys, root_collection, unsorted_collection, HashMapLayerDb,
    LayerCollectionProvider, LayerDb, LayerDbError, INTERNAL_LAYER_DB_ROOT_COLLECTION_ID,
    INTERNAL_PROVIDER_ID, UNSORTED_COLLECTION_ID,
};
use crate::util::sort::{comes_before, is_stable_order, law_order_has_no_duplicates, reordered};
use crate::util::text::{
    law_text_less_is_irreflexive, law_text_less_is_transitive, text_less,
};

verus! {

/// Something is in a list under a key exactly if it stands somewhere in it, and it is listed exactly if
/// it is in the list under some key. What is kept of a list is what stays, in its order.
pub proof fn law_lists_hold_what_is_in_them(
    lists: Map<Seq<char>, Seq<Seq<char>>>,
    key: Seq<char>,
    id: Seq<char>,
    list: Seq<Seq<char>>,
    gone: Set<Seq<char>>,
)
    ensures
        lists.contains_key(key) ==> list_at(lists, key) == lists[key],
        !lists.contains_key(key) ==> list_at(lists, key).len() == 0,
        lists_in(lists, key, id) <==> lists.contains_key(key) && exists|i: int|
            0 <= i < lists[key].len() && #[trigger] lists[key][i] == id,
        is_listed(lists, id) <==> exists|other: Seq<char>|
            lists.contains_key(other) && #[trigger] lists[other].contains(id),
        outside(list, gone) == list.filter(|kept: Seq<char>| !gone.contains(kept)),
{
    if is_listed(lists, id) {
        let other = choose|other: Seq<char>| lists_in(lists, other, id);
        assert(lists[other].contains(id));
    }
    if exists|other: Seq<char>| lists.contains_key(other) && #[trigger] lists[other].contains(id) {
        let other = choose|other: Seq<char>|
            lists.contains_key(other) && #[trigger] lists[other].contains(id);
        assert(lists_in(lists, other, id));
    }
    lemma_outside_filters(list, gone);
}

proof fn lemma_outside_filters(list: Seq<Seq<char>>, gone: Set<Seq<char>>)
    ensures
        outside(list, gone) == list.filter(|kept: Seq<char>| !gone.contains(kept)),
    decreases list.len(),
{
    reveal(Seq::filter);
    if list.len() > 0 {
        lemma_outside_filters(list.drop_last(), gone);
    }
}

/// After a layer was added to a collection it is in it, as often as before if it was in it already and
/// once at the end if it was not. All that was in the collection is still there in its order, and
/// nothing else changes.
pub proof fn law_mentioned_layers_are_in_their_collection<W, S>(
    db: LayerDbView<W, S>,
    id: Seq<char>,
    collection: Seq<char>,
    other: Seq<char>,
)
    ensures
        ({
            let after = db.with_layer_in(id, collection);
            let before = if db.collection_layers.contains_key(collection) {
                db.collection_layers[collection]
            } else {
                Seq::empty()
            };
            &&& after.collection_layers.contains_key(collection)
            &&& after.collection_layers[collection].contains(id)
            &&& before.contains(id) ==> after.collection_layers[collection] == before
            &&& !before.contains(id) ==> after.collection_layers[collection] == before + seq![id]
            &&& other != collection ==> {
                &&& after.collection_layers.contains_key(other)
                    <==> db.collection_layers.contains_key(other)
                &&& after.collection_layers[other] == db.collection_layers[other]
            }
            &&& after.layers == db.layers
            &&& after.collections == db.collections
            &&& after.children == db.children
        }),
{
    let after = db.with_layer_in(id, collection);
    let list = after.collection_layers[collection];
    if !lists_in(db.collection_layers, collection, id) {
        assert(list[list.len() - 1] == id);
        assert(list =~= list_at(db.collection_layers, collection) + seq![id]);
    }
}

/// After a collection was added to a parent it is in it, as often as before if it was in it already and
/// once at the end if it was not. All that was in the parent is still there in its order, and nothing
/// else changes.
pub proof fn law_mentioned_collections_are_in_their_parent<W, S>(
    db: LayerDbView<W, S>,
    id: Seq<char>,
    parent: Seq<char>,
    other: Seq<char>,
)
    ensures
        ({
            let after = db.with_child(id, parent);
            let before = if db.children.contains_key(parent) {
                db.children[parent]
            } else {
                Seq::empty()
            };
            &&& after.children.contains_key(parent)
            &&& after.children[parent].contains(id)
            &&& before.contains(id) ==> after.children[parent] == before
            &&& !before.contains(id) ==> after.children[parent] == before + seq![id]
            &&& other != parent ==> {
                &&& after.children.contains_key(other) <==> db.children.contains_key(other)
                &&& after.children[other] == db.children[other]
            }
            &&& after.layers == db.layers
            &&& after.collections == db.collections
            &&& after.collection_layers == db.collection_layers
        }),
{
    let after = db.with_child(id, parent);
    let list = after.children[parent];
    if !lists_in(db.children, parent, id) {
        assert(list[list.len() - 1] == id);
        assert(list =~= list_at(db.children, parent) + seq![id]);
    }
}

/// A new layer is stored under its identifier and stands at the end of its collection. Other layers and
/// other collections stay as they are.
pub proof fn law_new_layers_are_in_their_collection<W, S>(
    db: LayerDbView<W, S>,
    id: Seq<char>,
    layer: LayerView<W, S>,
    collection: Seq<char>,
    other: Seq<char>,
)
    ensures
        ({
            let after = db.with_layer(id, layer, collection);
            let before = if db.collection_layers.contains_key(collection) {
                db.collection_layers[collection]
            } else {
                Seq::empty()
            };
            &&& after.layers.contains_key(id)
            &&& after.layers[id] == layer
            &&& after.collection_layers.contains_key(collection)
            &&& after.collection_layers[collection] == before + seq![id]
            &&& other != id ==> {
                &&& after.layers.contains_key(other) <==> db.layers.contains_key(other)
                &&& after.layers[other] == db.layers[other]
            }
            &&& other != collection ==> {
                &&& after.collection_layers.contains_key(other)
                    <==> db.collection_layers.contains_key(other)
                &&& after.collection_layers[other] == db.collection_layers[other]
            }
            &&& after.collections == db.collections
            &&& after.children == db.children
        }),
{
    let after = db.with_layer(id, layer, collection);
    assert(after.collection_layers[collection] =~= list_at(db.collection_layers, collection)
        + seq![id]);
}

/// A new collection is stored under its identifier and stands at the end of its parent. Other
/// collections stay as they are.
pub proof fn law_new_collections_are_in_their_parent<W, S>(
    db: LayerDbView<W, S>,
    id: Seq<char>,
    collection: CollectionInfo,
    parent: Seq<char>,
    other: Seq<char>,
)
    ensures
        ({
            let after = db.with_collection(id, collection, parent);
            let before = if db.children.contains_key(parent) {
                db.children[parent]
            } else {
                Seq::empty()
            };
            &&& after.collections.contains_key(id)
            &&& after.collections[id] == collection
            &&& after.children.contains_key(parent)
            &&& after.children[parent] == before + seq![id]
            &&& other != id ==> {
                &&& after.collections.contains_key(other) <==> db.collections.contains_key(other)
                &&& after.collections[other] == db.collections[other]
            }
            &&& other != parent ==> {
                &&& after.children.contains_key(other) <==> db.children.contains_key(other)
                &&& after.children[other] == db.children[other]
            }
            &&& after.layers == db.layers
            &&& after.collection_layers == db.collection_layers
        }),
{
    let after = db.with_collection(id, collection, parent);
    assert(after.children[parent] =~= list_at(db.children, parent) + seq![id]);
}

/// After a collection was removed from a parent it is not in it any more. As long as another parent has
/// it, this is all that changes, and the other children of the parent keep their order. If no other
/// parent has it, it goes as if it had been removed when it was in no collection.
pub proof fn law_removal_from_parents<W, S>(
    db: LayerDbView<W, S>,
    id: Seq<char>,
    parent: Seq<char>,
    other: Seq<char>,
)
    requires
        db.children.contains_key(parent),
        other != parent,
    ensures
        ({
            let after = db.with_removed_from_parent(id, parent);
            let kept = db.children.insert(
                parent,
                db.children[parent].filter(|child: Seq<char>| child != id),
            );
            &&& !(after.children.contains_key(parent) && after.children[parent].contains(id))
            &&& db.children.contains_key(other) && db.children[other].contains(id) ==> after == (
            LayerDbView { children: kept, ..db })
            &&& (forall|third: Seq<char>|
                third != parent && #[trigger] db.children.contains_key(third)
                    ==> !db.children[third].contains(id)) ==> {
                &&& after == (LayerDbView { children: kept, ..db }).with_removed(id)
                &&& !after.collections.contains_key(id)
            }
        }),
{
    let detached = db.detached(id, parent);
    let after = db.with_removed_from_parent(id, parent);
    lemma_outside_filters(db.children[parent], set![id]);
    assert((|kept: Seq<char>| !set![id].contains(kept)) =~= (|child: Seq<char>| child != id));
    lemma_outside_contains(db.children[parent], set![id], id);
    if db.children.contains_key(other) && db.children[other].contains(id) {
        assert(lists_in(detached.children, other, id));
    }
    if forall|third: Seq<char>|
        third != parent && #[trigger] db.children.contains_key(third)
            ==> !db.children[third].contains(id) {
        assert forall|third: Seq<char>| !lists_in(detached.children, third, id) by {
            if third != parent {
                assert(detached.children.contains_key(third) ==> db.children.contains_key(third));
            }
        }
    }
    if !is_listed(detached.children, id) {
        law_removed_collections_are_gone(detached, id, id);
        assert(detached.removed_with(id).contains(id));
        lemma_without_lists(detached, detached.removed_with(id), parent, id);
    }
}

/// Removing a layer from a collection takes its first mention out and leaves everything else in its
/// order. The layer itself goes exactly if it is in no collection any more.
pub proof fn law_first_mentions_are_removed<W, S>(
    db: LayerDbView<W, S>,
    id: Seq<char>,
    collection: Seq<char>,
    front: Seq<Seq<char>>,
    back: Seq<Seq<char>>,
)
    requires
        db.collection_layers.contains_key(collection),
        db.collection_layers[collection] == front + seq![id] + back,
        !front.contains(id),
    ensures
        ({
            let after = db.with_layer_removed_from(id, collection);
            &&& after.collection_layers == db.collection_layers.insert(collection, front + back)
            &&& after.layers == if exists|key: Seq<char>|
                after.collection_layers.contains_key(key)
                    && #[trigger] after.collection_layers[key].contains(id) {
                db.layers
            } else {
                db.layers.remove(id)
            }
            &&& after.collections == db.collections
            &&& after.children == db.children
        }),
{
    let list = db.collection_layers[collection];
    let after = db.with_layer_removed_from(id, collection);
    assert(list[front.len() as int] == id);
    list.index_of_first_ensures(id);
    let place = list.index_of_first(id)->0;
    if place < front.len() {
        assert(front[place] == id);
    }
    assert(place == front.len());
    assert(list.remove(place) =~= front + back);
    law_lists_hold_what_is_in_them(after.collection_layers, collection, id, front, Set::empty());
}

/// A new database has its two collections, of which the root collection has the other one in it, and
/// nothing else.
pub proof fn law_new_databases<W, S>(id: Seq<char>)
    ensures
        ({
            let db = default_db::<W, S>();
            &&& db.layers == Map::<Seq<char>, LayerView<W, S>>::empty()
            &&& db.collection_layers == Map::<Seq<char>, Seq<Seq<char>>>::empty()
            &&& db.collections.contains_key(id) <==> id == root_collection() || id
                == unsorted_collection()
            &&& db.children.contains_key(id) <==> id == root_collection()
            &&& db.children[root_collection()] == seq![unsorted_collection()]
            &&& root_collection() != unsorted_collection()
            &&& db.collections[root_collection()] == (CollectionInfo {
                name: "LayerDB"@,
                description: "Root collection for LayerDB"@,
                properties: Seq::empty(),
            })
            &&& db.collections[unsorted_collection()] == (CollectionInfo {
                name: "Unsorted"@,
                description: "Unsorted Layers"@,
                properties: Seq::empty(),
            })
        }),
        root_collection() == uuid_text(0x0510_2bb3_a855_4a37_8a8a_3002_6a91_fef1),
        unsorted_collection() == uuid_text(0xffb2_dd9e_f5ad_427c_b7f1_c9a0_c7a0_ae3f),
        INTERNAL_PROVIDER_ID == 0xce5e_84db_cbf9_48a2_9a32_d4b7_cc56_ea74,
{
    if root_collection() == unsorted_collection() {
        law_texts_tell_uuids_apart(
            INTERNAL_LAYER_DB_ROOT_COLLECTION_ID,
            UNSORTED_COLLECTION_ID,
        );
    }
}

/// A page of a list begins at its offset and goes on until the limit is reached or the list ends.
pub proof fn law_pages_begin_at_their_offset<T>(all: Seq<T>, offset: int, limit: int, i: int)
    requires
        0 <= offset,
        0 <= limit,
    ensures
        offset + limit <= all.len() ==> window(all, offset, limit).len() == limit,
        offset <= all.len() < offset + limit ==> window(all, offset, limit).len() == all.len()
            - offset,
        all.len() < offset ==> window(all, offset, limit).len() == 0,
        0 <= i < window(all, offset, limit).len() ==> window(all, offset, limit)[i] == all[offset
            + i],
{
}

/// A loaded collection shows a page of what is in it: its collections and then its layers, each with the
/// name and the description that it is stored with. The page is sorted afterwards: collections come
/// before layers, and names ascend among each of them. What has the same name keeps its order.
pub proof fn law_loaded_collections_show_what_is_in_them<W, S>(
    db: LayerDbView<W, S>,
    collection: Seq<char>,
    options: LayerCollectionListOptions,
    loaded: LayerCollectionView,
)
    requires
        db.is_loaded(collection, options, loaded),
    ensures
        db.collections.contains_key(collection),
        loaded.provider == INTERNAL_PROVIDER_ID,
        loaded.id == collection,
        loaded.name == db.collections[collection].name,
        loaded.description == db.collections[collection].description,
        loaded.entry_label is None,
        loaded.properties.len() == 0,
        ({
            let collections = if db.children.contains_key(collection) {
                db.children[collection]
            } else {
                Seq::empty()
            };
            let layers = if db.collection_layers.contains_key(collection) {
                db.collection_layers[collection]
            } else {
                Seq::empty()
            };
            let count = collections.len() + layers.len();
            let shown = |place: int|
                if place < collections.len() {
                    let id = collections[place];
                    ItemView::Collection(
                        ListingView {
                            provider: INTERNAL_PROVIDER_ID,
                            id,
                            name: db.collections[id].name,
                            description: db.collections[id].description,
                            properties: Seq::empty(),
                        },
                    )
                } else {
                    let id = layers[place - collections.len()];
                    ItemView::Layer(
                        ListingView {
                            provider: INTERNAL_PROVIDER_ID,
                            id,
                            name: db.layers[id].name,
                            description: db.layers[id].description,
                            properties: db.layers[id].properties,
                        },
                    )
                };
            &&& loaded.items.len() == if count <= options.offset {
                0
            } else if options.offset + options.limit <= count {
                options.limit as int
            } else {
                count - options.offset
            }
            &&& exists|order: Seq<int>|
                {
                    &&& #[trigger] order.no_duplicates()
                    &&& order.len() == loaded.items.len()
                    &&& forall|i: int|
                        0 <= i < order.len() ==> 0 <= #[trigger] order[i] < order.len()
                            && loaded.items[i] == shown(options.offset + order[i])
                    &&& forall|i: int, j: int|
                        0 <= i < j < order.len() ==> {
                            let first = loaded.items[i];
                            let second = loaded.items[j];
                            let i_place = #[trigger] order[i];
                            let j_place = #[trigger] order[j];
                            &&& first is Layer ==> second is Layer
                            &&& first is Layer && second is Layer ==> !text_less(
                                second->Layer_0.name,
                                first->Layer_0.name,
                            )
                            &&& first is Layer && second is Layer && first->Layer_0.name
                                == second->Layer_0.name ==> i_place < j_place
                            &&& first is Collection && second is Collection ==> !text_less(
                                second->Collection_0.name,
                                first->Collection_0.name,
                            )
                            &&& first is Collection && second is Collection
                                && first->Collection_0.name == second->Collection_0.name ==> i_place
                                < j_place
                        }
                }
        }),
{
    let items = db.listed(collection, options);
    let order = choose|order: Seq<int>| #[trigger]
        is_stable_order(item_keys(items), order) && loaded.items == reordered(items, order);
    law_order_has_no_duplicates(item_keys(items), order);
    let all = db.content(collection).map_values(
        |mention: Mention| db.item(INTERNAL_PROVIDER_ID, mention),
    );
    law_pages_begin_at_their_offset(all, options.offset as int, options.limit as int, 0);
    assert forall|i: int| 0 <= i < items.len() implies #[trigger] items[i] == all[options.offset
        + i] by {
        law_pages_begin_at_their_offset(all, options.offset as int, options.limit as int, i);
    }
    assert forall|i: int, j: int| 0 <= i < j < order.len() implies {
        let first = loaded.items[i];
        let second = loaded.items[j];
        let i_place = #[trigger] order[i];
        let j_place = #[trigger] order[j];
        &&& first is Layer ==> second is Layer
        &&& first is Layer && second is Layer ==> !text_less(
            second->Layer_0.name,
            first->Layer_0.name,
        )
        &&& first is Layer && second is Layer && first->Layer_0.name == second->Layer_0.name
            ==> i_place < j_place
        &&& first is Collection && second is Collection ==> !text_less(
            second->Collection_0.name,
            first->Collection_0.name,
        )
        &&& first is Collection && second is Collection && first->Collection_0.name
            == second->Collection_0.name ==> i_place < j_place
    } by {
        let keys = item_keys(items);
        assert(comes_before(keys, order[i], order[j]));
        assert(keys[order[i]] == loaded.items[i].list_key());
        assert(keys[order[j]] == loaded.items[j].list_key());
        let a = keys[order[i]];
        let b = keys[order[j]];
        law_text_less_is_irreflexive(a.name);
        if text_less(a.name, b.name) && text_less(b.name, a.name) {
            law_text_less_is_transitive(a.name, b.name, a.name);
        }
    }
}

/// A collection can be listed whenever everything that is in some collection exists.
pub proof fn law_existing_mentions_can_be_listed<W, S>(
    db: LayerDbView<W, S>,
    collection: Seq<char>,
    options: LayerCollectionListOptions,
)
    requires
        forall|key: Seq<char>, i: int|
            db.children.contains_key(key) && 0 <= i < db.children[key].len()
                ==> db.collections.contains_key(#[trigger] db.children[key][i]),
        forall|key: Seq<char>, i: int|
            db.collection_layers.contains_key(key) && 0 <= i < db.collection_layers[key].len()
                ==> db.layers.contains_key(#[trigger] db.collection_layers[key][i]),
    ensures
        db.mentions_exist(),
        db.is_listable(collection, options),
{
    assert forall|key: Seq<char>, id: Seq<char>| #[trigger]
        lists_in(db.children, key, id) implies db.collections.contains_key(id) by {
        let i = choose|i: int| 0 <= i < db.children[key].len() && db.children[key][i] == id;
        assert(db.collections.contains_key(db.children[key][i]));
    }
    assert forall|key: Seq<char>, id: Seq<char>| #[trigger]
        lists_in(db.collection_layers, key, id) implies db.layers.contains_key(id) by {
        let i = choose|i: int|
            0 <= i < db.collection_layers[key].len() && db.collection_layers[key][i] == id;
        assert(db.layers.contains_key(db.collection_layers[key][i]));
    }
    let content = db.content(collection);
    assert forall|i: int| 0 <= i < content.len() implies db.has(#[trigger] content[i]) by {
        let children = list_at(db.children, collection);
        let layers = list_at(db.collection_layers, collection);
        if i < children.len() {
            assert(content[i] == Mention::Collection(db.children[collection][i]));
        } else {
            assert(content[i] == Mention::Layer(
                db.collection_layers[collection][i - children.len()],
            ));
        }
    }
}

/// A collection can be listed only if what has to be shown exists.
pub proof fn law_only_existing_mentions_are_listed<W, S>(
    db: LayerDbView<W, S>,
    collection: Seq<char>,
    options: LayerCollectionListOptions,
    place: int,
)
    requires
        db.is_listable(collection, options),
        db.collections.contains_key(collection),
        0 <= place < options.offset + options.limit,
        options.limit > 0,
    ensures
        ({
            let collections = if db.children.contains_key(collection) {
                db.children[collection]
            } else {
                Seq::empty()
            };
            let layers = if db.collection_layers.contains_key(collection) {
                db.collection_layers[collection]
            } else {
                Seq::empty()
            };
            &&& place < collections.len() ==> db.collections.contains_key(collections[place])
            &&& collections.len() <= place < collections.len() + layers.len()
                ==> db.layers.contains_key(layers[place - collections.len()])
        }),
{
    let content = db.content(collection);
    let children = list_at(db.children, collection);
    let layers = list_at(db.collection_layers, collection);
    if place < children.len() {
        assert(content[place] == Mention::Collection(children[place]));
    } else if place < content.len() {
        assert(content[place] == Mention::Layer(layers[place - children.len()]));
    }
}

/// A loaded layer has the texts and properties that are stored, and clones of its workflow and symbology.
pub proof fn law_loaded_layers_are_stored<W: Clone, S: Clone>(
    stored: LayerView<W, S>,
    loaded: LayerView<W, S>,
)
    requires
        is_loaded_layer(stored, loaded),
    ensures
        loaded.name == stored.name,
        loaded.description == stored.description,
        loaded.metadata == stored.metadata,
        loaded.properties == stored.properties,
        cloned(stored.workflow, loaded.workflow),
        loaded.symbology is Some <==> stored.symbology is Some,
        stored.symbology is Some ==> cloned(stored.symbology->0, loaded.symbology->0),
{
}

/// The content of a layer is all that was given for it, but for its identifier, and the content of a
/// loaded layer is made up in the same way.
pub proof fn law_layers_consist_of_what_was_given<W, S>(
    added: AddLayer<W, S>,
    layer: Layer<W, S>,
    key: Seq<char>,
    i: int,
)
    ensures
        added@.name == added.name@,
        added@.description == added.description@,
        added@.workflow == added.workflow,
        added@.symbology == added.symbology,
        added@.metadata.dom() == added.metadata@.dom(),
        added.metadata@.contains_key(key) ==> added@.metadata[key] == added.metadata@[key]@,
        added@.properties.len() == added.properties@.len(),
        0 <= i < added.properties@.len() ==> added@.properties[i] == (
            added.properties@[i].0@,
            added.properties@[i].1@,
        ),
        layer.content().name == layer.name@,
        layer.content().description == layer.description@,
        layer.content().workflow == layer.workflow,
        layer.content().symbology == layer.symbology,
        layer.content().metadata.dom() == layer.metadata@.dom(),
        layer.metadata@.contains_key(key) ==> layer.content().metadata[key]
            == layer.metadata@[key]@,
        layer.content().properties.len() == layer.properties@.len(),
        0 <= i < layer.properties@.len() ==> layer.content().properties[i] == (
            layer.properties@[i].0@,
            layer.properties@[i].1@,
        ),
{
    assert(added@.metadata.dom() =~= added.metadata@.dom());
    assert(layer.content().metadata.dom() =~= layer.metadata@.dom());
}

/// The content of a collection is all that was given for it, and what is shown of a collection and of
/// its items is what they hold.
pub proof fn law_collections_consist_of_what_was_given(
    added: AddLayerCollection,
    collection: LayerCollection,
    item: CollectionItem,
    i: int,
)
    ensures
        added@.name == added.name@,
        added@.description == added.description@,
        added@.properties.len() == added.properties@.len(),
        0 <= i < added.properties@.len() ==> added@.properties[i] == (
            added.properties@[i].0@,
            added.properties@[i].1@,
        ),
        collection@.provider == collection.id.provider_id.0,
        collection@.id == collection.id.collection_id.0@,
        collection@.name == collection.name@,
        collection@.description == collection.description@,
        collection@.items.len() == collection.items@.len(),
        0 <= i < collection.items@.len() ==> collection@.items[i] == collection.items@[i]@,
        collection@.entry_label is Some <==> collection.entry_label is Some,
        collection.entry_label matches Some(label) ==> collection@.entry_label == Some(label@),
        collection@.properties.len() == collection.properties@.len(),
        0 <= i < collection.properties@.len() ==> collection@.properties[i] == (
            collection.properties@[i].0@,
            collection.properties@[i].1@,
        ),
        match item {
            CollectionItem::Collection(listing) => item@ matches ItemView::Collection(shown) && {
                &&& shown.provider == listing.id.provider_id.0
                &&& shown.id == listing.id.collection_id.0@
                &&& shown.name == listing.name@
                &&& shown.description == listing.description@
                &&& shown.properties.len() == listing.properties@.len()
                &&& 0 <= i < listing.properties@.len() ==> shown.properties[i] == (
                    listing.properties@[i].0@,
                    listing.properties@[i].1@,
                )
            },
            CollectionItem::Layer(listing) => item@ matches ItemView::Layer(shown) && {
                &&& shown.provider == listing.id.provider_id.0
                &&& shown.id == listing.id.layer_id.0@
                &&& shown.name == listing.name@
                &&& shown.description == listing.description@
                &&& shown.properties.len() == listing.properties@.len()
                &&& 0 <= i < listing.properties@.len() ==> shown.properties[i] == (
                    listing.properties@[i].0@,
                    listing.properties@[i].1@,
                )
            },
        },
{
}

/// What was put into a database is what it provides.
pub proof fn law_databases_provide_what_they_hold<W: Clone, S: Clone, P: Clone>(
    db: HashMapLayerDb<W, S>,
    in_memory: InMemoryDb<W, S, P>,
)
    ensures
        db.provided() == db.db(),
        db.provider_wf() <==> db.db_wf(),
        in_memory.provided() == in_memory.db(),
        in_memory.db() == in_memory.layer_db.db(),
        in_memory.provider_wf() <==> in_memory.db_wf(),
        in_memory.db_wf() <==> in_memory.layer_db.db_wf(),
        in_memory.providers() == in_memory.layer_provider_db.providers(),
        in_memory.providers_wf() <==> in_memory.layer_provider_db.providers_wf(),
{
}

/// An error names the layer or the collection that was not found.
pub proof fn law_errors_name_what_was_not_found(error: LayerDbError, id: Seq<char>)
    ensures
        error.is_no_layer(id) <==> match error {
            LayerDbError::NoLayerForGivenId { id: layer } => layer.0@ == id,
            _ => false,
        },
        error.is_no_collection(id) <==> match error {
            LayerDbError::NoLayerCollectionForGivenId { id: collection } => collection.0@ == id,
            _ => false,
        },
{
}

} // verus!
