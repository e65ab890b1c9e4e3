//! What holds of a layer database whatever is done with it.

use vstd::prelude::*;

use crate::layers::layer::{window, CollectionInfo, LayerView};
use crate::layers::lists::{
    is_listed, lemma_outside_contains, lemma_outside_once, lemma_outside_same, list_at, lists_in,
    outside, with_pushed,
};
use crate::layers::model::{lemma_without_lists, LayerDbView};
use crate::layers::storage::{
    default_db, is_loaded_layer, root_collection, unsorted_collection,
};
use crate::util::clones::has_equal_clones;

verus! {

/// Everything that is in some collection of a new database exists.
pub proof fn law_default_mentions_exist<W, S>()
    ensures
        default_db::<W, S>().mentions_exist(),
        default_db::<W, S>().collections.contains_key(root_collection()),
        default_db::<W, S>().collections.contains_key(unsorted_collection()),
        lists_in(default_db::<W, S>().children, root_collection(), unsorted_collection()),
{
    let db = default_db::<W, S>();
    let list = seq![unsorted_collection()];
    assert(list[0] == unsorted_collection());
    assert forall|collection: Seq<char>, id: Seq<char>| #[trigger]
        lists_in(db.children, collection, id) implies db.collections.contains_key(id) by {
        assert(list.contains(id));
    }
}

/// What has to go with a collection is closed: nothing else is left without a parent.
pub proof fn law_no_orphans_are_left<W, S>(db: LayerDbView<W, S>, collection: Seq<char>)
    ensures
        db.removed_with(collection).contains(collection),
        db.is_closed(db.removed_with(collection)),
{
    let gone = db.removed_with(collection);
    assert forall|id: Seq<char>| db.is_orphaned_by(gone, id) implies #[trigger] gone.contains(
        id,
    ) by {
        assert forall|closed: Set<Seq<char>>|
            closed.contains(collection) && #[trigger] db.is_closed(closed) implies closed.contains(
            id,
        ) by {
            assert(db.is_orphaned_by(closed, id)) by {
                let parent = choose|parent: Seq<char>| #[trigger]
                    lists_in(db.children, parent, id) && gone.contains(parent);
                assert(closed.contains(parent));
            }
        }
    }
}

/// A removed collection is nowhere to be found: it is not stored, nothing is stored in it, and it is
/// in no other collection.
pub proof fn law_removed_collections_are_gone<W, S>(
    db: LayerDbView<W, S>,
    collection: Seq<char>,
    id: Seq<char>,
)
    requires
        db.removed_with(collection).contains(id),
    ensures
        !db.with_removed(collection).collections.contains_key(id),
        !db.with_removed(collection).children.contains_key(id),
        !db.with_removed(collection).collection_layers.contains_key(id),
        !is_listed(db.with_removed(collection).children, id),
{
    let gone = db.removed_with(collection);
    assert forall|key: Seq<char>|
        !#[trigger] lists_in(db.with_removed(collection).children, key, id) by {
        lemma_without_lists(db, gone, key, id);
    }
}

/// A collection that has a parent that stays, stays; and so does one that is in no collection at
/// all, unless it is the one that is removed.
pub proof fn law_other_collections_stay<W, S>(
    db: LayerDbView<W, S>,
    collection: Seq<char>,
    id: Seq<char>,
)
    requires
        id != collection,
        db.collections.contains_key(id),
        !is_listed(db.children, id) || exists|parent: Seq<char>| #[trigger]
            lists_in(db.children, parent, id) && !db.removed_with(collection).contains(parent),
    ensures
        db.with_removed(collection).collections.contains_key(id),
        db.with_removed(collection).collections[id] == db.collections[id],
{
    let gone = db.removed_with(collection);
    law_no_orphans_are_left(db, collection);
    if gone.contains(id) {
        let less = gone.remove(id);
        assert(db.is_closed(less)) by {
            assert forall|other: Seq<char>| db.is_orphaned_by(less, other) implies #[trigger]
                less.contains(other) by {
                assert(db.is_orphaned_by(gone, other)) by {
                    let parent = choose|parent: Seq<char>| #[trigger]
                        lists_in(db.children, parent, other) && less.contains(parent);
                    assert(gone.contains(parent));
                }
                assert(gone.contains(other));
                if other == id {
                    let parent = choose|parent: Seq<char>| #[trigger]
                        lists_in(db.children, parent, id) && less.contains(parent);
                    assert(is_listed(db.children, id));
                    let kept = choose|parent: Seq<char>| #[trigger]
                        lists_in(db.children, parent, id) && !gone.contains(parent);
                    assert(less.contains(kept));
                }
            }
        }
        assert(less.contains(collection));
        assert(less.contains(id));
    }
}

/// The root collection stays as long as nobody has put it into another collection.
pub proof fn law_root_collection_stays<W, S>(db: LayerDbView<W, S>, collection: Seq<char>)
    requires
        collection != root_collection(),
        db.collections.contains_key(root_collection()),
        !is_listed(db.children, root_collection()),
    ensures
        db.with_removed(collection).collections.contains_key(root_collection()),
        !is_listed(db.with_removed(collection).children, root_collection()),
{
    law_other_collections_stay(db, collection, root_collection());
    let gone = db.removed_with(collection);
    assert forall|key: Seq<char>|
        !#[trigger] lists_in(db.with_removed(collection).children, key, root_collection()) by {
        lemma_without_lists(db, gone, key, root_collection());
    }
}

/// A layer goes with the collections in which it was, if it was in no other. All other layers stay
/// as they are.
pub proof fn law_layers_go_with_their_collections<W, S>(
    db: LayerDbView<W, S>,
    collection: Seq<char>,
    id: Seq<char>,
)
    requires
        db.layers.contains_key(id),
    ensures
        ({
            let after = db.with_removed(collection);
            &&& is_listed(after.collection_layers, id) ==> after.layers.contains_key(id)
            &&& is_listed(db.collection_layers, id) && after.layers.contains_key(id) ==> is_listed(
                after.collection_layers,
                id,
            )
            &&& after.layers.contains_key(id) ==> after.layers[id] == db.layers[id]
        }),
{
    let after = db.with_removed(collection);
    let gone = db.removed_with(collection);
    if is_listed(after.collection_layers, id) {
        let key = choose|key: Seq<char>| lists_in(after.collection_layers, key, id);
        lemma_without_lists(db, gone, key, id);
        assert(lists_in(db.collection_layers, key, id));
    }
    if is_listed(db.collection_layers, id) && after.layers.contains_key(id) {
        let key = choose|key: Seq<char>| lists_in(db.collection_layers, key, id);
        assert(exists|other: Seq<char>| #[trigger]
            lists_in(db.collection_layers, other, id) && !gone.contains(other)) by {
            if gone.contains(key) {
                assert(!db.is_layer_orphaned_by(gone, id));
            }
        }
        let other = choose|other: Seq<char>| #[trigger]
            lists_in(db.collection_layers, other, id) && !gone.contains(other);
        lemma_without_lists(db, gone, other, id);
        assert(lists_in(after.collection_layers, other, id));
    }
}

/// Removing a collection leaves no mention of something that does not exist any more.
pub proof fn law_removal_keeps_mentions_existing<W, S>(
    db: LayerDbView<W, S>,
    collection: Seq<char>,
)
    requires
        db.mentions_exist(),
    ensures
        db.with_removed(collection).mentions_exist(),
{
    let after = db.with_removed(collection);
    let gone = db.removed_with(collection);
    assert forall|key: Seq<char>, id: Seq<char>| #[trigger]
        lists_in(after.children, key, id) implies after.collections.contains_key(id) by {
        lemma_without_lists(db, gone, key, id);
        assert(lists_in(db.children, key, id));
    }
    assert forall|key: Seq<char>, id: Seq<char>| #[trigger]
        lists_in(after.collection_layers, key, id) implies after.layers.contains_key(id) by {
        lemma_without_lists(db, gone, key, id);
        assert(lists_in(db.collection_layers, key, id));
    }
}

/// The same holds if a collection is removed from a parent.
pub proof fn law_removal_from_parent_keeps_mentions_existing<W, S>(
    db: LayerDbView<W, S>,
    collection: Seq<char>,
    parent: Seq<char>,
)
    requires
        db.mentions_exist(),
        lists_in(db.children, parent, collection),
    ensures
        db.with_removed_from_parent(collection, parent).mentions_exist(),
{
    let detached = db.detached(collection, parent);
    assert forall|key: Seq<char>, id: Seq<char>| #[trigger]
        lists_in(detached.children, key, id) implies detached.collections.contains_key(id) by {
        if key == parent {
            lemma_outside_contains(db.children[parent], set![collection], id);
        }
        assert(lists_in(db.children, key, id));
    }
    assert forall|key: Seq<char>, id: Seq<char>| #[trigger]
        lists_in(detached.collection_layers, key, id) implies detached.layers.contains_key(id) by {
        assert(lists_in(db.collection_layers, key, id));
    }
    law_removal_keeps_mentions_existing(detached, collection);
}

/// The same holds if a layer is removed from a collection.
pub proof fn law_layer_removal_keeps_mentions_existing<W, S>(
    db: LayerDbView<W, S>,
    layer: Seq<char>,
    collection: Seq<char>,
)
    requires
        db.mentions_exist(),
        lists_in(db.collection_layers, collection, layer),
    ensures
        db.with_layer_removed_from(layer, collection).mentions_exist(),
{
    let after = db.with_layer_removed_from(layer, collection);
    let list = db.collection_layers[collection];
    list.index_of_first_ensures(layer);
    let place = list.index_of_first(layer)->0;
    assert forall|key: Seq<char>, id: Seq<char>| #[trigger]
        lists_in(after.children, key, id) implies after.collections.contains_key(id) by {
        assert(lists_in(db.children, key, id));
    }
    assert forall|key: Seq<char>, id: Seq<char>| #[trigger]
        lists_in(after.collection_layers, key, id) implies after.layers.contains_key(id) by {
        if key == collection {
            let rest = list.remove(place);
            let i = choose|i: int| 0 <= i < rest.len() && rest[i] == id;
            assert(list[if i < place {
                i
            } else {
                i + 1
            }] == id);
            assert(lists_in(db.collection_layers, collection, id));
        } else {
            assert(lists_in(db.collection_layers, key, id));
        }
        if id == layer {
            assert(is_listed(after.collection_layers, layer));
        }
    }
}

/// Adding layers and collections keeps every mention existing.
pub proof fn law_additions_keep_mentions_existing<W, S>(
    db: LayerDbView<W, S>,
    id: Seq<char>,
    layer: LayerView<W, S>,
    collection: CollectionInfo,
    place: Seq<char>,
)
    requires
        db.mentions_exist(),
    ensures
        db.with_layer(id, layer, place).mentions_exist(),
        db.with_collection(id, collection, place).mentions_exist(),
        db.layers.contains_key(id) ==> db.with_layer_in(id, place).mentions_exist(),
        db.collections.contains_key(id) ==> db.with_child(id, place).mentions_exist(),
{
    assert forall|key: Seq<char>, other: Seq<char>| #[trigger]
        lists_in(with_pushed(db.children, place, id), key, other) implies other == id || lists_in(
        db.children,
        key,
        other,
    ) by {
        lemma_pushed(db.children, place, id, key, other);
    }
    assert forall|key: Seq<char>, other: Seq<char>| #[trigger]
        lists_in(with_pushed(db.collection_layers, place, id), key, other) implies other == id
        || lists_in(db.collection_layers, key, other) by {
        lemma_pushed(db.collection_layers, place, id, key, other);
    }
    let with_layer = db.with_layer(id, layer, place);
    assert forall|key: Seq<char>, other: Seq<char>| #[trigger]
        lists_in(with_layer.children, key, other) implies with_layer.collections.contains_key(
        other,
    ) by {
        assert(lists_in(db.children, key, other));
    }
    let with_collection = db.with_collection(id, collection, place);
    assert forall|key: Seq<char>, other: Seq<char>| #[trigger]
        lists_in(with_collection.collection_layers, key, other) implies
        with_collection.layers.contains_key(other) by {
        assert(lists_in(db.collection_layers, key, other));
    }
}

/// What is in a list after something was added.
proof fn lemma_pushed(
    lists: Map<Seq<char>, Seq<Seq<char>>>,
    place: Seq<char>,
    id: Seq<char>,
    key: Seq<char>,
    other: Seq<char>,
)
    ensures
        lists_in(with_pushed(lists, place, id), key, other) <==> lists_in(lists, key, other) || key
            == place && other == id,
{
    let list = list_at(lists, place);
    let longer = list.push(id);
    assert(longer[list.len() as int] == id);
    if list.contains(other) {
        let i = choose|i: int| 0 <= i < list.len() && list[i] == other;
        assert(longer[i] == other);
    }
    if longer.contains(other) && other != id {
        let i = choose|i: int| 0 <= i < longer.len() && longer[i] == other;
        assert(list[i] == other);
    }
}

/// What was added can be found: the layer under its identifier and in its collection.
pub proof fn law_added_layers_are_found<W, S>(
    db: LayerDbView<W, S>,
    id: Seq<char>,
    layer: LayerView<W, S>,
    collection: Seq<char>,
)
    ensures
        db.with_layer(id, layer, collection).layers.contains_key(id),
        db.with_layer(id, layer, collection).layers[id] == layer,
        lists_in(db.with_layer(id, layer, collection).collection_layers, collection, id),
{
    lemma_pushed(db.collection_layers, collection, id, collection, id);
}

/// What was added can be found: the collection under its identifier and in its parent.
pub proof fn law_added_collections_are_found<W, S>(
    db: LayerDbView<W, S>,
    id: Seq<char>,
    collection: CollectionInfo,
    parent: Seq<char>,
)
    ensures
        db.with_collection(id, collection, parent).collections.contains_key(id),
        db.with_collection(id, collection, parent).collections[id] == collection,
        lists_in(db.with_collection(id, collection, parent).children, parent, id),
{
    lemma_pushed(db.children, parent, id, parent, id);
}

/// Pages that follow each other are together the page that begins with the first and ends with the
/// second, and no page has more elements than it is limited to.
pub proof fn law_pages_follow_each_other<T>(all: Seq<T>, offset: int, first: int, second: int)
    requires
        0 <= offset,
        0 <= first,
        0 <= second,
    ensures
        window(all, offset, first) + window(all, offset + first, second) == window(
            all,
            offset,
            first + second,
        ),
        window(all, offset, first).len() <= first,
{
    assert(window(all, offset, first) + window(all, offset + first, second) =~= window(
        all,
        offset,
        first + second,
    ));
}

/// What was added is what is loaded, if the workflow and the symbology have equal clones.
pub proof fn law_added_layers_are_loaded<W: Clone, S: Clone>(
    db: LayerDbView<W, S>,
    id: Seq<char>,
    layer: LayerView<W, S>,
    collection: Seq<char>,
    loaded: LayerView<W, S>,
)
    requires
        has_equal_clones::<W>(),
        has_equal_clones::<S>(),
        is_loaded_layer(db.with_layer(id, layer, collection).layers[id], loaded),
    ensures
        db.with_layer(id, layer, collection).layers.contains_key(id),
        loaded == layer,
{
    if let Some(symbology) = layer.symbology {
        assert(cloned(symbology, loaded.symbology->0));
    }
    assert(loaded.symbology == layer.symbology);
}

/// A layer stays as it is until another one is added with its identifier or it is removed, and it is
/// not removed as long as it is in some collection.
pub proof fn law_layers_stay_until_they_are_removed<W, S>(
    db: LayerDbView<W, S>,
    id: Seq<char>,
    other: Seq<char>,
    layer: LayerView<W, S>,
    info: CollectionInfo,
    place: Seq<char>,
)
    requires
        db.layers.contains_key(id),
    ensures
        other != id ==> db.with_layer(other, layer, place).layers.contains_pair(id, db.layers[id]),
        db.with_layer_in(other, place).layers == db.layers,
        db.with_collection(other, info, place).layers == db.layers,
        db.with_child(other, place).layers == db.layers,
        is_listed(db.with_removed(other).collection_layers, id) ==> db.with_removed(
            other,
        ).layers.contains_pair(id, db.layers[id]),
        is_listed(db.with_removed_from_parent(other, place).collection_layers, id)
            ==> db.with_removed_from_parent(other, place).layers.contains_pair(id, db.layers[id]),
        other != id || is_listed(db.with_layer_removed_from(other, place).collection_layers, id)
            ==> db.with_layer_removed_from(other, place).layers.contains_pair(id, db.layers[id]),
{
    law_layers_go_with_their_collections(db, other, id);
    law_layers_go_with_their_collections(db.detached(other, place), other, id);
}

/// There are no layers but those that were added: a new database has none, and nothing but an
/// addition brings one.
pub proof fn law_only_added_layers_exist<W, S>(
    db: LayerDbView<W, S>,
    id: Seq<char>,
    other: Seq<char>,
    layer: LayerView<W, S>,
    info: CollectionInfo,
    place: Seq<char>,
)
    requires
        !db.layers.contains_key(id),
    ensures
        !default_db::<W, S>().layers.contains_key(id),
        other != id ==> !db.with_layer(other, layer, place).layers.contains_key(id),
        !db.with_layer_in(other, place).layers.contains_key(id),
        !db.with_collection(other, info, place).layers.contains_key(id),
        !db.with_child(other, place).layers.contains_key(id),
        !db.with_removed(other).layers.contains_key(id),
        !db.with_removed_from_parent(other, place).layers.contains_key(id),
        !db.with_layer_removed_from(other, place).layers.contains_key(id),
{
}

/// A collection is below another one if it is in it or in one that is below it.
pub open spec fn is_below<W, S>(
    db: LayerDbView<W, S>,
    collection: Seq<char>,
    id: Seq<char>,
) -> bool {
    forall|below: Set<Seq<char>>| #[trigger]
        has_all_below(db, collection, below) ==> below.contains(id)
}

/// Everything that is in the collection or in one of these collections is one of these.
pub open spec fn has_all_below<W, S>(
    db: LayerDbView<W, S>,
    collection: Seq<char>,
    below: Set<Seq<char>>,
) -> bool {
    forall|parent: Seq<char>, id: Seq<char>| #[trigger]
        lists_in(db.children, parent, id) && (parent == collection || below.contains(parent))
            ==> below.contains(id)
}

/// What is below a collection is in some collection.
proof fn lemma_below_is_listed<W, S>(
    db: LayerDbView<W, S>,
    collection: Seq<char>,
    id: Seq<char>,
)
    requires
        is_below(db, collection, id),
    ensures
        is_listed(db.children, id),
{
    let listed = Set::new(|id: Seq<char>| is_listed(db.children, id));
    assert(has_all_below(db, collection, listed));
    assert(listed.contains(id));
}

/// Only what is below a collection goes with it.
proof fn lemma_removed_is_below<W, S>(
    db: LayerDbView<W, S>,
    collection: Seq<char>,
    id: Seq<char>,
)
    requires
        db.removed_with(collection).contains(id),
    ensures
        id == collection || is_below(db, collection, id),
{
    let all = Set::new(|id: Seq<char>| id == collection || is_below(db, collection, id));
    assert(db.is_closed(all)) by {
        assert forall|other: Seq<char>| db.is_orphaned_by(all, other) implies #[trigger]
            all.contains(other) by {
            let parent = choose|parent: Seq<char>| #[trigger]
                lists_in(db.children, parent, other) && all.contains(parent);
            assert forall|below: Set<Seq<char>>| #[trigger]
                has_all_below(db, collection, below) implies below.contains(other) by {
                assert(parent == collection || below.contains(parent));
            }
        }
    }
    assert(all.contains(collection));
    assert(all.contains(id));
}

/// Collections that are left keep what is in them, but for the removed collection.
proof fn lemma_lists_keep_others<W, S>(
    db: LayerDbView<W, S>,
    collection: Seq<char>,
    key: Seq<char>,
)
    requires
        db.mentions_exist(),
        db.children.contains_key(key),
        !db.removed_with(collection).contains(key),
    ensures
        db.with_removed(collection).children.contains_key(key),
        db.with_removed(collection).children[key] == outside(db.children[key], set![collection]),
{
    let gone = db.removed_with(collection);
    law_no_orphans_are_left(db, collection);
    assert forall|id: Seq<char>| #[trigger] db.children[key].contains(id) implies gone.contains(id)
        == set![collection].contains(id) by {
        assert(lists_in(db.children, key, id));
        if id != collection {
            law_other_collections_stay(db, collection, id);
        }
    }
    lemma_outside_same(db.children[key], gone, set![collection]);
}

/// Removing a collection. It is gone, and so is every mention of it. What was below it stays exactly
/// if it is still in some collection, and so do the layers that were in collections that are gone.
/// Everything else keeps all that it has, but for the mention of the removed collection.
pub proof fn law_removal_of_collections<W, S>(
    db: LayerDbView<W, S>,
    collection: Seq<char>,
    id: Seq<char>,
)
    requires
        db.mentions_exist(),
    ensures
        ({
            let after = db.with_removed(collection);
            &&& !after.collections.contains_key(collection)
            &&& !is_listed(after.children, collection)
            &&& id != collection && is_below(db, collection, id) ==> {
                &&& after.collections.contains_key(id) <==> is_listed(after.children, id)
                &&& after.collections.contains_key(id) ==> after.collections[id]
                    == db.collections[id]
            }
            &&& id != collection && !is_below(db, collection, id) ==> {
                &&& after.collections.contains_key(id) <==> db.collections.contains_key(id)
                &&& db.collections.contains_key(id) ==> after.collections[id] == db.collections[id]
                &&& after.children.contains_key(id) <==> db.children.contains_key(id)
                &&& db.children.contains_key(id) ==> after.children[id] == outside(
                    db.children[id],
                    set![collection],
                )
                &&& after.collection_layers.contains_key(id) <==> db.collection_layers.contains_key(
                    id,
                )
                &&& db.collection_layers.contains_key(id) ==> after.collection_layers[id]
                    == db.collection_layers[id]
            }
            &&& is_listed(db.collection_layers, id) ==> (after.layers.contains_key(id)
                <==> is_listed(after.collection_layers, id))
            &&& !is_listed(db.collection_layers, id) ==> (after.layers.contains_key(id)
                <==> db.layers.contains_key(id))
            &&& after.layers.contains_key(id) ==> after.layers[id] == db.layers[id]
        }),
{
    let after = db.with_removed(collection);
    let gone = db.removed_with(collection);
    law_no_orphans_are_left(db, collection);
    law_removed_collections_are_gone(db, collection, collection);
    if id != collection {
        if is_below(db, collection, id) {
            lemma_below_is_listed(db, collection, id);
            let parent = choose|parent: Seq<char>| lists_in(db.children, parent, id);
            assert(db.collections.contains_key(id));
            if gone.contains(id) {
                law_removed_collections_are_gone(db, collection, id);
            } else {
                assert(exists|kept: Seq<char>| #[trigger]
                    lists_in(db.children, kept, id) && !gone.contains(kept)) by {
                    if gone.contains(parent) {
                        assert(!db.is_orphaned_by(gone, id));
                    }
                }
                let kept = choose|kept: Seq<char>| #[trigger]
                    lists_in(db.children, kept, id) && !gone.contains(kept);
                lemma_without_lists(db, gone, kept, id);
                assert(lists_in(after.children, kept, id));
            }
        } else {
            if gone.contains(id) {
                lemma_removed_is_below(db, collection, id);
            }
            if db.children.contains_key(id) {
                lemma_lists_keep_others(db, collection, id);
            }
        }
    }
    if is_listed(db.collection_layers, id) {
        let key = choose|key: Seq<char>| lists_in(db.collection_layers, key, id);
        assert(db.layers.contains_key(id));
        law_layers_go_with_their_collections(db, collection, id);
    }
}

/// Removing a layer from a collection that has it once. The collection keeps its other layers in
/// their order, and no other collection changes. The layer stays exactly if it is in another
/// collection.
pub proof fn law_removal_of_layers<W, S>(
    db: LayerDbView<W, S>,
    layer: Seq<char>,
    collection: Seq<char>,
)
    requires
        db.mentions_exist(),
        lists_in(db.collection_layers, collection, layer),
        forall|i: int, j: int|
            0 <= i < j < db.collection_layers[collection].len()
                ==> #[trigger] db.collection_layers[collection][i] != layer
                || #[trigger] db.collection_layers[collection][j] != layer,
    ensures
        ({
            let after = db.with_layer_removed_from(layer, collection);
            &&& after.collection_layers == db.collection_layers.insert(
                collection,
                outside(db.collection_layers[collection], set![layer]),
            )
            &&& !lists_in(after.collection_layers, collection, layer)
            &&& after.layers.contains_key(layer) <==> exists|other: Seq<char>|
                other != collection && #[trigger] lists_in(db.collection_layers, other, layer)
            &&& after.layers.remove(layer) == db.layers.remove(layer)
            &&& after.layers.contains_key(layer) ==> after.layers[layer] == db.layers[layer]
            &&& after.collections == db.collections
            &&& after.children == db.children
        }),
{
    let after = db.with_layer_removed_from(layer, collection);
    let list = db.collection_layers[collection];
    list.index_of_first_ensures(layer);
    let place = list.index_of_first(layer)->0;
    lemma_outside_once(list, layer, place);
    lemma_outside_contains(list, set![layer], layer);
    assert(db.layers.contains_key(layer));
    assert forall|other: Seq<char>| other != collection implies lists_in(
        after.collection_layers,
        other,
        layer,
    ) == #[trigger] lists_in(db.collection_layers, other, layer) by {
    }
    if is_listed(after.collection_layers, layer) {
        let key = choose|key: Seq<char>| lists_in(after.collection_layers, key, layer);
        assert(lists_in(db.collection_layers, key, layer));
    }
    if exists|other: Seq<char>|
        other != collection && #[trigger] lists_in(db.collection_layers, other, layer) {
        let other = choose|other: Seq<char>|
            other != collection && #[trigger] lists_in(db.collection_layers, other, layer);
        assert(lists_in(after.collection_layers, other, layer));
    }
    assert(after.layers.remove(layer) =~= db.layers.remove(layer));
}

} // verus!
