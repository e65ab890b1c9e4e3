//! The mathematical model of a layer database and of what its operations do.

use vstd::prelude::*;

use crate::layers::layer::{CollectionInfo, ItemView, LayerView, ListingView};
use crate::layers::lists::{
    is_listed, lemma_outside_contains, lemma_outside_none, lemma_outside_twice, list_at, lists_in,
    outside, with_pushed,
};

verus! {

/// The content of a layer database: the layers, the collections, and what is in the collections.
#[verifier::ext_equal]
pub struct LayerDbView<W, S> {
    pub layers: Map<Seq<char>, LayerView<W, S>>,
    pub collections: Map<Seq<char>, CollectionInfo>,
    pub children: Map<Seq<char>, Seq<Seq<char>>>,
    pub collection_layers: Map<Seq<char>, Seq<Seq<char>>>,
}

impl<W, S> LayerDbView<W, S> {
    /// The database with a new layer in a collection.
    pub open spec fn with_layer(
        self,
        id: Seq<char>,
        layer: LayerView<W, S>,
        collection: Seq<char>,
    ) -> Self {
        LayerDbView {
            layers: self.layers.insert(id, layer),
            collection_layers: with_pushed(self.collection_layers, collection, id),
            ..self
        }
    }

    /// The database with a layer in another collection; it is in a collection only once.
    pub open spec fn with_layer_in(self, id: Seq<char>, collection: Seq<char>) -> Self {
        if lists_in(self.collection_layers, collection, id) {
            self
        } else {
            LayerDbView {
                collection_layers: with_pushed(self.collection_layers, collection, id),
                ..self
            }
        }
    }

    /// The database with a new collection in a parent collection.
    pub open spec fn with_collection(
        self,
        id: Seq<char>,
        collection: CollectionInfo,
        parent: Seq<char>,
    ) -> Self {
        LayerDbView {
            collections: self.collections.insert(id, collection),
            children: with_pushed(self.children, parent, id),
            ..self
        }
    }

    /// The database with a collection in another parent collection; it is in a parent only once.
    pub open spec fn with_child(self, id: Seq<char>, parent: Seq<char>) -> Self {
        if lists_in(self.children, parent, id) {
            self
        } else {
            LayerDbView { children: with_pushed(self.children, parent, id), ..self }
        }
    }

    /// Every collection that is in some of `gone` and in no other collection is itself in `gone`.
    pub open spec fn is_closed(self, gone: Set<Seq<char>>) -> bool {
        forall|id: Seq<char>|
            self.is_orphaned_by(gone, id) ==> #[trigger] gone.contains(id)
    }

    /// The collection is in one of `gone` and in no other collection.
    pub open spec fn is_orphaned_by(self, gone: Set<Seq<char>>, id: Seq<char>) -> bool {
        &&& exists|parent: Seq<char>| #[trigger]
            lists_in(self.children, parent, id) && gone.contains(parent)
        &&& forall|parent: Seq<char>| #[trigger]
            lists_in(self.children, parent, id) ==> gone.contains(parent)
    }

    /// What goes when a collection is removed: the collection itself and, step by step, all that is
    /// left without a parent. It is the least set that has the collection in it and is closed.
    pub open spec fn removed_with(self, collection: Seq<char>) -> Set<Seq<char>> {
        Set::new(
            |id: Seq<char>|
                forall|gone: Set<Seq<char>>|
                    gone.contains(collection) && #[trigger] self.is_closed(gone)
                        ==> gone.contains(id),
        )
    }

    /// The layer is in one of the collections in `gone` and in no other collection.
    pub open spec fn is_layer_orphaned_by(self, gone: Set<Seq<char>>, id: Seq<char>) -> bool {
        &&& exists|collection: Seq<char>| #[trigger]
            lists_in(self.collection_layers, collection, id) && gone.contains(collection)
        &&& forall|collection: Seq<char>| #[trigger]
            lists_in(self.collection_layers, collection, id) ==> gone.contains(collection)
    }

    /// The database without some collections, without the mentions of them, and without the layers
    /// that are in none of the other collections.
    pub open spec fn without(self, gone: Set<Seq<char>>) -> Self {
        LayerDbView {
            layers: Map::new(
                |id: Seq<char>| self.layers.contains_key(id) && !self.is_layer_orphaned_by(gone, id),
                |id: Seq<char>| self.layers[id],
            ),
            collections: self.collections.remove_keys(gone),
            children: Map::new(
                |id: Seq<char>| self.children.contains_key(id) && !gone.contains(id),
                |id: Seq<char>| outside(self.children[id], gone),
            ),
            collection_layers: self.collection_layers.remove_keys(gone),
        }
    }

    /// What is no orphan if a collection goes: the collection itself and what is in another one.
    pub open spec fn no_orphans_of(self, collection: Seq<char>) -> Set<Seq<char>> {
        Set::new(
            |id: Seq<char>|
                id == collection || is_listed(self.without(set![collection]).children, id),
        )
    }

    /// The children of a collection that are left without a parent if it goes, in the order in which
    /// they were in it and as often.
    pub open spec fn orphans_of(self, collection: Seq<char>) -> Seq<Seq<char>> {
        outside(list_at(self.children, collection), self.no_orphans_of(collection))
    }

    /// The database after a collection was removed.
    pub open spec fn with_removed(self, collection: Seq<char>) -> Self {
        self.without(self.removed_with(collection))
    }

    /// The database after a collection was taken out of a parent.
    pub open spec fn detached(self, collection: Seq<char>, parent: Seq<char>) -> Self {
        LayerDbView {
            children: self.children.insert(
                parent,
                outside(self.children[parent], set![collection]),
            ),
            ..self
        }
    }

    /// The database after a collection was removed from a parent: it goes if this was its last
    /// parent.
    pub open spec fn with_removed_from_parent(
        self,
        collection: Seq<char>,
        parent: Seq<char>,
    ) -> Self {
        let detached = self.detached(collection, parent);
        if is_listed(detached.children, collection) {
            detached
        } else {
            detached.with_removed(collection)
        }
    }

    /// The database after the first mention of a layer was removed from a collection: the layer goes
    /// if this was the last mention.
    pub open spec fn with_layer_removed_from(self, id: Seq<char>, collection: Seq<char>) -> Self {
        let list = self.collection_layers[collection];
        let collection_layers = self.collection_layers.insert(
            collection,
            list.remove(list.index_of_first(id)->0),
        );
        LayerDbView {
            collection_layers,
            layers: if is_listed(collection_layers, id) {
                self.layers
            } else {
                self.layers.remove(id)
            },
            ..self
        }
    }

    /// What is in a collection: collections first, then layers.
    pub open spec fn content(self, collection: Seq<char>) -> Seq<Mention> {
        list_at(self.children, collection).map_values(|id: Seq<char>| Mention::Collection(id))
            + list_at(self.collection_layers, collection).map_values(
            |id: Seq<char>| Mention::Layer(id),
        )
    }

    /// What is mentioned exists.
    pub open spec fn has(self, mention: Mention) -> bool {
        match mention {
            Mention::Collection(id) => self.collections.contains_key(id),
            Mention::Layer(id) => self.layers.contains_key(id),
        }
    }

    /// How something is listed. Collections are listed without their properties.
    pub open spec fn item(self, provider: u128, mention: Mention) -> ItemView {
        match mention {
            Mention::Collection(id) => ItemView::Collection(
                ListingView {
                    provider,
                    id,
                    name: self.collections[id].name,
                    description: self.collections[id].description,
                    properties: Seq::empty(),
                },
            ),
            Mention::Layer(id) => ItemView::Layer(
                ListingView {
                    provider,
                    id,
                    name: self.layers[id].name,
                    description: self.layers[id].description,
                    properties: self.layers[id].properties,
                },
            ),
        }
    }

    /// Everything that is in some collection exists.
    pub open spec fn mentions_exist(self) -> bool {
        &&& forall|collection: Seq<char>, id: Seq<char>| #[trigger]
            lists_in(self.children, collection, id) ==> self.collections.contains_key(id)
        &&& forall|collection: Seq<char>, id: Seq<char>| #[trigger]
            lists_in(self.collection_layers, collection, id) ==> self.layers.contains_key(id)
    }
}

/// Something that is in a collection.
pub enum Mention {
    Collection(Seq<char>),
    Layer(Seq<char>),
}

/// The mentions that are left after a removal.
pub proof fn lemma_without_lists<W, S>(
    db: LayerDbView<W, S>,
    gone: Set<Seq<char>>,
    key: Seq<char>,
    id: Seq<char>,
)
    ensures
        lists_in(db.without(gone).children, key, id) <==> lists_in(db.children, key, id)
            && !gone.contains(key) && !gone.contains(id),
        lists_in(db.without(gone).collection_layers, key, id) <==> lists_in(
            db.collection_layers,
            key,
            id,
        ) && !gone.contains(key),
{
    if db.children.contains_key(key) {
        lemma_outside_contains(db.children[key], gone, id);
    }
}

/// Removing some collections and then one more is removing all of them.
pub proof fn lemma_without_one_more<W, S>(
    db: LayerDbView<W, S>,
    gone: Set<Seq<char>>,
    collection: Seq<char>,
)
    ensures
        db.without(gone).without(set![collection]) == db.without(gone.insert(collection)),
{
    let some = db.without(gone);
    let all = gone.insert(collection);
    let after = some.without(set![collection]);
    let expected = db.without(all);
    assert(after.collections =~= expected.collections);
    assert(after.collection_layers =~= expected.collection_layers);
    assert(gone.union(set![collection]) =~= all);
    assert forall|id: Seq<char>| after.children.contains_key(id) implies after.children[id]
        == expected.children[id] by {
        lemma_outside_twice(db.children[id], gone, set![collection]);
    }
    assert(after.children =~= expected.children);
    assert forall|id: Seq<char>|
        after.layers.contains_key(id) <==> expected.layers.contains_key(id) by {
        assert forall|key: Seq<char>|
            lists_in(some.collection_layers, key, id) <==> lists_in(db.collection_layers, key, id)
                && !gone.contains(key) by {
            lemma_without_lists(db, gone, key, id);
        }
        if db.is_layer_orphaned_by(gone, id) {
            let key = choose|key: Seq<char>| #[trigger]
                lists_in(db.collection_layers, key, id) && gone.contains(key);
            assert(all.contains(key));
            assert(db.is_layer_orphaned_by(all, id));
        }
        if some.is_layer_orphaned_by(set![collection], id) {
            assert(lists_in(some.collection_layers, collection, id));
            assert(lists_in(db.collection_layers, collection, id));
            assert forall|key: Seq<char>| #[trigger]
                lists_in(db.collection_layers, key, id) implies all.contains(key) by {
                if !gone.contains(key) {
                    assert(lists_in(some.collection_layers, key, id));
                }
            }
            assert(db.is_layer_orphaned_by(all, id));
        }
        if db.is_layer_orphaned_by(all, id) && !db.is_layer_orphaned_by(gone, id) {
            let key = choose|key: Seq<char>| #[trigger]
                lists_in(db.collection_layers, key, id) && all.contains(key);
            assert(exists|other: Seq<char>|
                lists_in(db.collection_layers, other, id) && !gone.contains(other)) by {
                if gone.contains(key) {
                } else {
                    assert(lists_in(db.collection_layers, key, id));
                }
            }
            let other = choose|other: Seq<char>|
                lists_in(db.collection_layers, other, id) && !gone.contains(other);
            assert(other == collection);
            assert(lists_in(some.collection_layers, collection, id));
            assert(some.is_layer_orphaned_by(set![collection], id));
        }
    }
    assert(after.layers =~= expected.layers);
}

/// The orphans of a collection are those of its children that are in no other collection.
pub proof fn lemma_orphans<W, S>(db: LayerDbView<W, S>, collection: Seq<char>)
    ensures
        forall|id: Seq<char>| #[trigger]
            db.orphans_of(collection).contains(id) <==> lists_in(db.children, collection, id) && id
                != collection && !is_listed(db.without(set![collection]).children, id),
        !db.children.contains_key(collection) ==> db.orphans_of(collection).len() == 0,
{
    assert forall|id: Seq<char>| #[trigger]
        db.orphans_of(collection).contains(id) <==> lists_in(db.children, collection, id) && id
            != collection && !is_listed(db.without(set![collection]).children, id) by {
        lemma_outside_contains(
            list_at(db.children, collection),
            db.no_orphans_of(collection),
            id,
        );
    }
}

/// Nothing changes if nothing is removed.
pub proof fn lemma_without_none<W, S>(db: LayerDbView<W, S>)
    ensures
        db.without(Set::empty()) == db,
{
    let after = db.without(Set::empty());
    assert(after.collections =~= db.collections);
    assert(after.collection_layers =~= db.collection_layers);
    assert forall|id: Seq<char>| db.children.contains_key(id) implies after.children[id]
        == db.children[id] by {
        lemma_outside_none(db.children[id], Set::empty());
    }
    assert(after.children =~= db.children);
    assert(after.layers =~= db.layers);
}

/// How far the removal of a collection has got: the collections in `gone` are removed and those in
/// `pending` are left to be removed. Only what has to go is in one of the two, and nothing that has
/// lost all its parents is missing.
pub open spec fn is_removal_in_progress<W, S>(
    db: LayerDbView<W, S>,
    collection: Seq<char>,
    gone: Set<Seq<char>>,
    pending: Set<Seq<char>>,
) -> bool {
    &&& gone.contains(collection) || pending.contains(collection)
    &&& forall|closed: Set<Seq<char>>|
        closed.contains(collection) && #[trigger] db.is_closed(closed) ==> gone.subset_of(closed)
            && pending.subset_of(closed)
    &&& forall|id: Seq<char>| #[trigger]
        db.is_orphaned_by(gone, id) ==> gone.contains(id) || pending.contains(id)
}

/// Removing one of the pending collections is a step forward.
pub proof fn lemma_removal_step<W, S>(
    db: LayerDbView<W, S>,
    collection: Seq<char>,
    gone: Set<Seq<char>>,
    pending: Set<Seq<char>>,
    next: Seq<char>,
    orphans: Set<Seq<char>>,
    still_pending: Set<Seq<char>>,
)
    requires
        is_removal_in_progress(db, collection, gone, pending),
        pending.contains(next),
        forall|id: Seq<char>| #[trigger]
            orphans.contains(id) <==> lists_in(db.without(gone).children, next, id) && id != next
                && !is_listed(db.without(gone.insert(next)).children, id),
        still_pending.subset_of(pending.union(orphans)),
        pending.remove(next).union(orphans).subset_of(still_pending),
    ensures
        is_removal_in_progress(db, collection, gone.insert(next), still_pending),
{
    let more = gone.insert(next);
    assert forall|id: Seq<char>| orphans.contains(id) implies db.is_orphaned_by(more, id) by {
        lemma_without_lists(db, gone, next, id);
        assert(lists_in(db.children, next, id));
        assert forall|parent: Seq<char>| #[trigger]
            lists_in(db.children, parent, id) implies more.contains(parent) by {
            lemma_without_lists(db, more, parent, id);
            if !more.contains(parent) {
                assert(lists_in(db.without(more).children, parent, id));
            }
        }
    }
    assert forall|closed: Set<Seq<char>>|
        closed.contains(collection) && #[trigger] db.is_closed(closed) implies more.subset_of(closed)
        && still_pending.subset_of(closed) by {
        assert forall|id: Seq<char>| still_pending.contains(id) implies closed.contains(id) by {
            if orphans.contains(id) {
                assert(db.is_orphaned_by(more, id));
                assert(db.is_orphaned_by(closed, id)) by {
                    let parent = choose|parent: Seq<char>| #[trigger]
                        lists_in(db.children, parent, id) && more.contains(parent);
                    assert(closed.contains(parent));
                }
            }
        }
    }
    assert forall|id: Seq<char>| #[trigger] db.is_orphaned_by(more, id) implies more.contains(id)
        || still_pending.contains(id) by {
        if !more.contains(id) {
            if lists_in(db.children, next, id) && !gone.contains(next) {
                lemma_without_lists(db, gone, next, id);
                assert forall|parent: Seq<char>|
                    !#[trigger] lists_in(db.without(more).children, parent, id) by {
                    lemma_without_lists(db, more, parent, id);
                }
                assert(orphans.contains(id));
            } else {
                assert(db.is_orphaned_by(gone, id)) by {
                    let parent = choose|parent: Seq<char>| #[trigger]
                        lists_in(db.children, parent, id) && more.contains(parent);
                    assert(gone.contains(parent));
                }
            }
        }
    }
}

/// When nothing is pending, exactly what has to go is gone.
pub proof fn lemma_removal_end<W, S>(
    db: LayerDbView<W, S>,
    collection: Seq<char>,
    gone: Set<Seq<char>>,
)
    requires
        is_removal_in_progress(db, collection, gone, Set::empty()),
    ensures
        gone == db.removed_with(collection),
{
    assert(db.is_closed(gone));
    assert forall|id: Seq<char>| gone.contains(id) implies db.removed_with(collection).contains(
        id,
    ) by {
    }
    assert(gone =~= db.removed_with(collection));
}

} // verus!
