//! What layers and layer collections consist of.

use vstd::prelude::*;

use crate::util::sort::{ListKey, Listed};
use crate::util::string_map::StringMap;

verus! {

/// The identifier of a data provider, a UUID.
#[derive(Clone, Copy, Debug, PartialEq, Eq, Hash)]
pub struct DataProviderId(pub u128);

/// The identifier of a layer within its provider.
#[derive(Debug, PartialEq, Eq, Hash)]
pub struct LayerId(pub String);

/// The identifier of a layer collection within its provider.
#[derive(Debug, PartialEq, Eq, Hash)]
pub struct LayerCollectionId(pub String);

impl View for LayerId {
    type V = Seq<char>;

    open spec fn view(&self) -> Seq<char> {
        self.0@
    }
}

impl View for LayerCollectionId {
    type V = Seq<char>;

    open spec fn view(&self) -> Seq<char> {
        self.0@
    }
}

impl Clone for LayerId {
    fn clone(&self) -> (copy: Self)
        ensures
            copy == *self,
    {
        LayerId(self.0.clone())
    }
}

impl Clone for LayerCollectionId {
    fn clone(&self) -> (copy: Self)
        ensures
            copy == *self,
    {
        LayerCollectionId(self.0.clone())
    }
}

/// A layer of a provider.
#[derive(Debug, PartialEq, Eq, Hash)]
pub struct ProviderLayerId {
    pub provider_id: DataProviderId,
    pub layer_id: LayerId,
}

/// A layer collection of a provider.
#[derive(Debug, PartialEq, Eq, Hash)]
pub struct ProviderLayerCollectionId {
    pub provider_id: DataProviderId,
    pub collection_id: LayerCollectionId,
}

/// A named property.
#[derive(Debug, PartialEq, Eq, Hash)]
pub struct Property(pub String, pub String);

impl View for Property {
    type V = (Seq<char>, Seq<char>);

    open spec fn view(&self) -> (Seq<char>, Seq<char>) {
        (self.0@, self.1@)
    }
}

pub open spec fn properties_view(properties: Seq<Property>) -> Seq<(Seq<char>, Seq<char>)> {
    Seq::new(properties.len(), |i: int| properties[i]@)
}

pub open spec fn texts_view(texts: Map<Seq<char>, String>) -> Map<Seq<char>, Seq<char>> {
    texts.map_values(|text: String| text@)
}

pub open spec fn text_view(text: Option<String>) -> Option<Seq<char>> {
    match text {
        Some(text) => Some(text@),
        None => None,
    }
}

/// A copy of properties.
pub fn clone_properties(properties: &Vec<Property>) -> (copy: Vec<Property>)
    ensures
        copy@ == properties@,
{
    let mut copy: Vec<Property> = Vec::new();
    let mut i: usize = 0;
    while i < properties.len()
        invariant
            i <= properties.len(),
            copy@ =~= properties@.take(i as int),
        decreases properties.len() - i,
    {
        copy.push(Property(properties[i].0.clone(), properties[i].1.clone()));
        i += 1;
    }
    assert(properties@.take(i as int) =~= properties@);
    copy
}

/// A layer to be added: `W` is its workflow and `S` is its symbology.
pub struct AddLayer<W, S> {
    pub name: String,
    pub description: String,
    pub workflow: W,
    pub symbology: Option<S>,
    pub metadata: StringMap<String>,
    pub properties: Vec<Property>,
}

/// The mathematical content of a layer.
pub struct LayerView<W, S> {
    pub name: Seq<char>,
    pub description: Seq<char>,
    pub workflow: W,
    pub symbology: Option<S>,
    pub metadata: Map<Seq<char>, Seq<char>>,
    pub properties: Seq<(Seq<char>, Seq<char>)>,
}

impl<W, S> View for AddLayer<W, S> {
    type V = LayerView<W, S>;

    open spec fn view(&self) -> LayerView<W, S> {
        LayerView {
            name: self.name@,
            description: self.description@,
            workflow: self.workflow,
            symbology: self.symbology,
            metadata: texts_view(self.metadata@),
            properties: properties_view(self.properties@),
        }
    }
}

/// A layer collection to be added.
pub struct AddLayerCollection {
    pub name: String,
    pub description: String,
    pub properties: Vec<Property>,
}

/// The mathematical content of a layer collection itself, without what is in it.
#[verifier::ext_equal]
pub struct CollectionInfo {
    pub name: Seq<char>,
    pub description: Seq<char>,
    pub properties: Seq<(Seq<char>, Seq<char>)>,
}

impl View for AddLayerCollection {
    type V = CollectionInfo;

    open spec fn view(&self) -> CollectionInfo {
        CollectionInfo {
            name: self.name@,
            description: self.description@,
            properties: properties_view(self.properties@),
        }
    }
}

/// A layer of a provider with everything that belongs to it.
pub struct Layer<W, S> {
    pub id: ProviderLayerId,
    pub name: String,
    pub description: String,
    pub workflow: W,
    pub symbology: Option<S>,
    pub properties: Vec<Property>,
    pub metadata: StringMap<String>,
}

impl<W, S> Layer<W, S> {
    /// The content of the layer, without its identifier.
    pub open spec fn content(&self) -> LayerView<W, S> {
        LayerView {
            name: self.name@,
            description: self.description@,
            workflow: self.workflow,
            symbology: self.symbology,
            metadata: texts_view(self.metadata@),
            properties: properties_view(self.properties@),
        }
    }
}

/// A layer as it is shown in a collection.
#[derive(Debug, PartialEq, Eq)]
pub struct LayerListing {
    pub id: ProviderLayerId,
    pub name: String,
    pub description: String,
    pub properties: Vec<Property>,
}

/// A layer collection as it is shown in its parent.
#[derive(Debug, PartialEq, Eq)]
pub struct LayerCollectionListing {
    pub id: ProviderLayerCollectionId,
    pub name: String,
    pub description: String,
    pub properties: Vec<Property>,
}

/// An item of a layer collection.
#[derive(Debug, PartialEq, Eq)]
pub enum CollectionItem {
    Collection(LayerCollectionListing),
    Layer(LayerListing),
}

/// The mathematical content of a listing.
#[verifier::ext_equal]
pub struct ListingView {
    pub provider: u128,
    pub id: Seq<char>,
    pub name: Seq<char>,
    pub description: Seq<char>,
    pub properties: Seq<(Seq<char>, Seq<char>)>,
}

/// The mathematical content of an item.
#[verifier::ext_equal]
pub enum ItemView {
    Collection(ListingView),
    Layer(ListingView),
}

impl View for CollectionItem {
    type V = ItemView;

    open spec fn view(&self) -> ItemView {
        match self {
            CollectionItem::Collection(listing) => ItemView::Collection(
                ListingView {
                    provider: listing.id.provider_id.0,
                    id: listing.id.collection_id@,
                    name: listing.name@,
                    description: listing.description@,
                    properties: properties_view(listing.properties@),
                },
            ),
            CollectionItem::Layer(listing) => ItemView::Layer(
                ListingView {
                    provider: listing.id.provider_id.0,
                    id: listing.id.layer_id@,
                    name: listing.name@,
                    description: listing.description@,
                    properties: properties_view(listing.properties@),
                },
            ),
        }
    }
}

impl ItemView {
    /// Collections are listed before layers, and both by their names.
    pub open spec fn list_key(self) -> ListKey {
        match self {
            ItemView::Collection(listing) => ListKey { rank: 0, name: listing.name },
            ItemView::Layer(listing) => ListKey { rank: 1, name: listing.name },
        }
    }
}

impl Listed for CollectionItem {
    open spec fn list_key(&self) -> ListKey {
        self@.list_key()
    }

    fn get_rank(&self) -> (rank: u8) {
        match self {
            CollectionItem::Collection(_) => 0,
            CollectionItem::Layer(_) => 1,
        }
    }

    fn get_name(&self) -> (name: &str) {
        match self {
            CollectionItem::Collection(listing) => listing.name.as_str(),
            CollectionItem::Layer(listing) => listing.name.as_str(),
        }
    }
}

pub open spec fn items_view(items: Seq<CollectionItem>) -> Seq<ItemView> {
    Seq::new(items.len(), |i: int| items[i]@)
}

/// A layer collection with its items.
#[derive(Debug, PartialEq, Eq)]
pub struct LayerCollection {
    pub id: ProviderLayerCollectionId,
    pub name: String,
    pub description: String,
    pub items: Vec<CollectionItem>,
    pub entry_label: Option<String>,
    pub properties: Vec<Property>,
}

/// The mathematical content of a layer collection.
#[verifier::ext_equal]
pub struct LayerCollectionView {
    pub provider: u128,
    pub id: Seq<char>,
    pub name: Seq<char>,
    pub description: Seq<char>,
    pub items: Seq<ItemView>,
    pub entry_label: Option<Seq<char>>,
    pub properties: Seq<(Seq<char>, Seq<char>)>,
}

impl View for LayerCollection {
    type V = LayerCollectionView;

    open spec fn view(&self) -> LayerCollectionView {
        LayerCollectionView {
            provider: self.id.provider_id.0,
            id: self.id.collection_id@,
            name: self.name@,
            description: self.description@,
            items: items_view(self.items@),
            entry_label: text_view(self.entry_label),
            properties: properties_view(self.properties@),
        }
    }
}

/// Which part of a collection is listed.
#[derive(Clone, Copy, Debug, PartialEq, Eq)]
pub struct LayerCollectionListOptions {
    pub offset: u32,
    pub limit: u32,
}

/// The elements from `offset` on, at most `limit` of them.
pub open spec fn window<T>(all: Seq<T>, offset: int, limit: int) -> Seq<T> {
    let start = if offset <= all.len() {
        offset
    } else {
        all.len() as int
    };
    let end = if start + limit <= all.len() {
        start + limit
    } else {
        all.len() as int
    };
    all.subrange(start, end)
}

/// Looking at one element more adds it to the window if it is not in front of it and the window is
/// not full.
pub proof fn lemma_window_push<T>(all: Seq<T>, count: int, offset: int, limit: int)
    requires
        0 <= count < all.len(),
        0 <= offset,
        0 <= limit,
    ensures
        ({
            let seen = window(all.take(count), offset, limit);
            window(all.take(count + 1), offset, limit) == if offset <= count && seen.len() < limit {
                seen.push(all[count])
            } else {
                seen
            }
        }),
        offset <= count && window(all.take(count), offset, limit).len() < limit ==> count < offset
            + limit,
{
    let seen = window(all.take(count), offset, limit);
    let more = window(all.take(count + 1), offset, limit);
    if offset <= count && seen.len() < limit {
        assert(more =~= seen.push(all[count]));
    } else {
        assert(more =~= seen);
    }
}

} // verus!
