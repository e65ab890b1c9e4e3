//! What is in the collections of an EDR service.

use vstd::prelude::*;

use crate::edr::error::EdrError;
use crate::edr::id::{id_text, EdrCollectionId, EdrIdView};
use crate::edr::metadata::{no_supported_format, EdrCollectionMetaData};
use crate::edr::provider::EdrDataProvider;
use crate::layers::layer::{
    items_view, lemma_window_push, window, CollectionItem, ItemView, LayerCollection,
    LayerCollectionId, LayerCollectionListOptions, LayerCollectionListing, LayerCollectionView,
    LayerListing, ListingView, Property, ProviderLayerCollectionId, ProviderLayerId,
};
use crate::util::text::texts;

verus! {

/// All collections of a service.
pub struct EdrCollectionsMetaData {
    pub collections: Vec<EdrCollectionMetaData>,
}

/// Something is known about where the data of a collection is. Without an extent it has no data.
pub open spec fn has_extent(collection: EdrCollectionMetaData) -> bool {
    collection.extent.spatial is Some
}

/// The item of a listing; what needs a further choice is a collection, and anything else is a layer.
pub open spec fn listed_item(
    provider: u128,
    needs_choice: bool,
    id: EdrIdView,
    name: Seq<char>,
    description: Seq<char>,
) -> ItemView {
    let listing = ListingView {
        provider,
        id: id_text(id),
        name,
        description,
        properties: Seq::empty(),
    };
    if needs_choice {
        ItemView::Collection(listing)
    } else {
        ItemView::Layer(listing)
    }
}

/// A collection in the list of all collections. From rasters a parameter has to be chosen, and if there
/// are several heights one of them.
pub open spec fn root_item(provider: u128, collection: EdrCollectionMetaData) -> ItemView {
    listed_item(
        provider,
        collection.is_raster() == Some(true) || collection.extent.vertical is Some,
        EdrIdView::Collection(collection.id@),
        match collection.title {
            Some(title) => title@,
            None => collection.id@,
        },
        match collection.description {
            Some(description) => description@,
            None => Seq::empty(),
        },
    )
}

/// A parameter in the list of the parameters of a raster collection.
pub open spec fn parameter_item(
    provider: u128,
    collection: EdrCollectionMetaData,
    parameter: Seq<char>,
) -> ItemView {
    listed_item(
        provider,
        collection.extent.vertical is Some,
        EdrIdView::ParameterOrHeight(collection.id@, parameter),
        parameter,
        Seq::empty(),
    )
}

/// A height in the list of the heights of a vector collection.
pub open spec fn vector_height_item(
    provider: u128,
    collection: EdrCollectionMetaData,
    height: Seq<char>,
) -> ItemView {
    listed_item(
        provider,
        false,
        EdrIdView::ParameterOrHeight(collection.id@, height),
        height,
        Seq::empty(),
    )
}

/// A height in the list of the heights of a parameter of a raster collection.
pub open spec fn raster_height_item(
    provider: u128,
    collection: EdrCollectionMetaData,
    parameter: Seq<char>,
    height: Seq<char>,
) -> ItemView {
    listed_item(
        provider,
        false,
        EdrIdView::ParameterAndHeight(collection.id@, parameter, height),
        height,
        Seq::empty(),
    )
}

/// A collection with the selected part of its items.
pub open spec fn listing_view(
    provider: u128,
    id: Seq<char>,
    name: Seq<char>,
    description: Seq<char>,
    items: Seq<ItemView>,
) -> LayerCollectionView {
    LayerCollectionView {
        provider,
        id,
        name,
        description,
        items,
        entry_label: None,
        properties: Seq::empty(),
    }
}

/// The collections that are listed, in their order.
pub open spec fn listed_collections(
    collections: Seq<EdrCollectionMetaData>,
    options: LayerCollectionListOptions,
) -> Seq<EdrCollectionMetaData> {
    window(
        collections.filter(|collection: EdrCollectionMetaData| has_extent(collection)),
        options.offset as int,
        options.limit as int,
    )
}

/// The list of the parameters of a raster collection.
pub open spec fn parameter_listing(
    provider: u128,
    id: Seq<char>,
    collection: EdrCollectionMetaData,
    options: LayerCollectionListOptions,
) -> LayerCollectionView {
    listing_view(
        provider,
        id,
        collection.id@,
        "Parameters of "@ + collection.id@,
        window(
            collection.parameter_names.keys().map_values(
                |parameter: Seq<char>| parameter_item(provider, collection, parameter),
            ),
            options.offset as int,
            options.limit as int,
        ),
    )
}

/// The list of the heights of a vector collection.
pub open spec fn vector_height_listing(
    provider: u128,
    id: Seq<char>,
    collection: EdrCollectionMetaData,
    options: LayerCollectionListOptions,
) -> LayerCollectionView {
    listing_view(
        provider,
        id,
        collection.id@,
        "Height selection of "@ + collection.id@,
        window(
            texts(collection.extent.vertical->0.values@).map_values(
                |height: Seq<char>| vector_height_item(provider, collection, height),
            ),
            options.offset as int,
            options.limit as int,
        ),
    )
}

/// The list of the heights of a parameter of a raster collection.
pub open spec fn raster_height_listing(
    provider: u128,
    id: Seq<char>,
    collection: EdrCollectionMetaData,
    parameter: Seq<char>,
    options: LayerCollectionListOptions,
) -> LayerCollectionView {
    listing_view(
        provider,
        id,
        collection.id@,
        "Height selection of "@ + collection.id@,
        window(
            texts(collection.extent.vertical->0.values@).map_values(
                |height: Seq<char>| raster_height_item(provider, collection, parameter, height),
            ),
            options.offset as int,
            options.limit as int,
        ),
    )
}

/// What is in front in a sequence is also in front in what is filtered from it.
proof fn lemma_filter_prefix(
    collections: Seq<EdrCollectionMetaData>,
    pred: spec_fn(EdrCollectionMetaData) -> bool,
    count: int,
)
    requires
        0 <= count <= collections.len(),
    ensures
        ({
            let front = collections.take(count).filter(pred);
            let all = collections.filter(pred);
            front.len() <= all.len() && front == all.take(front.len() as int)
        }),
    decreases collections.len() - count,
{
    reveal(Seq::filter);
    let front = collections.take(count).filter(pred);
    let all = collections.filter(pred);
    if count == collections.len() {
        assert(collections.take(count) =~= collections);
        assert(front =~= all.take(front.len() as int));
    } else {
        lemma_filter_prefix(collections, pred, count + 1);
        let more = collections.take(count + 1);
        assert(more.drop_last() =~= collections.take(count));
        assert(front =~= all.take(front.len() as int));
    }
}

impl EdrDataProvider {
    /// An item that needs a further choice.
    fn collection_item(&self, id: EdrCollectionId, name: String, description: String) -> (item:
        CollectionItem)
        requires
            !(id@ is ParameterAndHeight),
        ensures
            item@ == listed_item(self.id.0, true, id@, name@, description@),
    {
        let collection_id = id.into_layer_collection_id().unwrap();
        let properties: Vec<Property> = Vec::new();
        let item = CollectionItem::Collection(
            LayerCollectionListing {
                id: ProviderLayerCollectionId { provider_id: self.id, collection_id },
                name,
                description,
                properties,
            },
        );
        assert(item@ =~= listed_item(self.id.0, true, id@, name@, description@));
        item
    }

    /// An item that can be loaded.
    fn layer_item(&self, id: EdrCollectionId, name: String, description: String) -> (item:
        CollectionItem)
        requires
            !(id@ is Collections),
        ensures
            item@ == listed_item(self.id.0, false, id@, name@, description@),
    {
        let layer_id = id.into_layer_id().unwrap();
        let properties: Vec<Property> = Vec::new();
        let item = CollectionItem::Layer(
            LayerListing {
                id: ProviderLayerId { provider_id: self.id, layer_id },
                name,
                description,
                properties,
            },
        );
        assert(item@ =~= listed_item(self.id.0, false, id@, name@, description@));
        item
    }

    /// A collection with its items.
    fn listing(
        &self,
        collection_id: &LayerCollectionId,
        name: String,
        description: String,
        items: Vec<CollectionItem>,
    ) -> (listing: LayerCollection)
        ensures
            listing@ == listing_view(
                self.id.0,
                collection_id@,
                name@,
                description@,
                items_view(items@),
            ),
    {
        let properties: Vec<Property> = Vec::new();
        let listing = LayerCollection {
            id: ProviderLayerCollectionId {
                provider_id: self.id,
                collection_id: collection_id.clone(),
            },
            name,
            description,
            items,
            entry_label: None,
            properties,
        };
        assert(listing@ =~= listing_view(
            self.id.0,
            collection_id@,
            name@,
            description@,
            items_view(items@),
        ));
        listing
    }

    /// The item of a collection in the list of all collections.
    fn get_root_item(&self, collection: &EdrCollectionMetaData) -> (item: Result<
        CollectionItem,
        EdrError,
    >)
        ensures
            match item {
                Ok(item) => collection.is_raster() is Some && item@ == root_item(
                    self.id.0,
                    *collection,
                ),
                Err(error) => collection.is_raster() is None && error == no_supported_format(),
            },
    {
        let raster = match collection.is_raster_file() {
            Ok(raster) => raster,
            Err(error) => {
                return Err(error);
            },
        };
        let id = EdrCollectionId::Collection { collection: collection.id.clone() };
        let name = match &collection.title {
            Some(title) => title.clone(),
            None => collection.id.clone(),
        };
        let description = match &collection.description {
            Some(description) => description.clone(),
            None => {
                let description = String::new();
                assert(description@ =~= Seq::empty());
                description
            },
        };
        if raster || collection.extent.vertical.is_some() {
            Ok(self.collection_item(id, name, description))
        } else {
            Ok(self.layer_item(id, name, description))
        }
    }

    /// The list of all collections that have data.
    pub fn get_root_collection(
        &self,
        collection_id: &LayerCollectionId,
        collections: &EdrCollectionsMetaData,
        options: &LayerCollectionListOptions,
    ) -> (listing: Result<LayerCollection, EdrError>)
        ensures
            ({
                let listed = listed_collections(collections.collections@, *options);
                match listing {
                    Ok(listing) => {
                        &&& forall|i: int|
                            0 <= i < listed.len() ==> (#[trigger] listed[i]).is_raster() is Some
                        &&& listing@ == listing_view(
                            self.id.0,
                            collection_id@,
                            "EDR"@,
                            "Environmental Data Retrieval"@,
                            listed.map_values(
                                |collection: EdrCollectionMetaData|
                                    root_item(self.id.0, collection),
                            ),
                        )
                    },
                    Err(error) => {
                        &&& exists|i: int|
                            0 <= i < listed.len() && (#[trigger] listed[i]).is_raster() is None
                        &&& error == no_supported_format()
                    },
                }
            }),
    {
        let all = &collections.collections;
        let offset: usize = options.offset as usize;
        let limit: usize = options.limit as usize;
        let ghost pred = |collection: EdrCollectionMetaData| has_extent(collection);
        let ghost with_extent = all@.filter(pred);
        let ghost listed = listed_collections(all@, *options);
        let mut items: Vec<CollectionItem> = Vec::new();
        let ghost mut shown: Seq<EdrCollectionMetaData> = Seq::empty();
        let mut count: usize = 0;
        let mut i: usize = 0;
        proof {
            reveal(Seq::filter);
            assert(all@.take(0).filter(pred).len() == 0);
            assert(shown =~= window(with_extent.take(0), offset as int, limit as int));
        }
        while i < all.len()
            invariant
                i <= all@.len(),
                count <= i,
                offset == options.offset,
                limit == options.limit,
                pred == |collection: EdrCollectionMetaData| has_extent(collection),
                *all == collections.collections,
                with_extent == all@.filter(pred),
                listed == listed_collections(collections.collections@, *options),
                listed == window(with_extent, offset as int, limit as int),
                count == all@.take(i as int).filter(pred).len(),
                count <= with_extent.len(),
                shown == window(with_extent.take(count as int), offset as int, limit as int),
                items@.len() == shown.len(),
                forall|j: int|
                    0 <= j < shown.len() ==> (#[trigger] shown[j]).is_raster() is Some && items@[j]@
                        == root_item(self.id.0, shown[j]),
            decreases all@.len() - i,
        {
            proof {
                reveal(Seq::filter);
                assert(all@.take(i + 1).drop_last() =~= all@.take(i as int));
                lemma_filter_prefix(all@, pred, i + 1);
            }
            if all[i].extent.spatial.is_some() {
                proof {
                    let front = all@.take(i + 1).filter(pred);
                    assert(front.last() == all@[i as int]);
                    assert(front[count as int] == with_extent[count as int]);
                    lemma_window_push(with_extent, count as int, offset as int, limit as int);
                }
                if count >= offset && items.len() < limit {
                    match self.get_root_item(&all[i]) {
                        Ok(item) => {
                            items.push(item);
                            proof {
                                shown = shown.push(all@[i as int]);
                            }
                        },
                        Err(error) => {
                            assert(listed[count - offset] == all@[i as int]);
                            return Err(error);
                        },
                    }
                }
                count += 1;
            }
            i += 1;
        }
        proof {
            assert(all@.take(i as int) =~= all@);
            assert(with_extent.take(count as int) =~= with_extent);
            assert(items_view(items@) =~= listed.map_values(
                |collection: EdrCollectionMetaData| root_item(self.id.0, collection),
            ));
        }
        Ok(
            self.listing(
                collection_id,
                "EDR".to_owned(),
                "Environmental Data Retrieval".to_owned(),
                items,
            ),
        )
    }

    /// The list of the parameters of a raster collection.
    pub fn get_raster_parameter_collection(
        &self,
        collection_id: &LayerCollectionId,
        collection_meta: &EdrCollectionMetaData,
        options: &LayerCollectionListOptions,
    ) -> (listing: LayerCollection)
        requires
            collection_meta.wf(),
        ensures
            listing@ == parameter_listing(self.id.0, collection_id@, *collection_meta, *options),
    {
        let names = &collection_meta.parameter_names;
        let offset: usize = options.offset as usize;
        let limit: usize = options.limit as usize;
        let ghost all = names.keys().map_values(
            |parameter: Seq<char>| parameter_item(self.id.0, *collection_meta, parameter),
        );
        let mut items: Vec<CollectionItem> = Vec::new();
        let mut i: usize = 0;
        assert(items_view(items@) =~= window(all.take(0), offset as int, limit as int));
        while i < names.len()
            invariant
                i <= names.keys().len(),
                names.wf(),
                *names == collection_meta.parameter_names,
                all == names.keys().map_values(
                    |parameter: Seq<char>| parameter_item(self.id.0, *collection_meta, parameter),
                ),
                items_view(items@) =~= window(all.take(i as int), offset as int, limit as int),
            decreases names.keys().len() - i,
        {
            proof {
                lemma_window_push(all, i as int, offset as int, limit as int);
            }
            if i >= offset && items.len() < limit {
                let parameter = names.key_at(i);
                let id = EdrCollectionId::ParameterOrHeight {
                    collection: collection_meta.id.clone(),
                    parameter: parameter.clone(),
                };
                let description = String::new();
                assert(description@ =~= Seq::empty());
                let item = if collection_meta.extent.vertical.is_some() {
                    self.collection_item(id, parameter.clone(), description)
                } else {
                    self.layer_item(id, parameter.clone(), description)
                };
                items.push(item);
            }
            i += 1;
        }
        assert(all.take(i as int) =~= all);
        self.listing(
            collection_id,
            collection_meta.id.clone(),
            "Parameters of ".to_owned().concat(collection_meta.id.as_str()),
            items,
        )
    }

    /// The list of the heights of a vector collection.
    pub fn get_vector_height_collection(
        &self,
        collection_id: &LayerCollectionId,
        collection_meta: &EdrCollectionMetaData,
        options: &LayerCollectionListOptions,
    ) -> (listing: LayerCollection)
        requires
            collection_meta.extent.vertical is Some,
        ensures
            listing@ == vector_height_listing(
                self.id.0,
                collection_id@,
                *collection_meta,
                *options,
            ),
    {
        let heights = &collection_meta.extent.vertical.as_ref().unwrap().values;
        let offset: usize = options.offset as usize;
        let limit: usize = options.limit as usize;
        let ghost all = texts(heights@).map_values(
            |height: Seq<char>| vector_height_item(self.id.0, *collection_meta, height),
        );
        let mut items: Vec<CollectionItem> = Vec::new();
        let mut i: usize = 0;
        assert(items_view(items@) =~= window(all.take(0), offset as int, limit as int));
        while i < heights.len()
            invariant
                i <= heights@.len(),
                all == texts(heights@).map_values(
                    |height: Seq<char>| vector_height_item(self.id.0, *collection_meta, height),
                ),
                items_view(items@) =~= window(all.take(i as int), offset as int, limit as int),
            decreases heights@.len() - i,
        {
            proof {
                lemma_window_push(all, i as int, offset as int, limit as int);
            }
            if i >= offset && items.len() < limit {
                let id = EdrCollectionId::ParameterOrHeight {
                    collection: collection_meta.id.clone(),
                    parameter: heights[i].clone(),
                };
                let description = String::new();
                assert(description@ =~= Seq::empty());
                items.push(self.layer_item(id, heights[i].clone(), description));
            }
            i += 1;
        }
        assert(all.take(i as int) =~= all);
        self.listing(
            collection_id,
            collection_meta.id.clone(),
            "Height selection of ".to_owned().concat(collection_meta.id.as_str()),
            items,
        )
    }

    /// The list of the heights of a parameter of a raster collection.
    pub fn get_raster_height_collection(
        &self,
        collection_id: &LayerCollectionId,
        collection_meta: &EdrCollectionMetaData,
        parameter: &str,
        options: &LayerCollectionListOptions,
    ) -> (listing: LayerCollection)
        requires
            collection_meta.extent.vertical is Some,
        ensures
            listing@ == raster_height_listing(
                self.id.0,
                collection_id@,
                *collection_meta,
                parameter@,
                *options,
            ),
    {
        let heights = &collection_meta.extent.vertical.as_ref().unwrap().values;
        let offset: usize = options.offset as usize;
        let limit: usize = options.limit as usize;
        let ghost all = texts(heights@).map_values(
            |height: Seq<char>| raster_height_item(self.id.0, *collection_meta, parameter@, height),
        );
        let mut items: Vec<CollectionItem> = Vec::new();
        let mut i: usize = 0;
        assert(items_view(items@) =~= window(all.take(0), offset as int, limit as int));
        while i < heights.len()
            invariant
                i <= heights@.len(),
                all == texts(heights@).map_values(
                    |height: Seq<char>|
                        raster_height_item(self.id.0, *collection_meta, parameter@, height),
                ),
                items_view(items@) =~= window(all.take(i as int), offset as int, limit as int),
            decreases heights@.len() - i,
        {
            proof {
                lemma_window_push(all, i as int, offset as int, limit as int);
            }
            if i >= offset && items.len() < limit {
                let id = EdrCollectionId::ParameterAndHeight {
                    collection: collection_meta.id.clone(),
                    parameter: parameter.to_owned(),
                    height: heights[i].clone(),
                };
                let description = String::new();
                assert(description@ =~= Seq::empty());
                items.push(self.layer_item(id, heights[i].clone(), description));
            }
            i += 1;
        }
        assert(all.take(i as int) =~= all);
        self.listing(
            collection_id,
            collection_meta.id.clone(),
            "Height selection of ".to_owned().concat(collection_meta.id.as_str()),
            items,
        )
    }
}

} // verus!
