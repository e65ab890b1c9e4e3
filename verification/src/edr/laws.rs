//! What holds of the listings and datasets of an EDR service as a whole.

use vstd::prelude::*;

use crate::edr::id::{has_plain_parts, id_text, law_ids_round_trip, parsed_id, EdrIdView};
use crate::edr::listing::{
    has_extent, listed_collections, parameter_item, raster_height_item, root_item,
    vector_height_item,
};
use crate::edr::metadata::EdrCollectionMetaData;
use crate::edr::raster::{
    are_decisions, are_parts_of, selected_slices, DetectedRasterInfo, GdalLoadingInfoTemporalSlice,
    SliceView,
};
use crate::edr::request::{collection_listing, dataset_id};
use crate::edr::provider::DataId;
use crate::edr::vector::CacheTtlSeconds;
use crate::layers::layer::{ItemView, LayerCollectionListOptions, ListingView};
use crate::primitives::TimeInterval;

verus! {

/// What is shown of an item.
pub open spec fn shown(item: ItemView) -> ListingView {
    match item {
        ItemView::Collection(listing) => listing,
        ItemView::Layer(listing) => listing,
    }
}

/// A collection is shown as a collection exactly if it can be listed, whichever part of it is asked for.
pub proof fn law_shown_collections_can_be_listed(
    provider: u128,
    collection: EdrCollectionMetaData,
    options: LayerCollectionListOptions,
)
    requires
        collection.is_raster() is Some,
    ensures
        root_item(provider, collection) is Collection <==> collection_listing(
            provider,
            shown(root_item(provider, collection)).id,
            EdrIdView::Collection(collection.id@),
            collection,
            options,
        ) is Some,
{
}

/// A parameter of a raster collection is shown as a collection exactly if its heights can be listed.
pub proof fn law_shown_parameters_can_be_listed(
    provider: u128,
    collection: EdrCollectionMetaData,
    parameter: Seq<char>,
    options: LayerCollectionListOptions,
)
    requires
        collection.is_raster() == Some(true),
    ensures
        parameter_item(provider, collection, parameter) is Collection <==> collection_listing(
            provider,
            shown(parameter_item(provider, collection, parameter)).id,
            EdrIdView::ParameterOrHeight(collection.id@, parameter),
            collection,
            options,
        ) is Some,
{
}

/// The identifiers of everything that is shown lead back to what they were made for, as long as no name
/// has a separator in it.
pub proof fn law_shown_ids_lead_back(
    provider: u128,
    collection: EdrCollectionMetaData,
    parameter: Seq<char>,
    height: Seq<char>,
)
    requires
        has_plain_parts(EdrIdView::ParameterAndHeight(collection.id@, parameter, height)),
    ensures
        parsed_id(shown(root_item(provider, collection)).id) == Some(
            EdrIdView::Collection(collection.id@),
        ),
        parsed_id(shown(parameter_item(provider, collection, parameter)).id) == Some(
            EdrIdView::ParameterOrHeight(collection.id@, parameter),
        ),
        parsed_id(shown(vector_height_item(provider, collection, height)).id) == Some(
            EdrIdView::ParameterOrHeight(collection.id@, height),
        ),
        parsed_id(shown(raster_height_item(provider, collection, parameter, height)).id) == Some(
            EdrIdView::ParameterAndHeight(collection.id@, parameter, height),
        ),
{
    law_ids_round_trip(EdrIdView::Collection(collection.id@));
    law_ids_round_trip(EdrIdView::ParameterOrHeight(collection.id@, parameter));
    law_ids_round_trip(EdrIdView::ParameterOrHeight(collection.id@, height));
    law_ids_round_trip(EdrIdView::ParameterAndHeight(collection.id@, parameter, height));
}

/// The dataset of a shown layer is the one that the layer was made for, as long as no name has a
/// separator in it.
pub proof fn law_layers_have_datasets(id: EdrIdView, data: DataId)
    requires
        has_plain_parts(id),
        !(id is Collections),
        data matches DataId::External { layer_id, .. } && layer_id@ == id_text(id),
    ensures
        dataset_id(data) == Ok::<EdrIdView, crate::edr::error::EdrError>(id),
{
    law_ids_round_trip(id);
}

/// Collections without an extent are not listed.
pub proof fn law_listed_collections_have_extents(
    collections: Seq<EdrCollectionMetaData>,
    options: LayerCollectionListOptions,
)
    ensures
        forall|i: int|
            0 <= i < listed_collections(collections, options).len() ==> has_extent(
                #[trigger] listed_collections(collections, options)[i],
            ),
        listed_collections(collections, options).len() <= options.limit,
{
    let pred = |collection: EdrCollectionMetaData| has_extent(collection);
    let all = collections.filter(pred);
    assert forall|i: int| 0 <= i < listed_collections(collections, options).len() implies has_extent(
        #[trigger] listed_collections(collections, options)[i],
    ) by {
        let listed = listed_collections(collections, options);
        let start: int = if options.offset <= all.len() {
            options.offset as int
        } else {
            all.len() as int
        };
        assert(listed[i] == all[start + i]);
        collections.lemma_filter_pred(pred, start + i);
    }
}

/// Whenever the text is read, it is this point in time.
pub open spec fn reads_as<F: Fn(&String) -> Option<i64>>(
    parse: F,
    text: String,
    time: i64,
) -> bool {
    forall|parsed: Option<i64>| #[trigger]
        call_ensures(parse, (&text,), parsed) ==> parsed == Some(time)
}

/// Each raster lasts until the next one: if the point in time at which a time step starts can be read,
/// and is read in the same way whenever it is, the step in front of it ends there.
pub proof fn law_time_steps_follow_each_other<F: Fn(&String) -> Option<i64>>(
    parts: Seq<GdalLoadingInfoTemporalSlice>,
    collection: EdrCollectionMetaData,
    template_url: Seq<char>,
    info: DetectedRasterInfo,
    cache_ttl: CacheTtlSeconds,
    parse: F,
    i: int,
    time: i64,
)
    requires
        are_parts_of(parts, collection, template_url, info, cache_ttl, parse),
        0 <= i,
        i + 1 < parts.len(),
        collection.extent.temporal matches Some(temporal) && reads_as(
            parse,
            temporal.values@[i + 1],
            time,
        ),
    ensures
        parts[i].time.end == time,
        parts[i + 1].time.start == time,
{
}

/// What a query selects is valid at its time and is loaded from its address, and nothing that is valid at
/// its time is left out.
pub proof fn law_selected_slices<I: Fn(TimeInterval, TimeInterval) -> bool>(
    slices: Seq<SliceView>,
    keep: Seq<bool>,
    url: Seq<char>,
    intersects: I,
    time: TimeInterval,
)
    requires
        are_decisions(intersects, slices, time, keep),
    ensures
        forall|i: int|
            0 <= i < selected_slices(slices, keep, url).len() ==> {
                let slice = #[trigger] selected_slices(slices, keep, url)[i];
                &&& slice.params is Some
                &&& slice.params->0.file_path == url
                &&& call_ensures(intersects, (slice.time, time), true)
            },
        forall|j: int|
            0 <= j < slices.len() && #[trigger] keep[j] ==> selected_slices(
                slices,
                keep,
                url,
            ).contains(slices[j].with_file_path(url)),
    decreases slices.len(),
{
    if slices.len() > 0 {
        let front = slices.drop_last();
        let kept = keep.drop_last();
        assert forall|i: int| 0 <= i < kept.len() implies call_ensures(
            intersects,
            ((#[trigger] front[i]).time, time),
            kept[i],
        ) by {
            assert(front[i] == slices[i]);
        }
        law_selected_slices(front, kept, url, intersects, time);
        let before = selected_slices(front, kept, url);
        let all = selected_slices(slices, keep, url);
        assert(slices.last() == slices[slices.len() - 1]);
        assert forall|j: int| 0 <= j < slices.len() && #[trigger] keep[j] implies all.contains(
            slices[j].with_file_path(url),
        ) by {
            if j < front.len() {
                assert(kept[j]);
                let k = choose|k: int|
                    0 <= k < before.len() && before[k] == front[j].with_file_path(url);
                assert(all[k] == slices[j].with_file_path(url));
            } else {
                assert(all.last() == slices[j].with_file_path(url));
            }
        }
    }
}

} // verus!
