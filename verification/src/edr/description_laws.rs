//! What the listings and the descriptions of datasets say about the collections that they are made for.

use vstd::prelude::*;

use crate::edr::id::EdrIdView;
use crate::edr::laws::reads_as;
use crate::edr::listing::{
    has_extent, listed_collections, listing_view, parameter_item, raster_height_item, root_item,
    vector_height_item,
};
use crate::edr::metadata::{EdrCollectionMetaData, EdrParameter, EdrSymbol};
use crate::edr::query::{is_query_string, EdrQuery};
use crate::edr::raster::{
    are_decisions, are_parts_of, are_selected_by, selected_slices, slices_view, DetectedRasterInfo, FileNotFoundHandling,
    GdalLoadingInfoTemporalSlice, ParametersView, SliceView,
};
use crate::edr::request::collection_listing;
use crate::edr::vector::{
    column_type, columns_of, uppercase, CacheTtlSeconds, EdrVectorSpec, FeatureDataType,
    Measurement, OgrSourceColumnSpec, OgrSourceDataset, OgrSourceDatasetTimeType,
    OgrSourceDurationSpec, OgrSourceTimeFormat, VectorColumnInfo, VectorDataType,
    VectorResultDescriptor,
};
use crate::layers::layer::{ItemView, LayerCollectionListOptions, ListingView};
use crate::layers::listing_laws::law_pages_begin_at_their_offset;
use crate::primitives::{F64Bits, SpatialReference, TimeInterval, MAX_TIME, MIN_TIME};
use crate::raster::RasterResultDescriptor;
use crate::util::text::texts;

verus! {

/// A page of the parameters of a raster collection. There is an item for each of them, with the name
/// of the parameter, and if the collection has heights, one of them is still to be chosen.
pub proof fn law_parameters_are_listed(
    provider: u128,
    collection_id: Seq<char>,
    name: Seq<char>,
    collection: EdrCollectionMetaData,
    options: LayerCollectionListOptions,
    i: int,
)
    requires
        collection.is_raster() == Some(true),
    ensures
        collection_listing(
            provider,
            collection_id,
            EdrIdView::Collection(name),
            collection,
            options,
        ) matches Some(listing) && {
            let parameters = collection.parameter_names.keys();
            &&& listing.provider == provider
            &&& listing.id == collection_id
            &&& listing.name == collection.id@
            &&& listing.description == "Parameters of "@ + collection.id@
            &&& listing.entry_label is None
            &&& listing.properties.len() == 0
            &&& listing.items.len() == if parameters.len() <= options.offset {
                0
            } else if options.offset + options.limit <= parameters.len() {
                options.limit as int
            } else {
                parameters.len() - options.offset
            }
            &&& 0 <= i < listing.items.len() ==> {
                let parameter = parameters[options.offset + i];
                let shown = ListingView {
                    provider,
                    id: "collections!"@ + collection.id@ + "!"@ + parameter,
                    name: parameter,
                    description: Seq::empty(),
                    properties: Seq::empty(),
                };
                listing.items[i] == if collection.extent.vertical is Some {
                    ItemView::Collection(shown)
                } else {
                    ItemView::Layer(shown)
                }
            }
        },
{
    let all = collection.parameter_names.keys().map_values(
        |parameter: Seq<char>|
            parameter_item(provider, collection, parameter),
    );
    law_pages_begin_at_their_offset(all, options.offset as int, options.limit as int, i);
}

/// A page of the heights of a vector collection. There is a layer for each of them, with the name of
/// the height.
pub proof fn law_vector_heights_are_listed(
    provider: u128,
    collection_id: Seq<char>,
    name: Seq<char>,
    collection: EdrCollectionMetaData,
    options: LayerCollectionListOptions,
    i: int,
)
    requires
        collection.is_raster() == Some(false),
    ensures
        collection.extent.vertical is None ==> collection_listing(
            provider,
            collection_id,
            EdrIdView::Collection(name),
            collection,
            options,
        ) is None,
        collection.extent.vertical matches Some(vertical) ==> {
            &&& collection_listing(
                provider,
                collection_id,
                EdrIdView::Collection(name),
                collection,
                options,
            ) matches Some(listing) && {
                let count = vertical.values@.len();
                &&& listing.provider == provider
                &&& listing.id == collection_id
                &&& listing.name == collection.id@
                &&& listing.description == "Height selection of "@ + collection.id@
                &&& listing.entry_label is None
                &&& listing.properties.len() == 0
                &&& listing.items.len() == if count <= options.offset {
                    0
                } else if options.offset + options.limit <= count {
                    options.limit as int
                } else {
                    count - options.offset
                }
                &&& 0 <= i < listing.items.len() ==> {
                    let height = vertical.values@[options.offset + i]@;
                    listing.items[i] == ItemView::Layer(
                        ListingView {
                            provider,
                            id: "collections!"@ + collection.id@ + "!"@ + height,
                            name: height,
                            description: Seq::empty(),
                            properties: Seq::empty(),
                        },
                    )
                }
            }
        },
{
    if let Some(vertical) = collection.extent.vertical {
        let all = texts(vertical.values@).map_values(
            |height: Seq<char>|
                vector_height_item(provider, collection, height),
        );
        law_pages_begin_at_their_offset(all, options.offset as int, options.limit as int, i);
    }
}

/// A page of the heights of a parameter of a raster collection. There is a layer for each of them, with
/// the name of the height.
pub proof fn law_raster_heights_are_listed(
    provider: u128,
    collection_id: Seq<char>,
    name: Seq<char>,
    collection: EdrCollectionMetaData,
    parameter: Seq<char>,
    options: LayerCollectionListOptions,
    i: int,
)
    ensures
        collection.extent.vertical is None || collection.is_raster() != Some(true)
            ==> collection_listing(
            provider,
            collection_id,
            EdrIdView::ParameterOrHeight(name, parameter),
            collection,
            options,
        ) is None,
        collection.is_raster() == Some(true) ==> (collection.extent.vertical matches Some(vertical)
            ==> {
            &&& collection_listing(
                provider,
                collection_id,
                EdrIdView::ParameterOrHeight(name, parameter),
                collection,
                options,
            ) matches Some(listing) && {
                let count = vertical.values@.len();
                &&& listing.provider == provider
                &&& listing.id == collection_id
                &&& listing.name == collection.id@
                &&& listing.description == "Height selection of "@ + collection.id@
                &&& listing.entry_label is None
                &&& listing.properties.len() == 0
                &&& listing.items.len() == if count <= options.offset {
                    0
                } else if options.offset + options.limit <= count {
                    options.limit as int
                } else {
                    count - options.offset
                }
                &&& 0 <= i < listing.items.len() ==> {
                    let height = vertical.values@[options.offset + i]@;
                    listing.items[i] == ItemView::Layer(
                        ListingView {
                            provider,
                            id: "collections!"@ + collection.id@ + "!"@ + parameter + "!"@ + height,
                            name: height,
                            description: Seq::empty(),
                            properties: Seq::empty(),
                        },
                    )
                }
            }
        }),
{
    if let Some(vertical) = collection.extent.vertical {
        let all = texts(vertical.values@).map_values(
            |height: Seq<char>|
                raster_height_item(provider, collection, parameter, height),
        );
        law_pages_begin_at_their_offset(all, options.offset as int, options.limit as int, i);
    }
}

/// A page of all collections with an extent, in the order in which the service gives them. Each is
/// shown by its title, or by its name if it has none. It is a layer exactly if there is nothing to
/// choose from it.
pub proof fn law_collections_are_listed(
    provider: u128,
    collections: Seq<EdrCollectionMetaData>,
    options: LayerCollectionListOptions,
    i: int,
)
    ensures
        ({
            let all = collections.filter(
                |collection: EdrCollectionMetaData| collection.extent.spatial is Some,
            );
            let listed = listed_collections(collections, options);
            &&& listed.len() == if all.len() <= options.offset {
                0
            } else if options.offset + options.limit <= all.len() {
                options.limit as int
            } else {
                all.len() - options.offset
            }
            &&& 0 <= i < listed.len() ==> {
                let collection = all[options.offset + i];
                let shown = ListingView {
                    provider,
                    id: "collections!"@ + collection.id@,
                    name: match collection.title {
                        Some(title) => title@,
                        None => collection.id@,
                    },
                    description: match collection.description {
                        Some(description) => description@,
                        None => Seq::empty(),
                    },
                    properties: Seq::empty(),
                };
                &&& listed[i] == collection
                &&& root_item(provider, listed[i]) == if collection.is_raster() == Some(true)
                    || collection.extent.vertical is Some {
                    ItemView::Collection(shown)
                } else {
                    ItemView::Layer(shown)
                }
            }
        }),
        forall|id: Seq<char>, name: Seq<char>, description: Seq<char>, items: Seq<ItemView>|
            {
                let listing = #[trigger] listing_view(provider, id, name, description, items);
                &&& listing.provider == provider
                &&& listing.id == id
                &&& listing.name == name
                &&& listing.description == description
                &&& listing.items == items
                &&& listing.entry_label is None
                &&& listing.properties.len() == 0
            },
{
    let all = collections.filter(
        |collection: EdrCollectionMetaData| collection.extent.spatial is Some,
    );
    assert((|collection: EdrCollectionMetaData| has_extent(collection)) =~= (
    |collection: EdrCollectionMetaData| collection.extent.spatial is Some));
    law_pages_begin_at_their_offset(all, options.offset as int, options.limit as int, i);
}

/// Texts and integers are found by their names in upper case; everything else is a number with a
/// fraction.
pub proof fn law_column_types(upper: Seq<char>, parameter: EdrParameter)
    ensures
        column_type("STRING"@) is Text,
        column_type("INTEGER"@) is Int,
        upper != "STRING"@ && upper != "INTEGER"@ ==> column_type(upper) is Float,
        parameter.data_type is None ==> parameter.feature_type() is Float,
        parameter.data_type matches Some(data_type) ==> parameter.feature_type() == column_type(
            uppercase(data_type@),
        ),
{
    reveal_strlit("STRING");
    reveal_strlit("INTEGER");
    assert("STRING"@.len() != "INTEGER"@.len());
}

/// A column has the type of its parameter. It measures what is observed in the unit of the parameter,
/// unless it is a text, which measures nothing.
pub proof fn law_columns_measure_their_parameter(column: VectorColumnInfo, parameter: EdrParameter)
    requires
        column.describes(parameter),
    ensures
        column.data_type == parameter.feature_type(),
        column.measurement is Unitless <==> parameter.feature_type() is Text,
        column.measurement matches Measurement::Continuous { measurement, unit } ==> {
            &&& measurement@ == parameter.observed_property.label@
            &&& unit is Some <==> parameter.unit is Some
            &&& parameter.unit matches Some(parameter_unit) ==> unit->0@
                == match parameter_unit.symbol {
                EdrSymbol::Scalar(value) => value@,
                EdrSymbol::Object { value } => value@,
            }
        },
{
}

/// The columns of a type are the parameters of this type, in their order.
pub proof fn law_columns_are_the_parameters_of_their_type(
    names: Seq<Seq<char>>,
    parameters: Map<Seq<char>, EdrParameter>,
    data_type: FeatureDataType,
)
    ensures
        columns_of(names, parameters, data_type) == names.filter(
            |name: Seq<char>| parameters[name].feature_type() == data_type,
        ),
    decreases names.len(),
{
    reveal(Seq::filter);
    if names.len() > 0 {
        law_columns_are_the_parameters_of_their_type(names.drop_last(), parameters, data_type);
    }
}

/// Every parameter has a column in the list of its type, and there are no other columns.
pub proof fn law_every_parameter_has_its_column(
    columns: OgrSourceColumnSpec,
    collection: EdrCollectionMetaData,
    vector_spec: EdrVectorSpec,
    name: Seq<char>,
)
    requires
        collection.wf(),
        columns.is_spec_of(collection, vector_spec),
    ensures
        columns.x == vector_spec.x,
        columns.y == vector_spec.y,
        columns.bool_columns@.len() == 0,
        columns.datetime_columns@.len() == 0,
        (exists|i: int|
            0 <= i < columns.int_columns@.len() && #[trigger] columns.int_columns@[i]@ == name)
            <==> collection.parameter_names@.contains_key(name)
            && collection.parameter_names@[name].feature_type() is Int,
        (exists|i: int|
            0 <= i < columns.float_columns@.len() && #[trigger] columns.float_columns@[i]@ == name)
            <==> collection.parameter_names@.contains_key(name)
            && collection.parameter_names@[name].feature_type() is Float,
        (exists|i: int|
            0 <= i < columns.text_columns@.len() && #[trigger] columns.text_columns@[i]@ == name)
            <==> collection.parameter_names@.contains_key(name)
            && collection.parameter_names@[name].feature_type() is Text,
{
    collection.parameter_names.lemma_keys();
    let names = collection.parameter_names.keys();
    let parameters = collection.parameter_names@;
    lemma_columns_contain(names, parameters, FeatureDataType::Int, name);
    lemma_columns_contain(names, parameters, FeatureDataType::Float, name);
    lemma_columns_contain(names, parameters, FeatureDataType::Text, name);
    lemma_texts_contain(columns.int_columns@, name);
    lemma_texts_contain(columns.float_columns@, name);
    lemma_texts_contain(columns.text_columns@, name);
}

proof fn lemma_columns_contain(
    names: Seq<Seq<char>>,
    parameters: Map<Seq<char>, EdrParameter>,
    data_type: FeatureDataType,
    name: Seq<char>,
)
    ensures
        columns_of(names, parameters, data_type).contains(name) <==> names.contains(name)
            && parameters[name].feature_type() == data_type,
{
    let pred = |name: Seq<char>| parameters[name].feature_type() == data_type;
    law_columns_are_the_parameters_of_their_type(names, parameters, data_type);
    if names.filter(pred).contains(name) {
        names.lemma_filter_contains_rev(pred, name);
        let i = choose|i: int| 0 <= i < names.filter(pred).len() && names.filter(pred)[i] == name;
        names.lemma_filter_pred(pred, i);
    }
    if names.contains(name) && pred(name) {
        let i = choose|i: int| 0 <= i < names.len() && names[i] == name;
        names.lemma_filter_contains(pred, i);
    }
}

proof fn lemma_texts_contain(list: Seq<String>, text: Seq<char>)
    ensures
        texts(list).contains(text) <==> exists|i: int|
            0 <= i < list.len() && #[trigger] list[i]@ == text,
{
    let all = texts(list);
    if exists|i: int| 0 <= i < list.len() && #[trigger] list[i]@ == text {
        let i = choose|i: int| 0 <= i < list.len() && #[trigger] list[i]@ == text;
        assert(all[i] == text);
    }
    if all.contains(text) {
        let i = choose|i: int| 0 <= i < all.len() && all[i] == text;
        assert(list[i]@ == text);
    }
}

/// A vector dataset is loaded from its address, with the columns of the collection. Its times are found
/// where the configuration says so: from a start to an end, at a start alone, or nowhere.
pub proof fn law_vector_sources(
    source: OgrSourceDataset,
    collection: EdrCollectionMetaData,
    template_url: Seq<char>,
    layer_name: Seq<char>,
    vector_spec: EdrVectorSpec,
    cache_ttl: CacheTtlSeconds,
    data_type: VectorDataType,
)
    requires
        source.is_source_of(
            collection,
            template_url,
            layer_name,
            vector_spec,
            cache_ttl,
            data_type,
        ),
    ensures
        source.file_name@ == template_url,
        source.layer_name@ == layer_name,
        source.data_type == Some(data_type),
        source.columns matches Some(columns) && columns.is_spec_of(collection, vector_spec),
        source.cache_ttl == cache_ttl,
        !source.force_ogr_time_filter,
        !source.force_ogr_spatial_filter,
        source.on_error is Abort,
        source.sql_query is None,
        source.attribute_query is None,
        source.time is Timeless <==> vector_spec.start_time is None,
        source.time is StartEnd <==> vector_spec.start_time is Some && vector_spec.end_time is Some,
        source.time matches OgrSourceDatasetTimeType::StartEnd {
            start_field,
            start_format,
            end_field,
            end_format,
        } ==> {
            &&& vector_spec.start_time == Some(start_field)
            &&& vector_spec.end_time == Some(end_field)
            &&& start_format == OgrSourceTimeFormat::Auto
            &&& end_format == OgrSourceTimeFormat::Auto
        },
        source.time matches OgrSourceDatasetTimeType::Start {
            start_field,
            start_format,
            duration,
        } ==> {
            &&& vector_spec.start_time == Some(start_field)
            &&& start_format == OgrSourceTimeFormat::Auto
            &&& duration == OgrSourceDurationSpec::Zero
        },
{
}

/// A query changes nothing about a vector dataset but where it is found.
pub proof fn law_same_sources(source: OgrSourceDataset, other: OgrSourceDataset)
    requires
        source.same_source(other),
    ensures
        source.data_type == other.data_type,
        source.time == other.time,
        source.columns is Some <==> other.columns is Some,
        source.columns matches Some(columns) ==> {
            &&& columns.x == other.columns->0.x
            &&& columns.y == other.columns->0.y
            &&& columns.int_columns@ == other.columns->0.int_columns@
            &&& columns.float_columns@ == other.columns->0.float_columns@
            &&& columns.text_columns@ == other.columns->0.text_columns@
            &&& columns.bool_columns@ == other.columns->0.bool_columns@
            &&& columns.datetime_columns@ == other.columns->0.datetime_columns@
        },
        source.force_ogr_time_filter == other.force_ogr_time_filter,
        source.force_ogr_spatial_filter == other.force_ogr_spatial_filter,
        source.on_error == other.on_error,
        source.sql_query == other.sql_query,
        source.attribute_query == other.attribute_query,
        source.cache_ttl == other.cache_ttl,
{
}

/// The description of a vector dataset has a column for each parameter, and the box and the interval
/// of the collection.
pub proof fn law_vector_descriptions<F: Fn(&String) -> Option<i64>>(
    descriptor: VectorResultDescriptor,
    collection: EdrCollectionMetaData,
    data_type: VectorDataType,
    parse: F,
    name: Seq<char>,
    time: i64,
)
    requires
        descriptor.describes(collection, data_type, parse),
    ensures
        descriptor.spatial_reference == SpatialReference::Epsg(4326),
        descriptor.data_type == data_type,
        descriptor.columns@.contains_key(name) <==> collection.parameter_names@.contains_key(name),
        collection.parameter_names@.contains_key(name) ==> descriptor.columns@[name].describes(
            collection.parameter_names@[name],
        ),
        descriptor.time is Some,
        collection.extent.temporal is Some,
        reads_as(parse, collection.extent.temporal->0.interval@[0]@[0], time)
            ==> descriptor.time->0.start == time,
        reads_as(parse, collection.extent.temporal->0.interval@[0]@[1], time)
            ==> descriptor.time->0.end == time,
        collection.extent.spatial is Some,
        descriptor.bbox is Some,
        descriptor.bbox->0.lower_left_coordinate.x == collection.extent.spatial->0.bbox@[0]@[0],
        descriptor.bbox->0.lower_left_coordinate.y == collection.extent.spatial->0.bbox@[0]@[1],
        descriptor.bbox->0.upper_right_coordinate.x == collection.extent.spatial->0.bbox@[0]@[2],
        descriptor.bbox->0.upper_right_coordinate.y == collection.extent.spatial->0.bbox@[0]@[3],
{
}

/// The description of a raster dataset has one band of the type that was found, and the region and the
/// interval of the collection.
pub proof fn law_raster_descriptions<F: Fn(&String) -> Option<i64>>(
    descriptor: RasterResultDescriptor,
    collection: EdrCollectionMetaData,
    info: DetectedRasterInfo,
    parse: F,
    time: i64,
)
    requires
        descriptor.describes(collection, info, parse),
    ensures
        descriptor.data_type == info.data_type,
        descriptor.spatial_reference == SpatialReference::Epsg(4326),
        descriptor.resolution is None,
        descriptor.band_count == 1,
        descriptor.time is Some,
        collection.extent.temporal is Some,
        reads_as(parse, collection.extent.temporal->0.interval@[0]@[0], time)
            ==> descriptor.time->0.start == time,
        reads_as(parse, collection.extent.temporal->0.interval@[0]@[1], time)
            ==> descriptor.time->0.end == time,
        collection.extent.spatial is Some,
        descriptor.bbox is Some,
        descriptor.bbox->0.upper_left_coordinate.x == collection.extent.spatial->0.bbox@[0]@[0],
        descriptor.bbox->0.lower_right_coordinate.y == collection.extent.spatial->0.bbox@[0]@[1],
        descriptor.bbox->0.lower_right_coordinate.x == collection.extent.spatial->0.bbox@[0]@[2],
        descriptor.bbox->0.upper_left_coordinate.y == collection.extent.spatial->0.bbox@[0]@[3],
{
}

/// There is a raster for each time step. Each one starts at its step, and the last one ends with the
/// whole interval. Without a temporal extent there is one raster for all times. All of them are loaded
/// from the same address, with the size and the position that were found.
pub proof fn law_every_time_step_has_a_raster<F: Fn(&String) -> Option<i64>>(
    parts: Seq<GdalLoadingInfoTemporalSlice>,
    collection: EdrCollectionMetaData,
    template_url: Seq<char>,
    info: DetectedRasterInfo,
    cache_ttl: CacheTtlSeconds,
    parse: F,
    i: int,
    time: i64,
)
    requires
        are_parts_of(parts, collection, template_url, info, cache_ttl, parse),
        0 <= i < parts.len(),
    ensures
        parts.len() == match collection.extent.temporal {
            Some(temporal) => temporal.values@.len(),
            None => 1,
        },
        collection.extent.temporal matches Some(temporal) ==> {
            &&& reads_as(parse, temporal.values@[i], time) ==> parts[i].time.start == time
            &&& i + 1 == parts.len() && reads_as(parse, temporal.interval@[0]@[1], time)
                ==> parts[i].time.end == time
        },
        collection.extent.temporal is None ==> parts[i].time.start == MIN_TIME && parts[i].time.end
            == MAX_TIME,
        parts[i].cache_ttl == cache_ttl,
        parts[i].params is Some,
        parts[i].params->0.file_path@ == template_url,
        parts[i].params->0.rasterband_channel == 1,
        parts[i].params->0.geo_transform == info.geo_transform,
        parts[i].params->0.width == info.width,
        parts[i].params->0.height == info.height,
        parts[i].params->0.file_not_found_handling == FileNotFoundHandling::NoData,
        parts[i].params->0.no_data_value is None,
        parts[i].params->0.gdal_open_options is None,
        !parts[i].params->0.allow_alphaband_as_mask,
        parts[i].params->0.gdal_config_options matches Some(options) && options@.len() == 1
            && options@[0].0@ == "GTIFF_HONOUR_NEGATIVE_SCALEY"@ && options@[0].1@ == "YES"@,
{
    let params = parts[i]@.params->0;
    let options = parts[i].params->0.gdal_config_options->0;
    assert(params.gdal_config_options->0 == seq![("GTIFF_HONOUR_NEGATIVE_SCALEY"@, "YES"@)]);
    assert(params.gdal_config_options->0[0] == ("GTIFF_HONOUR_NEGATIVE_SCALEY"@, "YES"@));
}

/// The raster is opened in the whole box of a collection, at the point in time at which it starts.
pub proof fn law_rasters_are_probed_at_their_start<F: Fn(&String) -> Option<i64>>(
    collection: EdrCollectionMetaData,
    parse: F,
    query: EdrQuery,
    time: i64,
)
    requires
        collection.is_probe_query(parse, query),
    ensures
        collection.extent.spatial is Some,
        collection.extent.temporal is Some,
        query.lower_left.x == collection.extent.spatial->0.bbox@[0]@[0],
        query.lower_left.y == collection.extent.spatial->0.bbox@[0]@[1],
        query.upper_right.x == collection.extent.spatial->0.bbox@[0]@[2],
        query.upper_right.y == collection.extent.spatial->0.bbox@[0]@[3],
        query.time_interval.end == query.time_interval.start,
        reads_as(parse, collection.extent.temporal->0.interval@[0]@[0], time)
            ==> query.time_interval.start == time,
{
}

/// Of each slice it is decided whether it is selected. What is selected keeps its order and everything
/// but its address.
pub proof fn law_slices_are_selected_in_order(
    slices: Seq<SliceView>,
    keep: Seq<bool>,
    url: Seq<char>,
    slice: SliceView,
)
    requires
        slices.len() == keep.len(),
    ensures
        selected_slices(Seq::empty(), Seq::empty(), url).len() == 0,
        selected_slices(slices.push(slice), keep.push(false), url) == selected_slices(
            slices,
            keep,
            url,
        ),
        selected_slices(slices.push(slice), keep.push(true), url) == selected_slices(
            slices,
            keep,
            url,
        ) + seq![
            SliceView {
                time: slice.time,
                params: Some(ParametersView { file_path: url, ..slice.params->0 }),
                cache_ttl: slice.cache_ttl,
            },
        ],
{
    assert(slices.push(slice).drop_last() =~= slices);
    assert(keep.push(true).drop_last() =~= keep);
    assert(keep.push(false).drop_last() =~= keep);
}

/// A query selects the slices that are valid at its time, each with the address of the template and
/// the text of the query behind it.
pub proof fn law_queries_select_slices<
    I: Fn(TimeInterval, TimeInterval) -> bool,
    F: Fn(F64Bits) -> String,
    G: Fn(i64) -> String,
>(
    selected: Seq<SliceView>,
    slices: Seq<SliceView>,
    template_url: Seq<char>,
    query: EdrQuery,
    intersects: I,
    number_text: F,
    datetime_text: G,
    text: Seq<char>,
    keep: Seq<bool>,
)
    requires
        are_selected_by(
            selected,
            slices,
            template_url,
            query,
            intersects,
            number_text,
            datetime_text,
        ),
        forall|other: Seq<char>| #[trigger]
            is_query_string(query, number_text, datetime_text, other) ==> other == text,
        keep.len() == slices.len(),
        forall|i: int, decision: bool|
            0 <= i < slices.len() && #[trigger] call_ensures(
                intersects,
                (slices[i].time, query.time_interval),
                decision,
            ) ==> decision == keep[i],
    ensures
        selected == selected_slices(slices, keep, template_url + text),
{
    let (kept, other) = choose|kept: Seq<bool>, other: Seq<char>|
        {
            &&& #[trigger] are_decisions(
                intersects,
                slices,
                query.time_interval,
                kept,
            )
            &&& #[trigger] is_query_string(query, number_text, datetime_text, other)
            &&& selected == selected_slices(slices, kept, template_url + other)
        };
    assert forall|i: int| 0 <= i < kept.len() implies kept[i] == keep[i] by {
        assert(call_ensures(intersects, (slices[i].time, query.time_interval), kept[i]));
    }
    assert(kept =~= keep);
}

/// A slice takes the size and the position of a raster and keeps everything else.
pub proof fn law_slices_take_the_size_of_a_raster(slice: SliceView, info: DetectedRasterInfo)
    ensures
        slice.with_raster_info(info).time == slice.time,
        slice.with_raster_info(info).cache_ttl == slice.cache_ttl,
        slice.with_raster_info(info).params == Some(
            ParametersView {
                file_path: slice.params->0.file_path,
                rasterband_channel: slice.params->0.rasterband_channel,
                geo_transform: info.geo_transform,
                width: info.width,
                height: info.height,
                file_not_found_handling: slice.params->0.file_not_found_handling,
                no_data_value: slice.params->0.no_data_value,
                gdal_open_options: slice.params->0.gdal_open_options,
                gdal_config_options: slice.params->0.gdal_config_options,
                allow_alphaband_as_mask: slice.params->0.allow_alphaband_as_mask,
            },
        ),
{
}

/// What is known of slices is what they hold, in their order.
pub proof fn law_slices_consist_of_what_they_hold(
    slices: Seq<GdalLoadingInfoTemporalSlice>,
    i: int,
)
    requires
        0 <= i < slices.len(),
    ensures
        slices_view(slices).len() == slices.len(),
        slices_view(slices)[i].time == slices[i].time,
        slices_view(slices)[i].cache_ttl == slices[i].cache_ttl,
        slices_view(slices)[i].params is Some <==> slices[i].params is Some,
        slices[i].params matches Some(params) ==> {
            let known = slices_view(slices)[i].params->0;
            &&& known.file_path == params.file_path@
            &&& known.rasterband_channel == params.rasterband_channel
            &&& known.geo_transform == params.geo_transform
            &&& known.width == params.width
            &&& known.height == params.height
            &&& known.file_not_found_handling == params.file_not_found_handling
            &&& known.no_data_value == params.no_data_value
            &&& known.gdal_open_options is Some <==> params.gdal_open_options is Some
            &&& params.gdal_open_options matches Some(options) ==> known.gdal_open_options == Some(
                options@,
            )
            &&& known.gdal_config_options is Some <==> params.gdal_config_options is Some
            &&& params.gdal_config_options matches Some(options) ==> {
                &&& known.gdal_config_options->0.len() == options@.len()
                &&& forall|j: int|
                    0 <= j < options@.len() ==> #[trigger] known.gdal_config_options->0[j] == (
                        options@[j].0@,
                        options@[j].1@,
                    )
            }
            &&& known.allow_alphaband_as_mask == params.allow_alphaband_as_mask
        },
{
}

} // verus!
