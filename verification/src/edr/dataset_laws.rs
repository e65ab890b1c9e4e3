//! What the addresses of datasets are for: every listed layer is loaded from an address that asks for
//! what the layer was listed for.

use vstd::prelude::*;

use crate::edr::address::{collection_path, collections_path, joined_address};
use crate::edr::error::{EdrError, EdrProviderError};
use crate::edr::id::{id_text, law_ids_round_trip, parsed_id, EdrCollectionId, EdrIdView};
use crate::edr::laws::{reads_as, shown};
use crate::edr::listing::{parameter_item, raster_height_item, root_item, vector_height_item};
use crate::edr::metadata::{
    first_supported, height_query, is_interval_of, missing_spatial_extent,
    missing_temporal_extent, no_supported_format, raster_format, raster_template,
    vector_template, EdrCollectionMetaData, EndpointKind,
};
use crate::edr::provider::DataId;
use crate::edr::query::{is_query_string, query_text, EdrQuery};
use crate::edr::request::{
    dataset_id, is_listable, metadata_address, no_vector_spec, raster_height, raster_parameter,
    vector_height, DatasetRequest, SourceOperator,
};
use crate::edr::vector::VectorProbe;
use crate::ids::uuid_text;
use crate::primitives::{BoundingBox2D, F64Bits, TimeInterval, MAX_TIME, MIN_TIME};
use crate::util::text::{
    before_last, law_cut_at_the_last_one, law_nothing_left_to_replace,
    law_pieces_make_up_the_text, pieces, replaced,
};

verus! {

/// A height other than the default one is asked for behind the words for it, alone on a discrete
/// scale and as both ends of a range on a continuous one. The default height is not asked for, and
/// two heights are never asked for in the same way.
pub proof fn law_heights_are_asked_for(height: Seq<char>, other: Seq<char>)
    ensures
        height_query(true, "default"@).len() == 0,
        height_query(false, "default"@).len() == 0,
        height != "default"@ ==> {
            &&& height_query(true, height) == "&z="@ + height
            &&& height_query(false, height) == height_query(true, height) + "%2F"@ + height
            &&& height_query(true, height).len() == height.len() + 3
        },
        forall|discrete: bool|
            #![trigger height_query(discrete, height)]
            height_query(discrete, height) == height_query(discrete, other) ==> height == other,
{
    reveal_strlit("&z=");
    reveal_strlit("%2F");
    assert forall|discrete: bool|
        #![trigger height_query(discrete, height)]
        height_query(discrete, height) == height_query(discrete, other) implies height == other by {
        let a = height_query(discrete, height);
        let b = height_query(discrete, other);
        if height != "default"@ && other != "default"@ {
            assert(a.len() == b.len());
            assert(height.len() == other.len());
            assert(height =~= a.subrange(3, 3 + height.len() as int));
            assert(other =~= b.subrange(3, 3 + other.len() as int));
        } else if height != "default"@ {
            assert(a.len() > 0);
        } else if other != "default"@ {
            assert(b.len() > 0);
        }
    }
}

/// The layer that is listed for a parameter of a collection is loaded from the address at which the
/// service has just this parameter, without a height.
pub proof fn law_listed_parameters_are_loaded(
    provider: u128,
    base_url: Seq<char>,
    collection: EdrCollectionMetaData,
    discrete: bool,
    format: Seq<char>,
    parameter: Seq<char>,
)
    requires
        !collection.id@.contains('!'),
        !parameter.contains('!'),
        collection.extent.vertical is None,
    ensures
        parameter_item(provider, collection, parameter) is Layer,
        parsed_id(shown(parameter_item(provider, collection, parameter)).id) matches Some(id) && {
            &&& id is ParameterOrHeight
            &&& raster_template(
                base_url,
                collection.id@,
                format,
                raster_parameter(id),
                height_query(discrete, raster_height(id)),
            ) == "/vsicurl_streaming/"@ + base_url + "collections/"@ + collection.id@ + "/cube?f="@
                + format + "&parameter-name="@ + parameter
        },
{
    law_ids_round_trip(EdrIdView::ParameterOrHeight(collection.id@, parameter));
    let front = "/vsicurl_streaming/"@ + base_url + "collections/"@ + collection.id@ + "/cube?f="@
        + format + "&parameter-name="@ + parameter;
    assert(front + Seq::<char>::empty() =~= front);
}

/// The layer that is listed for a parameter at a height is loaded from the address at which the
/// service has this parameter at this height.
pub proof fn law_listed_raster_heights_are_loaded(
    provider: u128,
    base_url: Seq<char>,
    collection: EdrCollectionMetaData,
    format: Seq<char>,
    parameter: Seq<char>,
    height: Seq<char>,
)
    requires
        !collection.id@.contains('!'),
        !parameter.contains('!'),
        !height.contains('!'),
        height != "default"@,
    ensures
        raster_height_item(provider, collection, parameter, height) is Layer,
        parsed_id(
            shown(raster_height_item(provider, collection, parameter, height)).id,
        ) matches Some(id) && {
            let front = "/vsicurl_streaming/"@ + base_url + "collections/"@ + collection.id@
                + "/cube?f="@ + format + "&parameter-name="@ + parameter + "&z="@ + height;
            &&& id is ParameterAndHeight
            &&& raster_template(
                base_url,
                collection.id@,
                format,
                raster_parameter(id),
                height_query(true, raster_height(id)),
            ) == front
            &&& raster_template(
                base_url,
                collection.id@,
                format,
                raster_parameter(id),
                height_query(false, raster_height(id)),
            ) == front + "%2F"@ + height
        },
{
    law_ids_round_trip(EdrIdView::ParameterAndHeight(collection.id@, parameter, height));
    let front = "/vsicurl_streaming/"@ + base_url + "collections/"@ + collection.id@ + "/cube?f="@
        + format + "&parameter-name="@ + parameter;
    assert(front + ("&z="@ + height) =~= front + "&z="@ + height);
    assert(front + ("&z="@ + height + "%2F"@ + height) =~= front + "&z="@ + height + "%2F"@
        + height);
}

/// The layer that is listed for a height of a vector collection is found at the address at which the
/// service has the collection at this height. Without a slash in the height, the item next to it
/// belongs to the same collection.
pub proof fn law_listed_vector_heights_are_loaded(
    provider: u128,
    base_url: Seq<char>,
    collection: EdrCollectionMetaData,
    discrete_vrs: Seq<Seq<char>>,
    height: Seq<char>,
    probe: VectorProbe,
)
    requires
        !collection.id@.contains('!'),
        !height.contains('!'),
        height != "default"@,
        parsed_id(shown(vector_height_item(provider, collection, height)).id) matches Some(id)
            && probe.is_probe_of(collection, base_url, vector_height(id), discrete_vrs),
    ensures
        vector_height_item(provider, collection, height) is Layer,
        ({
            let z = if collection.extent.vertical matches Some(vertical) && discrete_vrs.contains(
                vertical.vrs@,
            ) {
                "&z="@ + height
            } else {
                "&z="@ + height + "%2F"@ + height
            };
            let front = "/vsicurl_streaming/"@ + base_url + "collections/"@ + collection.id@;
            let format = collection.output_format(EndpointKind::Cube)->0;
            let items_format = collection.output_format(EndpointKind::Items)->0;
            &&& z.len() > 0
            &&& probe.template_url@ == front + "/cube?f="@ + format + z
            &&& probe.layer_name@ == before_last("cube?f="@ + format + z, '.')
            &&& !format.contains('/') && !height.contains('/') ==> probe.items_url@ == front
                + "/items?f="@ + items_format + "&limit=1"@
        }),
{
    law_ids_round_trip(EdrIdView::ParameterOrHeight(collection.id@, height));
    let z = height_query(collection.extent.is_discrete(discrete_vrs), height);
    law_heights_are_asked_for(height, height);
    let format = collection.output_format(EndpointKind::Cube)->0;
    lemma_items_next_to(base_url, collection.id@, format, z);
    assert(z.len() > 0);
    if !height.contains('/') {
        reveal_strlit("&z=");
        reveal_strlit("%2F");
        assert(!z.contains('/'));
    }
}

/// A vector collection that has no heights is found at the address of the whole collection.
pub proof fn law_collections_without_heights_are_loaded(
    provider: u128,
    base_url: Seq<char>,
    collection: EdrCollectionMetaData,
    discrete_vrs: Seq<Seq<char>>,
    probe: VectorProbe,
)
    requires
        !collection.id@.contains('!'),
        parsed_id(shown(root_item(provider, collection)).id) matches Some(id)
            && probe.is_probe_of(collection, base_url, vector_height(id), discrete_vrs),
    ensures
        ({
            let front = "/vsicurl_streaming/"@ + base_url + "collections/"@ + collection.id@;
            let format = collection.output_format(EndpointKind::Cube)->0;
            let items_format = collection.output_format(EndpointKind::Items)->0;
            &&& probe.template_url@ == front + "/cube?f="@ + format
            &&& probe.layer_name@ == before_last("cube?f="@ + format, '.')
            &&& !format.contains('/') ==> probe.items_url@ == front + "/items?f="@ + items_format
                + "&limit=1"@
        }),
{
    law_ids_round_trip(EdrIdView::Collection(collection.id@));
    let format = collection.output_format(EndpointKind::Cube)->0;
    let empty = Seq::<char>::empty();
    lemma_items_next_to(base_url, collection.id@, format, empty);
    let front = "/vsicurl_streaming/"@ + base_url + "collections/"@ + collection.id@ + "/cube?f="@
        + format;
    assert(front + empty =~= front);
    assert("cube?f="@ + format + empty =~= "cube?f="@ + format);
}

/// A height is asked for exactly if an identifier has one that is not the default.
pub proof fn law_only_heights_are_asked_for(id: EdrIdView, discrete: bool)
    ensures
        height_query(discrete, vector_height(id)).len() == 0 <==> (match id {
            EdrIdView::ParameterOrHeight(_, height) => height == "default"@,
            _ => true,
        }),
        height_query(discrete, raster_height(id)).len() == 0 <==> (match id {
            EdrIdView::ParameterAndHeight(_, _, height) => height == "default"@,
            _ => true,
        }),
        id matches EdrIdView::ParameterOrHeight(_, height) ==> vector_height(id) == height,
        id matches EdrIdView::ParameterAndHeight(_, _, height) ==> raster_height(id) == height,
{
    reveal_strlit("&z=");
}

/// Different parameters of a collection, and different heights, are loaded from different addresses.
pub proof fn law_addresses_tell_datasets_apart(
    base_url: Seq<char>,
    collection: Seq<char>,
    format: Seq<char>,
    parameter: Seq<char>,
    other_parameter: Seq<char>,
    z: Seq<char>,
    other_z: Seq<char>,
)
    ensures
        raster_template(base_url, collection, format, parameter, z) == raster_template(
            base_url,
            collection,
            format,
            other_parameter,
            z,
        ) ==> parameter == other_parameter,
        raster_template(base_url, collection, format, parameter, z) == raster_template(
            base_url,
            collection,
            format,
            parameter,
            other_z,
        ) ==> z == other_z,
        vector_template(base_url, collection, format, z) == vector_template(
            base_url,
            collection,
            format,
            other_z,
        ) ==> z == other_z,
{
    let front = "/vsicurl_streaming/"@ + base_url + "collections/"@ + collection + "/cube?f="@
        + format;
    let named = front + "&parameter-name="@;
    let a = named + parameter + z;
    let b = named + other_parameter + z;
    if a == b {
        assert(a.len() == named.len() + parameter.len() + z.len());
        assert(b.len() == named.len() + other_parameter.len() + z.len());
        assert(parameter =~= a.subrange(
            named.len() as int,
            (named.len() + parameter.len()) as int,
        ));
        assert(other_parameter =~= b.subrange(
            named.len() as int,
            (named.len() + parameter.len()) as int,
        ));
    }
    let c = named + parameter + other_z;
    if a == c {
        assert(z =~= a.skip((named.len() + parameter.len()) as int));
        assert(other_z =~= c.skip((named.len() + parameter.len()) as int));
    }
    let d = front + z;
    let e = front + other_z;
    if d == e {
        assert(z =~= d.skip(front.len() as int));
        assert(other_z =~= e.skip(front.len() as int));
    }
}

/// What stands next to the endpoint of a template.
proof fn lemma_items_next_to(
    base_url: Seq<char>,
    collection: Seq<char>,
    format: Seq<char>,
    z: Seq<char>,
)
    ensures
        ({
            let front = "/vsicurl_streaming/"@ + base_url + "collections/"@ + collection;
            let template = front + "/cube?f="@ + format + z;
            !format.contains('/') && !z.contains('/') ==> before_last(template, '/') == front
        }),
{
    let front = "/vsicurl_streaming/"@ + base_url + "collections/"@ + collection;
    let template = front + "/cube?f="@ + format + z;
    if !format.contains('/') && !z.contains('/') {
        reveal_strlit("/cube?f=");
        let back = seq!['c', 'u', 'b', 'e', '?', 'f', '='] + format + z;
        assert(template =~= front.push('/') + back);
        assert(!back.contains('/'));
        law_cut_at_the_last_one(front, '/', back);
    }
}

/// The metadata of a dataset is asked for at the collection that everything listed for it belongs to.
pub proof fn law_metadata_is_that_of_the_collection(
    provider: u128,
    base_url: Seq<char>,
    collection: EdrCollectionMetaData,
    parameter: Seq<char>,
    height: Seq<char>,
)
    requires
        !collection.id@.contains('!'),
        !parameter.contains('!'),
        !height.contains('!'),
    ensures
        ({
            let address = joined_address(
                base_url,
                "collections/"@ + collection.id@ + "?f=json"@,
            );
            let root = parsed_id(shown(root_item(provider, collection)).id)->0;
            let of_parameter = parsed_id(
                shown(parameter_item(provider, collection, parameter)).id,
            )->0;
            let of_height = parsed_id(shown(vector_height_item(provider, collection, height)).id)->0;
            let of_both = parsed_id(
                shown(raster_height_item(provider, collection, parameter, height)).id,
            )->0;
            &&& metadata_address(base_url, root) == address
            &&& metadata_address(base_url, of_parameter) == address
            &&& metadata_address(base_url, of_height) == address
            &&& metadata_address(base_url, of_both) == address
        }),
        metadata_address(base_url, EdrIdView::Collections) is None,
        collection_path(collection.id@) == "collections/"@ + collection.id@ + "?f=json"@,
        collections_path() == "collections?f=json"@,
{
    law_ids_round_trip(EdrIdView::Collection(collection.id@));
    law_ids_round_trip(EdrIdView::ParameterOrHeight(collection.id@, parameter));
    law_ids_round_trip(EdrIdView::ParameterOrHeight(collection.id@, height));
    law_ids_round_trip(EdrIdView::ParameterAndHeight(collection.id@, parameter, height));
}

/// Rasters are loaded with GDAL and everything else with OGR, by the name of the layer at the provider.
pub proof fn law_layers_are_loaded_by_their_name(
    operator: SourceOperator,
    raster: bool,
    provider: u128,
    layer: Seq<char>,
)
    requires
        operator.loads(raster, provider, layer),
    ensures
        operator is GdalSource <==> raster,
        match operator {
            SourceOperator::GdalSource { data } => data.provider@ == uuid_text(provider)
                && data.name@ == layer,
            SourceOperator::OgrSource { data } => data.provider@ == uuid_text(provider)
                && data.name@ == layer,
        },
{
}

/// The two kinds of TIFF files are rasters, GeoJSON is not, and nothing else is supported.
pub proof fn law_supported_formats(format: Seq<char>)
    ensures
        raster_format(format) == Some(true) <==> format == "GeoTIFF"@ || format
            == "GeoTIFF_float"@,
        raster_format(format) == Some(false) <==> format == "GeoJSON"@,
{
    reveal_strlit("GeoTIFF");
    reveal_strlit("GeoTIFF_float");
    reveal_strlit("GeoJSON");
    assert("GeoTIFF"@[3] == 'T' && "GeoTIFF_float"@[3] == 'T' && "GeoJSON"@[3] == 'J');
}

/// The selected format stands in the list and is supported, and none in front of it is. None is
/// selected exactly if none in the list is supported.
pub proof fn law_first_supported_format_is_selected(formats: Seq<Seq<char>>)
    ensures
        match first_supported(formats) {
            Some(format) => exists|i: int|
                0 <= i < formats.len() && #[trigger] formats[i] == format && (format == "GeoTIFF"@
                    || format == "GeoTIFF_float"@ || format == "GeoJSON"@) && forall|j: int|
                    0 <= j < i ==> (#[trigger] formats[j]) != "GeoTIFF"@ && formats[j]
                        != "GeoTIFF_float"@ && formats[j] != "GeoJSON"@,
            None => forall|j: int|
                0 <= j < formats.len() ==> (#[trigger] formats[j]) != "GeoTIFF"@ && formats[j]
                    != "GeoTIFF_float"@ && formats[j] != "GeoJSON"@,
        },
    decreases formats.len(),
{
    if formats.len() > 0 {
        law_supported_formats(formats[0]);
        let rest = formats.skip(1);
        law_first_supported_format_is_selected(rest);
        if raster_format(formats[0]) is None {
            match first_supported(formats) {
                Some(format) => {
                    let i = choose|i: int|
                        0 <= i < rest.len() && #[trigger] rest[i] == format && (format
                            == "GeoTIFF"@ || format == "GeoTIFF_float"@ || format == "GeoJSON"@)
                            && forall|j: int|
                            0 <= j < i ==> (#[trigger] rest[j]) != "GeoTIFF"@ && rest[j]
                                != "GeoTIFF_float"@ && rest[j] != "GeoJSON"@;
                    assert(formats[i + 1] == format);
                    assert forall|j: int| 0 <= j < i + 1 implies (#[trigger] formats[j])
                        != "GeoTIFF"@ && formats[j] != "GeoTIFF_float"@ && formats[j]
                        != "GeoJSON"@ by {
                        if j > 0 {
                            assert(formats[j] == rest[j - 1]);
                        }
                    }
                },
                None => {
                    assert forall|j: int| 0 <= j < formats.len() implies (#[trigger] formats[j])
                        != "GeoTIFF"@ && formats[j] != "GeoTIFF_float"@ && formats[j]
                        != "GeoJSON"@ by {
                        if j > 0 {
                            assert(formats[j] == rest[j - 1]);
                        }
                    }
                },
            }
        } else {
            assert(formats[0] == first_supported(formats)->0);
        }
    }
}

/// An endpoint is queried in the first supported one of its own formats, and in the first one of those
/// of the collection only if the endpoint is not described. Without any description that is GeoJSON.
pub proof fn law_endpoints_are_queried_in_their_formats(collection: EdrCollectionMetaData)
    ensures
        match collection.data_queries {
            Some(queries) => {
                &&& queries.cube matches Some(cube) ==> collection.output_format(EndpointKind::Cube)
                    == first_supported(
                    Seq::new(
                        cube.link.variables.output_formats@.len(),
                        |i: int| cube.link.variables.output_formats@[i]@,
                    ),
                )
                &&& queries.items matches Some(items) ==> collection.output_format(
                    EndpointKind::Items,
                ) == first_supported(
                    Seq::new(
                        items.link.variables.output_formats@.len(),
                        |i: int| items.link.variables.output_formats@[i]@,
                    ),
                )
            },
            None => true,
        },
        collection.data_queries is None || collection.data_queries->0.cube is None
            ==> collection.output_format(EndpointKind::Cube) == match collection.output_formats {
            Some(formats) => first_supported(Seq::new(formats@.len(), |i: int| formats@[i]@)),
            None => Some("GeoJSON"@),
        },
        collection.data_queries is None || collection.data_queries->0.items is None
            ==> collection.output_format(EndpointKind::Items) == match collection.output_formats {
            Some(formats) => first_supported(Seq::new(formats@.len(), |i: int| formats@[i]@)),
            None => Some("GeoJSON"@),
        },
        collection.is_raster() == match collection.output_format(EndpointKind::Cube) {
            Some(format) => Some(format == "GeoTIFF"@ || format == "GeoTIFF_float"@),
            None => None,
        },
{
    law_supported_formats("GeoJSON"@);
    assert(seq!["GeoJSON"@][0] == "GeoJSON"@);
    law_first_supported_format_is_selected(collection.offered_formats(EndpointKind::Cube));
    if collection.output_format(EndpointKind::Cube) is Some {
        law_supported_formats(collection.output_format(EndpointKind::Cube)->0);
        reveal_strlit("GeoTIFF");
        reveal_strlit("GeoTIFF_float");
        reveal_strlit("GeoJSON");
        assert("GeoTIFF"@[3] == 'T' && "GeoTIFF_float"@[3] == 'T' && "GeoJSON"@[3] == 'J');
    }
}

/// The box of a collection goes from the first pair of numbers of its extent to the second one, and the
/// same region has the left and the right edge of the box, and its upper and its lower one.
pub proof fn law_boxes_have_their_corners(collection: EdrCollectionMetaData, bbox: BoundingBox2D)
    ensures
        collection.extent.spatial matches Some(spatial) ==> {
            let numbers = spatial.bbox@[0]@;
            &&& collection.bounding_box().lower_left_coordinate.x == numbers[0]
            &&& collection.bounding_box().lower_left_coordinate.y == numbers[1]
            &&& collection.bounding_box().upper_right_coordinate.x == numbers[2]
            &&& collection.bounding_box().upper_right_coordinate.y == numbers[3]
        },
        bbox.partition().upper_left_coordinate.x == bbox.lower_left_coordinate.x,
        bbox.partition().lower_right_coordinate.x == bbox.upper_right_coordinate.x,
        bbox.partition().upper_left_coordinate.y == bbox.upper_right_coordinate.y,
        bbox.partition().lower_right_coordinate.y == bbox.lower_left_coordinate.y,
{
}

/// An interval starts and ends when the two texts say so, and it is open where a text cannot be read.
pub proof fn law_intervals_are_read<F: Fn(&String) -> Option<i64>>(
    parse: F,
    start: String,
    end: String,
    interval: TimeInterval,
    time: i64,
)
    requires
        is_interval_of(parse, start, end, interval),
    ensures
        reads_as(parse, start, time) ==> interval.start == time,
        reads_as(parse, end, time) ==> interval.end == time,
        (forall|parsed: Option<i64>| #[trigger]
            call_ensures(parse, (&start,), parsed) ==> parsed is None) ==> interval.start
            == MIN_TIME,
        (forall|parsed: Option<i64>| #[trigger]
            call_ensures(parse, (&end,), parsed) ==> parsed is None) ==> interval.end == MAX_TIME,
        MIN_TIME == -8_334_601_228_800_000,
        MAX_TIME == 8_210_266_876_799_999,
{
}

/// Whenever the number is written, it is this text.
pub open spec fn is_written_as<N, F: Fn(N) -> String>(write: F, number: N, text: Seq<char>) -> bool {
    forall|written: String| #[trigger]
        call_ensures(write, (number,), written) ==> written@ == text
}

/// A query asks for its box from the lower left to the upper right corner, and for its time from its
/// start to its end. There is no plus sign in the time that is asked for.
pub proof fn law_queries_ask_for_their_region<F: Fn(F64Bits) -> String, G: Fn(i64) -> String>(
    query: EdrQuery,
    number_text: F,
    datetime_text: G,
    text: Seq<char>,
    left: Seq<char>,
    lower: Seq<char>,
    right: Seq<char>,
    upper: Seq<char>,
    start: Seq<char>,
    end: Seq<char>,
)
    requires
        is_query_string(query, number_text, datetime_text, text),
        is_written_as(number_text, query.lower_left.x, left),
        is_written_as(number_text, query.lower_left.y, lower),
        is_written_as(number_text, query.upper_right.x, right),
        is_written_as(number_text, query.upper_right.y, upper),
        is_written_as(datetime_text, query.time_interval.start, start),
        is_written_as(datetime_text, query.time_interval.end, end),
    ensures
        text == "&bbox="@ + left + ","@ + lower + ","@ + right + ","@ + upper + "&datetime="@
            + replaced(start, '+', "%2B"@) + "%2F"@ + replaced(end, '+', "%2B"@),
        !start.contains('+') && !end.contains('+') ==> text == "&bbox="@ + left + ","@ + lower
            + ","@ + right + ","@ + upper + "&datetime="@ + start + "%2F"@ + end,
        !replaced(start, '+', "%2B"@).contains('+'),
        !replaced(end, '+', "%2B"@).contains('+'),
{
    reveal_strlit("%2B");
    law_nothing_left_to_replace(start, '+', "%2B"@);
    law_nothing_left_to_replace(end, '+', "%2B"@);
    assert(text == query_text(left, lower, right, upper, start, end));
}

/// A request is for the metadata of the collection that its identifier belongs to.
pub proof fn law_requests_ask_for_the_metadata(
    request: DatasetRequest,
    base_url: Seq<char>,
    id: EdrIdView,
)
    requires
        request.is_request_for(base_url, id),
    ensures
        request.id@ == id,
        match id {
            EdrIdView::Collections => false,
            EdrIdView::Collection(name) => joined_address(
                base_url,
                "collections/"@ + name + "?f=json"@,
            ) == Some(request.address@),
            EdrIdView::ParameterOrHeight(name, _) => joined_address(
                base_url,
                "collections/"@ + name + "?f=json"@,
            ) == Some(request.address@),
            EdrIdView::ParameterAndHeight(name, _, _) => joined_address(
                base_url,
                "collections/"@ + name + "?f=json"@,
            ) == Some(request.address@),
        },
{
}

/// Only whole collections, and what can be a parameter of one, can be listed.
pub proof fn law_what_can_be_listed(id: EdrIdView)
    ensures
        is_listable(id) <==> match id {
            EdrIdView::Collections => false,
            EdrIdView::Collection(_) => true,
            EdrIdView::ParameterOrHeight(_, _) => true,
            EdrIdView::ParameterAndHeight(_, _, _) => false,
        },
{
}

/// The dataset of data is found by the name of its layer. Data that is not of a provider, names that are
/// not understood and the list of all collections are rejected.
pub proof fn law_datasets_are_found_by_their_layer(data: DataId)
    ensures
        match data {
            DataId::Internal { .. } => dataset_id(data) == Err::<EdrIdView, EdrError>(
                EdrError::InvalidDataId,
            ),
            DataId::External { layer_id, .. } => match parsed_id(layer_id.0@) {
                None => dataset_id(data) == Err::<EdrIdView, EdrError>(
                    EdrError::InvalidLayerCollectionId,
                ),
                Some(id) => dataset_id(data) == if id is Collections {
                    Err::<EdrIdView, EdrError>(EdrError::InvalidLayerId)
                } else {
                    Ok(id)
                },
            },
        },
{
}

/// The errors say what is wrong with the metadata or the configuration.
pub proof fn law_errors_say_what_is_wrong()
    ensures
        no_supported_format() == (EdrError::DatasetMetaData {
            source: EdrProviderError::NoSupportedOutputFormat,
        }),
        missing_temporal_extent() == (EdrError::DatasetMetaData {
            source: EdrProviderError::MissingTemporalExtent,
        }),
        missing_spatial_extent() == (EdrError::DatasetMetaData {
            source: EdrProviderError::MissingSpatialExtent,
        }),
        no_vector_spec() == (EdrError::DatasetMetaData {
            source: EdrProviderError::NoVectorSpecConfigured,
        }),
{
}

/// An identifier is read from its parts: the word for collections, and up to three names behind it. With
/// more names, or with another word in front, it is none.
pub proof fn law_ids_are_read_from_their_parts(
    id: EdrCollectionId,
    text: Seq<char>,
    parts: Seq<Seq<char>>,
)
    requires
        parts == pieces(text, '!'),
    ensures
        parsed_id(text) is Some <==> parts[0] == "collections"@ && parts.len() <= 4,
        parsed_id(text) matches Some(parsed) ==> match parsed {
            EdrIdView::Collections => parts.len() == 1,
            EdrIdView::Collection(a) => parts.len() == 2 && a == parts[1],
            EdrIdView::ParameterOrHeight(a, b) => parts.len() == 3 && a == parts[1] && b
                == parts[2],
            EdrIdView::ParameterAndHeight(a, b, c) => parts.len() == 4 && a == parts[1] && b
                == parts[2] && c == parts[3],
        },
        match id {
            EdrCollectionId::Collections => id_text(id@) == "collections"@,
            EdrCollectionId::Collection { collection } => id_text(id@) == "collections!"@
                + collection@,
            EdrCollectionId::ParameterOrHeight { collection, parameter } => id_text(id@)
                == "collections!"@ + collection@ + "!"@ + parameter@,
            EdrCollectionId::ParameterAndHeight { collection, parameter, height } => id_text(id@)
                == "collections!"@ + collection@ + "!"@ + parameter@ + "!"@ + height@,
        },
{
    law_pieces_make_up_the_text(text, '!');
}

} // verus!
