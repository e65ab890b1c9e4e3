//! The metadata that an EDR service gives of its collections.

use vstd::prelude::*;

use crate::edr::error::{EdrError, EdrProviderError};
use crate::primitives::{
    BoundingBox2D, Coordinate2D, F64Bits, TimeInterval, MAX_TIME, MIN_TIME,
};
use crate::util::string_map::StringMap;
use crate::util::text::{
    before_last, contains_text, cut_at_last, same_text, texts,
};

verus! {

pub struct EdrCollectionMetaData {
    pub id: String,
    pub title: Option<String>,
    pub description: Option<String>,
    pub extent: EdrExtents,
    /// for paging keys need to be returned in same order every time
    pub parameter_names: StringMap<EdrParameter>,
    pub output_formats: Option<Vec<String>>,
    pub data_queries: Option<EdrQueryEndpoints>,
}

pub struct EdrQueryEndpoints {
    pub cube: Option<EdrQueryEndpoint>,
    pub items: Option<EdrQueryEndpoint>,
}

pub struct EdrQueryEndpoint {
    pub link: EdrQueryEndpointLink,
}

pub struct EdrQueryEndpointLink {
    pub variables: EdrQueryEndpointVariables,
}

pub struct EdrQueryEndpointVariables {
    pub output_formats: Vec<String>,
}

pub struct EdrExtents {
    pub spatial: Option<EdrSpatialExtent>,
    pub vertical: Option<EdrVerticalExtent>,
    pub temporal: Option<EdrTemporalExtent>,
}

pub struct EdrSpatialExtent {
    pub bbox: Vec<Vec<F64Bits>>,
}

pub struct EdrVerticalExtent {
    pub values: Vec<String>,
    pub vrs: String,
}

pub struct EdrTemporalExtent {
    pub interval: Vec<Vec<String>>,
    pub values: Vec<String>,
}

pub struct EdrParameter {
    pub data_type: Option<String>,
    pub unit: Option<EdrUnit>,
    pub observed_property: ObservedProperty,
}

pub struct EdrUnit {
    pub symbol: EdrSymbol,
}

/// The symbol of a unit, which services write in two ways.
#[allow(inconsistent_fields)]
pub enum EdrSymbol {
    Scalar(String),
    Object { value: String },
}

pub struct ObservedProperty {
    pub label: String,
}

impl EdrSymbol {
    pub open spec fn text(self) -> Seq<char> {
        match self {
            EdrSymbol::Scalar(value) => value@,
            EdrSymbol::Object { value } => value@,
        }
    }

    pub fn value(&self) -> (text: String)
        ensures
            text@ == self.text(),
    {
        match self {
            EdrSymbol::Scalar(value) => value.clone(),
            EdrSymbol::Object { value } => value.clone(),
        }
    }
}

/// Whether files in a format are rasters; `None` if the format is not supported.
pub open spec fn raster_format(format: Seq<char>) -> Option<bool> {
    if format == "GeoTIFF"@ || format == "GeoTIFF_float"@ {
        Some(true)
    } else if format == "GeoJSON"@ {
        Some(false)
    } else {
        None
    }
}

/// Whether files in a format are rasters; `None` if the format is not supported.
pub fn is_filetype_raster(format: &str) -> (raster: Option<bool>)
    ensures
        raster == raster_format(format@),
{
    if same_text(format, "GeoTIFF") || same_text(format, "GeoTIFF_float") {
        Some(true)
    } else if same_text(format, "GeoJSON") {
        Some(false)
    } else {
        None
    }
}

/// The endpoint of a service that is queried.
#[derive(Clone, Copy, Debug, PartialEq, Eq)]
pub enum EndpointKind {
    Cube,
    Items,
}

/// The first supported format in a list.
pub open spec fn first_supported(formats: Seq<Seq<char>>) -> Option<Seq<char>>
    decreases formats.len(),
{
    if formats.len() == 0 {
        None
    } else if raster_format(formats[0]) is Some {
        Some(formats[0])
    } else {
        first_supported(formats.skip(1))
    }
}

impl EdrExtents {
    /// The vertical axis has a reference system with a discrete scale.
    pub open spec fn is_discrete(self, discrete_vrs: Seq<Seq<char>>) -> bool {
        self.vertical matches Some(vertical) && discrete_vrs.contains(vertical.vrs@)
    }

    pub fn has_discrete_vertical_axis(&self, discrete_vrs: &Vec<String>) -> (discrete: bool)
        ensures
            discrete == self.is_discrete(texts(discrete_vrs@)),
    {
        match &self.vertical {
            Some(vertical) => contains_text(discrete_vrs, vertical.vrs.as_str()),
            None => false,
        }
    }
}

/// The time is what the text was parsed to, or the default if it could not be parsed.
pub open spec fn is_time_of<F: Fn(&String) -> Option<i64>>(
    parse: F,
    text: String,
    default: i64,
    time: i64,
) -> bool {
    exists|parsed: Option<i64>| #[trigger]
        call_ensures(parse, (&text,), parsed) && time == match parsed {
            Some(parsed) => parsed,
            None => default,
        }
}

/// The interval goes from the first to the second text. An end that cannot be parsed is open.
pub open spec fn is_interval_of<F: Fn(&String) -> Option<i64>>(
    parse: F,
    start: String,
    end: String,
    interval: TimeInterval,
) -> bool {
    &&& is_time_of(parse, start, MIN_TIME, interval.start)
    &&& is_time_of(parse, end, MAX_TIME, interval.end)
}

/// The interval between two texts, which are read by `parse`.
pub fn time_interval_from_strings<F: Fn(&String) -> Option<i64>>(
    start: &String,
    end: &String,
    parse: &F,
) -> (interval: TimeInterval)
    requires
        forall|text: &String| call_requires(*parse, (text,)),
    ensures
        is_interval_of(*parse, *start, *end, interval),
{
    let start: i64 = match parse(start) {
        Some(time) => time,
        None => MIN_TIME,
    };
    let end: i64 = match parse(end) {
        Some(time) => time,
        None => MAX_TIME,
    };
    TimeInterval { start, end }
}

/// The part of an address that selects a height. A range is given where the scale is continuous.
pub open spec fn height_query(discrete: bool, height: Seq<char>) -> Seq<char> {
    if height == "default"@ {
        Seq::empty()
    } else if discrete {
        "&z="@ + height
    } else {
        "&z="@ + height + "%2F"@ + height
    }
}

fn get_height_query(discrete: bool, height: &str) -> (query: String)
    ensures
        query@ == height_query(discrete, height@),
{
    if same_text(height, "default") {
        let query = String::new();
        assert(query@ =~= Seq::empty());
        query
    } else if discrete {
        "&z=".to_owned().concat(height)
    } else {
        "&z=".to_owned().concat(height).concat("%2F").concat(height)
    }
}

/// The template of the address of a vector dataset.
pub open spec fn vector_template(
    base_url: Seq<char>,
    collection: Seq<char>,
    format: Seq<char>,
    height: Seq<char>,
) -> Seq<char> {
    "/vsicurl_streaming/"@ + base_url + "collections/"@ + collection + "/cube?f="@ + format + height
}

/// The name that OGR gives to the layer at the address of a vector dataset: what is behind the last
/// slash, without an extension.
pub open spec fn vector_layer_name(format: Seq<char>, height: Seq<char>) -> Seq<char> {
    before_last("cube?f="@ + format + height, '.')
}

/// The template of the address of a raster dataset.
pub open spec fn raster_template(
    base_url: Seq<char>,
    collection: Seq<char>,
    format: Seq<char>,
    parameter: Seq<char>,
    height: Seq<char>,
) -> Seq<char> {
    "/vsicurl_streaming/"@ + base_url + "collections/"@ + collection + "/cube?f="@ + format
        + "&parameter-name="@ + parameter + height
}

/// The address of a single item of a vector dataset, next to the endpoint of a template.
pub open spec fn items_address(template_url: Seq<char>, format: Seq<char>) -> Seq<char> {
    before_last(template_url, '/') + "/items?f="@ + format + "&limit=1"@
}

pub open spec fn no_supported_format() -> EdrError {
    EdrError::DatasetMetaData { source: EdrProviderError::NoSupportedOutputFormat }
}

pub open spec fn missing_temporal_extent() -> EdrError {
    EdrError::DatasetMetaData { source: EdrProviderError::MissingTemporalExtent }
}

pub open spec fn missing_spatial_extent() -> EdrError {
    EdrError::DatasetMetaData { source: EdrProviderError::MissingSpatialExtent }
}

impl EdrCollectionMetaData {
    pub open spec fn wf(self) -> bool {
        self.parameter_names.wf()
    }

    /// The temporal extent, if there is one, has an interval.
    pub open spec fn has_interval(self) -> bool {
        self.extent.temporal matches Some(temporal) ==> temporal.interval@.len() > 0
            && temporal.interval@[0]@.len() >= 2
    }

    /// The spatial extent, if there is one, has a box.
    pub open spec fn has_bbox(self) -> bool {
        self.extent.spatial matches Some(spatial) ==> spatial.bbox@.len() > 0
            && spatial.bbox@[0]@.len() >= 4
    }

    /// The formats that an endpoint offers. If it does not say so, they are those of the collection,
    /// and without any information it is assumed to be GeoJSON.
    pub open spec fn offered_formats(self, endpoint: EndpointKind) -> Seq<Seq<char>> {
        let selected = match self.data_queries {
            Some(queries) => match endpoint {
                EndpointKind::Cube => queries.cube,
                EndpointKind::Items => queries.items,
            },
            None => None,
        };
        match selected {
            Some(endpoint) => texts(endpoint.link.variables.output_formats@),
            None => match self.output_formats {
                Some(formats) => texts(formats@),
                None => seq!["GeoJSON"@],
            },
        }
    }

    /// The format in which data is queried.
    pub open spec fn output_format(self, endpoint: EndpointKind) -> Option<Seq<char>> {
        first_supported(self.offered_formats(endpoint))
    }

    /// The collection consists of rasters; `None` if it has no supported format.
    pub open spec fn is_raster(self) -> Option<bool> {
        match self.output_format(EndpointKind::Cube) {
            Some(format) => raster_format(format),
            None => None,
        }
    }

    /// The box of the collection.
    pub open spec fn bounding_box(self) -> BoundingBox2D {
        let bbox = self.extent.spatial->0.bbox@[0]@;
        BoundingBox2D {
            lower_left_coordinate: Coordinate2D { x: bbox[0], y: bbox[1] },
            upper_right_coordinate: Coordinate2D { x: bbox[2], y: bbox[3] },
        }
    }

    /// The interval that the collection covers.
    pub fn get_time_interval<F: Fn(&String) -> Option<i64>>(&self, parse: &F) -> (interval: Result<
        TimeInterval,
        EdrError,
    >)
        requires
            self.has_interval(),
            forall|text: &String| call_requires(*parse, (text,)),
        ensures
            match interval {
                Ok(interval) => {
                    &&& self.extent.temporal is Some
                    &&& is_interval_of(
                        *parse,
                        self.extent.temporal->0.interval@[0]@[0],
                        self.extent.temporal->0.interval@[0]@[1],
                        interval,
                    )
                },
                Err(error) => self.extent.temporal is None && error == missing_temporal_extent(),
            },
    {
        match &self.extent.temporal {
            Some(temporal) => Ok(
                time_interval_from_strings(
                    &temporal.interval[0][0],
                    &temporal.interval[0][1],
                    parse,
                ),
            ),
            None => Err(
                EdrError::DatasetMetaData { source: EdrProviderError::MissingTemporalExtent },
            ),
        }
    }

    /// The box that the collection covers.
    pub fn get_bounding_box(&self) -> (bbox: Result<BoundingBox2D, EdrError>)
        requires
            self.has_bbox(),
        ensures
            bbox == if self.extent.spatial is Some {
                Ok::<BoundingBox2D, EdrError>(self.bounding_box())
            } else {
                Err(missing_spatial_extent())
            },
    {
        match &self.extent.spatial {
            Some(spatial) => Ok(
                BoundingBox2D {
                    lower_left_coordinate: Coordinate2D {
                        x: spatial.bbox[0][0],
                        y: spatial.bbox[0][1],
                    },
                    upper_right_coordinate: Coordinate2D {
                        x: spatial.bbox[0][2],
                        y: spatial.bbox[0][3],
                    },
                },
            ),
            None => Err(
                EdrError::DatasetMetaData { source: EdrProviderError::MissingSpatialExtent },
            ),
        }
    }

    /// The first format that an endpoint offers and that is supported.
    pub fn select_output_format(&self, endpoint: EndpointKind) -> (format: Result<String, EdrError>)
        ensures
            match format {
                Ok(format) => self.output_format(endpoint) == Some(format@),
                Err(error) => self.output_format(endpoint) is None && error
                    == no_supported_format(),
            },
    {
        let mut fallback_formats: Vec<String> = Vec::new();
        fallback_formats.push("GeoJSON".to_owned());
        assert(texts(fallback_formats@) =~= seq!["GeoJSON"@]);
        let selected = match &self.data_queries {
            Some(queries) => match endpoint {
                EndpointKind::Cube => &queries.cube,
                EndpointKind::Items => &queries.items,
            },
            None => &None,
        };
        let formats = match selected {
            Some(endpoint) => &endpoint.link.variables.output_formats,
            None => match &self.output_formats {
                Some(formats) => formats,
                None => &fallback_formats,
            },
        };
        let ghost all = texts(formats@);
        let mut i: usize = 0;
        assert(all.skip(0) =~= all);
        assert(all == self.offered_formats(endpoint));
        while i < formats.len()
            invariant
                i <= formats@.len(),
                all == texts(formats@),
                all == self.offered_formats(endpoint),
                first_supported(all) == first_supported(all.skip(i as int)),
            decreases formats@.len() - i,
        {
            assert(all.skip(i as int)[0] == formats@[i as int]@);
            assert(all.skip(i as int).skip(1) =~= all.skip(i + 1));
            if is_filetype_raster(formats[i].as_str()).is_some() {
                return Ok(formats[i].clone());
            }
            i += 1;
        }
        Err(EdrError::DatasetMetaData { source: EdrProviderError::NoSupportedOutputFormat })
    }

    /// Whether the collection consists of rasters.
    pub fn is_raster_file(&self) -> (raster: Result<bool, EdrError>)
        ensures
            raster == match self.is_raster() {
                Some(raster) => Ok::<bool, EdrError>(raster),
                None => Err(no_supported_format()),
            },
    {
        match self.select_output_format(EndpointKind::Cube) {
            Ok(format) => {
                proof {
                    lemma_first_supported(self.offered_formats(EndpointKind::Cube));
                }
                Ok(is_filetype_raster(format.as_str()).unwrap())
            },
            Err(error) => Err(error),
        }
    }

    /// The template of the address of a vector dataset and the name of its layer.
    pub fn get_vector_template_url(
        &self,
        base_url: &str,
        height: &str,
        discrete_vrs: &Vec<String>,
    ) -> (result: Result<(String, String), EdrError>)
        ensures
            match result {
                Ok((template_url, layer_name)) => {
                    let format = self.output_format(EndpointKind::Cube);
                    let z = height_query(self.extent.is_discrete(texts(discrete_vrs@)), height@);
                    &&& format is Some
                    &&& template_url@ == vector_template(base_url@, self.id@, format->0, z)
                    &&& layer_name@ == vector_layer_name(format->0, z)
                },
                Err(error) => self.output_format(EndpointKind::Cube) is None && error
                    == no_supported_format(),
            },
    {
        let z = get_height_query(self.extent.has_discrete_vertical_axis(discrete_vrs), height);
        let output_format = match self.select_output_format(EndpointKind::Cube) {
            Ok(format) => format,
            Err(error) => {
                return Err(error);
            },
        };
        let template_url = "/vsicurl_streaming/".to_owned().concat(base_url).concat(
            "collections/",
        ).concat(self.id.as_str()).concat("/cube?f=").concat(output_format.as_str()).concat(
            z.as_str(),
        );
        let layer_name = "cube?f=".to_owned().concat(output_format.as_str()).concat(z.as_str());
        Ok((template_url, cut_at_last(layer_name.as_str(), '.')))
    }

    /// The template of the address of a raster dataset.
    pub fn get_raster_template_url(
        &self,
        base_url: &str,
        parameter_name: &str,
        height: &str,
        discrete_vrs: &Vec<String>,
    ) -> (template_url: Result<String, EdrError>)
        ensures
            match template_url {
                Ok(template_url) => {
                    let format = self.output_format(EndpointKind::Cube);
                    let z = height_query(self.extent.is_discrete(texts(discrete_vrs@)), height@);
                    &&& format is Some
                    &&& template_url@ == raster_template(
                        base_url@,
                        self.id@,
                        format->0,
                        parameter_name@,
                        z,
                    )
                },
                Err(error) => self.output_format(EndpointKind::Cube) is None && error
                    == no_supported_format(),
            },
    {
        let z = get_height_query(self.extent.has_discrete_vertical_axis(discrete_vrs), height);
        match self.select_output_format(EndpointKind::Cube) {
            Ok(output_format) => Ok(
                "/vsicurl_streaming/".to_owned().concat(base_url).concat("collections/").concat(
                    self.id.as_str(),
                ).concat("/cube?f=").concat(output_format.as_str()).concat(
                    "&parameter-name=",
                ).concat(parameter_name).concat(z.as_str()),
            ),
            Err(error) => Err(error),
        }
    }

    /// The address of a single item, from which the type of a vector dataset is determined.
    pub fn get_items_url(&self, template_url: &str) -> (items_url: Result<String, EdrError>)
        requires
            template_url@.contains('/'),
        ensures
            match items_url {
                Ok(items_url) => {
                    let format = self.output_format(EndpointKind::Items);
                    format is Some && items_url@ == items_address(template_url@, format->0)
                },
                Err(error) => self.output_format(EndpointKind::Items) is None && error
                    == no_supported_format(),
            },
    {
        match self.select_output_format(EndpointKind::Items) {
            Ok(output_format) => Ok(
                cut_at_last(template_url, '/').concat("/items?f=").concat(
                    output_format.as_str(),
                ).concat("&limit=1"),
            ),
            Err(error) => Err(error),
        }
    }
}

/// The selected format is a supported one.
proof fn lemma_first_supported(formats: Seq<Seq<char>>)
    ensures
        first_supported(formats) matches Some(format) ==> raster_format(format) is Some,
    decreases formats.len(),
{
    if formats.len() > 0 {
        lemma_first_supported(formats.skip(1));
    }
}

} // verus!
