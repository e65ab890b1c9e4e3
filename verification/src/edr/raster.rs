//! Raster datasets of an EDR service.

use vstd::prelude::*;

use crate::edr::error::EdrError;
use crate::edr::metadata::{
    is_interval_of, missing_spatial_extent, missing_temporal_extent, time_interval_from_strings,
    EdrCollectionMetaData, EdrTemporalExtent,
};
use crate::edr::query::{is_query_string, EdrQuery};
use crate::edr::vector::{clone_list, CacheTtlSeconds, EdrMetaData};
use crate::primitives::{
    Coordinate2D, F64Bits, SpatialReference, TimeInterval, EPSG_4326, MAX_TIME, MIN_TIME,
};
use crate::raster::{RasterDataType, RasterResultDescriptor};

verus! {

/// How the pixels of a raster are placed.
#[derive(Clone, Copy, Debug, PartialEq, Eq)]
pub struct GdalDatasetGeoTransform {
    pub origin_coordinate: Coordinate2D,
    pub x_pixel_size: F64Bits,
    pub y_pixel_size: F64Bits,
}

/// What was found out about a raster by opening it.
#[derive(Clone, Copy, Debug, PartialEq, Eq)]
pub struct DetectedRasterInfo {
    pub data_type: RasterDataType,
    pub geo_transform: GdalDatasetGeoTransform,
    pub width: usize,
    pub height: usize,
}

impl RasterResultDescriptor {
    /// The descriptor describes the collection.
    pub open spec fn describes<F: Fn(&String) -> Option<i64>>(
        self,
        collection: EdrCollectionMetaData,
        info: DetectedRasterInfo,
        parse: F,
    ) -> bool {
        &&& self.data_type == info.data_type
        &&& self.spatial_reference == SpatialReference::Epsg(EPSG_4326)
        &&& collection.extent.temporal is Some
        &&& self.time is Some
        &&& is_interval_of(
            parse,
            collection.extent.temporal->0.interval@[0]@[0],
            collection.extent.temporal->0.interval@[0]@[1],
            self.time->0,
        )
        &&& collection.extent.spatial is Some
        &&& self.bbox == Some(collection.bounding_box().partition())
        &&& self.resolution is None
        &&& self.band_count == 1
    }
}

/// What to do if a file does not exist.
#[derive(Clone, Copy, Debug, PartialEq, Eq)]
pub enum FileNotFoundHandling {
    NoData,
    Error,
}

/// How GDAL loads a raster.
#[derive(Debug, PartialEq, Eq)]
pub struct GdalDatasetParameters {
    pub file_path: String,
    pub rasterband_channel: usize,
    pub geo_transform: GdalDatasetGeoTransform,
    pub width: usize,
    pub height: usize,
    pub file_not_found_handling: FileNotFoundHandling,
    pub no_data_value: Option<F64Bits>,
    pub gdal_open_options: Option<Vec<String>>,
    pub gdal_config_options: Option<Vec<(String, String)>>,
    pub allow_alphaband_as_mask: bool,
}

/// The mathematical content of the parameters. `None` stands for options that are not given.
#[verifier::ext_equal]
pub struct ParametersView {
    pub file_path: Seq<char>,
    pub rasterband_channel: usize,
    pub geo_transform: GdalDatasetGeoTransform,
    pub width: usize,
    pub height: usize,
    pub file_not_found_handling: FileNotFoundHandling,
    pub no_data_value: Option<F64Bits>,
    pub gdal_open_options: Option<Seq<String>>,
    pub gdal_config_options: Option<Seq<(Seq<char>, Seq<char>)>>,
    pub allow_alphaband_as_mask: bool,
}

pub open spec fn options_view(options: Seq<(String, String)>) -> Seq<(Seq<char>, Seq<char>)> {
    Seq::new(options.len(), |i: int| (options[i].0@, options[i].1@))
}

impl View for GdalDatasetParameters {
    type V = ParametersView;

    open spec fn view(&self) -> ParametersView {
        ParametersView {
            file_path: self.file_path@,
            rasterband_channel: self.rasterband_channel,
            geo_transform: self.geo_transform,
            width: self.width,
            height: self.height,
            file_not_found_handling: self.file_not_found_handling,
            no_data_value: self.no_data_value,
            gdal_open_options: match self.gdal_open_options {
                Some(options) => Some(options@),
                None => None,
            },
            gdal_config_options: match self.gdal_config_options {
                Some(options) => Some(options_view(options@)),
                None => None,
            },
            allow_alphaband_as_mask: self.allow_alphaband_as_mask,
        }
    }
}

/// How the rasters of an EDR service are loaded.
pub open spec fn edr_parameters(file_path: Seq<char>, info: DetectedRasterInfo) -> ParametersView {
    ParametersView {
        file_path,
        rasterband_channel: 1,
        geo_transform: info.geo_transform,
        width: info.width,
        height: info.height,
        file_not_found_handling: FileNotFoundHandling::NoData,
        no_data_value: None,
        gdal_open_options: None,
        gdal_config_options: Some(seq![("GTIFF_HONOUR_NEGATIVE_SCALEY"@, "YES"@)]),
        allow_alphaband_as_mask: false,
    }
}

/// A raster that is valid at some time.
#[derive(Debug, PartialEq, Eq)]
pub struct GdalLoadingInfoTemporalSlice {
    pub time: TimeInterval,
    pub params: Option<GdalDatasetParameters>,
    pub cache_ttl: CacheTtlSeconds,
}

/// The mathematical content of a slice.
#[verifier::ext_equal]
pub struct SliceView {
    pub time: TimeInterval,
    pub params: Option<ParametersView>,
    pub cache_ttl: CacheTtlSeconds,
}

impl View for GdalLoadingInfoTemporalSlice {
    type V = SliceView;

    open spec fn view(&self) -> SliceView {
        SliceView {
            time: self.time,
            params: match self.params {
                Some(params) => Some(params@),
                None => None,
            },
            cache_ttl: self.cache_ttl,
        }
    }
}

/// The rasters of a dataset.
#[derive(Debug, PartialEq, Eq)]
pub struct GdalLoadingInfo {
    pub parts: Vec<GdalLoadingInfoTemporalSlice>,
}

impl GdalLoadingInfo {
    /// There are parameters for each slice.
    pub open spec fn wf(self) -> bool {
        forall|i: int| 0 <= i < self.parts@.len() ==> (#[trigger] self.parts@[i]).params is Some
    }
}

/// The point in time at which a slice ends: the start of the next one, and for the last one the end
/// of the whole interval.
pub open spec fn slice_end(temporal: EdrTemporalExtent, i: int) -> String {
    if i + 1 < temporal.values@.len() {
        temporal.values@[i + 1]
    } else {
        temporal.interval@[0]@[1]
    }
}

/// The slice is the raster at a time.
pub open spec fn is_slice(
    slice: SliceView,
    template_url: Seq<char>,
    info: DetectedRasterInfo,
    cache_ttl: CacheTtlSeconds,
) -> bool {
    &&& slice.params == Some(edr_parameters(template_url, info))
    &&& slice.cache_ttl == cache_ttl
}

/// The parts are the rasters of the collection: one for each of its time steps, or one for all times
/// if it does not depend on time.
pub open spec fn are_parts_of<F: Fn(&String) -> Option<i64>>(
    parts: Seq<GdalLoadingInfoTemporalSlice>,
    collection: EdrCollectionMetaData,
    template_url: Seq<char>,
    info: DetectedRasterInfo,
    cache_ttl: CacheTtlSeconds,
    parse: F,
) -> bool {
    &&& forall|i: int|
        0 <= i < parts.len() ==> is_slice((#[trigger] parts[i])@, template_url, info, cache_ttl)
    &&& match collection.extent.temporal {
        Some(temporal) => {
            &&& parts.len() == temporal.values@.len()
            &&& forall|i: int|
                0 <= i < parts.len() ==> is_interval_of(
                    parse,
                    temporal.values@[i],
                    slice_end(temporal, i),
                    (#[trigger] parts[i]).time,
                )
        },
        None => parts.len() == 1 && parts[0].time == (TimeInterval {
            start: MIN_TIME,
            end: MAX_TIME,
        }),
    }
}

impl EdrCollectionMetaData {
    /// The query with which the raster is found out about: the whole region at its first time.
    pub open spec fn is_probe_query<F: Fn(&String) -> Option<i64>>(
        self,
        parse: F,
        query: EdrQuery,
    ) -> bool {
        &&& self.extent.spatial is Some
        &&& self.extent.temporal is Some
        &&& query.lower_left == self.bounding_box().lower_left_coordinate
        &&& query.upper_right == self.bounding_box().upper_right_coordinate
        &&& query.time_interval.start == query.time_interval.end
        &&& exists|end: i64|
            #[trigger] is_interval_of(
                parse,
                self.extent.temporal->0.interval@[0]@[0],
                self.extent.temporal->0.interval@[0]@[1],
                TimeInterval { start: query.time_interval.start, end },
            )
    }

    /// The query with which the raster is found out about.
    pub fn get_probe_query<F: Fn(&String) -> Option<i64>>(&self, parse: &F) -> (query: Result<
        EdrQuery,
        EdrError,
    >)
        requires
            self.has_interval(),
            self.has_bbox(),
            forall|text: &String| call_requires(*parse, (text,)),
        ensures
            match query {
                Ok(query) => self.is_probe_query(*parse, query),
                Err(error) => if self.extent.spatial is None {
                    error == missing_spatial_extent()
                } else {
                    self.extent.temporal is None && error == missing_temporal_extent()
                },
            },
    {
        let bbox = match self.get_bounding_box() {
            Ok(bbox) => bbox,
            Err(error) => {
                return Err(error);
            },
        };
        let interval = match self.get_time_interval(parse) {
            Ok(interval) => interval,
            Err(error) => {
                return Err(error);
            },
        };
        proof {
            let start = interval.start;
            let end = interval.end;
            assert(interval == (TimeInterval { start, end }));
        }
        Ok(
            EdrQuery {
                lower_left: bbox.lower_left_coordinate,
                upper_right: bbox.upper_right_coordinate,
                time_interval: TimeInterval { start: interval.start, end: interval.start },
            },
        )
    }

    /// The address of the raster that is opened to find out about it.
    pub fn get_probe_url<
        P: Fn(&String) -> Option<i64>,
        F: Fn(F64Bits) -> String,
        G: Fn(i64) -> String,
    >(&self, template_url: &str, parse: &P, number_text: &F, datetime_text: &G) -> (url: Result<
        String,
        EdrError,
    >)
        requires
            self.has_interval(),
            self.has_bbox(),
            forall|text: &String| call_requires(*parse, (text,)),
            forall|number: F64Bits| call_requires(*number_text, (number,)),
            forall|time: i64| call_requires(*datetime_text, (time,)),
        ensures
            match url {
                Ok(url) => exists|query: EdrQuery, text: Seq<char>|
                    {
                        &&& #[trigger] self.is_probe_query(*parse, query)
                        &&& #[trigger] is_query_string(query, *number_text, *datetime_text, text)
                        &&& url@ == template_url@ + text
                    },
                Err(error) => if self.extent.spatial is None {
                    error == missing_spatial_extent()
                } else {
                    self.extent.temporal is None && error == missing_temporal_extent()
                },
            },
    {
        match self.get_probe_query(parse) {
            Ok(query) => {
                let query_string = query.as_query_string(number_text, datetime_text);
                Ok(template_url.to_owned().concat(query_string.as_str()))
            },
            Err(error) => Err(error),
        }
    }

    /// What the result of a query to the raster dataset looks like.
    pub fn get_raster_result_descriptor<F: Fn(&String) -> Option<i64>>(
        &self,
        info: &DetectedRasterInfo,
        parse: &F,
    ) -> (descriptor: Result<RasterResultDescriptor, EdrError>)
        requires
            self.has_interval(),
            self.has_bbox(),
            forall|text: &String| call_requires(*parse, (text,)),
        ensures
            match descriptor {
                Ok(descriptor) => descriptor.describes(*self, *info, *parse),
                Err(error) => if self.extent.spatial is None {
                    error == missing_spatial_extent()
                } else {
                    self.extent.temporal is None && error == missing_temporal_extent()
                },
            },
    {
        let bbox = match self.get_bounding_box() {
            Ok(bbox) => bbox,
            Err(error) => {
                return Err(error);
            },
        };
        let time = match self.get_time_interval(parse) {
            Ok(time) => time,
            Err(error) => {
                return Err(error);
            },
        };
        Ok(
            RasterResultDescriptor {
                data_type: info.data_type,
                spatial_reference: SpatialReference::Epsg(EPSG_4326),
                time: Some(time),
                bbox: Some(bbox.as_partition()),
                resolution: None,
                band_count: 1,
            },
        )
    }

    /// The raster at a time.
    pub fn get_gdal_loading_info_temporal_slice(
        template_url: &str,
        data_time: TimeInterval,
        info: &DetectedRasterInfo,
        cache_ttl: CacheTtlSeconds,
    ) -> (slice: GdalLoadingInfoTemporalSlice)
        ensures
            is_slice(slice@, template_url@, *info, cache_ttl),
            slice.time == data_time,
    {
        let mut options: Vec<(String, String)> = Vec::new();
        options.push(("GTIFF_HONOUR_NEGATIVE_SCALEY".to_owned(), "YES".to_owned()));
        assert(options_view(options@) =~= seq![("GTIFF_HONOUR_NEGATIVE_SCALEY"@, "YES"@)]);
        GdalLoadingInfoTemporalSlice {
            time: data_time,
            params: Some(
                GdalDatasetParameters {
                    file_path: template_url.to_owned(),
                    rasterband_channel: 1,
                    geo_transform: info.geo_transform,
                    width: info.width,
                    height: info.height,
                    file_not_found_handling: FileNotFoundHandling::NoData,
                    no_data_value: None,
                    gdal_open_options: None,
                    gdal_config_options: Some(options),
                    allow_alphaband_as_mask: false,
                },
            ),
            cache_ttl,
        }
    }

    /// The rasters of the collection. Each time step lasts until the next one.
    pub fn get_gdal_source_ds<F: Fn(&String) -> Option<i64>>(
        &self,
        template_url: &str,
        info: &DetectedRasterInfo,
        cache_ttl: CacheTtlSeconds,
        parse: &F,
    ) -> (loading_info: Result<GdalLoadingInfo, EdrError>)
        requires
            self.has_interval(),
            forall|text: &String| call_requires(*parse, (text,)),
        ensures
            match loading_info {
                Ok(loading_info) => {
                    &&& are_parts_of(
                        loading_info.parts@,
                        *self,
                        template_url@,
                        *info,
                        cache_ttl,
                        *parse,
                    )
                    &&& loading_info.parts@.len() > 0
                    &&& loading_info.wf()
                },
                Err(error) => {
                    &&& self.extent.temporal matches Some(temporal) && temporal.values@.len() == 0
                    &&& error == (EdrError::InvalidNumberOfTimeSteps { expected: 1, found: 0 })
                },
            },
    {
        let mut parts: Vec<GdalLoadingInfoTemporalSlice> = Vec::new();
        match &self.extent.temporal {
            Some(temporal) => {
                if temporal.values.len() == 0 {
                    return Err(EdrError::InvalidNumberOfTimeSteps { expected: 1, found: 0 });
                }
                let mut i: usize = 0;
                while i < temporal.values.len()
                    invariant
                        i <= temporal.values@.len(),
                        temporal.interval@.len() > 0,
                        temporal.interval@[0]@.len() >= 2,
                        forall|text: &String| call_requires(*parse, (text,)),
                        parts@.len() == i,
                        forall|j: int|
                            0 <= j < i ==> is_slice(
                                (#[trigger] parts@[j])@,
                                template_url@,
                                *info,
                                cache_ttl,
                            ) && is_interval_of(
                                *parse,
                                temporal.values@[j],
                                slice_end(*temporal, j),
                                parts@[j].time,
                            ),
                    decreases temporal.values@.len() - i,
                {
                    let end = if i + 1 < temporal.values.len() {
                        &temporal.values[i + 1]
                    } else {
                        &temporal.interval[0][1]
                    };
                    let time = time_interval_from_strings(&temporal.values[i], end, parse);
                    parts.push(
                        Self::get_gdal_loading_info_temporal_slice(
                            template_url,
                            time,
                            info,
                            cache_ttl,
                        ),
                    );
                    i += 1;
                }
            },
            None => {
                parts.push(
                    Self::get_gdal_loading_info_temporal_slice(
                        template_url,
                        TimeInterval { start: MIN_TIME, end: MAX_TIME },
                        info,
                        cache_ttl,
                    ),
                );
            },
        }
        proof {
            assert forall|i: int| 0 <= i < parts@.len() implies (
            #[trigger] parts@[i]).params is Some by {
                assert(is_slice(parts@[i]@, template_url@, *info, cache_ttl));
            }
        }
        Ok(GdalLoadingInfo { parts })
    }

    /// The metadata of a raster dataset, once the raster was found out about.
    pub fn get_gdal_metadata<F: Fn(&String) -> Option<i64>>(
        &self,
        template_url: String,
        info: &DetectedRasterInfo,
        cache_ttl: CacheTtlSeconds,
        parse: &F,
    ) -> (meta_data: Result<EdrMetaData<GdalLoadingInfo, RasterResultDescriptor>, EdrError>)
        requires
            self.has_interval(),
            self.has_bbox(),
            forall|text: &String| call_requires(*parse, (text,)),
        ensures
            match meta_data {
                Ok(meta_data) => {
                    &&& are_parts_of(
                        meta_data.loading_info.parts@,
                        *self,
                        template_url@,
                        *info,
                        cache_ttl,
                        *parse,
                    )
                    &&& meta_data.loading_info.parts@.len() > 0
                    &&& meta_data.loading_info.wf()
                    &&& meta_data.result_descriptor.describes(*self, *info, *parse)
                    &&& meta_data.template_url == template_url
                },
                Err(error) => match self.extent.temporal {
                    Some(temporal) => if temporal.values@.len() == 0 {
                        error == (EdrError::InvalidNumberOfTimeSteps { expected: 1, found: 0 })
                    } else {
                        self.extent.spatial is None && error == missing_spatial_extent()
                    },
                    None => error == if self.extent.spatial is None {
                        missing_spatial_extent()
                    } else {
                        missing_temporal_extent()
                    },
                },
            },
    {
        let loading_info = match self.get_gdal_source_ds(
            template_url.as_str(),
            info,
            cache_ttl,
            parse,
        ) {
            Ok(loading_info) => loading_info,
            Err(error) => {
                return Err(error);
            },
        };
        match self.get_raster_result_descriptor(info, parse) {
            Ok(result_descriptor) => Ok(
                EdrMetaData { loading_info, result_descriptor, template_url },
            ),
            Err(error) => Err(error),
        }
    }
}

/// The slices that are kept, with the address from which they are loaded.
pub open spec fn selected_slices(
    slices: Seq<SliceView>,
    keep: Seq<bool>,
    url: Seq<char>,
) -> Seq<SliceView>
    decreases slices.len(),
{
    if slices.len() == 0 {
        Seq::empty()
    } else {
        let before = selected_slices(slices.drop_last(), keep.drop_last(), url);
        if keep.last() {
            before.push(slices.last().with_file_path(url))
        } else {
            before
        }
    }
}

impl SliceView {
    /// The slice, loaded from another address.
    pub open spec fn with_file_path(self, file_path: Seq<char>) -> SliceView {
        SliceView { params: Some(ParametersView { file_path, ..self.params->0 }), ..self }
    }

    /// The slice, with the raster that was found at its address.
    pub open spec fn with_raster_info(self, info: DetectedRasterInfo) -> SliceView {
        SliceView {
            params: Some(
                ParametersView {
                    geo_transform: info.geo_transform,
                    width: info.width,
                    height: info.height,
                    ..self.params->0
                },
            ),
            ..self
        }
    }
}

pub open spec fn slices_view(slices: Seq<GdalLoadingInfoTemporalSlice>) -> Seq<SliceView> {
    Seq::new(slices.len(), |i: int| slices[i]@)
}

/// What `intersects` says of each slice and the time of a query.
pub open spec fn are_decisions<I: Fn(TimeInterval, TimeInterval) -> bool>(
    intersects: I,
    slices: Seq<SliceView>,
    time: TimeInterval,
    keep: Seq<bool>,
) -> bool {
    &&& keep.len() == slices.len()
    &&& forall|i: int|
        0 <= i < keep.len() ==> call_ensures(
            intersects,
            ((#[trigger] slices[i]).time, time),
            keep[i],
        )
}

/// The slices are those which a query selects. All of them are loaded from the address that the query
/// makes of the template.
pub open spec fn are_selected_by<
    I: Fn(TimeInterval, TimeInterval) -> bool,
    F: Fn(F64Bits) -> String,
    G: Fn(i64) -> String,
>(
    selected: Seq<SliceView>,
    slices: Seq<SliceView>,
    template_url: Seq<char>,
    query: EdrQuery,
    intersects: I,
    number_text: F,
    datetime_text: G,
) -> bool {
    exists|keep: Seq<bool>, text: Seq<char>|
        {
            &&& #[trigger] are_decisions(intersects, slices, query.time_interval, keep)
            &&& #[trigger] is_query_string(query, number_text, datetime_text, text)
            &&& selected == selected_slices(slices, keep, template_url + text)
        }
}

impl GdalDatasetParameters {
    /// The same parameters, with another address.
    pub fn with_file_path(&self, file_path: &str) -> (params: Self)
        ensures
            params@ == (ParametersView { file_path: file_path@, ..self@ }),
    {
        let gdal_open_options = match &self.gdal_open_options {
            Some(options) => Some(clone_list(options)),
            None => None,
        };
        let gdal_config_options = match &self.gdal_config_options {
            Some(options) => Some(clone_options(options)),
            None => None,
        };
        GdalDatasetParameters {
            file_path: file_path.to_owned(),
            rasterband_channel: self.rasterband_channel,
            geo_transform: self.geo_transform,
            width: self.width,
            height: self.height,
            file_not_found_handling: self.file_not_found_handling,
            no_data_value: self.no_data_value,
            gdal_open_options,
            gdal_config_options,
            allow_alphaband_as_mask: self.allow_alphaband_as_mask,
        }
    }
}

fn clone_options(options: &Vec<(String, String)>) -> (copy: Vec<(String, String)>)
    ensures
        options_view(copy@) == options_view(options@),
{
    let mut copy: Vec<(String, String)> = Vec::new();
    let mut i: usize = 0;
    while i < options.len()
        invariant
            i <= options@.len(),
            copy@ =~= options@.take(i as int),
        decreases options@.len() - i,
    {
        copy.push((options[i].0.clone(), options[i].1.clone()));
        i += 1;
    }
    assert(options@.take(i as int) =~= options@);
    copy
}

impl GdalLoadingInfo {
    /// The slices that a query selects, by the `intersects` of their times. They are loaded from the
    /// address that the query makes of the template, but what is known of the raster there is still that
    /// of the whole dataset.
    pub fn with_new_query<
        I: Fn(TimeInterval, TimeInterval) -> bool,
        F: Fn(F64Bits) -> String,
        G: Fn(i64) -> String,
    >(
        &self,
        template_url: &str,
        query: &EdrQuery,
        intersects: &I,
        number_text: &F,
        datetime_text: &G,
    ) -> (loading_info: Self)
        requires
            self.wf(),
            forall|time: TimeInterval, other: TimeInterval|
                call_requires(*intersects, (time, other)),
            forall|number: F64Bits| call_requires(*number_text, (number,)),
            forall|time: i64| call_requires(*datetime_text, (time,)),
        ensures
            loading_info.wf(),
            are_selected_by(
                slices_view(loading_info.parts@),
                slices_view(self.parts@),
                template_url@,
                *query,
                *intersects,
                *number_text,
                *datetime_text,
            ),
    {
        let query_time = query.get_time_interval();
        let query_string = query.as_query_string(number_text, datetime_text);
        let url = template_url.to_owned().concat(query_string.as_str());
        let mut parts: Vec<GdalLoadingInfoTemporalSlice> = Vec::new();
        let ghost mut keep: Seq<bool> = Seq::empty();
        let ghost all = slices_view(self.parts@);
        let mut i: usize = 0;
        assert(slices_view(parts@) =~= Seq::empty());
        while i < self.parts.len()
            invariant
                i <= self.parts@.len(),
                self.wf(),
                all == slices_view(self.parts@),
                forall|time: TimeInterval, other: TimeInterval|
                    call_requires(*intersects, (time, other)),
                are_decisions(*intersects, all.take(i as int), query_time, keep),
                slices_view(parts@) == selected_slices(all.take(i as int), keep, url@),
                forall|j: int| 0 <= j < parts@.len() ==> (#[trigger] parts@[j]).params is Some,
            decreases self.parts@.len() - i,
        {
            let slice = &self.parts[i];
            let ghost before = slices_view(parts@);
            let ghost decided = keep;
            let kept = intersects(slice.time, query_time);
            proof {
                keep = keep.push(kept);
                let seen = all.take(i as int);
                let more = all.take(i + 1);
                assert(more.drop_last() =~= seen);
                assert(keep.drop_last() =~= decided);
                assert forall|j: int| 0 <= j < keep.len() implies call_ensures(
                    *intersects,
                    ((#[trigger] more[j]).time, query_time),
                    keep[j],
                ) by {
                    if j < i {
                        assert(more[j] == seen[j]);
                    }
                }
            }
            if kept {
                match &slice.params {
                    Some(params) => {
                        parts.push(
                            GdalLoadingInfoTemporalSlice {
                                time: slice.time,
                                params: Some(params.with_file_path(url.as_str())),
                                cache_ttl: slice.cache_ttl,
                            },
                        );
                    },
                    None => {},
                }
                assert(slices_view(parts@) =~= before.push(
                    all[i as int].with_file_path(url@),
                ));
            }
            i += 1;
        }
        assert(all.take(i as int) =~= all);
        GdalLoadingInfo { parts }
    }

    /// The address that has to be opened to find out about the rasters, if there are any.
    pub fn raster_url(&self) -> (url: Option<&String>)
        requires
            self.wf(),
        ensures
            url == if self.parts@.len() > 0 {
                Some(&self.parts@[0].params->0.file_path)
            } else {
                None
            },
    {
        if self.parts.len() > 0 {
            match &self.parts[0].params {
                Some(params) => Some(&params.file_path),
                None => None,
            }
        } else {
            None
        }
    }

    /// The slices with the raster that was found at their address.
    pub fn with_raster_info(self, info: &DetectedRasterInfo) -> (loading_info: Self)
        requires
            self.wf(),
        ensures
            loading_info.wf(),
            slices_view(loading_info.parts@) == slices_view(self.parts@).map_values(
                |slice: SliceView| slice.with_raster_info(*info),
            ),
    {
        let mut parts: Vec<GdalLoadingInfoTemporalSlice> = Vec::new();
        let mut i: usize = 0;
        while i < self.parts.len()
            invariant
                i <= self.parts@.len(),
                self.wf(),
                parts@.len() == i,
                forall|j: int|
                    0 <= j < i ==> (#[trigger] parts@[j])@ == self.parts@[j]@.with_raster_info(
                        *info,
                    ),
                forall|j: int| 0 <= j < parts@.len() ==> (#[trigger] parts@[j]).params is Some,
            decreases self.parts@.len() - i,
        {
            let slice = &self.parts[i];
            match &slice.params {
                Some(params) => {
                    let mut params = params.with_file_path(params.file_path.as_str());
                    params.geo_transform = info.geo_transform;
                    params.width = info.width;
                    params.height = info.height;
                    parts.push(
                        GdalLoadingInfoTemporalSlice {
                            time: slice.time,
                            params: Some(params),
                            cache_ttl: slice.cache_ttl,
                        },
                    );
                },
                None => {},
            }
            i += 1;
        }
        GdalLoadingInfo { parts }
    }
}

} // verus!
