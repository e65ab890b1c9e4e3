use geoengine::edr::address::{collection_address, collections_address, get_collection_path};
use geoengine::edr::error::{EdrError, EdrProviderError};
use geoengine::edr::id::EdrCollectionId;
use geoengine::edr::listing::EdrCollectionsMetaData;
use geoengine::edr::metadata::{
    is_filetype_raster, EdrCollectionMetaData, EdrExtents, EdrParameter, EdrQueryEndpoint,
    EdrQueryEndpointLink, EdrQueryEndpointVariables, EdrQueryEndpoints, EdrSpatialExtent,
    EdrSymbol, EdrTemporalExtent, EdrUnit, EdrVerticalExtent, EndpointKind, ObservedProperty,
};
use geoengine::edr::provider::{
    DataId, EdrDataProvider, EdrDataProviderDefinition, Provenance, ProvenanceOutput,
    ProviderCapabilities, SearchCapabilities,
};
use geoengine::edr::query::EdrQuery;
use geoengine::edr::raster::{
    DetectedRasterInfo, FileNotFoundHandling, GdalDatasetGeoTransform, GdalDatasetParameters,
    GdalLoadingInfoTemporalSlice,
};
use geoengine::edr::request::{CollectionRequest, NamedData, SourceOperator};
use geoengine::edr::vector::{
    CacheTtlSeconds, EdrVectorSpec, FeatureDataType, Measurement, OgrSourceColumnSpec,
    OgrSourceDataset, OgrSourceDatasetTimeType, OgrSourceDurationSpec, OgrSourceErrorSpec,
    OgrSourceTimeFormat, VectorColumnInfo, VectorDataType,
};
use geoengine::layers::layer::{
    CollectionItem, DataProviderId, Layer, LayerCollection, LayerCollectionId,
    LayerCollectionListOptions, LayerCollectionListing, LayerId, LayerListing,
    ProviderLayerCollectionId, ProviderLayerId,
};
use geoengine::primitives::{
    BoundingBox2D, Coordinate2D, F64Bits, SpatialPartition2D, SpatialReference, TimeInterval,
    EPSG_4326, MAX_TIME, MIN_TIME,
};
use geoengine::raster::{RasterDataType, RasterResultDescriptor};
use geoengine::util::string_map::StringMap;

const DEMO_PROVIDER_ID: DataProviderId =
    DataProviderId(0xdc2d_dc34_b0d9_4ee0_bf3e_414f_01a8_05ad);

const BASE_URL: &str = "http://localhost:8080/";

fn provider() -> EdrDataProvider {
    EdrDataProviderDefinition {
        name: "EDR".to_string(),
        description: "Environmental Data Retrieval".to_string(),
        priority: None,
        id: DEMO_PROVIDER_ID,
        base_url: BASE_URL.to_string(),
        vector_spec: Some(EdrVectorSpec {
            x: "geometry".to_string(),
            y: None,
            start_time: Some("time".to_string()),
            end_time: None,
        }),
        cache_ttl: CacheTtlSeconds(0),
        discrete_vrs: vec!["between-depth".to_string()],
        provenance: None,
    }
    .initialize()
}

fn number(value: f64) -> F64Bits {
    F64Bits {
        bits: value.to_bits(),
    }
}

fn coordinate(x: f64, y: f64) -> Coordinate2D {
    Coordinate2D {
        x: number(x),
        y: number(y),
    }
}

fn number_text(number: F64Bits) -> String {
    f64::from_bits(number.bits).to_string()
}

fn datetime_text(time: i64) -> String {
    chrono::DateTime::from_timestamp_millis(time)
        .unwrap()
        .to_rfc3339()
}

fn parse(text: &String) -> Option<i64> {
    chrono::DateTime::parse_from_rfc3339(text)
        .ok()
        .map(|time| time.timestamp_millis())
}

fn intersects(a: TimeInterval, b: TimeInterval) -> bool {
    a == b || a.start < b.end && b.start < a.end
}

fn texts(texts: &[&str]) -> Vec<String> {
    texts.iter().map(|text| text.to_string()).collect()
}

fn collection_meta(id: &str, title: Option<&str>, format: &str) -> EdrCollectionMetaData {
    EdrCollectionMetaData {
        id: id.to_string(),
        title: title.map(str::to_string),
        description: None,
        extent: EdrExtents {
            spatial: Some(EdrSpatialExtent {
                bbox: vec![vec![
                    number(-180.),
                    number(-90.),
                    number(180.),
                    number(90.),
                ]],
            }),
            vertical: None,
            temporal: None,
        },
        parameter_names: StringMap::new(),
        output_formats: Some(texts(&["CSV", format])),
        data_queries: None,
    }
}

fn parameter(data_type: Option<&str>, label: &str, unit: Option<EdrSymbol>) -> EdrParameter {
    EdrParameter {
        data_type: data_type.map(str::to_string),
        unit: unit.map(|symbol| EdrUnit { symbol }),
        observed_property: ObservedProperty {
            label: label.to_string(),
        },
    }
}

fn vertical(values: &[&str], vrs: &str) -> Option<EdrVerticalExtent> {
    Some(EdrVerticalExtent {
        values: texts(values),
        vrs: vrs.to_string(),
    })
}

fn gfs_single_level() -> EdrCollectionMetaData {
    let mut collection =
        collection_meta("GFS_single-level", Some("GFS - Single Level"), "GeoTIFF");
    collection
        .parameter_names
        .insert("temperature_max-wind".to_string(), parameter(None, "temperature", None));
    collection
}

fn gfs_isobaric() -> EdrCollectionMetaData {
    let mut collection = collection_meta("GFS_isobaric", Some("GFS - Isobaric level"), "GeoTIFF");
    collection.extent = EdrExtents {
        spatial: Some(EdrSpatialExtent {
            bbox: vec![vec![
                number(0.),
                number(-90.),
                number(359.500_000_000_000_06),
                number(90.),
            ]],
        }),
        vertical: vertical(&["0.01", "1000"], "isobaric"),
        temporal: Some(EdrTemporalExtent {
            interval: vec![texts(&["2023-08-16T00:00:00Z", "2023-08-20T03:00:00Z"])],
            values: texts(&["2023-08-16T00:00:00Z", "2023-08-16T03:00:00Z"]),
        }),
    };
    collection
        .parameter_names
        .insert("temperature".to_string(), parameter(None, "temperature", None));
    collection
}

fn gfs_between_depth() -> EdrCollectionMetaData {
    let mut collection = collection_meta(
        "GFS_between-depth",
        Some("GFS - Layer between two depths below land surface"),
        "GeoTIFF_float",
    );
    collection.extent.vertical = vertical(&["0/10", "10/40"], "between-depth");
    collection
}

fn points_in_germany() -> EdrCollectionMetaData {
    let mut collection = collection_meta("PointsInGermany", None, "GeoJSON");
    collection.extent.temporal = Some(EdrTemporalExtent {
        interval: vec![texts(&["2023-01-01T12:42:29Z", "2023-02-01T12:42:29Z"])],
        values: texts(&["2023-01-01T12:42:29Z"]),
    });
    collection
        .parameter_names
        .insert("ID".to_string(), parameter(Some("integer"), "ID", None));
    collection
}

fn points_in_france() -> EdrCollectionMetaData {
    let mut collection = collection_meta("PointsInFrance", None, "GeoJSON");
    collection.extent.vertical = vertical(&["0\\10cm", "10\\40cm"], "between-depth");
    collection
}

fn all_collections() -> EdrCollectionsMetaData {
    let mut without_extent =
        collection_meta("GFS_single-level_50", Some("GFS - Single Level 50"), "GeoTIFF");
    without_extent.extent.spatial = None;
    EdrCollectionsMetaData {
        collections: vec![
            gfs_single_level(),
            without_extent,
            gfs_isobaric(),
            gfs_between_depth(),
            points_in_germany(),
            points_in_france(),
        ],
    }
}

fn collection_by_name(name: &str) -> EdrCollectionMetaData {
    all_collections()
        .collections
        .into_iter()
        .find(|collection| collection.id == name)
        .unwrap()
}

fn load_layer_collection(collection_id: &LayerCollectionId) -> Result<LayerCollection, EdrError> {
    let provider = provider();
    let options = LayerCollectionListOptions {
        offset: 0,
        limit: 20,
    };
    match provider.request_layer_collection(collection_id)? {
        CollectionRequest::Collections { address } => {
            assert_eq!(address, format!("{BASE_URL}collections?f=json"));
            provider.get_root_collection(collection_id, &all_collections(), &options)
        }
        CollectionRequest::Collection { id, address } => {
            let name = id.get_collection_id()?.clone();
            assert_eq!(address, format!("{BASE_URL}collections/{name}?f=json"));
            provider.list_layer_collection(
                collection_id,
                &id,
                &collection_by_name(&name),
                &options,
            )
        }
    }
}

fn collection_item(id: &str, name: &str) -> CollectionItem {
    CollectionItem::Collection(LayerCollectionListing {
        id: ProviderLayerCollectionId {
            provider_id: DEMO_PROVIDER_ID,
            collection_id: LayerCollectionId(id.to_string()),
        },
        name: name.to_string(),
        description: String::new(),
        properties: vec![],
    })
}

fn layer_item(id: &str, name: &str) -> CollectionItem {
    CollectionItem::Layer(LayerListing {
        id: ProviderLayerId {
            provider_id: DEMO_PROVIDER_ID,
            layer_id: LayerId(id.to_string()),
        },
        name: name.to_string(),
        description: String::new(),
        properties: vec![],
    })
}

#[test]
fn it_loads_root_collection() {
    let root_collection_id = LayerCollectionId("collections".to_string());
    let datasets = load_layer_collection(&root_collection_id).unwrap();

    assert_eq!(
        datasets,
        LayerCollection {
            id: ProviderLayerCollectionId {
                provider_id: DEMO_PROVIDER_ID,
                collection_id: root_collection_id
            },
            name: "EDR".to_owned(),
            description: "Environmental Data Retrieval".to_owned(),
            items: vec![
                // Note: The dataset GFS_single-level_50 gets filtered out because there is no extent set.
                // This means that it contains no data.
                collection_item("collections!GFS_single-level", "GFS - Single Level"),
                collection_item("collections!GFS_isobaric", "GFS - Isobaric level"),
                collection_item(
                    "collections!GFS_between-depth",
                    "GFS - Layer between two depths below land surface"
                ),
                layer_item("collections!PointsInGermany", "PointsInGermany"),
                collection_item("collections!PointsInFrance", "PointsInFrance"),
            ],
            entry_label: None,
            properties: vec![]
        }
    );
}

#[test]
fn it_loads_raster_parameter_collection() {
    let collection_id = LayerCollectionId("collections!GFS_isobaric".to_string());
    let datasets = load_layer_collection(&collection_id).unwrap();

    assert_eq!(
        datasets,
        LayerCollection {
            id: ProviderLayerCollectionId {
                provider_id: DEMO_PROVIDER_ID,
                collection_id
            },
            name: "GFS_isobaric".to_owned(),
            description: "Parameters of GFS_isobaric".to_owned(),
            items: vec![collection_item(
                "collections!GFS_isobaric!temperature",
                "temperature"
            )],
            entry_label: None,
            properties: vec![]
        }
    );
}

#[test]
fn it_loads_vector_height_collection() {
    let collection_id = LayerCollectionId("collections!PointsInFrance".to_string());
    let datasets = load_layer_collection(&collection_id).unwrap();

    assert_eq!(
        datasets,
        LayerCollection {
            id: ProviderLayerCollectionId {
                provider_id: DEMO_PROVIDER_ID,
                collection_id
            },
            name: "PointsInFrance".to_owned(),
            description: "Height selection of PointsInFrance".to_owned(),
            items: vec![
                layer_item("collections!PointsInFrance!0\\10cm", "0\\10cm"),
                layer_item("collections!PointsInFrance!10\\40cm", "10\\40cm"),
            ],
            entry_label: None,
            properties: vec![]
        }
    );
}

#[test]
fn vector_without_height_collection_invalid() {
    let collection_id = LayerCollectionId("collections!PointsInGermany".to_string());
    let res = load_layer_collection(&collection_id);

    assert!(res.is_err());
    assert_eq!(res, Err(EdrError::InvalidLayerCollectionId));
}

#[test]
fn it_loads_raster_height_collection() {
    let collection_id = LayerCollectionId("collections!GFS_isobaric!temperature".to_string());
    let datasets = load_layer_collection(&collection_id).unwrap();

    assert_eq!(
        datasets,
        LayerCollection {
            id: ProviderLayerCollectionId {
                provider_id: DEMO_PROVIDER_ID,
                collection_id
            },
            name: "GFS_isobaric".to_owned(),
            description: "Height selection of GFS_isobaric".to_owned(),
            items: vec![
                layer_item("collections!GFS_isobaric!temperature!0.01", "0.01"),
                layer_item("collections!GFS_isobaric!temperature!1000", "1000"),
            ],
            entry_label: None,
            properties: vec![]
        }
    );
}

#[test]
fn vector_with_parameter_collection_invalid() {
    let collection_id = LayerCollectionId("collections!PointsInGermany!ID".to_string());
    let res = load_layer_collection(&collection_id);

    assert!(res.is_err());
}

#[test]
fn raster_with_parameter_without_height_collection_invalid() {
    let collection_id =
        LayerCollectionId("collections!GFS_single-level!temperature_max-wind".to_string());
    let res = load_layer_collection(&collection_id);

    assert!(res.is_err());
}

#[test]
fn collection_with_parameter_and_height_invalid() {
    let collection_id = LayerCollectionId("collections!GFS_isobaric!temperature!1000".to_string());
    let res = load_layer_collection(&collection_id);

    assert!(res.is_err());
}

fn data_id(layer_id: &str) -> DataId {
    DataId::External {
        provider_id: DEMO_PROVIDER_ID,
        layer_id: LayerId(layer_id.to_string()),
    }
}

#[test]
fn generate_ogr_metadata() {
    let provider = provider();
    let request = provider
        .request_vector_dataset(&data_id("collections!PointsInGermany"))
        .unwrap();
    assert_eq!(
        request.address,
        format!("{BASE_URL}collections/PointsInGermany?f=json")
    );
    let collection = points_in_germany();
    let probe = provider
        .probe_vector_dataset(&request.id, &collection)
        .unwrap();
    assert_eq!(
        probe.items_url,
        format!("/vsicurl_streaming/{BASE_URL}collections/PointsInGermany/items?f=GeoJSON&limit=1")
    );
    let meta = provider
        .get_vector_meta_data(&collection, probe, VectorDataType::MultiPoint, &parse)
        .unwrap();

    let loading_info = meta.loading_info.with_new_query(
        &meta.template_url,
        &EdrQuery {
            lower_left: coordinate(-180., -90.),
            upper_right: coordinate(180., 90.),
            time_interval: TimeInterval {
                start: MIN_TIME,
                end: MAX_TIME,
            },
        },
        &number_text,
        &datetime_text,
    );
    assert_eq!(
        loading_info,
        OgrSourceDataset {
            file_name: format!("/vsicurl_streaming/{BASE_URL}collections/PointsInGermany/cube?f=GeoJSON&bbox=-180,-90,180,90&datetime=-262143-01-01T00:00:00%2B00:00%2F%2B262142-12-31T23:59:59.999%2B00:00"),
            layer_name: "cube?f=GeoJSON&bbox=-180,-90,180,90&datetime=-262143-01-01T00:00:00%2B00:00%2F%2B262142-12-31T23:59:59".to_string(),
            data_type: Some(VectorDataType::MultiPoint),
            time: OgrSourceDatasetTimeType::Start {
                start_field: "time".to_string(),
                start_format: OgrSourceTimeFormat::Auto,
                duration: OgrSourceDurationSpec::Zero,
            },
            columns: Some(OgrSourceColumnSpec {
                x: "geometry".to_string(),
                y: None,
                int_columns: vec!["ID".to_string()],
                float_columns: vec![],
                text_columns: vec![],
                bool_columns: vec![],
                datetime_columns: vec![],
            }),
            force_ogr_time_filter: false,
            force_ogr_spatial_filter: false,
            on_error: OgrSourceErrorSpec::Abort,
            sql_query: None,
            attribute_query: None,
            cache_ttl: CacheTtlSeconds(0),
        }
    );

    let result_descriptor = meta.result_descriptor;
    assert_eq!(
        result_descriptor.spatial_reference,
        SpatialReference::Epsg(EPSG_4326)
    );
    assert_eq!(result_descriptor.data_type, VectorDataType::MultiPoint);
    assert_eq!(result_descriptor.columns.len(), 1);
    assert_eq!(
        result_descriptor.columns.get("ID"),
        Some(&VectorColumnInfo {
            data_type: FeatureDataType::Int,
            measurement: Measurement::Continuous {
                measurement: "ID".to_string(),
                unit: None,
            },
        })
    );
    assert_eq!(
        result_descriptor.time,
        Some(TimeInterval {
            start: 1_672_576_949_000,
            end: 1_675_255_349_000,
        })
    );
    assert_eq!(
        result_descriptor.bbox,
        Some(BoundingBox2D {
            lower_left_coordinate: coordinate(-180., -90.),
            upper_right_coordinate: coordinate(180., 90.),
        })
    );
}

fn raster_info(width: usize) -> DetectedRasterInfo {
    DetectedRasterInfo {
        data_type: RasterDataType::U8,
        geo_transform: GdalDatasetGeoTransform {
            origin_coordinate: coordinate(0., -90.),
            x_pixel_size: number(0.499_305_555_555_555_6),
            y_pixel_size: number(0.498_614_958_448_753_5),
        },
        width,
        height: 361,
    }
}

fn raster_slice(start: i64, end: i64, file_path: &str) -> GdalLoadingInfoTemporalSlice {
    GdalLoadingInfoTemporalSlice {
        time: TimeInterval { start, end },
        params: Some(GdalDatasetParameters {
            file_path: file_path.to_string(),
            rasterband_channel: 1,
            geo_transform: GdalDatasetGeoTransform {
                origin_coordinate: coordinate(0., -90.),
                x_pixel_size: number(0.499_305_555_555_555_6),
                y_pixel_size: number(0.498_614_958_448_753_5),
            },
            width: 720,
            height: 361,
            file_not_found_handling: FileNotFoundHandling::NoData,
            no_data_value: None,
            gdal_open_options: None,
            gdal_config_options: Some(vec![(
                "GTIFF_HONOUR_NEGATIVE_SCALEY".to_string(),
                "YES".to_string(),
            )]),
            allow_alphaband_as_mask: false,
        }),
        cache_ttl: CacheTtlSeconds(0),
    }
}

#[test]
fn generate_gdal_metadata() {
    let provider = provider();
    let request = provider
        .request_dataset(&data_id("collections!GFS_isobaric!temperature!1000"))
        .unwrap();
    assert_eq!(
        request.address,
        format!("{BASE_URL}collections/GFS_isobaric?f=json")
    );
    let collection = gfs_isobaric();
    let template_url = provider
        .get_raster_template(&request.id, &collection)
        .unwrap();
    assert_eq!(
        collection
            .get_probe_url(&template_url, &parse, &number_text, &datetime_text)
            .unwrap(),
        format!("/vsicurl_streaming/{BASE_URL}collections/GFS_isobaric/cube?f=GeoTIFF&parameter-name=temperature&z=1000%2F1000&bbox=0,-90,359.50000000000006,90&datetime=2023-08-16T00:00:00%2B00:00%2F2023-08-16T00:00:00%2B00:00")
    );
    let meta = provider
        .get_raster_meta_data(&collection, template_url, &raster_info(1), &parse)
        .unwrap();

    let url = format!("/vsicurl_streaming/{BASE_URL}collections/GFS_isobaric/cube?f=GeoTIFF&parameter-name=temperature&z=1000%2F1000&bbox=0,-90,360,90&datetime=2023-08-16T00:00:00%2B00:00%2F2023-08-20T03:00:00%2B00:00");
    let loading_info = meta.loading_info.with_new_query(
        &meta.template_url,
        &EdrQuery {
            lower_left: coordinate(0., -90.),
            upper_right: coordinate(360., 90.),
            time_interval: TimeInterval {
                start: 1_692_144_000_000,
                end: 1_692_500_400_000,
            },
        },
        &intersects,
        &number_text,
        &datetime_text,
    );
    assert_eq!(loading_info.raster_url(), Some(&url));
    let loading_info = loading_info.with_raster_info(&raster_info(720));
    assert_eq!(
        loading_info.parts,
        vec![
            raster_slice(1_692_144_000_000, 1_692_154_800_000, &url),
            raster_slice(1_692_154_800_000, 1_692_500_400_000, &url),
        ]
    );

    assert_eq!(
        meta.result_descriptor,
        RasterResultDescriptor {
            data_type: RasterDataType::U8,
            spatial_reference: SpatialReference::Epsg(EPSG_4326),
            time: Some(TimeInterval {
                start: 1_692_144_000_000,
                end: 1_692_500_400_000,
            }),
            bbox: Some(SpatialPartition2D {
                upper_left_coordinate: coordinate(0., 90.),
                lower_right_coordinate: coordinate(359.500_000_000_000_06, -90.),
            }),
            resolution: None,
            band_count: 1,
        }
    );
}

#[test]
fn a_query_selects_the_rasters_of_its_time() {
    let provider = provider();
    let collection = gfs_isobaric();
    let meta = provider
        .get_raster_meta_data(
            &collection,
            "template".to_string(),
            &raster_info(720),
            &parse,
        )
        .unwrap();
    assert_eq!(meta.loading_info.parts.len(), 2);
    let select = |start: i64, end: i64| {
        meta.loading_info.with_new_query(
            &meta.template_url,
            &EdrQuery {
                lower_left: coordinate(0., 0.),
                upper_right: coordinate(1.5, 1.),
                time_interval: TimeInterval { start, end },
            },
            &intersects,
            &number_text,
            &datetime_text,
        )
    };
    let first = select(1_692_144_000_000, 1_692_144_001_000);
    assert_eq!(
        first.parts,
        vec![raster_slice(
            1_692_144_000_000,
            1_692_154_800_000,
            "template&bbox=0,0,1.5,1&datetime=2023-08-16T00:00:00%2B00:00%2F2023-08-16T00:00:01%2B00:00"
        )]
    );
    let none = select(0, 1);
    assert!(none.parts.is_empty());
    assert_eq!(none.raster_url(), None);
}

#[test]
fn a_raster_without_times_is_always_valid() {
    let collection = gfs_single_level();
    let loading_info = collection
        .get_gdal_source_ds("template", &raster_info(720), CacheTtlSeconds(0), &parse)
        .unwrap();
    assert_eq!(
        loading_info.parts,
        vec![raster_slice(MIN_TIME, MAX_TIME, "template")]
    );
}

#[test]
fn a_raster_needs_a_time_step() {
    let mut collection = gfs_isobaric();
    collection.extent.temporal.as_mut().unwrap().values.clear();
    assert!(matches!(
        provider().get_raster_meta_data(
            &collection,
            String::new(),
            &raster_info(1),
            &parse
        ),
        Err(EdrError::InvalidNumberOfTimeSteps {
            expected: 1,
            found: 0
        })
    ));
}

#[test]
fn times_that_cannot_be_read_are_open() {
    let mut collection = points_in_germany();
    collection.extent.temporal.as_mut().unwrap().interval = vec![texts(&["..", ".."])];
    assert_eq!(
        collection.get_time_interval(&parse),
        Ok(TimeInterval {
            start: MIN_TIME,
            end: MAX_TIME
        })
    );
}

fn missing(source: EdrProviderError) -> EdrError {
    EdrError::DatasetMetaData { source }
}

#[test]
fn missing_extents_are_reported() {
    let mut collection = points_in_germany();
    collection.extent.temporal = None;
    assert_eq!(
        collection.get_time_interval(&parse),
        Err(missing(EdrProviderError::MissingTemporalExtent))
    );
    collection.extent.spatial = None;
    assert_eq!(
        collection.get_bounding_box(),
        Err(missing(EdrProviderError::MissingSpatialExtent))
    );
    // vectors report the time first, rasters the space
    assert!(matches!(
        collection.get_vector_result_descriptor(VectorDataType::Data, &parse),
        Err(EdrError::DatasetMetaData {
            source: EdrProviderError::MissingTemporalExtent
        })
    ));
    assert_eq!(
        collection.get_raster_result_descriptor(&raster_info(1), &parse),
        Err(missing(EdrProviderError::MissingSpatialExtent))
    );
    assert_eq!(
        collection.get_probe_query(&parse),
        Err(missing(EdrProviderError::MissingSpatialExtent))
    );
}

#[test]
fn the_first_supported_format_is_selected() {
    assert_eq!(is_filetype_raster("GeoTIFF"), Some(true));
    assert_eq!(is_filetype_raster("GeoTIFF_float"), Some(true));
    assert_eq!(is_filetype_raster("GeoJSON"), Some(false));
    assert_eq!(is_filetype_raster("CSV"), None);

    let mut collection = collection_meta("id", None, "GeoTIFF");
    assert_eq!(collection.is_raster_file(), Ok(true));
    // an endpoint can offer other formats
    collection.data_queries = Some(EdrQueryEndpoints {
        cube: Some(EdrQueryEndpoint {
            link: EdrQueryEndpointLink {
                variables: EdrQueryEndpointVariables {
                    output_formats: texts(&["KML", "GeoJSON", "GeoTIFF"]),
                },
            },
        }),
        items: None,
    });
    assert_eq!(collection.is_raster_file(), Ok(false));
    assert_eq!(
        collection.select_output_format(EndpointKind::Cube),
        Ok("GeoJSON".to_string())
    );
    assert_eq!(
        collection.select_output_format(EndpointKind::Items),
        Ok("GeoTIFF".to_string())
    );
    // without any information it is GeoJSON
    collection.data_queries = None;
    collection.output_formats = None;
    assert_eq!(
        collection.select_output_format(EndpointKind::Cube),
        Ok("GeoJSON".to_string())
    );
    collection.output_formats = Some(texts(&["CSV"]));
    assert_eq!(
        collection.is_raster_file(),
        Err(missing(EdrProviderError::NoSupportedOutputFormat))
    );
}

#[test]
fn a_listed_collection_without_a_supported_format_is_an_error() {
    let provider = provider();
    let root = provider.get_root_layer_collection_id().unwrap();
    assert_eq!(root.0, "collections");
    let mut collections = all_collections();
    collections.collections[3].output_formats = Some(texts(&["CSV"]));
    let list = |offset: u32, limit: u32| {
        provider.get_root_collection(
            &root,
            &collections,
            &LayerCollectionListOptions { offset, limit },
        )
    };
    assert_eq!(
        list(0, 20),
        Err(missing(EdrProviderError::NoSupportedOutputFormat))
    );
    // it does not matter if it is not listed
    assert_eq!(list(0, 2).unwrap().items.len(), 2);
    assert_eq!(list(3, 20).unwrap().items.len(), 2);
}

#[test]
fn heights_are_ranges_unless_their_scale_is_discrete() {
    let vrs = texts(&["between-depth"]);
    let url = |collection: &EdrCollectionMetaData, height: &str| {
        collection
            .get_raster_template_url(BASE_URL, "p", height, &vrs)
            .unwrap()
    };
    assert_eq!(
        url(&gfs_isobaric(), "1000"),
        format!("/vsicurl_streaming/{BASE_URL}collections/GFS_isobaric/cube?f=GeoTIFF&parameter-name=p&z=1000%2F1000")
    );
    assert_eq!(
        url(&gfs_between_depth(), "0/10"),
        format!("/vsicurl_streaming/{BASE_URL}collections/GFS_between-depth/cube?f=GeoTIFF_float&parameter-name=p&z=0/10")
    );
    assert_eq!(
        url(&gfs_isobaric(), "default"),
        format!("/vsicurl_streaming/{BASE_URL}collections/GFS_isobaric/cube?f=GeoTIFF&parameter-name=p")
    );
}

#[test]
fn the_name_of_a_vector_layer_has_no_extension() {
    let (template_url, layer_name) = points_in_france()
        .get_vector_template_url(BASE_URL, "0.5", &vec![])
        .unwrap();
    assert_eq!(
        template_url,
        format!("/vsicurl_streaming/{BASE_URL}collections/PointsInFrance/cube?f=GeoJSON&z=0.5%2F0.5")
    );
    assert_eq!(layer_name, "cube?f=GeoJSON&z=0.5%2F0");
}

#[test]
fn columns_have_the_types_of_their_parameters() {
    let mut collection = points_in_germany();
    for (name, data_type, unit) in [
        ("name", Some("String"), None),
        (
            "count",
            Some("INTEGER"),
            Some(EdrSymbol::Scalar("1".to_string())),
        ),
        (
            "speed",
            Some("float"),
            Some(EdrSymbol::Object {
                value: "m/s".to_string(),
            }),
        ),
        ("other", None, None),
    ] {
        collection
            .parameter_names
            .insert(name.to_string(), parameter(data_type, name, unit));
    }
    let columns = collection.get_column_spec(EdrVectorSpec {
        x: "x".to_string(),
        y: Some("y".to_string()),
        start_time: None,
        end_time: None,
    });
    assert_eq!(columns.x, "x");
    assert_eq!(columns.y.as_deref(), Some("y"));
    assert_eq!(columns.int_columns, texts(&["ID", "count"]));
    assert_eq!(columns.float_columns, texts(&["other", "speed"]));
    assert_eq!(columns.text_columns, texts(&["name"]));
    assert!(columns.bool_columns.is_empty());
    assert!(columns.datetime_columns.is_empty());

    let descriptor = collection
        .get_vector_result_descriptor(VectorDataType::MultiPoint, &parse)
        .unwrap();
    let continuous = |label: &str, unit: Option<&str>| Measurement::Continuous {
        measurement: label.to_string(),
        unit: unit.map(str::to_string),
    };
    let measurement = |name: &str| &descriptor.columns.get(name).unwrap().measurement;
    assert_eq!(measurement("name"), &Measurement::Unitless);
    assert_eq!(measurement("count"), &continuous("count", Some("1")));
    assert_eq!(measurement("speed"), &continuous("speed", Some("m/s")));
    assert_eq!(measurement("other"), &continuous("other", None));
}

#[test]
fn the_times_of_a_dataset_depend_on_its_columns() {
    let collection = points_in_germany();
    let time = |start_time: Option<&str>, end_time: Option<&str>| {
        collection
            .get_ogr_source_ds(
                "template",
                "layer",
                EdrVectorSpec {
                    x: "x".to_string(),
                    y: None,
                    start_time: start_time.map(str::to_string),
                    end_time: end_time.map(str::to_string),
                },
                CacheTtlSeconds(0),
                VectorDataType::Data,
            )
            .time
    };
    assert_eq!(
        time(Some("start"), Some("end")),
        OgrSourceDatasetTimeType::StartEnd {
            start_field: "start".to_string(),
            start_format: OgrSourceTimeFormat::Auto,
            end_field: "end".to_string(),
            end_format: OgrSourceTimeFormat::Auto,
        }
    );
    assert_eq!(time(None, Some("end")), OgrSourceDatasetTimeType::Timeless);
    assert_eq!(time(None, None), OgrSourceDatasetTimeType::Timeless);
}

#[test]
fn the_type_of_a_dataset_is_that_of_its_geometry() {
    assert_eq!(
        EdrCollectionMetaData::determine_vector_data_type::<&str>(None),
        Ok(VectorDataType::Data)
    );
    assert_eq!(
        EdrCollectionMetaData::determine_vector_data_type::<&str>(Some(Ok(
            VectorDataType::MultiPolygon
        ))),
        Ok(VectorDataType::MultiPolygon)
    );
    assert_eq!(
        EdrCollectionMetaData::determine_vector_data_type(Some(Err("unknown"))),
        Err("unknown")
    );
}

#[test]
fn ids_round_trip() {
    for text in [
        "collections",
        "collections!a",
        "collections!a!b",
        "collections!a!b!c",
        "collections!with/slash!!",
    ] {
        let id = EdrCollectionId::from_str(text).unwrap();
        match id {
            EdrCollectionId::Collections => assert_eq!(
                id.into_layer_collection_id(),
                Ok(LayerCollectionId(text.to_string()))
            ),
            _ => assert_eq!(id.into_layer_id(), Ok(LayerId(text.to_string()))),
        }
    }
    for text in ["", "collection!a", "collections!a!b!c!d", "!collections"] {
        assert_eq!(
            EdrCollectionId::from_str(text),
            Err(EdrError::InvalidLayerCollectionId)
        );
    }
}

#[test]
fn not_every_id_is_a_layer_or_a_collection() {
    assert_eq!(
        EdrCollectionId::Collections.into_layer_id(),
        Err(EdrError::InvalidLayerId)
    );
    assert_eq!(
        EdrCollectionId::Collections.get_collection_id(),
        Err(EdrError::InvalidLayerId)
    );
    assert_eq!(
        EdrCollectionId::from_str("collections!a!b!c")
            .unwrap()
            .into_layer_collection_id(),
        Err(EdrError::InvalidLayerCollectionId)
    );
}

#[test]
fn layers_are_loaded_with_the_operator_for_their_data() {
    let provider = provider();
    let layer = |id: &str, collection: &EdrCollectionMetaData| -> Layer<SourceOperator, ()> {
        let id = LayerId(id.to_string());
        let request = provider.request_layer(&id).unwrap();
        assert_eq!(request.id.get_collection_id().unwrap(), &collection.id);
        match provider.get_layer(&id, collection) {
            Ok(layer) => layer,
            Err(_) => unreachable!(),
        }
    };
    let data = |name: &str| NamedData {
        provider: "dc2ddc34-b0d9-4ee0-bf3e-414f01a805ad".to_string(),
        name: name.to_string(),
    };

    let raster = layer("collections!GFS_isobaric!temperature!1000", &gfs_isobaric());
    assert_eq!(raster.name, "GFS - Isobaric level");
    assert_eq!(raster.description, "");
    assert_eq!(
        raster.workflow,
        SourceOperator::GdalSource {
            data: data("collections!GFS_isobaric!temperature!1000")
        }
    );
    assert_eq!(raster.id.provider_id, DEMO_PROVIDER_ID);
    assert!(raster.symbology.is_none());
    assert!(raster.properties.is_empty());
    assert_eq!(raster.metadata.len(), 0);

    let vector = layer("collections!PointsInGermany", &points_in_germany());
    assert_eq!(vector.name, "PointsInGermany");
    assert_eq!(
        vector.workflow,
        SourceOperator::OgrSource {
            data: data("collections!PointsInGermany")
        }
    );
}

#[test]
fn requests_for_something_else_are_rejected() {
    let provider = provider();
    assert_eq!(
        provider.request_dataset(&DataId::Internal { dataset_id: 1 }),
        Err(EdrError::InvalidDataId)
    );
    assert_eq!(
        provider.request_dataset(&data_id("something!else")),
        Err(EdrError::InvalidLayerCollectionId)
    );
    assert_eq!(
        provider.request_dataset(&data_id("collections")),
        Err(EdrError::InvalidLayerId)
    );
    assert_eq!(
        provider.request_layer(&LayerId("collections".to_string())),
        Err(EdrError::InvalidLayerId)
    );
    assert_eq!(
        provider.get_mock_meta_data(&data_id("collections!a")),
        EdrError::NotYetImplemented
    );

    let mut without_spec = provider;
    without_spec.vector_spec = None;
    assert_eq!(
        without_spec.request_vector_dataset(&DataId::Internal { dataset_id: 1 }),
        Err(missing(EdrProviderError::NoVectorSpecConfigured))
    );
}

#[test]
fn addresses_are_joined() {
    assert_eq!(get_collection_path("a"), "collections/a?f=json");
    assert_eq!(
        collection_address("http://example.com/edr/", "a b"),
        Ok("http://example.com/edr/collections/a%20b?f=json".to_string())
    );
    // what is behind the last slash is replaced
    assert_eq!(
        collections_address("http://example.com/edr"),
        Ok("http://example.com/collections?f=json".to_string())
    );
    assert!(matches!(
        collections_address("no address"),
        Err(EdrError::InvalidAddress { .. })
    ));
}

#[test]
fn a_plus_sign_in_a_time_is_escaped() {
    let query = EdrQuery {
        lower_left: coordinate(0., 1.),
        upper_right: coordinate(2., 3.5),
        time_interval: TimeInterval { start: 0, end: 1 },
    };
    assert_eq!(
        query.as_query_string(&number_text, &datetime_text),
        "&bbox=0,1,2,3.5&datetime=1970-01-01T00:00:00%2B00:00%2F1970-01-01T00:00:00.001%2B00:00"
    );
    let later = query.with_time(TimeInterval { start: 5, end: 6 });
    assert_eq!(later.get_time_interval(), TimeInterval { start: 5, end: 6 });
    assert_eq!(later.upper_right, query.upper_right);
}

#[test]
fn the_definition_describes_the_provider() {
    let definition = |priority: Option<i16>| EdrDataProviderDefinition {
        name: "name".to_string(),
        description: "description".to_string(),
        priority,
        id: DEMO_PROVIDER_ID,
        base_url: BASE_URL.to_string(),
        vector_spec: None,
        cache_ttl: CacheTtlSeconds(60),
        discrete_vrs: vec![],
        provenance: Some(vec![Provenance {
            citation: "citation".to_string(),
            license: "license".to_string(),
            uri: "uri".to_string(),
        }]),
    };
    assert_eq!(definition(None).priority(), 0);
    assert_eq!(definition(Some(-3)).priority(), -3);
    assert_eq!(definition(None).type_label(), "Environmental Data Retrieval");
    assert_eq!(definition(None).name(), "name");
    assert_eq!(definition(None).id(), DEMO_PROVIDER_ID);

    let provider = definition(None).initialize();
    assert_eq!(provider.name(), "name");
    assert_eq!(provider.description(), "description");
    assert_eq!(provider.cache_ttl, CacheTtlSeconds(60));
    assert_eq!(
        provider.capabilities(),
        ProviderCapabilities {
            listing: true,
            search: SearchCapabilities {
                fulltext: false,
                prefix: false,
                autocomplete: false,
            },
        }
    );
    assert_eq!(
        provider.provenance(&data_id("collections!a")),
        ProvenanceOutput {
            data: data_id("collections!a"),
            provenance: Some(vec![Provenance {
                citation: "citation".to_string(),
                license: "license".to_string(),
                uri: "uri".to_string(),
            }]),
        }
    );
}
