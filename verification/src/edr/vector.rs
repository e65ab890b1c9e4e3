//! Vector datasets of an EDR service.

use vstd::prelude::*;

use crate::edr::error::EdrError;
use crate::edr::metadata::{
    height_query, is_interval_of, items_address, missing_spatial_extent, missing_temporal_extent,
    no_supported_format, vector_layer_name, vector_template, EdrCollectionMetaData, EdrParameter,
    EndpointKind,
};
use crate::edr::query::{is_query_string, EdrQuery};
use crate::primitives::{BoundingBox2D, F64Bits, SpatialReference, TimeInterval, EPSG_4326};
use crate::util::string_map::StringMap;
use crate::util::text::{before_last, cut_at_last, same_text, texts};

verus! {

/// The columns of vector datasets with their positions and times.
#[derive(Debug, PartialEq, Eq)]
pub struct EdrVectorSpec {
    pub x: String,
    pub y: Option<String>,
    pub start_time: Option<String>,
    pub end_time: Option<String>,
}

/// The geometries of a vector dataset.
#[derive(Clone, Copy, Debug, PartialEq, Eq)]
pub enum VectorDataType {
    Data,
    MultiPoint,
    MultiLineString,
    MultiPolygon,
}

/// How long results may be cached.
#[derive(Clone, Copy, Debug, PartialEq, Eq)]
pub struct CacheTtlSeconds(pub u32);

/// What `str::to_uppercase` makes of a text.
pub uninterp spec fn uppercase(text: Seq<char>) -> Seq<char>;

/// The text in upper case, by `str::to_uppercase`.
#[verifier::external_body]
fn to_uppercase(text: &str) -> (upper: String)
    ensures
        upper@ == uppercase(text@),
{
    text.to_uppercase()
}

/// The type of a column.
#[derive(Clone, Copy, Debug, PartialEq, Eq)]
pub enum FeatureDataType {
    Text,
    Int,
    Float,
}

/// The type of a column by the name of its type in upper case. Numbers are the default.
pub open spec fn column_type(upper: Seq<char>) -> FeatureDataType {
    if upper == "STRING"@ {
        FeatureDataType::Text
    } else if upper == "INTEGER"@ {
        FeatureDataType::Int
    } else {
        FeatureDataType::Float
    }
}

/// The type of a column by the name of its type in upper case.
pub fn get_column_type(upper: &str) -> (data_type: FeatureDataType)
    ensures
        data_type == column_type(upper@),
{
    if same_text(upper, "STRING") {
        FeatureDataType::Text
    } else if same_text(upper, "INTEGER") {
        FeatureDataType::Int
    } else {
        FeatureDataType::Float
    }
}

impl EdrParameter {
    /// The type of the column of a parameter. Upper and lower case are not told apart.
    pub open spec fn feature_type(self) -> FeatureDataType {
        match self.data_type {
            Some(data_type) => column_type(uppercase(data_type@)),
            None => FeatureDataType::Float,
        }
    }

    fn get_feature_type(&self) -> (data_type: FeatureDataType)
        ensures
            data_type == self.feature_type(),
    {
        match &self.data_type {
            Some(data_type) => get_column_type(to_uppercase(data_type.as_str()).as_str()),
            None => FeatureDataType::Float,
        }
    }

    pub open spec fn unit_text(self) -> Option<Seq<char>> {
        match self.unit {
            Some(unit) => Some(unit.symbol.text()),
            None => None,
        }
    }
}

/// What the values of a column measure.
#[derive(Debug, PartialEq, Eq)]
pub enum Measurement {
    Unitless,
    Continuous { measurement: String, unit: Option<String> },
}

#[derive(Debug, PartialEq, Eq)]
pub struct VectorColumnInfo {
    pub data_type: FeatureDataType,
    pub measurement: Measurement,
}

impl VectorColumnInfo {
    /// The column describes the parameter. Texts do not measure anything.
    pub open spec fn describes(self, parameter: EdrParameter) -> bool {
        &&& self.data_type == parameter.feature_type()
        &&& match self.measurement {
            Measurement::Unitless => self.data_type is Text,
            Measurement::Continuous { measurement, unit } => {
                &&& !(self.data_type is Text)
                &&& measurement@ == parameter.observed_property.label@
                &&& match unit {
                    Some(unit) => parameter.unit_text() == Some(unit@),
                    None => parameter.unit_text() is None,
                }
            },
        }
    }
}

/// The columns describe exactly the parameters.
pub open spec fn columns_describe(
    columns: Map<Seq<char>, VectorColumnInfo>,
    parameters: Map<Seq<char>, EdrParameter>,
) -> bool {
    &&& columns.dom() == parameters.dom()
    &&& forall|name: Seq<char>| #[trigger]
        parameters.contains_key(name) ==> columns[name].describes(parameters[name])
}

pub struct VectorResultDescriptor {
    pub spatial_reference: SpatialReference,
    pub data_type: VectorDataType,
    pub columns: StringMap<VectorColumnInfo>,
    pub time: Option<TimeInterval>,
    pub bbox: Option<BoundingBox2D>,
}

impl VectorResultDescriptor {
    /// The descriptor describes the collection.
    pub open spec fn describes<F: Fn(&String) -> Option<i64>>(
        self,
        collection: EdrCollectionMetaData,
        data_type: VectorDataType,
        parse: F,
    ) -> bool {
        &&& self.spatial_reference == SpatialReference::Epsg(EPSG_4326)
        &&& self.data_type == data_type
        &&& self.columns.wf()
        &&& columns_describe(self.columns@, collection.parameter_names@)
        &&& collection.extent.temporal is Some
        &&& self.time is Some
        &&& is_interval_of(
            parse,
            collection.extent.temporal->0.interval@[0]@[0],
            collection.extent.temporal->0.interval@[0]@[1],
            self.time->0,
        )
        &&& collection.extent.spatial is Some
        &&& self.bbox == Some(collection.bounding_box())
    }
}

/// How a time is written.
#[derive(Clone, Copy, Debug, PartialEq, Eq)]
pub enum OgrSourceTimeFormat {
    /// It is detected.
    Auto,
}

/// How long features last.
#[derive(Clone, Copy, Debug, PartialEq, Eq)]
pub enum OgrSourceDurationSpec {
    Zero,
}

/// How the time of features is found.
#[derive(Debug, PartialEq, Eq)]
#[allow(inconsistent_fields)]
pub enum OgrSourceDatasetTimeType {
    /// Features have no time.
    Timeless,
    /// Features have a point in time.
    Start {
        start_field: String,
        start_format: OgrSourceTimeFormat,
        duration: OgrSourceDurationSpec,
    },
    /// Features have an interval.
    StartEnd {
        start_field: String,
        start_format: OgrSourceTimeFormat,
        end_field: String,
        end_format: OgrSourceTimeFormat,
    },
}

/// The columns of a dataset by their types.
#[derive(Debug, PartialEq, Eq)]
pub struct OgrSourceColumnSpec {
    pub x: String,
    pub y: Option<String>,
    pub int_columns: Vec<String>,
    pub float_columns: Vec<String>,
    pub text_columns: Vec<String>,
    pub bool_columns: Vec<String>,
    pub datetime_columns: Vec<String>,
}

/// What to do with broken features.
#[derive(Clone, Copy, Debug, PartialEq, Eq)]
pub enum OgrSourceErrorSpec {
    Ignore,
    Abort,
}

/// How OGR loads a dataset.
#[derive(Debug, PartialEq, Eq)]
pub struct OgrSourceDataset {
    pub file_name: String,
    pub layer_name: String,
    pub data_type: Option<VectorDataType>,
    pub time: OgrSourceDatasetTimeType,
    pub columns: Option<OgrSourceColumnSpec>,
    pub force_ogr_time_filter: bool,
    pub force_ogr_spatial_filter: bool,
    pub on_error: OgrSourceErrorSpec,
    pub sql_query: Option<String>,
    pub attribute_query: Option<String>,
    pub cache_ttl: CacheTtlSeconds,
}

/// The names of the parameters of a type, in their order.
pub open spec fn columns_of(
    names: Seq<Seq<char>>,
    parameters: Map<Seq<char>, EdrParameter>,
    data_type: FeatureDataType,
) -> Seq<Seq<char>>
    decreases names.len(),
{
    if names.len() == 0 {
        Seq::empty()
    } else {
        let before = columns_of(names.drop_last(), parameters, data_type);
        if parameters[names.last()].feature_type() == data_type {
            before.push(names.last())
        } else {
            before
        }
    }
}

impl OgrSourceColumnSpec {
    /// The columns are those of the collection.
    pub open spec fn is_spec_of(
        self,
        collection: EdrCollectionMetaData,
        vector_spec: EdrVectorSpec,
    ) -> bool {
        let names = collection.parameter_names.keys();
        let parameters = collection.parameter_names@;
        &&& self.x == vector_spec.x
        &&& self.y == vector_spec.y
        &&& texts(self.int_columns@) == columns_of(names, parameters, FeatureDataType::Int)
        &&& texts(self.float_columns@) == columns_of(names, parameters, FeatureDataType::Float)
        &&& texts(self.text_columns@) == columns_of(names, parameters, FeatureDataType::Text)
        &&& self.bool_columns@.len() == 0
        &&& self.datetime_columns@.len() == 0
    }
}

impl OgrSourceDatasetTimeType {
    /// A dataset without a column for the start has no times, whatever there is for the end.
    pub open spec fn is_time_of(self, vector_spec: EdrVectorSpec) -> bool {
        match (vector_spec.start_time, vector_spec.end_time) {
            (Some(start), None) => self == (OgrSourceDatasetTimeType::Start {
                start_field: start,
                start_format: OgrSourceTimeFormat::Auto,
                duration: OgrSourceDurationSpec::Zero,
            }),
            (Some(start), Some(end)) => self == (OgrSourceDatasetTimeType::StartEnd {
                start_field: start,
                start_format: OgrSourceTimeFormat::Auto,
                end_field: end,
                end_format: OgrSourceTimeFormat::Auto,
            }),
            (None, _) => self is Timeless,
        }
    }
}

impl OgrSourceDataset {
    /// How the dataset of a collection is loaded.
    pub open spec fn is_source_of(
        self,
        collection: EdrCollectionMetaData,
        template_url: Seq<char>,
        layer_name: Seq<char>,
        vector_spec: EdrVectorSpec,
        cache_ttl: CacheTtlSeconds,
        data_type: VectorDataType,
    ) -> bool {
        &&& self.file_name@ == template_url
        &&& self.layer_name@ == layer_name
        &&& self.data_type == Some(data_type)
        &&& self.time.is_time_of(vector_spec)
        &&& self.columns matches Some(columns) && columns.is_spec_of(collection, vector_spec)
        &&& !self.force_ogr_time_filter
        &&& !self.force_ogr_spatial_filter
        &&& self.on_error is Abort
        &&& self.sql_query is None
        &&& self.attribute_query is None
        &&& self.cache_ttl == cache_ttl
    }
}

impl EdrCollectionMetaData {
    /// What the result of a query to a vector dataset looks like.
    pub fn get_vector_result_descriptor<F: Fn(&String) -> Option<i64>>(
        &self,
        data_type: VectorDataType,
        parse: &F,
    ) -> (descriptor: Result<VectorResultDescriptor, EdrError>)
        requires
            self.wf(),
            self.has_interval(),
            self.has_bbox(),
            forall|text: &String| call_requires(*parse, (text,)),
        ensures
            match descriptor {
                Ok(descriptor) => descriptor.describes(*self, data_type, *parse),
                Err(error) => if self.extent.temporal is None {
                    error == missing_temporal_extent()
                } else {
                    self.extent.spatial is None && error == missing_spatial_extent()
                },
            },
    {
        let columns = self.get_columns();
        let time = match self.get_time_interval(parse) {
            Ok(time) => time,
            Err(error) => {
                return Err(error);
            },
        };
        let bbox = match self.get_bounding_box() {
            Ok(bbox) => bbox,
            Err(error) => {
                return Err(error);
            },
        };
        Ok(
            VectorResultDescriptor {
                spatial_reference: SpatialReference::Epsg(EPSG_4326),
                data_type,
                columns,
                time: Some(time),
                bbox: Some(bbox),
            },
        )
    }

    /// The columns of a vector dataset: one for each parameter.
    fn get_columns(&self) -> (columns: StringMap<VectorColumnInfo>)
        requires
            self.wf(),
        ensures
            columns.wf(),
            columns_describe(columns@, self.parameter_names@),
    {
        let names = &self.parameter_names;
        let mut columns: StringMap<VectorColumnInfo> = StringMap::new();
        let mut i: usize = 0;
        proof {
            names.lemma_keys();
        }
        while i < names.len()
            invariant
                i <= names.keys().len(),
                names.wf(),
                columns.wf(),
                names.keys().no_duplicates(),
                forall|j: int|
                    0 <= j < names.keys().len() ==> names@.contains_key(
                        #[trigger] names.keys()[j],
                    ),
                forall|name: Seq<char>| #[trigger]
                    columns@.contains_key(name) <==> names.keys().take(i as int).contains(name),
                forall|j: int|
                    0 <= j < i ==> columns@[#[trigger] names.keys()[j]].describes(
                        names@[names.keys()[j]],
                    ),
            decreases names.keys().len() - i,
        {
            let ghost before = columns@;
            let ghost keys = names.keys();
            let parameter = names.value_at(i);
            let data_type = parameter.get_feature_type();
            let measurement = match data_type {
                FeatureDataType::Text => Measurement::Unitless,
                _ => Measurement::Continuous {
                    measurement: parameter.observed_property.label.clone(),
                    unit: match &parameter.unit {
                        Some(unit) => Some(unit.symbol.value()),
                        None => None,
                    },
                },
            };
            columns.insert(names.key_at(i).clone(), VectorColumnInfo { data_type, measurement });
            proof {
                let seen = keys.take(i as int);
                let more = keys.take(i + 1);
                assert(more =~= seen.push(keys[i as int]));
                assert forall|name: Seq<char>| #[trigger]
                    columns@.contains_key(name) <==> more.contains(name) by {
                    if seen.contains(name) {
                        let j = choose|j: int| 0 <= j < seen.len() && seen[j] == name;
                        assert(more[j] == name);
                    }
                    if name == keys[i as int] {
                        assert(more[i as int] == name);
                    }
                    if more.contains(name) && name != keys[i as int] {
                        let j = choose|j: int| 0 <= j < more.len() && more[j] == name;
                        assert(seen[j] == name);
                    }
                }
            }
            i += 1;
        }
        proof {
            assert(names.keys().take(i as int) =~= names.keys());
            assert forall|name: Seq<char>| names@.contains_key(name) implies names.keys().contains(
                name,
            ) by {
                names.lemma_keys();
            }
            assert(columns@.dom() =~= names@.dom());
            assert forall|name: Seq<char>| #[trigger]
                names@.contains_key(name) implies columns@[name].describes(names@[name]) by {
                let j = choose|j: int| 0 <= j < names.keys().len() && names.keys()[j] == name;
                assert(columns@[names.keys()[j]].describes(names@[names.keys()[j]]));
            }
        }
        columns
    }

    /// The columns of a vector dataset by their types.
    pub fn get_column_spec(&self, vector_spec: EdrVectorSpec) -> (columns: OgrSourceColumnSpec)
        requires
            self.wf(),
        ensures
            columns.is_spec_of(*self, vector_spec),
    {
        let mut int_columns: Vec<String> = Vec::new();
        let mut float_columns: Vec<String> = Vec::new();
        let mut text_columns: Vec<String> = Vec::new();
        let names = &self.parameter_names;
        let mut i: usize = 0;
        proof {
            assert(texts(int_columns@) =~= Seq::empty());
            assert(texts(float_columns@) =~= Seq::empty());
            assert(texts(text_columns@) =~= Seq::empty());
        }
        while i < names.len()
            invariant
                i <= names.keys().len(),
                names.wf(),
                texts(int_columns@) == columns_of(
                    names.keys().take(i as int),
                    names@,
                    FeatureDataType::Int,
                ),
                texts(float_columns@) == columns_of(
                    names.keys().take(i as int),
                    names@,
                    FeatureDataType::Float,
                ),
                texts(text_columns@) == columns_of(
                    names.keys().take(i as int),
                    names@,
                    FeatureDataType::Text,
                ),
            decreases names.keys().len() - i,
        {
            let ghost ints = texts(int_columns@);
            let ghost floats = texts(float_columns@);
            let ghost strings = texts(text_columns@);
            let ghost name = names.keys()[i as int];
            assert(names.keys().take(i + 1).drop_last() =~= names.keys().take(i as int));
            match names.value_at(i).get_feature_type() {
                FeatureDataType::Text => {
                    text_columns.push(names.key_at(i).clone());
                    assert(texts(text_columns@) =~= strings.push(name));
                },
                FeatureDataType::Int => {
                    int_columns.push(names.key_at(i).clone());
                    assert(texts(int_columns@) =~= ints.push(name));
                },
                FeatureDataType::Float => {
                    float_columns.push(names.key_at(i).clone());
                    assert(texts(float_columns@) =~= floats.push(name));
                },
            }
            i += 1;
        }
        assert(names.keys().take(i as int) =~= names.keys());
        OgrSourceColumnSpec {
            x: vector_spec.x,
            y: vector_spec.y,
            int_columns,
            float_columns,
            text_columns,
            bool_columns: Vec::new(),
            datetime_columns: Vec::new(),
        }
    }

    /// How OGR loads a vector dataset.
    pub fn get_ogr_source_ds(
        &self,
        template_url: &str,
        layer_name: &str,
        vector_spec: EdrVectorSpec,
        cache_ttl: CacheTtlSeconds,
        data_type: VectorDataType,
    ) -> (dataset: OgrSourceDataset)
        requires
            self.wf(),
        ensures
            dataset.is_source_of(
                *self,
                template_url@,
                layer_name@,
                vector_spec,
                cache_ttl,
                data_type,
            ),
    {
        let time = match (&vector_spec.start_time, &vector_spec.end_time) {
            (Some(start), None) => OgrSourceDatasetTimeType::Start {
                start_field: start.clone(),
                start_format: OgrSourceTimeFormat::Auto,
                duration: OgrSourceDurationSpec::Zero,
            },
            (Some(start), Some(end)) => OgrSourceDatasetTimeType::StartEnd {
                start_field: start.clone(),
                start_format: OgrSourceTimeFormat::Auto,
                end_field: end.clone(),
                end_format: OgrSourceTimeFormat::Auto,
            },
            (None, _) => OgrSourceDatasetTimeType::Timeless,
        };
        OgrSourceDataset {
            file_name: template_url.to_owned(),
            layer_name: layer_name.to_owned(),
            data_type: Some(data_type),
            time,
            columns: Some(self.get_column_spec(vector_spec)),
            force_ogr_time_filter: false,
            force_ogr_spatial_filter: false,
            on_error: OgrSourceErrorSpec::Abort,
            sql_query: None,
            attribute_query: None,
            cache_ttl,
        }
    }
}

pub(crate) fn clone_text(text: &Option<String>) -> (copy: Option<String>)
    ensures
        copy == *text,
{
    match text {
        Some(text) => Some(text.clone()),
        None => None,
    }
}

pub(crate) fn clone_list(list: &Vec<String>) -> (copy: Vec<String>)
    ensures
        copy@ == list@,
{
    let mut copy: Vec<String> = Vec::new();
    let mut i: usize = 0;
    while i < list.len()
        invariant
            i <= list@.len(),
            copy@ =~= list@.take(i as int),
        decreases list@.len() - i,
    {
        copy.push(list[i].clone());
        i += 1;
    }
    assert(list@.take(i as int) =~= list@);
    copy
}

impl EdrVectorSpec {
    pub fn copy(&self) -> (copy: Self)
        ensures
            copy == *self,
    {
        EdrVectorSpec {
            x: self.x.clone(),
            y: clone_text(&self.y),
            start_time: clone_text(&self.start_time),
            end_time: clone_text(&self.end_time),
        }
    }
}

impl OgrSourceDatasetTimeType {
    pub fn copy(&self) -> (copy: Self)
        ensures
            copy == *self,
    {
        match self {
            OgrSourceDatasetTimeType::Timeless => OgrSourceDatasetTimeType::Timeless,
            OgrSourceDatasetTimeType::Start {
                start_field,
                start_format,
                duration,
            } => OgrSourceDatasetTimeType::Start {
                start_field: start_field.clone(),
                start_format: *start_format,
                duration: *duration,
            },
            OgrSourceDatasetTimeType::StartEnd {
                start_field,
                start_format,
                end_field,
                end_format,
            } => OgrSourceDatasetTimeType::StartEnd {
                start_field: start_field.clone(),
                start_format: *start_format,
                end_field: end_field.clone(),
                end_format: *end_format,
            },
        }
    }
}

impl OgrSourceColumnSpec {
    /// Both have the same columns.
    pub open spec fn same_columns(self, other: Self) -> bool {
        &&& self.x == other.x
        &&& self.y == other.y
        &&& self.int_columns@ == other.int_columns@
        &&& self.float_columns@ == other.float_columns@
        &&& self.text_columns@ == other.text_columns@
        &&& self.bool_columns@ == other.bool_columns@
        &&& self.datetime_columns@ == other.datetime_columns@
    }

    pub fn copy(&self) -> (copy: Self)
        ensures
            copy.same_columns(*self),
    {
        OgrSourceColumnSpec {
            x: self.x.clone(),
            y: clone_text(&self.y),
            int_columns: clone_list(&self.int_columns),
            float_columns: clone_list(&self.float_columns),
            text_columns: clone_list(&self.text_columns),
            bool_columns: clone_list(&self.bool_columns),
            datetime_columns: clone_list(&self.datetime_columns),
        }
    }
}

impl OgrSourceDataset {
    /// Both are loaded in the same way, from wherever they are.
    pub open spec fn same_source(self, other: Self) -> bool {
        &&& self.data_type == other.data_type
        &&& self.time == other.time
        &&& match (self.columns, other.columns) {
            (Some(columns), Some(other_columns)) => columns.same_columns(other_columns),
            (None, None) => true,
            _ => false,
        }
        &&& self.force_ogr_time_filter == other.force_ogr_time_filter
        &&& self.force_ogr_spatial_filter == other.force_ogr_spatial_filter
        &&& self.on_error == other.on_error
        &&& self.sql_query == other.sql_query
        &&& self.attribute_query == other.attribute_query
        &&& self.cache_ttl == other.cache_ttl
    }

    /// How the part of the dataset that a query selects is loaded. The name of its layer follows the
    /// address.
    pub fn with_new_query<F: Fn(F64Bits) -> String, G: Fn(i64) -> String>(
        &self,
        template_url: &str,
        query: &EdrQuery,
        number_text: &F,
        datetime_text: &G,
    ) -> (dataset: Self)
        requires
            forall|number: F64Bits| call_requires(*number_text, (number,)),
            forall|time: i64| call_requires(*datetime_text, (time,)),
        ensures
            exists|text: Seq<char>|
                {
                    &&& #[trigger] is_query_string(*query, *number_text, *datetime_text, text)
                    &&& dataset.file_name@ == template_url@ + text
                    &&& dataset.layer_name@ == before_last(self.layer_name@ + text, '.')
                },
            dataset.same_source(*self),
    {
        let query_string = query.as_query_string(number_text, datetime_text);
        let file_name = template_url.to_owned().concat(query_string.as_str());
        let layer_name = self.layer_name.clone().concat(query_string.as_str());
        OgrSourceDataset {
            file_name,
            layer_name: cut_at_last(layer_name.as_str(), '.'),
            data_type: self.data_type,
            time: self.time.copy(),
            columns: match &self.columns {
                Some(columns) => Some(columns.copy()),
                None => None,
            },
            force_ogr_time_filter: self.force_ogr_time_filter,
            force_ogr_spatial_filter: self.force_ogr_spatial_filter,
            on_error: self.on_error,
            sql_query: clone_text(&self.sql_query),
            attribute_query: clone_text(&self.attribute_query),
            cache_ttl: self.cache_ttl,
        }
    }
}

/// How a dataset is loaded, what the result looks like, and the template of its address.
pub struct EdrMetaData<L, R> {
    pub loading_info: L,
    pub result_descriptor: R,
    pub template_url: String,
}

/// What has to be known of a vector dataset before its type can be determined.
#[derive(Debug, PartialEq, Eq)]
pub struct VectorProbe {
    pub template_url: String,
    pub layer_name: String,
    /// The address of an item of the dataset.
    pub items_url: String,
}

impl VectorProbe {
    /// The probe is for the collection at a height.
    pub open spec fn is_probe_of(
        self,
        collection: EdrCollectionMetaData,
        base_url: Seq<char>,
        height: Seq<char>,
        discrete_vrs: Seq<Seq<char>>,
    ) -> bool {
        let format = collection.output_format(EndpointKind::Cube);
        let items_format = collection.output_format(EndpointKind::Items);
        let z = height_query(collection.extent.is_discrete(discrete_vrs), height);
        &&& format is Some
        &&& items_format is Some
        &&& self.template_url@ == vector_template(base_url, collection.id@, format->0, z)
        &&& self.layer_name@ == vector_layer_name(format->0, z)
        &&& self.items_url@ == items_address(self.template_url@, items_format->0)
    }
}

impl EdrCollectionMetaData {
    /// Where to find a vector dataset and an item of it.
    pub fn get_vector_probe(
        &self,
        base_url: &str,
        height: &str,
        discrete_vrs: &Vec<String>,
    ) -> (probe: Result<VectorProbe, EdrError>)
        ensures
            match probe {
                Ok(probe) => probe.is_probe_of(
                    *self,
                    base_url@,
                    height@,
                    texts(discrete_vrs@),
                ),
                Err(error) => error == no_supported_format() && (self.output_format(
                    EndpointKind::Cube,
                ) is None || self.output_format(EndpointKind::Items) is None),
            },
    {
        let (template_url, layer_name) = match self.get_vector_template_url(
            base_url,
            height,
            discrete_vrs,
        ) {
            Ok(result) => result,
            Err(error) => {
                return Err(error);
            },
        };
        proof {
            reveal_strlit("/vsicurl_streaming/");
            assert("/vsicurl_streaming/"@[0] == '/');
            assert(template_url@[0] == '/');
        }
        match self.get_items_url(template_url.as_str()) {
            Ok(items_url) => Ok(VectorProbe { template_url, layer_name, items_url }),
            Err(error) => Err(error),
        }
    }

    /// The type of a vector dataset by the type of the geometry that one of its items has. Without a
    /// geometry it is a table.
    pub fn determine_vector_data_type<E>(geometry: Option<Result<VectorDataType, E>>) -> (data_type:
        Result<VectorDataType, E>)
        ensures
            data_type == match geometry {
                Some(geometry) => geometry,
                None => Ok(VectorDataType::Data),
            },
    {
        match geometry {
            Some(geometry) => geometry,
            None => Ok(VectorDataType::Data),
        }
    }

    /// The metadata of a vector dataset, once its type is known.
    pub fn get_ogr_metadata<F: Fn(&String) -> Option<i64>>(
        &self,
        probe: VectorProbe,
        vector_spec: EdrVectorSpec,
        cache_ttl: CacheTtlSeconds,
        data_type: VectorDataType,
        parse: &F,
    ) -> (meta_data: Result<EdrMetaData<OgrSourceDataset, VectorResultDescriptor>, EdrError>)
        requires
            self.wf(),
            self.has_interval(),
            self.has_bbox(),
            forall|text: &String| call_requires(*parse, (text,)),
        ensures
            match meta_data {
                Ok(meta_data) => {
                    &&& meta_data.loading_info.is_source_of(
                        *self,
                        probe.template_url@,
                        probe.layer_name@,
                        vector_spec,
                        cache_ttl,
                        data_type,
                    )
                    &&& meta_data.result_descriptor.describes(*self, data_type, *parse)
                    &&& meta_data.template_url == probe.template_url
                },
                Err(error) => if self.extent.temporal is None {
                    error == missing_temporal_extent()
                } else {
                    self.extent.spatial is None && error == missing_spatial_extent()
                },
            },
    {
        let loading_info = self.get_ogr_source_ds(
            probe.template_url.as_str(),
            probe.layer_name.as_str(),
            vector_spec,
            cache_ttl,
            data_type,
        );
        match self.get_vector_result_descriptor(data_type, parse) {
            Ok(result_descriptor) => Ok(
                EdrMetaData { loading_info, result_descriptor, template_url: probe.template_url },
            ),
            Err(error) => Err(error),
        }
    }
}

} // verus!
