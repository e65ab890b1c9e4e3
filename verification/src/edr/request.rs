//! Requests to the provider: what has to be loaded from the service for them, and what they are
//! answered once it is loaded.

use vstd::prelude::*;

use crate::edr::address::{
    collection_address, collection_path, collections_address, collections_path, joined_address,
};
use crate::edr::error::{EdrError, EdrProviderError};
use crate::edr::id::{collection_of, id_text, parsed_id, EdrCollectionId, EdrIdView};
use crate::edr::listing::{parameter_listing, raster_height_listing, vector_height_listing};
use crate::edr::metadata::{
    height_query, missing_spatial_extent, missing_temporal_extent,
    no_supported_format, raster_template, EdrCollectionMetaData, EndpointKind,
};
use crate::edr::provider::{DataId, EdrDataProvider};
use crate::edr::raster::{are_parts_of, DetectedRasterInfo, GdalLoadingInfo};
use crate::edr::vector::{
    EdrMetaData, OgrSourceDataset, VectorDataType, VectorProbe, VectorResultDescriptor,
};
use crate::ids::{uuid_text, uuid_to_string};
use crate::layers::layer::{
    properties_view, texts_view, Layer, LayerCollection, LayerCollectionId,
    LayerCollectionListOptions, LayerCollectionView, LayerId, Property, ProviderLayerId,
};
use crate::raster::RasterResultDescriptor;
use crate::util::string_map::StringMap;
use crate::util::text::texts;

verus! {

/// What has to be loaded to list a collection.
#[derive(Debug, PartialEq, Eq)]
#[allow(inconsistent_fields)]
pub enum CollectionRequest {
    /// The list of all collections.
    Collections { address: String },
    /// The metadata of the collection that the identifier belongs to.
    Collection { id: EdrCollectionId, address: String },
}

/// What has to be loaded for a dataset: the metadata of the collection that the identifier belongs to.
#[derive(Debug, PartialEq, Eq)]
pub struct DatasetRequest {
    pub id: EdrCollectionId,
    pub address: String,
}

/// A collection of a service has to be given by this identifier to be listed.
pub open spec fn is_listable(id: EdrIdView) -> bool {
    id is Collection || id is ParameterOrHeight
}

/// Where the metadata of the collection is that an identifier belongs to.
pub open spec fn metadata_address(base_url: Seq<char>, id: EdrIdView) -> Option<Seq<char>> {
    match collection_of(id) {
        Some(name) => joined_address(base_url, collection_path(name)),
        None => None,
    }
}

/// How a collection is listed; `None` if there is nothing to choose from it.
pub open spec fn collection_listing(
    provider: u128,
    collection_id: Seq<char>,
    id: EdrIdView,
    collection: EdrCollectionMetaData,
    options: LayerCollectionListOptions,
) -> Option<LayerCollectionView> {
    let raster = collection.is_raster() == Some(true);
    let vertical = collection.extent.vertical is Some;
    match id {
        EdrIdView::Collection(_) => if raster {
            Some(parameter_listing(provider, collection_id, collection, options))
        } else if vertical {
            Some(vector_height_listing(provider, collection_id, collection, options))
        } else {
            None
        },
        EdrIdView::ParameterOrHeight(_, parameter) => if raster && vertical {
            Some(
                raster_height_listing(provider, collection_id, collection, parameter, options),
            )
        } else {
            None
        },
        _ => None,
    }
}

/// Data of a provider, by its name.
#[derive(Debug, PartialEq, Eq)]
pub struct NamedData {
    pub provider: String,
    pub name: String,
}

/// The operator that loads the data of a layer.
#[derive(Debug, PartialEq, Eq)]
#[allow(inconsistent_fields)]
pub enum SourceOperator {
    /// Rasters are loaded with GDAL.
    GdalSource { data: NamedData },
    /// Vectors are loaded with OGR.
    OgrSource { data: NamedData },
}

impl SourceOperator {
    /// The operator loads a layer.
    pub open spec fn loads(self, raster: bool, provider: u128, layer: Seq<char>) -> bool {
        match self {
            SourceOperator::GdalSource { data } => {
                &&& raster
                &&& data.provider@ == uuid_text(provider)
                &&& data.name@ == layer
            },
            SourceOperator::OgrSource { data } => {
                &&& !raster
                &&& data.provider@ == uuid_text(provider)
                &&& data.name@ == layer
            },
        }
    }
}

/// The height at which a vector dataset is loaded.
pub open spec fn vector_height(id: EdrIdView) -> Seq<char> {
    match id {
        EdrIdView::ParameterOrHeight(_, height) => height,
        _ => "default"@,
    }
}

/// The parameter of a raster dataset that is loaded.
pub open spec fn raster_parameter(id: EdrIdView) -> Seq<char> {
    match id {
        EdrIdView::ParameterOrHeight(_, parameter) => parameter,
        EdrIdView::ParameterAndHeight(_, parameter, _) => parameter,
        _ => Seq::empty(),
    }
}

/// The height at which a raster dataset is loaded.
pub open spec fn raster_height(id: EdrIdView) -> Seq<char> {
    match id {
        EdrIdView::ParameterAndHeight(_, _, height) => height,
        _ => "default"@,
    }
}

/// The identifier of a dataset; an error if it is not that of a dataset of a provider, or if it does
/// not belong to a collection.
pub open spec fn dataset_id(id: DataId) -> Result<EdrIdView, EdrError> {
    match id {
        DataId::Internal { .. } => Err(EdrError::InvalidDataId),
        DataId::External { layer_id, .. } => match parsed_id(layer_id@) {
            None => Err(EdrError::InvalidLayerCollectionId),
            Some(EdrIdView::Collections) => Err(EdrError::InvalidLayerId),
            Some(id) => Ok(id),
        },
    }
}

impl DatasetRequest {
    /// The request is for the metadata of the dataset with this identifier.
    pub open spec fn is_request_for(self, base_url: Seq<char>, id: EdrIdView) -> bool {
        &&& self.id@ == id
        &&& metadata_address(base_url, id) == Some(self.address@)
    }
}

pub open spec fn no_vector_spec() -> EdrError {
    EdrError::DatasetMetaData { source: EdrProviderError::NoVectorSpecConfigured }
}

impl EdrDataProvider {
    /// The identifier of the list of all collections.
    pub fn get_root_layer_collection_id(&self) -> (id: Result<LayerCollectionId, EdrError>)
        ensures
            match id {
                Ok(id) => id@ == id_text(EdrIdView::Collections),
                Err(_) => false,
            },
    {
        EdrCollectionId::Collections.into_layer_collection_id()
    }

    /// What has to be loaded to list a collection.
    pub fn request_layer_collection(&self, collection_id: &LayerCollectionId) -> (request: Result<
        CollectionRequest,
        EdrError,
    >)
        ensures
            match request {
                Ok(CollectionRequest::Collections { address }) => {
                    &&& parsed_id(collection_id@) == Some(EdrIdView::Collections)
                    &&& joined_address(self.base_url@, collections_path()) == Some(address@)
                },
                Ok(CollectionRequest::Collection { id, address }) => {
                    &&& parsed_id(collection_id@) == Some(id@)
                    &&& is_listable(id@)
                    &&& metadata_address(self.base_url@, id@) == Some(address@)
                },
                Err(EdrError::InvalidLayerCollectionId) => match parsed_id(collection_id@) {
                    None => true,
                    Some(id) => id is ParameterAndHeight,
                },
                Err(error) => {
                    &&& error is InvalidAddress
                    &&& match parsed_id(collection_id@) {
                        Some(EdrIdView::Collections) => joined_address(
                            self.base_url@,
                            collections_path(),
                        ) is None,
                        Some(id) => is_listable(id) && metadata_address(self.base_url@, id) is None,
                        None => false,
                    }
                },
            },
    {
        let id = match EdrCollectionId::from_str(collection_id.0.as_str()) {
            Ok(id) => id,
            Err(_) => {
                return Err(EdrError::InvalidLayerCollectionId);
            },
        };
        let address = match &id {
            EdrCollectionId::Collections => {
                return match collections_address(self.base_url.as_str()) {
                    Ok(address) => Ok(CollectionRequest::Collections { address }),
                    Err(error) => Err(error),
                };
            },
            EdrCollectionId::Collection { collection } => collection_address(
                self.base_url.as_str(),
                collection.as_str(),
            ),
            EdrCollectionId::ParameterOrHeight { collection, .. } => collection_address(
                self.base_url.as_str(),
                collection.as_str(),
            ),
            EdrCollectionId::ParameterAndHeight { .. } => {
                return Err(EdrError::InvalidLayerCollectionId);
            },
        };
        match address {
            Ok(address) => Ok(CollectionRequest::Collection { id, address }),
            Err(error) => Err(error),
        }
    }

    /// Lists a collection once its metadata is loaded.
    ///
    /// From a raster collection a parameter is chosen, because a layer can only have one of them, and then
    /// a height, if there are several. All parameters of a vector collection can be loaded at once, so
    /// only a height is chosen.
    pub fn list_layer_collection(
        &self,
        collection_id: &LayerCollectionId,
        id: &EdrCollectionId,
        collection_meta: &EdrCollectionMetaData,
        options: &LayerCollectionListOptions,
    ) -> (listing: Result<LayerCollection, EdrError>)
        requires
            is_listable(id@),
            collection_meta.wf(),
        ensures
            ({
                let expected = collection_listing(
                    self.id.0,
                    collection_id@,
                    id@,
                    *collection_meta,
                    *options,
                );
                match listing {
                    Ok(listing) => collection_meta.is_raster() is Some && expected == Some(
                        listing@,
                    ),
                    Err(error) => if collection_meta.is_raster() is None {
                        error == no_supported_format()
                    } else {
                        expected is None && error is InvalidLayerCollectionId
                    },
                }
            }),
    {
        let raster = match collection_meta.is_raster_file() {
            Ok(raster) => raster,
            Err(error) => {
                return Err(error);
            },
        };
        match id {
            EdrCollectionId::Collection { .. } => if raster {
                Ok(self.get_raster_parameter_collection(collection_id, collection_meta, options))
            } else if collection_meta.extent.vertical.is_some() {
                Ok(self.get_vector_height_collection(collection_id, collection_meta, options))
            } else {
                Err(EdrError::InvalidLayerCollectionId)
            },
            EdrCollectionId::ParameterOrHeight {
                parameter,
                ..
            } => if raster && collection_meta.extent.vertical.is_some() {
                Ok(
                    self.get_raster_height_collection(
                        collection_id,
                        collection_meta,
                        parameter.as_str(),
                        options,
                    ),
                )
            } else {
                Err(EdrError::InvalidLayerCollectionId)
            },
            _ => Err(EdrError::InvalidLayerCollectionId),
        }
    }

    /// What has to be loaded for a layer.
    pub fn request_layer(&self, id: &LayerId) -> (request: Result<DatasetRequest, EdrError>)
        ensures
            match request {
                Ok(request) => parsed_id(id@) == Some(request.id@) && request.is_request_for(
                    self.base_url@,
                    request.id@,
                ),
                Err(EdrError::InvalidLayerCollectionId) => parsed_id(id@) is None,
                Err(EdrError::InvalidLayerId) => parsed_id(id@) == Some(EdrIdView::Collections),
                Err(error) => {
                    &&& error is InvalidAddress
                    &&& parsed_id(id@) is Some
                    &&& parsed_id(id@) != Some(EdrIdView::Collections)
                    &&& metadata_address(self.base_url@, parsed_id(id@)->0) is None
                },
            },
    {
        let id = match EdrCollectionId::from_str(id.0.as_str()) {
            Ok(id) => id,
            Err(error) => {
                return Err(error);
            },
        };
        let address = match id.get_collection_id() {
            Ok(name) => collection_address(self.base_url.as_str(), name.as_str()),
            Err(error) => {
                return Err(error);
            },
        };
        match address {
            Ok(address) => Ok(DatasetRequest { id, address }),
            Err(error) => Err(error),
        }
    }

    /// The layer, once the metadata of its collection is loaded. It has no symbology, and neither
    /// properties nor metadata.
    pub fn get_layer<S>(&self, id: &LayerId, collection: &EdrCollectionMetaData) -> (layer: Result<
        Layer<SourceOperator, S>,
        EdrError,
    >)
        ensures
            match layer {
                Ok(layer) => {
                    &&& collection.is_raster() matches Some(raster) && layer.workflow.loads(
                        raster,
                        self.id.0,
                        id@,
                    )
                    &&& layer.id.provider_id == self.id
                    &&& layer.id.layer_id == *id
                    &&& layer.name@ == match collection.title {
                        Some(title) => title@,
                        None => collection.id@,
                    }
                    &&& layer.description@ == Seq::<char>::empty()
                    &&& layer.symbology is None
                    &&& properties_view(layer.properties@) == Seq::<(Seq<char>, Seq<char>)>::empty()
                    &&& layer.metadata.wf()
                    &&& texts_view(layer.metadata@) == Map::<Seq<char>, Seq<char>>::empty()
                },
                Err(error) => collection.is_raster() is None && error == no_supported_format(),
            },
    {
        let raster = match collection.is_raster_file() {
            Ok(raster) => raster,
            Err(error) => {
                return Err(error);
            },
        };
        let data = NamedData { provider: uuid_to_string(self.id.0), name: id.0.clone() };
        let workflow = if raster {
            SourceOperator::GdalSource { data }
        } else {
            SourceOperator::OgrSource { data }
        };
        let name = match &collection.title {
            Some(title) => title.clone(),
            None => collection.id.clone(),
        };
        let description = String::new();
        let properties: Vec<Property> = Vec::new();
        let metadata: StringMap<String> = StringMap::new();
        proof {
            assert(description@ =~= Seq::<char>::empty());
            assert(properties_view(properties@) =~= Seq::<(Seq<char>, Seq<char>)>::empty());
            assert(texts_view(metadata@) =~= Map::<Seq<char>, Seq<char>>::empty());
        }
        Ok(
            Layer {
                id: ProviderLayerId { provider_id: self.id, layer_id: id.clone() },
                name,
                description,
                workflow,
                symbology: None,
                properties,
                metadata,
            },
        )
    }

    /// What has to be loaded for a dataset.
    pub fn request_dataset(&self, id: &DataId) -> (request: Result<DatasetRequest, EdrError>)
        ensures
            match dataset_id(*id) {
                Ok(dataset) => match request {
                    Ok(request) => request.is_request_for(self.base_url@, dataset),
                    Err(error) => error is InvalidAddress && metadata_address(
                        self.base_url@,
                        dataset,
                    ) is None,
                },
                Err(error) => request == Err::<DatasetRequest, EdrError>(error),
            },
    {
        match id {
            DataId::Internal { .. } => Err(EdrError::InvalidDataId),
            DataId::External { layer_id, .. } => self.request_layer(layer_id),
        }
    }

    /// What has to be loaded for a vector dataset. How its columns are found has to be configured.
    pub fn request_vector_dataset(&self, id: &DataId) -> (request: Result<DatasetRequest, EdrError>)
        ensures
            if self.vector_spec is None {
                request == Err::<DatasetRequest, EdrError>(no_vector_spec())
            } else {
                match dataset_id(*id) {
                    Ok(dataset) => match request {
                        Ok(request) => request.is_request_for(self.base_url@, dataset),
                        Err(error) => error is InvalidAddress && metadata_address(
                            self.base_url@,
                            dataset,
                        ) is None,
                    },
                    Err(error) => request == Err::<DatasetRequest, EdrError>(error),
                }
            },
    {
        if self.vector_spec.is_none() {
            return Err(
                EdrError::DatasetMetaData { source: EdrProviderError::NoVectorSpecConfigured },
            );
        }
        self.request_dataset(id)
    }

    /// Where to find a vector dataset and an item of it, once the metadata of its collection is loaded.
    pub fn probe_vector_dataset(
        &self,
        id: &EdrCollectionId,
        collection: &EdrCollectionMetaData,
    ) -> (probe: Result<VectorProbe, EdrError>)
        requires
            id@ is Collection || id@ is ParameterOrHeight,
        ensures
            match probe {
                Ok(probe) => probe.is_probe_of(
                    *collection,
                    self.base_url@,
                    vector_height(id@),
                    texts(self.discrete_vrs@),
                ),
                Err(error) => error == no_supported_format() && (collection.output_format(
                    EndpointKind::Cube,
                ) is None || collection.output_format(EndpointKind::Items) is None),
            },
    {
        let height = match id {
            EdrCollectionId::ParameterOrHeight { parameter, .. } => parameter.as_str(),
            _ => "default",
        };
        collection.get_vector_probe(self.base_url.as_str(), height, &self.discrete_vrs)
    }

    /// The metadata of a vector dataset, once its type is known.
    pub fn get_vector_meta_data<F: Fn(&String) -> Option<i64>>(
        &self,
        collection: &EdrCollectionMetaData,
        probe: VectorProbe,
        data_type: VectorDataType,
        parse: &F,
    ) -> (meta_data: Result<EdrMetaData<OgrSourceDataset, VectorResultDescriptor>, EdrError>)
        requires
            self.vector_spec is Some,
            collection.wf(),
            collection.has_interval(),
            collection.has_bbox(),
            forall|text: &String| call_requires(*parse, (text,)),
        ensures
            match meta_data {
                Ok(meta_data) => {
                    &&& meta_data.loading_info.is_source_of(
                        *collection,
                        probe.template_url@,
                        probe.layer_name@,
                        self.vector_spec->0,
                        self.cache_ttl,
                        data_type,
                    )
                    &&& meta_data.result_descriptor.describes(*collection, data_type, *parse)
                    &&& meta_data.template_url == probe.template_url
                },
                Err(error) => if collection.extent.temporal is None {
                    error == missing_temporal_extent()
                } else {
                    collection.extent.spatial is None && error == missing_spatial_extent()
                },
            },
    {
        let vector_spec = self.vector_spec.as_ref().unwrap().copy();
        collection.get_ogr_metadata(probe, vector_spec, self.cache_ttl, data_type, parse)
    }

    /// The template of the address of a raster dataset, once the metadata of its collection is loaded.
    pub fn get_raster_template(
        &self,
        id: &EdrCollectionId,
        collection: &EdrCollectionMetaData,
    ) -> (template_url: Result<String, EdrError>)
        requires
            id@ is ParameterOrHeight || id@ is ParameterAndHeight,
        ensures
            match template_url {
                Ok(template_url) => {
                    let format = collection.output_format(EndpointKind::Cube);
                    let discrete = collection.extent.is_discrete(texts(self.discrete_vrs@));
                    &&& format is Some
                    &&& template_url@ == raster_template(
                        self.base_url@,
                        collection.id@,
                        format->0,
                        raster_parameter(id@),
                        height_query(discrete, raster_height(id@)),
                    )
                },
                Err(error) => collection.output_format(EndpointKind::Cube) is None && error
                    == no_supported_format(),
            },
    {
        let (parameter, height) = match id {
            EdrCollectionId::ParameterOrHeight { parameter, .. } => (
                parameter.as_str(),
                "default",
            ),
            EdrCollectionId::ParameterAndHeight { parameter, height, .. } => (
                parameter.as_str(),
                height.as_str(),
            ),
            _ => ("", "default"),
        };
        collection.get_raster_template_url(
            self.base_url.as_str(),
            parameter,
            height,
            &self.discrete_vrs,
        )
    }

    /// The metadata of a raster dataset, once the raster was found out about.
    pub fn get_raster_meta_data<F: Fn(&String) -> Option<i64>>(
        &self,
        collection: &EdrCollectionMetaData,
        template_url: String,
        info: &DetectedRasterInfo,
        parse: &F,
    ) -> (meta_data: Result<EdrMetaData<GdalLoadingInfo, RasterResultDescriptor>, EdrError>)
        requires
            collection.has_interval(),
            collection.has_bbox(),
            forall|text: &String| call_requires(*parse, (text,)),
        ensures
            match meta_data {
                Ok(meta_data) => {
                    &&& are_parts_of(
                        meta_data.loading_info.parts@,
                        *collection,
                        template_url@,
                        *info,
                        self.cache_ttl,
                        *parse,
                    )
                    &&& meta_data.loading_info.parts@.len() > 0
                    &&& meta_data.loading_info.wf()
                    &&& meta_data.result_descriptor.describes(*collection, *info, *parse)
                    &&& meta_data.template_url == template_url
                },
                Err(error) => match collection.extent.temporal {
                    Some(temporal) => if temporal.values@.len() == 0 {
                        error == (EdrError::InvalidNumberOfTimeSteps { expected: 1, found: 0 })
                    } else {
                        collection.extent.spatial is None && error == missing_spatial_extent()
                    },
                    None => error == if collection.extent.spatial is None {
                        missing_spatial_extent()
                    } else {
                        missing_temporal_extent()
                    },
                },
            },
    {
        collection.get_gdal_metadata(template_url, info, self.cache_ttl, parse)
    }

    /// Mock datasets are not supported.
    pub fn get_mock_meta_data(&self, _id: &DataId) -> (error: EdrError)
        ensures
            error is NotYetImplemented,
    {
        EdrError::NotYetImplemented
    }
}

} // verus!
