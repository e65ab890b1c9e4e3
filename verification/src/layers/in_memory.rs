//! The database that keeps layers and providers in memory.

use vstd::prelude::*;

use crate::layers::layer::{
    AddLayer, AddLayerCollection, DataProviderId, Layer, LayerCollection, LayerCollectionId,
    LayerCollectionListOptions, LayerId,
};
use crate::layers::model::LayerDbView;
use crate::layers::provider_db::{
    HashMapLayerProviderDbBackend, LayerProviderDb, LayerProviderDbError, LayerProviderListing,
    LayerProviderListingOptions, ProviderEntry, ProviderView,
};
use crate::layers::storage::{
    default_db, HashMapLayerDb, LayerCollectionProvider, LayerDb, LayerDbError,
};

verus! {

/// Layers and providers in memory.
pub struct InMemoryDb<W, S, P> {
    pub layer_db: HashMapLayerDb<W, S>,
    pub layer_provider_db: HashMapLayerProviderDbBackend<P>,
}

impl<W, S, P: Clone> Default for InMemoryDb<W, S, P> {
    fn default() -> (db: Self)
        ensures
            db.db_wf(),
            db.db() == default_db::<W, S>(),
            db.providers_wf(),
            db.providers() == Map::<u128, ProviderView<P>>::empty(),
    {
        InMemoryDb {
            layer_db: HashMapLayerDb::default(),
            layer_provider_db: HashMapLayerProviderDbBackend::default(),
        }
    }
}

impl<W: Clone, S: Clone, P> LayerCollectionProvider<W, S> for InMemoryDb<W, S, P> {
    open spec fn provided(&self) -> LayerDbView<W, S> {
        self.layer_db.provided()
    }

    open spec fn provider_wf(&self) -> bool {
        self.layer_db.provider_wf()
    }

    fn load_layer_collection(
        &self,
        collection_id: &LayerCollectionId,
        options: LayerCollectionListOptions,
    ) -> (collection: Result<LayerCollection, LayerDbError>) {
        self.layer_db.load_layer_collection(collection_id, options)
    }

    fn get_root_layer_collection_id(&self) -> (id: Result<LayerCollectionId, LayerDbError>) {
        self.layer_db.get_root_layer_collection_id()
    }

    fn load_layer(&self, id: &LayerId) -> (layer: Result<Layer<W, S>, LayerDbError>) {
        self.layer_db.load_layer(id)
    }
}

impl<W, S, P: Clone> LayerProviderDb<P> for InMemoryDb<W, S, P> {
    open spec fn providers(&self) -> Map<u128, ProviderView<P>> {
        self.layer_provider_db.providers()
    }

    open spec fn providers_wf(&self) -> bool {
        self.layer_provider_db.providers_wf()
    }

    fn add_layer_provider(&mut self, provider: ProviderEntry<P>) -> (id: Result<
        DataProviderId,
        LayerProviderDbError,
    >)
        ensures
            final(self).layer_db == old(self).layer_db,
    {
        self.layer_provider_db.add_layer_provider(provider)
    }

    fn list_layer_providers(&self, options: LayerProviderListingOptions) -> (listing: Result<
        Vec<LayerProviderListing>,
        LayerProviderDbError,
    >) {
        self.layer_provider_db.list_layer_providers(options)
    }

    fn load_layer_provider(&self, id: DataProviderId) -> (definition: Result<
        P,
        LayerProviderDbError,
    >) {
        self.layer_provider_db.load_layer_provider(id)
    }
}

impl<W, S, P> LayerDb<W, S> for InMemoryDb<W, S, P> {
    open spec fn db(&self) -> LayerDbView<W, S> {
        self.layer_db.db()
    }

    open spec fn db_wf(&self) -> bool {
        self.layer_db.db_wf()
    }

    fn add_layer(&mut self, layer: AddLayer<W, S>, collection: &LayerCollectionId) -> (id: Result<
        LayerId,
        LayerDbError,
    >)
        ensures
            final(self).layer_provider_db == old(self).layer_provider_db,
    {
        self.layer_db.add_layer(layer, collection)
    }

    fn add_layer_with_id(
        &mut self,
        id: &LayerId,
        layer: AddLayer<W, S>,
        collection: &LayerCollectionId,
    ) -> (result: Result<(), LayerDbError>)
        ensures
            final(self).layer_provider_db == old(self).layer_provider_db,
    {
        self.layer_db.add_layer_with_id(id, layer, collection)
    }

    fn add_layer_to_collection(
        &mut self,
        layer: &LayerId,
        collection: &LayerCollectionId,
    ) -> (result: Result<(), LayerDbError>)
        ensures
            final(self).layer_provider_db == old(self).layer_provider_db,
    {
        self.layer_db.add_layer_to_collection(layer, collection)
    }

    fn add_layer_collection(
        &mut self,
        collection: AddLayerCollection,
        parent: &LayerCollectionId,
    ) -> (id: Result<LayerCollectionId, LayerDbError>)
        ensures
            final(self).layer_provider_db == old(self).layer_provider_db,
    {
        self.layer_db.add_layer_collection(collection, parent)
    }

    fn add_layer_collection_with_id(
        &mut self,
        id: &LayerCollectionId,
        collection: AddLayerCollection,
        parent: &LayerCollectionId,
    ) -> (result: Result<(), LayerDbError>)
        ensures
            final(self).layer_provider_db == old(self).layer_provider_db,
    {
        self.layer_db.add_layer_collection_with_id(id, collection, parent)
    }

    fn add_collection_to_parent(
        &mut self,
        collection: &LayerCollectionId,
        parent: &LayerCollectionId,
    ) -> (result: Result<(), LayerDbError>)
        ensures
            final(self).layer_provider_db == old(self).layer_provider_db,
    {
        self.layer_db.add_collection_to_parent(collection, parent)
    }

    fn remove_layer_collection(&mut self, collection: &LayerCollectionId) -> (result: Result<
        (),
        LayerDbError,
    >)
        ensures
            final(self).layer_provider_db == old(self).layer_provider_db,
    {
        self.layer_db.remove_layer_collection(collection)
    }

    fn remove_layer_collection_from_parent(
        &mut self,
        collection: &LayerCollectionId,
        parent: &LayerCollectionId,
    ) -> (result: Result<(), LayerDbError>)
        ensures
            final(self).layer_provider_db == old(self).layer_provider_db,
    {
        self.layer_db.remove_layer_collection_from_parent(collection, parent)
    }

    fn remove_layer_from_collection(
        &mut self,
        layer: &LayerId,
        collection: &LayerCollectionId,
    ) -> (result: Result<(), LayerDbError>)
        ensures
            final(self).layer_provider_db == old(self).layer_provider_db,
    {
        self.layer_db.remove_layer_from_collection(layer, collection)
    }
}

} // verus!
