//! The provider of the data of an EDR service.

use vstd::prelude::*;

use crate::edr::vector::{CacheTtlSeconds, EdrVectorSpec};
use crate::layers::layer::{DataProviderId, LayerId};

verus! {

/// Where data comes from.
#[derive(Debug, PartialEq, Eq)]
pub struct Provenance {
    pub citation: String,
    pub license: String,
    pub uri: String,
}

impl Provenance {
    pub fn copy(&self) -> (copy: Self)
        ensures
            copy == *self,
    {
        Provenance {
            citation: self.citation.clone(),
            license: self.license.clone(),
            uri: self.uri.clone(),
        }
    }
}

/// What identifies data: a dataset of this application, or a layer of a provider.
#[derive(Debug, PartialEq, Eq)]
pub enum DataId {
    Internal { dataset_id: u128 },
    External { provider_id: DataProviderId, layer_id: LayerId },
}

impl DataId {
    pub fn copy(&self) -> (copy: Self)
        ensures
            copy == *self,
    {
        match self {
            DataId::Internal { dataset_id } => DataId::Internal { dataset_id: *dataset_id },
            DataId::External { provider_id, layer_id } => DataId::External {
                provider_id: *provider_id,
                layer_id: layer_id.clone(),
            },
        }
    }
}

#[derive(Debug, PartialEq, Eq)]
pub struct ProvenanceOutput {
    pub data: DataId,
    pub provenance: Option<Vec<Provenance>>,
}

/// The definition of a provider.
#[derive(Debug, PartialEq, Eq)]
pub struct EdrDataProviderDefinition {
    pub name: String,
    pub description: String,
    pub priority: Option<i16>,
    pub id: DataProviderId,
    /// The address of the service, with a slash at its end.
    pub base_url: String,
    pub vector_spec: Option<EdrVectorSpec>,
    pub cache_ttl: CacheTtlSeconds,
    /// List of vertical reference systems with a discrete scale
    pub discrete_vrs: Vec<String>,
    pub provenance: Option<Vec<Provenance>>,
}

/// The provider of the collections of an EDR service.
#[derive(Debug, PartialEq, Eq)]
pub struct EdrDataProvider {
    pub id: DataProviderId,
    pub name: String,
    pub description: String,
    /// The address of the service, with a slash at its end.
    pub base_url: String,
    pub vector_spec: Option<EdrVectorSpec>,
    pub cache_ttl: CacheTtlSeconds,
    /// List of vertical reference systems with a discrete scale
    pub discrete_vrs: Vec<String>,
    pub provenance: Option<Vec<Provenance>>,
}

impl EdrDataProviderDefinition {
    /// The provider that is defined.
    pub fn initialize(self) -> (provider: EdrDataProvider)
        ensures
            provider == (EdrDataProvider {
                id: self.id,
                name: self.name,
                description: self.description,
                base_url: self.base_url,
                vector_spec: self.vector_spec,
                cache_ttl: self.cache_ttl,
                discrete_vrs: self.discrete_vrs,
                provenance: self.provenance,
            }),
    {
        EdrDataProvider {
            id: self.id,
            name: self.name,
            description: self.description,
            base_url: self.base_url,
            vector_spec: self.vector_spec,
            cache_ttl: self.cache_ttl,
            discrete_vrs: self.discrete_vrs,
            provenance: self.provenance,
        }
    }

    /// What kind of provider this is.
    pub fn type_label(&self) -> (label: &'static str)
        ensures
            label@ == "Environmental Data Retrieval"@,
    {
        "Environmental Data Retrieval"
    }

    pub fn name(&self) -> (name: String)
        ensures
            name == self.name,
    {
        self.name.clone()
    }

    pub fn id(&self) -> (id: DataProviderId)
        ensures
            id == self.id,
    {
        self.id
    }

    /// The priority, which is zero by default.
    pub fn priority(&self) -> (priority: i16)
        ensures
            priority == match self.priority {
                Some(priority) => priority,
                None => 0,
            },
    {
        match self.priority {
            Some(priority) => priority,
            None => 0,
        }
    }
}

/// What a provider can be asked for.
#[derive(Clone, Copy, Debug, PartialEq, Eq)]
pub struct ProviderCapabilities {
    pub listing: bool,
    pub search: SearchCapabilities,
}

/// How a provider can be searched.
#[derive(Clone, Copy, Debug, PartialEq, Eq)]
pub struct SearchCapabilities {
    pub fulltext: bool,
    pub prefix: bool,
    pub autocomplete: bool,
}

impl EdrDataProvider {
    /// Where data of this provider comes from, which is the same for all of it.
    pub fn provenance(&self, id: &DataId) -> (output: ProvenanceOutput)
        ensures
            output.data == *id,
            match (output.provenance, self.provenance) {
                (Some(provenance), Some(own)) => provenance@ == own@,
                (None, None) => true,
                _ => false,
            },
    {
        let provenance = match &self.provenance {
            Some(own) => {
                let mut copy: Vec<Provenance> = Vec::new();
                let mut i: usize = 0;
                while i < own.len()
                    invariant
                        i <= own@.len(),
                        copy@ =~= own@.take(i as int),
                    decreases own@.len() - i,
                {
                    copy.push(own[i].copy());
                    i += 1;
                }
                assert(own@.take(i as int) =~= own@);
                Some(copy)
            },
            None => None,
        };
        ProvenanceOutput { data: id.copy(), provenance }
    }

    /// Collections can be listed, but not searched.
    pub fn capabilities(&self) -> (capabilities: ProviderCapabilities)
        ensures
            capabilities == (ProviderCapabilities {
                listing: true,
                search: SearchCapabilities { fulltext: false, prefix: false, autocomplete: false },
            }),
    {
        ProviderCapabilities {
            listing: true,
            search: SearchCapabilities { fulltext: false, prefix: false, autocomplete: false },
        }
    }

    pub fn name(&self) -> (name: &str)
        ensures
            name@ == self.name@,
    {
        self.name.as_str()
    }

    pub fn description(&self) -> (description: &str)
        ensures
            description@ == self.description@,
    {
        self.description.as_str()
    }
}

} // verus!
