//! Access to services that implement OGC API - Environmental Data Retrieval.

pub mod address;
pub mod dataset_laws;
pub mod description_laws;
pub mod error;
pub mod id;
pub mod laws;
pub mod listing;
pub mod metadata;
pub mod provider;
pub mod query;
pub mod raster;
pub mod request;
pub mod vector;
