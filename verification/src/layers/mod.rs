//! Layers and the collections that they are organised in.

pub mod in_memory;
pub mod laws;
pub mod layer;
pub mod listing_laws;
pub mod lists;
pub mod model;
pub mod provider_db;
pub mod storage;
