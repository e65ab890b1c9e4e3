//! Verified core of a geo data engine: raster tiles and their processing, layer collections,
//! external data providers and the service rules around them.

pub mod api;
pub mod band_neighborhood_aggregate;
pub mod cache;
pub mod edr;
pub mod ids;
pub mod layers;
pub mod meteosat;
pub mod migrations;
pub mod primitives;
pub mod projects;
pub mod raster;
pub mod util;
