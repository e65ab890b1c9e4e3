//! The tile cache: tiles are kept compressed and decompressed when they are read.

pub mod container;
pub mod container_laws;
pub mod error;
pub mod grid;
pub mod lz4;
pub mod pixel;
pub mod stream;
pub mod tile;
pub mod tile_laws;
