//! Texts, maps and orders that the rest of the library builds on.

pub mod clones;
pub mod metadata;
pub mod sort;
pub mod string_map;
pub mod text;
