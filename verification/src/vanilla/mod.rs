//! The source document format: models with parents, texture maps and cuboid
//! elements.

pub mod blockstate;
pub mod model;
pub mod texture;
