//! The query layer: read-through to the repositories with typed error
//! mapping and no further business logic.

pub mod ingredients;
pub mod recipes;
