//! The command layer: one unit of work per use case.

pub mod ingredients;
pub mod recipes;
