//! Domain entities and their validation.

pub mod ingredient;
pub mod recipe;
