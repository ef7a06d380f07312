//! Repository contracts and their in-memory implementations.

pub mod ingredients;
pub mod recipes;
