//! The older recipe read path, kept alongside the newer query layer.

pub mod recipes;
