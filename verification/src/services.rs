//! Side-channel services.

pub mod message;
