//! Domain core of a recipe and ingredient management backend.
//!
//! The library validates untrusted input into domain entities, defines the
//! repository contracts that persistence implementations must satisfy, ships a
//! verified in-memory implementation of each, and orchestrates commands and
//! queries (create or delete an ingredient, create, read, update or delete a
//! recipe) over those contracts.  HTTP adapters, the relational store and the
//! message-bus client live outside the library and talk to it through plain
//! values.

pub mod amount;
pub mod assoc;
pub mod commands;
pub mod configuration;
pub mod entities;
pub mod ids;
pub mod jsonval;
pub mod middleware;
pub mod modules;
pub mod queries;
pub mod repositories;
pub mod services;
pub mod text;
