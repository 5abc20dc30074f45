//! The core of a URL shortening service: short ids are drawn at random,
//! checked against the mapping store and bound to long URLs, and every
//! redirect is counted.
//!
//! The services in `handler` decide; they do not touch the store. `data`
//! holds what they make of a single answer of the store, `ident` the id
//! generator, `canonical` the URL parser. `store` is the mapping store in
//! memory, `run` takes a request through it from start to end, and `laws`
//! states what then holds.

pub mod canonical;
pub mod data;
pub mod error;
pub mod handler;
pub mod ident;
pub mod laws;
pub mod model;
pub mod run;
pub mod store;
