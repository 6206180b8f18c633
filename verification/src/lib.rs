//! Layered fee/relay configuration for Ethereum validator clients.
//!
//! The crate provides the configuration resolution engine that merges a
//! named baseline ("default config"), per-validator overrides ("proposers")
//! and tag-selected rule overrides ("proposer patterns") into one response,
//! the fixed-width hex codec for the identifiers every entity is keyed by,
//! and the deduplicated key-set manager behind the mux endpoints.
#![verifier::loop_isolation(false)]

pub mod audit;
pub mod auth;
pub mod codec;
pub mod config;
pub mod error;
pub mod health;
pub mod models;
pub mod mux;
pub mod resolve;
pub mod schema;
pub mod store;
pub mod strutil;
