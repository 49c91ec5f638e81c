//! Native plugin runtime for an overlay host application.
//!
//! The crate models the runtime that loads foreign plugin modules through a
//! fixed binary calling contract, drives their lifecycle, and bridges the
//! events they emit into a host-wide service bus with optional JSON-schema
//! validation of payloads.

pub mod abi;
pub mod embedded;
pub mod error;
pub mod host;
pub mod hot_reload;
pub mod json;
pub mod keyed;
pub mod manager;
pub mod manifest;
pub mod protocol;
pub mod registry;
pub mod strutil;
pub mod system;
