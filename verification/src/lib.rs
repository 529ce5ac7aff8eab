//! Bringing a declared set of remote mount targets into a mounted state:
//! the per-target status machine, the decisions of the dispatcher and the
//! aggregator, the parsers for the two text inputs, and the incremental
//! renderer that keeps every target on its own terminal row.
//!
//! Everything here computes on plain values. Running commands, spawning
//! workers and writing to the terminal is left to the caller.

pub mod config;
pub mod cursor;
pub mod host;
pub mod registry;
pub mod snapshot;
pub mod status;
pub mod text;
pub mod width;
