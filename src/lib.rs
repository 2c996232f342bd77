//! A line-oriented chat relay: a byte-level line framer, a per-connection
//! handler state machine, and a single registry that owns the membership
//! table and decides every delivery.

pub mod framer;
pub mod server;
pub mod client;
