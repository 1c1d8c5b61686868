//! Block-ordered state projector for a bond-trading ledger.
//!
//! The library turns opaque ledger state addresses into typed domain
//! records, interprets raw state mutations as typed operations, and applies
//! those operations to a versioned history store that resolves forks and
//! duplicate block deliveries atomically.

pub mod addressing;
pub mod models;
pub mod codec;
pub mod event_handler;
pub mod data_manager;
pub mod store_laws;
