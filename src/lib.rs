//! Harvests transaction signatures of an on-chain program, keeps them as work
//! items and advances each item through its processing states.

pub mod env;
pub mod harvest;
pub mod ingest;
pub mod process;
pub mod store;
pub mod types;
