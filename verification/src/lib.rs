//! A configuration of bulk data-transfer jobs: processes that group transfers,
//! each moving data from a source to a destination under a named operation.
//!
//! The configuration is held in memory, looked up and changed by id, read
//! from JSON text and written back to it.

pub mod codec;
pub mod command;
pub mod configuration;
pub mod json;
pub mod keyed;
pub mod process;
pub mod transfer;
pub mod uri;
