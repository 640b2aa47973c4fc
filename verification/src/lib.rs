//! Hot block storage: blocks are streamed from redundant endpoints, written to a
//! transactional store of chunks and served to queries.
//!
//! The library decides; it does no input or output of its own. Whoever drives it
//! hands in what was read or received, carries out what it asks for, and comes back
//! with what came of it.
pub mod duration;
pub mod text;
pub mod text_laws;
pub mod prom;
pub mod types;
pub mod types_laws;
pub mod data_source;
pub mod storage;
pub mod service;
pub mod evm;
