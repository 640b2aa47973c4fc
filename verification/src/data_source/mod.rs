//! Streaming blocks from redundant endpoints.
pub mod answer_laws;
pub mod laws;
pub mod metrics;
pub mod standard;
