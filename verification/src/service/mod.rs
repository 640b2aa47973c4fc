//! Serving datasets.
pub mod collectors;
pub mod data_service;
pub mod gauge_laws;
pub mod laws;
pub mod metrics;
pub mod query;
pub mod query_laws;
pub mod start_laws;
