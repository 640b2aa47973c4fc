//! Blocks of EVM chains.
pub mod data_mask;
pub mod laws;
pub mod model;
pub mod quantity;
