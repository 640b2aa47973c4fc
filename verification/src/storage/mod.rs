//! Transactions on the store of chunks.
pub mod attempt_laws;
pub mod chain;
pub mod chain_laws;
pub mod codec;
pub mod codec_laws;
pub mod finality;
pub mod finality_laws;
pub mod index;
pub mod laws;
pub mod mutation;
pub mod retry;
pub mod run;
pub mod run_laws;
pub mod staging_laws;
pub mod store_laws;
pub mod tx;
