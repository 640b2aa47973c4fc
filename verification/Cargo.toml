[package]
name = "hotblocks"
version = "0.1.0"
edition = "2021"
publish = false

[dependencies]
anyhow = "1"
borsh = { version = "1", features = ["derive"] }
futures = "0.3"
prometheus-client = "0.23"
rocksdb = { version = "0.23", default-features = false, features = ["bindgen-runtime"] }
serde = { version = "1", features = ["derive"] }
serde_json = "1"
tokio = { version = "1", features = ["rt", "time", "sync", "macros"] }
tracing = "0.1"
