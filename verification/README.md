# hotblocks

Storage and service of the newest blocks of a chain, with verified decisions.

- `src/data_source` merges the block streams of redundant endpoints: positions,
  parent-hash checks, pauses after faults, fork decisions.
- `src/storage` stages changes to the store of chunks and its hash indexes, holds new
  chunks to the stored chain and to finalized history, and runs transactions within a
  budget of attempts and time.
- `src/service` starts the configured datasets, admits queries and computes metrics.
- `src/evm` models the blocks of EVM chains.
- `src/prom.rs` and `src/storage/codec.rs` hold what is trusted of `prometheus_client`
  and `borsh`.

Properties that span several functions stand in the `laws.rs` files, in
`src/storage/store_laws.rs` (the store after a commit), `src/storage/run_laws.rs` (a run
over all its attempts) and `src/storage/codec.rs` (bytes that read back).

`app/` drives the library: HTTP clients, RocksDB, the metrics scraper and JSON.
