//! Replication and consistency engine of an in-memory, last-writer-wins key-value store: the
//! timestamped store with tombstones, the append-only log and its replay, the peer pool, quorum
//! bookkeeping and read-repair.

pub mod aol;
pub mod cli;
pub mod config;
pub mod convergence;
pub mod http_server;
pub mod lally;
pub mod operation;
pub mod pool;
pub mod quorum;
pub mod record;
pub mod repair;
pub mod round_trip;
pub mod server;
pub mod store;
pub mod timestamp;
