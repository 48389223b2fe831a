//! A replicated key-value store with erasure-coded values.
//!
//! A leader sequences the writes of a cluster in two rounds, prepare and
//! accept. With erasure coding each node logs one shard of every value, and
//! a read that finds nothing in memory reconstructs the value from the
//! shards of the cluster.
//!
//! The library decides and computes; it performs no input or output. Each
//! handler of a [`classes::node::Node`] takes what was received and returns
//! what is to be sent or written, and the caller does the sending and the
//! writing.

pub mod base_libs;
pub mod classes;
pub mod erasure_coding;
pub mod leader;
pub mod text;
pub mod types;
pub mod wal;
