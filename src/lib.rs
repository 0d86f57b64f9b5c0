//! Storage adapters for authenticated (sparse Merkle) trees: a byte codec for
//! branch nodes, a hashing adapter, an in-memory backend and the decisions of
//! a durable backend, each with a contract proved by Verus.

pub mod codec;
pub mod durable_store;
pub mod facades;
pub mod hasher;
pub mod keys;
pub mod memory_store;
pub mod types;
