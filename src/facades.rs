//! What each tree algorithm is set up with: its backend stores, hasher and
//! starting root, and random hashes to fill it with.
use vstd::prelude::*;

use crate::durable_store::{SmtRockSdb, BRANCH_SUFFIX};
use crate::hasher::Blake3SmtHasher;
use crate::memory_store::MemoryStore;
use crate::types::{BranchKey, BranchNode, H256};

verus! {

/// Path of the durable store of the monotree setup.
pub const MONOTREE_ROCKSDB_PATH: &'static str = "./.bench_db/monotree_rocksdb_blake3";

/// Relies on `monotree::utils::random_hash`: 32 random bytes. Nothing is
/// promised of their value.
pub assume_specification[ monotree::utils::random_hash ]() -> (r: monotree::Hash);

/// A random hash.
pub fn random_hash() -> (r: H256) {
    monotree::utils::random_hash()
}

/// The node store and the value store of an lsmtree held in memory: both
/// empty.
pub fn init_lsmtree_memstore_blake3() -> (r: (MemoryStore, MemoryStore))
    ensures
        r.0.leaves() == Map::<Seq<u8>, Seq<u8>>::empty(),
        r.0.branches() == Map::<BranchKey, BranchNode>::empty(),
        r.1.leaves() == Map::<Seq<u8>, Seq<u8>>::empty(),
        r.1.branches() == Map::<BranchKey, BranchNode>::empty(),
{
    (MemoryStore::new(), MemoryStore::new())
}

/// The node store and the value store of an lsmtree kept on disk, each
/// under the default directory with its own number.
pub fn init_lsmtree_rocksdb_blake3(nodes_nonce: u64, values_nonce: u64) -> (r: (
    SmtRockSdb,
    SmtRockSdb,
))
    ensures
        r.0.is_default_for(nodes_nonce),
        r.1.is_default_for(values_nonce),
{
    (SmtRockSdb::with_nonce(nodes_nonce), SmtRockSdb::with_nonce(values_nonce))
}

/// The store and hasher of a monotree held in memory: an empty store and a
/// hasher that has absorbed nothing.
pub fn init_monotree_memstore_blake3() -> (r: (MemoryStore, Blake3SmtHasher))
    ensures
        r.0.leaves() == Map::<Seq<u8>, Seq<u8>>::empty(),
        r.0.branches() == Map::<BranchKey, BranchNode>::empty(),
        r.1@ == Seq::<u8>::empty(),
{
    (MemoryStore::new(), Blake3SmtHasher::new())
}

/// The store and hasher of a monotree kept on disk at its fixed path.
pub fn init_monotree_rocksdb_blake3() -> (r: (SmtRockSdb, Blake3SmtHasher))
    ensures
        r.0.leaf_path_view() == MONOTREE_ROCKSDB_PATH@,
        r.0.branch_path_view() == MONOTREE_ROCKSDB_PATH@ + BRANCH_SUFFIX@,
        r.1@ == Seq::<u8>::empty(),
{
    (SmtRockSdb::new(MONOTREE_ROCKSDB_PATH), Blake3SmtHasher::new())
}

/// The starting root and store of a sparse Merkle tree held in memory: the
/// all-zero root over an empty store.
pub fn init_sparse_merkle_tree_blake3_memorystore() -> (r: (H256, MemoryStore))
    ensures
        r.0@ == Seq::new(32, |i: int| 0u8),
        r.1.leaves() == Map::<Seq<u8>, Seq<u8>>::empty(),
        r.1.branches() == Map::<BranchKey, BranchNode>::empty(),
{
    let root: H256 = [0u8; 32];
    assert(root@ =~= Seq::new(32, |i: int| 0u8));
    (root, MemoryStore::new())
}

/// The starting root and store of a sparse Merkle tree kept on disk: the
/// all-zero root over a store under the default directory.
pub fn init_sparse_merkle_tree_blake3_rocksdb(nonce: u64) -> (r: (H256, SmtRockSdb))
    ensures
        r.0@ == Seq::new(32, |i: int| 0u8),
        r.1.is_default_for(nonce),
{
    let root: H256 = [0u8; 32];
    assert(root@ =~= Seq::new(32, |i: int| 0u8));
    (root, SmtRockSdb::with_nonce(nonce))
}

} // verus!
