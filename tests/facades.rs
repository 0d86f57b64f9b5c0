use smt_store::facades::{
    init_lsmtree_memstore_blake3, init_lsmtree_rocksdb_blake3, init_monotree_memstore_blake3,
    init_monotree_rocksdb_blake3, init_sparse_merkle_tree_blake3_memorystore,
    init_sparse_merkle_tree_blake3_rocksdb, random_hash,
};

#[test]
fn random_hashes_differ() {
    let a = random_hash();
    let b = random_hash();
    assert_ne!(a, b);
}

#[test]
fn lsmtree_memory_stores_start_empty() {
    let (nodes, values) = init_lsmtree_memstore_blake3();
    assert!(!nodes.contains(&[0; 32]));
    assert_eq!(values.get(&[1; 32]), None);
}

#[test]
fn lsmtree_disk_stores_are_numbered() {
    let (nodes, values) = init_lsmtree_rocksdb_blake3(7, 18446744073709551615);
    assert_eq!(nodes.leaf_path(), ".bench_db/rocksdb_default_7");
    assert_eq!(nodes.branch_path(), ".bench_db/rocksdb_default_7_-branch");
    assert_eq!(values.leaf_path(), ".bench_db/rocksdb_default_18446744073709551615");
}

#[test]
fn monotree_setups() {
    let (store, hasher) = init_monotree_memstore_blake3();
    assert_eq!(store.get(&[2; 32]), None);
    assert_eq!(hasher.finish(), *blake3::hash(b"").as_bytes());
    let (disk, _) = init_monotree_rocksdb_blake3();
    assert_eq!(disk.leaf_path(), "./.bench_db/monotree_rocksdb_blake3");
    assert_eq!(disk.branch_path(), "./.bench_db/monotree_rocksdb_blake3_-branch");
}

#[test]
fn sparse_merkle_tree_setups_start_at_zero_root() {
    let (root, store) = init_sparse_merkle_tree_blake3_memorystore();
    assert_eq!(root, [0; 32]);
    assert_eq!(store.get_leaf(&[0; 32]), Ok(None));
    let (root, disk) = init_sparse_merkle_tree_blake3_rocksdb(0);
    assert_eq!(root, [0; 32]);
    assert_eq!(disk.leaf_path(), ".bench_db/rocksdb_default_0");
}
