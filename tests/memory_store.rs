use smt_store::memory_store::MemoryStore;
use smt_store::types::{BranchKey, BranchNode, MergeValue, StoreError};

#[test]
fn put_get_delete_leaf_value() {
    let mut store = MemoryStore::new();
    let key = [0xAA; 32];
    store.put(&key, b"leaf-value".to_vec());
    assert_eq!(store.get(&key), Some(b"leaf-value".to_vec()));
    assert!(store.contains(&key));
    store.delete(&key);
    assert_eq!(store.get(&key), None);
    assert!(!store.contains(&key));
}

#[test]
fn put_overwrites() {
    let mut store = MemoryStore::default();
    let key = [0x01; 32];
    store.put(&key, vec![1]);
    store.set(&key, vec![2, 3]);
    assert_eq!(store.get(&key), Some(vec![2, 3]));
}

#[test]
fn other_writes_keep_a_stored_key() {
    let mut store = MemoryStore::new();
    let key = [0x05; 32];
    store.put(&key, vec![9]);
    store.init_batch();
    for i in 0u8..50 {
        let other = [i.wrapping_mul(7).wrapping_add(100); 32];
        if other != key {
            store.put(&other, vec![i]);
            if i % 3 == 0 {
                store.delete(&other);
            }
        }
    }
    store.finish_batch();
    assert!(store.contains(&key));
    assert_eq!(store.get(&key), Some(vec![9]));
}

#[test]
fn delete_absent_key_is_harmless() {
    let mut store = MemoryStore::new();
    store.put(&[1; 32], vec![1]);
    store.delete(&[2; 32]);
    assert_eq!(store.get(&[1; 32]), Some(vec![1]));
}

#[test]
fn keys_differing_in_last_byte_are_distinct() {
    let mut store = MemoryStore::new();
    let mut a = [0u8; 32];
    let mut b = [0u8; 32];
    a[31] = 1;
    b[31] = 2;
    store.put(&a, vec![1]);
    store.put(&b, vec![2]);
    assert_eq!(store.get(&a), Some(vec![1]));
    assert_eq!(store.get(&b), Some(vec![2]));
    let mut c = [0u8; 32];
    c[15] = 1;
    assert_eq!(store.get(&c), None);
}

#[test]
fn take_returns_prior_value_and_removes() {
    let mut store = MemoryStore::new();
    let key = [0x33; 32];
    store.put(&key, vec![4, 5, 6]);
    assert_eq!(store.remove(&key), Ok(vec![4, 5, 6]));
    assert!(!store.contains(&key));
    assert_eq!(store.remove(&key), Err(StoreError::MissingKey));
}

#[test]
fn leaf_hashes() {
    let mut store = MemoryStore::new();
    let key = [0x44; 32];
    assert_eq!(store.get_leaf(&key), Ok(None));
    store.insert_leaf(key, [0x55; 32]);
    assert_eq!(store.get_leaf(&key), Ok(Some([0x55; 32])));
    assert_eq!(store.get(&key), Some(vec![0x55; 32]));
    store.remove_leaf(&key);
    assert_eq!(store.get_leaf(&key), Ok(None));
}

#[test]
fn leaf_of_wrong_length_is_an_error() {
    let mut store = MemoryStore::new();
    let key = [0x66; 32];
    store.put(&key, b"leaf-value".to_vec());
    assert_eq!(store.get_leaf(&key), Err(StoreError::ValueLength));
}

#[test]
fn branches_are_their_own_keyspace() {
    let mut store = MemoryStore::new();
    let node = BranchNode {
        left: MergeValue::Value([1; 32]),
        right: MergeValue::MergeWithZero { base_node: [2; 32], zero_bits: [3; 32], zero_count: 4 },
    };
    let low = BranchKey { height: 0, node_key: [0x77; 32] };
    let high = BranchKey { height: 1, node_key: [0x77; 32] };
    store.insert_branch(low, node);
    assert_eq!(store.get_branch(&low), Some(node));
    assert_eq!(store.get_branch(&high), None);
    assert_eq!(store.get(&[0x77; 32]), None);
    store.put(&[0x77; 32], vec![1]);
    assert_eq!(store.get_branch(&low), Some(node));
    store.remove_branch(&low);
    assert_eq!(store.get_branch(&low), None);
    assert_eq!(store.get(&[0x77; 32]), Some(vec![1]));
}
