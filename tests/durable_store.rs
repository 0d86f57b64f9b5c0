use smt_store::codec::encode_branch_node;
use smt_store::durable_store::SmtRockSdb;
use smt_store::types::{BranchKey, BranchNode, MergeValue, StoreError};

fn node() -> BranchNode {
    BranchNode { left: MergeValue::Value([8; 32]), right: MergeValue::Value([9; 32]) }
}

#[test]
fn paths_of_the_two_keyspaces() {
    let s = SmtRockSdb::new(".bench_db/tree");
    assert_eq!(s.leaf_path(), ".bench_db/tree");
    assert_eq!(s.branch_path(), ".bench_db/tree_-branch");
}

#[test]
fn branch_record_is_node_key_and_encoding() {
    let key = BranchKey { height: 3, node_key: [0x12; 32] };
    let (k, v) = SmtRockSdb::insert_branch(&key, &node());
    assert_eq!(k, [0x12; 32]);
    assert_eq!(v, encode_branch_node(&node()));
    assert_eq!(v.len(), 66);
}

#[test]
fn stored_branch_decodes() {
    let bytes = encode_branch_node(&node());
    assert_eq!(SmtRockSdb::get_branch(Some(bytes)), Ok(Some(node())));
    assert_eq!(SmtRockSdb::get_branch(None), Ok(None));
}

#[test]
fn corrupt_branch_is_not_absence() {
    assert_eq!(SmtRockSdb::get_branch(Some(vec![7, 1, 2])), Err(StoreError::Format));
    let mut bytes = encode_branch_node(&node());
    bytes.pop();
    assert_eq!(SmtRockSdb::get_branch(Some(bytes)), Err(StoreError::Format));
}

#[test]
fn stored_leaf_reads_as_hash() {
    assert_eq!(SmtRockSdb::get_leaf(Some(vec![3; 32])), Ok(Some([3; 32])));
    assert_eq!(SmtRockSdb::get_leaf(None), Ok(None));
    assert_eq!(SmtRockSdb::get_leaf(Some(vec![3; 5])), Err(StoreError::ValueLength));
}

#[test]
fn take_needs_a_prior_value() {
    assert_eq!(SmtRockSdb::remove(Some(vec![1, 2])), Ok(vec![1, 2]));
    assert_eq!(SmtRockSdb::remove(None), Err(StoreError::MissingKey));
}
