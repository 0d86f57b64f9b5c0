//! The durable backend's decisions. An on-disk engine keeps two stores, one
//! per keyspace; this type holds where they live and turns what they return
//! into the storage layer's values. The engine calls themselves are made by
//! the caller, which hands their results in.
use vstd::prelude::*;

use crate::codec::{decode_spec, deserialize_smt_branchnode_arm, encode_branch_node, leaf_value_of, node_bytes};
use crate::types::{BranchKey, BranchNode, H256, StoreError};

verus! {

/// What the branch store's path adds to the leaf store's path.
pub const BRANCH_SUFFIX: &'static str = "_-branch";

/// Where a store opened without a path lives, before its number.
pub const DEFAULT_PATH_PREFIX: &'static str = ".bench_db/rocksdb_default_";

/// Relies on `String::push_str`: appends the characters of `t`.
#[verifier::external_body]
fn push_str(s: &mut String, t: &str)
    ensures
        final(s)@ == old(s)@ + t@,
{
    s.push_str(t)
}

/// Where a durable store keeps its leaf and branch keyspaces.
pub struct SmtRockSdb {
    leaf_path: String,
    branch_path: String,
}

impl SmtRockSdb {
    /// The path of the leaf store.
    pub closed spec fn leaf_path_view(&self) -> Seq<char> {
        self.leaf_path@
    }

    /// The path of the branch store.
    pub closed spec fn branch_path_view(&self) -> Seq<char> {
        self.branch_path@
    }

    /// A store rooted at `dbpath`: leaves live at `dbpath`, branch nodes at
    /// `dbpath` followed by the branch suffix.
    pub fn new(dbpath: &str) -> (r: Self)
        ensures
            r.leaf_path_view() == dbpath@,
            r.branch_path_view() == dbpath@ + BRANCH_SUFFIX@,
    {
        let mut branch_path = dbpath.to_owned();
        push_str(&mut branch_path, BRANCH_SUFFIX);
        SmtRockSdb { leaf_path: dbpath.to_owned(), branch_path }
    }

    /// Whether this store lives under the default directory, told apart
    /// from others by `nonce` written in decimal after the default prefix.
    pub open spec fn is_default_for(&self, nonce: u64) -> bool {
        exists|digits: String|
            #![trigger vstd::string::to_string_from_display_ensures::<u64>(&nonce, digits)]
            vstd::string::to_string_from_display_ensures::<u64>(&nonce, digits)
                && self.leaf_path_view() == DEFAULT_PATH_PREFIX@ + digits@
                && self.branch_path_view() == DEFAULT_PATH_PREFIX@ + digits@ + BRANCH_SUFFIX@
    }

    /// A store under the default directory, numbered `nonce`.
    pub fn with_nonce(nonce: u64) -> (r: Self)
        ensures
            r.is_default_for(nonce),
    {
        let digits = nonce.to_string();
        let mut path = DEFAULT_PATH_PREFIX.to_owned();
        push_str(&mut path, digits.as_str());
        SmtRockSdb::new(path.as_str())
    }

    /// The path of the leaf store.
    pub fn leaf_path(&self) -> (r: &str)
        ensures
            r@ == self.leaf_path_view(),
    {
        self.leaf_path.as_str()
    }

    /// The path of the branch store.
    pub fn branch_path(&self) -> (r: &str)
        ensures
            r@ == self.branch_path_view(),
    {
        self.branch_path.as_str()
    }

    /// The record that stores `branch` at `key` in the branch store: the
    /// node's path key and its encoding.
    pub fn insert_branch(key: &BranchKey, branch: &BranchNode) -> (r: (H256, Vec<u8>))
        ensures
            r.0 == key.node_key,
            r.1@ == node_bytes(*branch),
    {
        (key.node_key, encode_branch_node(branch))
    }

    /// The branch node that the branch store returned, decoded. Bytes that do
    /// not decode are a format error, never an absent node.
    pub fn get_branch(stored: Option<Vec<u8>>) -> (r: Result<Option<BranchNode>, StoreError>)
        ensures
            match stored {
                None => r == Ok::<Option<BranchNode>, StoreError>(None),
                Some(d) => match decode_spec(d@) {
                    Some(n) => r == Ok::<Option<BranchNode>, StoreError>(Some(n)),
                    None => r == Err::<Option<BranchNode>, StoreError>(StoreError::Format),
                },
            },
    {
        match stored {
            None => Ok(None),
            Some(d) => match deserialize_smt_branchnode_arm(d.as_slice()) {
                Ok(n) => Ok(Some(n)),
                Err(e) => Err(e),
            },
        }
    }

    /// The leaf value that the leaf store returned, read as a hash.
    pub fn get_leaf(stored: Option<Vec<u8>>) -> (r: Result<Option<H256>, StoreError>)
        ensures
            match stored {
                None => r == Ok::<Option<H256>, StoreError>(None),
                Some(d) => match r {
                    Ok(Some(h)) => h@ == d@,
                    Ok(None) => false,
                    Err(e) => e == StoreError::ValueLength && d@.len() != 32,
                },
            },
    {
        match stored {
            None => Ok(None),
            Some(d) => match leaf_value_of(d.as_slice()) {
                Ok(h) => Ok(Some(h)),
                Err(e) => Err(e),
            },
        }
    }

    /// The outcome of taking a leaf out, given what the leaf store held under
    /// its key: the prior value, or an error when there was none, in which
    /// case nothing is to be deleted.
    pub fn remove(stored: Option<Vec<u8>>) -> (r: Result<Vec<u8>, StoreError>)
        ensures
            match stored {
                Some(v) => r == Ok::<Vec<u8>, StoreError>(v),
                None => r == Err::<Vec<u8>, StoreError>(StoreError::MissingKey),
            },
    {
        match stored {
            Some(v) => Ok(v),
            None => Err(StoreError::MissingKey),
        }
    }
}

} // verus!
