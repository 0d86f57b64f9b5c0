//! The in-memory backend: two ordered maps, one for leaves and one for
//! branch nodes, held for the life of the handle.
use vstd::prelude::*;

use std::collections::BTreeMap;

use crate::codec::leaf_value_of;
use crate::keys::{branch_key, branch_key_of, hash_key, hash_key_of, lemma_branch_key_injective, lemma_hash_key_injective};
use crate::types::{BranchKey, BranchNode, H256, StoreError};

verus! {

broadcast use {vstd::std_specs::btree::group_btree_axioms, vstd::laws_cmp::group_laws_cmp};

/// An in-memory store with independent leaf and branch keyspaces.
pub struct MemoryStore {
    db: BTreeMap<(u128, u128), Vec<u8>>,
    branch_db: BTreeMap<(u8, u128, u128), BranchNode>,
}

impl MemoryStore {
    /// The leaf keyspace: 32-byte keys to byte values.
    pub closed spec fn leaves(&self) -> Map<Seq<u8>, Seq<u8>> {
        Map::new(
            |k: Seq<u8>| k.len() == 32 && self.db@.contains_key(hash_key(k)),
            |k: Seq<u8>| self.db@[hash_key(k)]@,
        )
    }

    /// The branch keyspace: positions to branch nodes.
    pub closed spec fn branches(&self) -> Map<BranchKey, BranchNode> {
        Map::new(
            |k: BranchKey| self.branch_db@.contains_key(branch_key(k)),
            |k: BranchKey| self.branch_db@[branch_key(k)],
        )
    }

    /// An empty store.
    pub fn new() -> (r: Self)
        ensures
            r.leaves() == Map::<Seq<u8>, Seq<u8>>::empty(),
            r.branches() == Map::<BranchKey, BranchNode>::empty(),
    {
        let r = MemoryStore { db: BTreeMap::new(), branch_db: BTreeMap::new() };
        assert(r.leaves() =~= Map::<Seq<u8>, Seq<u8>>::empty());
        assert(r.branches() =~= Map::<BranchKey, BranchNode>::empty());
        r
    }

    /// The value stored under `key`, if any.
    pub fn get(&self, key: &H256) -> (r: Option<Vec<u8>>)
        ensures
            match r {
                Some(v) => self.leaves().contains_key(key@) && v@ == self.leaves()[key@],
                None => !self.leaves().contains_key(key@),
            },
    {
        match self.db.get(&hash_key_of(key)) {
            Some(v) => Some(v.clone()),
            None => None,
        }
    }

    /// Stores `value` under `key`, replacing any earlier value.
    pub fn put(&mut self, key: &H256, value: Vec<u8>)
        ensures
            final(self).leaves() == old(self).leaves().insert(key@, value@),
            final(self).branches() == old(self).branches(),
    {
        let ghost v = value@;
        self.db.insert(hash_key_of(key), value);
        proof {
            assert forall|k: Seq<u8>| k.len() == 32 && hash_key(k) == hash_key(key@) implies k
                == key@ by {
                lemma_hash_key_injective(k, key@);
            }
            assert(self.leaves() =~= old(self).leaves().insert(key@, v));
            assert(self.branches() =~= old(self).branches());
        }
    }

    /// Removes the value under `key`, if any.
    pub fn delete(&mut self, key: &H256)
        ensures
            final(self).leaves() == old(self).leaves().remove(key@),
            final(self).branches() == old(self).branches(),
    {
        self.db.remove(&hash_key_of(key));
        proof {
            assert forall|k: Seq<u8>| k.len() == 32 && hash_key(k) == hash_key(key@) implies k
                == key@ by {
                lemma_hash_key_injective(k, key@);
            }
            assert(self.leaves() =~= old(self).leaves().remove(key@));
            assert(self.branches() =~= old(self).branches());
        }
    }

    /// Opens a group of writes; this backend applies each write at once.
    pub fn init_batch(&mut self)
        ensures
            final(self).leaves() == old(self).leaves(),
            final(self).branches() == old(self).branches(),
    {
    }

    /// Closes a group of writes; this backend applies each write at once.
    pub fn finish_batch(&mut self)
        ensures
            final(self).leaves() == old(self).leaves(),
            final(self).branches() == old(self).branches(),
    {
    }

    /// The branch node stored at `key`, if any.
    pub fn get_branch(&self, key: &BranchKey) -> (r: Option<BranchNode>)
        ensures
            r == (if self.branches().contains_key(*key) {
                Some(self.branches()[*key])
            } else {
                None
            }),
    {
        match self.branch_db.get(&branch_key_of(key)) {
            Some(n) => Some(*n),
            None => None,
        }
    }

    /// The leaf value stored under `key`, read as a hash; a stored value of
    /// another length than 32 bytes is an error.
    pub fn get_leaf(&self, key: &H256) -> (r: Result<Option<H256>, StoreError>)
        ensures
            !self.leaves().contains_key(key@) ==> r == Ok::<Option<H256>, StoreError>(None),
            self.leaves().contains_key(key@) ==> match r {
                Ok(Some(h)) => h@ == self.leaves()[key@],
                Ok(None) => false,
                Err(e) => e == StoreError::ValueLength && self.leaves()[key@].len() != 32,
            },
    {
        match self.db.get(&hash_key_of(key)) {
            Some(v) => match leaf_value_of(v.as_slice()) {
                Ok(h) => Ok(Some(h)),
                Err(e) => Err(e),
            },
            None => Ok(None),
        }
    }

    /// Stores `branch` at `key`, replacing any earlier node.
    pub fn insert_branch(&mut self, key: BranchKey, branch: BranchNode)
        ensures
            final(self).branches() == old(self).branches().insert(key, branch),
            final(self).leaves() == old(self).leaves(),
    {
        self.branch_db.insert(branch_key_of(&key), branch);
        proof {
            assert forall|k: BranchKey| branch_key(k) == branch_key(key) implies k == key by {
                lemma_branch_key_injective(k, key);
            }
            assert(self.branches() =~= old(self).branches().insert(key, branch));
            assert(self.leaves() =~= old(self).leaves());
        }
    }

    /// Stores the hash `leaf` under `key`.
    pub fn insert_leaf(&mut self, key: H256, leaf: H256)
        ensures
            final(self).leaves() == old(self).leaves().insert(key@, leaf@),
            final(self).branches() == old(self).branches(),
    {
        let mut v: Vec<u8> = Vec::new();
        let mut i: usize = 0;
        while i < 32
            invariant
                i <= 32,
                v@ == leaf@.subrange(0, i as int),
            decreases 32 - i,
        {
            v.push(leaf[i]);
            i = i + 1;
            assert(v@ =~= leaf@.subrange(0, i as int));
        }
        assert(leaf@.subrange(0, 32) =~= leaf@);
        self.put(&key, v);
    }

    /// Removes the branch node at `key`, if any.
    pub fn remove_branch(&mut self, key: &BranchKey)
        ensures
            final(self).branches() == old(self).branches().remove(*key),
            final(self).leaves() == old(self).leaves(),
    {
        self.branch_db.remove(&branch_key_of(key));
        proof {
            assert forall|k: BranchKey| branch_key(k) == branch_key(*key) implies k == *key by {
                lemma_branch_key_injective(k, *key);
            }
            assert(self.branches() =~= old(self).branches().remove(*key));
            assert(self.leaves() =~= old(self).leaves());
        }
    }

    /// Removes the leaf under `key`, if any.
    pub fn remove_leaf(&mut self, key: &H256)
        ensures
            final(self).leaves() == old(self).leaves().remove(key@),
            final(self).branches() == old(self).branches(),
    {
        self.delete(key);
    }

    /// Stores `value` under `key`, replacing any earlier value.
    pub fn set(&mut self, key: &H256, value: Vec<u8>)
        ensures
            final(self).leaves() == old(self).leaves().insert(key@, value@),
            final(self).branches() == old(self).branches(),
    {
        self.put(key, value);
    }

    /// Takes the value under `key` out of the store. An absent key is an
    /// error and leaves the store as it was.
    pub fn remove(&mut self, key: &H256) -> (r: Result<Vec<u8>, StoreError>)
        ensures
            final(self).branches() == old(self).branches(),
            match r {
                Ok(v) => old(self).leaves().contains_key(key@) && v@ == old(self).leaves()[key@]
                    && final(self).leaves() == old(self).leaves().remove(key@),
                Err(e) => e == StoreError::MissingKey && !old(self).leaves().contains_key(key@)
                    && final(self).leaves() == old(self).leaves(),
            },
    {
        match self.db.remove(&hash_key_of(key)) {
            Some(v) => {
                proof {
                    assert forall|k: Seq<u8>| k.len() == 32 && hash_key(k) == hash_key(key@) implies k
                        == key@ by {
                        lemma_hash_key_injective(k, key@);
                    }
                    assert(self.leaves() =~= old(self).leaves().remove(key@));
                    assert(self.branches() =~= old(self).branches());
                }
                Ok(v)
            },
            None => {
                proof {
                    assert(self.leaves() =~= old(self).leaves());
                    assert(self.branches() =~= old(self).branches());
                }
                Err(StoreError::MissingKey)
            },
        }
    }

    /// Whether a value is stored under `key`; this backend answers exactly.
    pub fn contains(&self, key: &H256) -> (r: bool)
        ensures
            r == self.leaves().contains_key(key@),
    {
        self.db.contains_key(&hash_key_of(key))
    }
}

impl Default for MemoryStore {
    fn default() -> (r: Self)
        ensures
            r.leaves() == Map::<Seq<u8>, Seq<u8>>::empty(),
            r.branches() == Map::<BranchKey, BranchNode>::empty(),
    {
        MemoryStore::new()
    }
}

/// A write to the leaf keyspace.
pub enum LeafWrite {
    Put(Seq<u8>, Seq<u8>),
    Delete(Seq<u8>),
}

/// The leaf keyspace after the writes `w`, in order, starting from `m`:
/// `put` inserts and `delete` removes, as their contracts state.
pub open spec fn apply_writes(m: Map<Seq<u8>, Seq<u8>>, w: Seq<LeafWrite>) -> Map<Seq<u8>, Seq<u8>>
    decreases w.len(),
{
    if w.len() == 0 {
        m
    } else {
        let prior = apply_writes(m, w.drop_last());
        match w.last() {
            LeafWrite::Put(k, v) => prior.insert(k, v),
            LeafWrite::Delete(k) => prior.remove(k),
        }
    }
}

/// After `put(k, v)`, the key is present and maps to `v`: `contains(k)` is
/// true and `get(k)` returns `v`.
pub proof fn lemma_put_then_get(before: MemoryStore, after: MemoryStore, k: Seq<u8>, v: Seq<u8>)
    requires
        after.leaves() == before.leaves().insert(k, v),
    ensures
        after.leaves().contains_key(k),
        after.leaves()[k] == v,
{
}

/// After `delete(k)`, the key is absent: `get(k)` returns nothing.
pub proof fn lemma_delete_then_get(before: MemoryStore, after: MemoryStore, k: Seq<u8>)
    requires
        after.leaves() == before.leaves().remove(k),
    ensures
        !after.leaves().contains_key(k),
{
}

/// Once `k` is put, it stays present through any writes that do not delete
/// it: the existence check never misses a stored key.
pub proof fn lemma_no_false_negatives(
    m: Map<Seq<u8>, Seq<u8>>,
    k: Seq<u8>,
    v: Seq<u8>,
    w: Seq<LeafWrite>,
)
    requires
        forall|i: int| 0 <= i < w.len() ==> w[i] != LeafWrite::Delete(k),
    ensures
        apply_writes(m.insert(k, v), w).contains_key(k),
    decreases w.len(),
{
    if w.len() > 0 {
        lemma_no_false_negatives(m, k, v, w.drop_last());
        assert(w.last() == w[w.len() - 1]);
    }
}

} // verus!
