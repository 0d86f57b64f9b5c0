use vstd::prelude::*;

verus! {

broadcast use vstd::array::group_array_axioms;

/// A 32-byte digest, used as node key, leaf key and leaf value.
pub type H256 = [u8; 32];

/// One arm (child reference) of a branch node.
#[derive(Clone, Copy, Debug, Eq)]
pub enum MergeValue {
    /// A fully materialized subtree hash.
    Value(H256),
    /// A subtree merged with a run of empty children.
    MergeWithZero { base_node: H256, zero_bits: H256, zero_count: u8 },
}

/// An internal tree node: an ordered pair of arms.
#[derive(Clone, Copy, Debug, Eq)]
pub struct BranchNode {
    pub left: MergeValue,
    pub right: MergeValue,
}

/// The position of a branch node: its height and its path key.
#[derive(Clone, Copy, Debug, Eq)]
pub struct BranchKey {
    pub height: u8,
    pub node_key: H256,
}

/// Errors that the storage layer reports to its caller.
#[derive(Clone, Copy, Debug, PartialEq, Eq, Structural)]
pub enum StoreError {
    /// Stored bytes are not the encoding of a branch node.
    Format,
    /// A leaf value does not hold exactly 32 bytes.
    ValueLength,
    /// A take-style removal found no entry under the key.
    MissingKey,
}

/// Compares two hashes byte by byte.
pub fn h256_eq(a: &H256, b: &H256) -> (r: bool)
    ensures
        r == (*a == *b),
{
    let mut i: usize = 0;
    while i < 32
        invariant
            i <= 32,
            forall|j: int| 0 <= j < i ==> a@[j] == b@[j],
        decreases 32 - i,
    {
        if a[i] != b[i] {
            return false;
        }
        i = i + 1;
    }
    assert(*a =~= *b);
    true
}

impl PartialEq for MergeValue {
    fn eq(&self, o: &MergeValue) -> (r: bool) {
        match (self, o) {
            (MergeValue::Value(a), MergeValue::Value(b)) => h256_eq(a, b),
            (
                MergeValue::MergeWithZero { base_node: a1, zero_bits: a2, zero_count: a3 },
                MergeValue::MergeWithZero { base_node: b1, zero_bits: b2, zero_count: b3 },
            ) => *a3 == *b3 && h256_eq(a1, b1) && h256_eq(a2, b2),
            _ => false,
        }
    }
}

impl vstd::std_specs::cmp::PartialEqSpecImpl for MergeValue {
    open spec fn obeys_eq_spec() -> bool {
        true
    }

    open spec fn eq_spec(&self, o: &MergeValue) -> bool {
        *self == *o
    }
}

impl PartialEq for BranchNode {
    fn eq(&self, o: &BranchNode) -> (r: bool) {
        self.left.eq(&o.left) && self.right.eq(&o.right)
    }
}

impl vstd::std_specs::cmp::PartialEqSpecImpl for BranchNode {
    open spec fn obeys_eq_spec() -> bool {
        true
    }

    open spec fn eq_spec(&self, o: &BranchNode) -> bool {
        *self == *o
    }
}

impl PartialEq for BranchKey {
    fn eq(&self, o: &BranchKey) -> (r: bool) {
        self.height == o.height && h256_eq(&self.node_key, &o.node_key)
    }
}

impl vstd::std_specs::cmp::PartialEqSpecImpl for BranchKey {
    open spec fn obeys_eq_spec() -> bool {
        true
    }

    open spec fn eq_spec(&self, o: &BranchKey) -> bool {
        *self == *o
    }
}

} // verus!
