//! The byte layout of branch nodes.
//!
//! An arm is a tag byte followed by its fields: `1` and a 32-byte hash, or
//! `2`, a 32-byte base node, a 32-byte zero bitmap and a one-byte zero count.
//! A node is its left arm followed by its right arm, with nothing between or
//! after them.
use vstd::prelude::*;

use crate::types::{BranchNode, H256, MergeValue, StoreError};

verus! {

broadcast use vstd::array::group_array_axioms;

/// Tag byte of a `Value` arm.
pub const TAG_VALUE: u8 = 1;

/// Tag byte of a `MergeWithZero` arm.
pub const TAG_MERGE_WITH_ZERO: u8 = 2;

/// The bytes of one arm.
pub open spec fn arm_bytes(m: MergeValue) -> Seq<u8> {
    match m {
        MergeValue::Value(h) => seq![TAG_VALUE] + h@,
        MergeValue::MergeWithZero { base_node, zero_bits, zero_count } => seq![TAG_MERGE_WITH_ZERO]
            + base_node@ + zero_bits@ + seq![zero_count],
    }
}

/// The bytes of a branch node: its left arm, then its right arm.
pub open spec fn node_bytes(n: BranchNode) -> Seq<u8> {
    arm_bytes(n.left) + arm_bytes(n.right)
}

/// Whether the arm `m` is encoded in `s` starting at `pos`.
pub open spec fn arm_at(s: Seq<u8>, pos: int, m: MergeValue) -> bool {
    &&& 0 <= pos
    &&& pos + arm_bytes(m).len() <= s.len()
    &&& s.subrange(pos, pos + arm_bytes(m).len()) == arm_bytes(m)
}

/// What decoding `s` yields: the node whose encoding is exactly `s`, if any.
pub open spec fn decode_spec(s: Seq<u8>) -> Option<BranchNode> {
    if exists|n: BranchNode| node_bytes(n) == s {
        Some(choose|n: BranchNode| node_bytes(n) == s)
    } else {
        None
    }
}

/// Two arms encoded at the same position of one buffer are the same arm.
pub proof fn lemma_arm_unique(s: Seq<u8>, pos: int, a: MergeValue, b: MergeValue)
    requires
        arm_at(s, pos, a),
        arm_at(s, pos, b),
    ensures
        a == b,
{
    assert(arm_bytes(a)[0] == s[pos]);
    assert(arm_bytes(b)[0] == s[pos]);
    assert forall|j: int| 0 <= j < arm_bytes(a).len() implies arm_bytes(a)[j] == s[pos + j] by {
        assert(s.subrange(pos, pos + arm_bytes(a).len())[j] == s[pos + j]);
    }
    assert forall|j: int| 0 <= j < arm_bytes(b).len() implies arm_bytes(b)[j] == s[pos + j] by {
        assert(s.subrange(pos, pos + arm_bytes(b).len())[j] == s[pos + j]);
    }
    match a {
        MergeValue::Value(ha) => {
            let hb = b->Value_0;
            assert forall|j: int| 0 <= j < 32 implies ha@[j] == hb@[j] by {
                assert(arm_bytes(a)[1 + j] == ha@[j]);
                assert(arm_bytes(b)[1 + j] == hb@[j]);
            }
            assert(ha =~= hb);
        },
        MergeValue::MergeWithZero { base_node, zero_bits, zero_count } => {
            let b1 = b->base_node;
            let b2 = b->zero_bits;
            assert forall|j: int| 0 <= j < 32 implies base_node@[j] == b1@[j] && zero_bits@[j]
                == b2@[j] by {
                assert(arm_bytes(a)[1 + j] == base_node@[j]);
                assert(arm_bytes(b)[1 + j] == b1@[j]);
                assert(arm_bytes(a)[33 + j] == zero_bits@[j]);
                assert(arm_bytes(b)[33 + j] == b2@[j]);
            }
            assert(base_node =~= b1);
            assert(zero_bits =~= b2);
            assert(arm_bytes(a)[65] == zero_count);
            assert(arm_bytes(b)[65] == b->zero_count);
        },
    }
}

/// A node's encoding starts with its left arm, which its right arm follows.
pub proof fn lemma_node_arms(s: Seq<u8>, n: BranchNode)
    requires
        node_bytes(n).len() <= s.len(),
        s.subrange(0, node_bytes(n).len() as int) == node_bytes(n),
    ensures
        arm_at(s, 0, n.left),
        arm_at(s, arm_bytes(n.left).len() as int, n.right),
{
    let l = arm_bytes(n.left).len() as int;
    let t = node_bytes(n).len() as int;
    assert(s.subrange(0, l) =~= node_bytes(n).subrange(0, l));
    assert(s.subrange(l, t) =~= node_bytes(n).subrange(l, t));
    assert(node_bytes(n).subrange(0, l) =~= arm_bytes(n.left));
    assert(node_bytes(n).subrange(l, t) =~= arm_bytes(n.right));
}

/// Two nodes whose encodings both start a buffer are the same node: no
/// encoding is a proper prefix of another.
pub proof fn lemma_node_prefix_unique(s: Seq<u8>, m: BranchNode, n: BranchNode)
    requires
        node_bytes(m).len() <= s.len(),
        s.subrange(0, node_bytes(m).len() as int) == node_bytes(m),
        node_bytes(n).len() <= s.len(),
        s.subrange(0, node_bytes(n).len() as int) == node_bytes(n),
    ensures
        m == n,
{
    lemma_node_arms(s, m);
    lemma_node_arms(s, n);
    lemma_arm_unique(s, 0, m.left, n.left);
    lemma_arm_unique(s, arm_bytes(m.left).len() as int, m.right, n.right);
}

/// Distinct nodes have distinct encodings.
pub proof fn lemma_node_bytes_injective(m: BranchNode, n: BranchNode)
    requires
        node_bytes(m) == node_bytes(n),
    ensures
        m == n,
{
    let s = node_bytes(m);
    assert(s.subrange(0, s.len() as int) =~= s);
    lemma_node_prefix_unique(s, m, n);
}

/// Decoding the encoding of a node gives that node back.
pub proof fn lemma_round_trip(n: BranchNode)
    ensures
        decode_spec(node_bytes(n)) == Some(n),
{
    let s = node_bytes(n);
    assert(exists|m: BranchNode| node_bytes(m) == s);
    let c = choose|m: BranchNode| node_bytes(m) == s;
    lemma_node_bytes_injective(c, n);
}

/// A buffer whose first byte is neither arm tag does not decode.
pub proof fn lemma_unknown_tag_rejected(s: Seq<u8>)
    requires
        s.len() > 0,
        s[0] != TAG_VALUE,
        s[0] != TAG_MERGE_WITH_ZERO,
    ensures
        decode_spec(s) is None,
{
    if exists|n: BranchNode| node_bytes(n) == s {
        let n = choose|n: BranchNode| node_bytes(n) == s;
        assert(node_bytes(n)[0] == arm_bytes(n.left)[0]);
    }
}

/// A strict prefix of a node's encoding does not decode.
pub proof fn lemma_truncated_rejected(n: BranchNode, len: int)
    requires
        0 <= len < node_bytes(n).len(),
    ensures
        decode_spec(node_bytes(n).subrange(0, len)) is None,
{
    let t = node_bytes(n).subrange(0, len);
    if exists|m: BranchNode| node_bytes(m) == t {
        let m = choose|m: BranchNode| node_bytes(m) == t;
        let s = node_bytes(n);
        assert(s.subrange(0, s.len() as int) =~= s);
        assert(s.subrange(0, node_bytes(m).len() as int) =~= node_bytes(m));
        lemma_node_prefix_unique(s, m, n);
    }
}

/// Encoding is a function of the node alone: two encodings of one node are
/// the same bytes.
pub proof fn lemma_encoding_deterministic(n: BranchNode, first: Seq<u8>, second: Seq<u8>)
    requires
        first == node_bytes(n),
        second == node_bytes(n),
    ensures
        first == second,
{
}

/// A node takes 33 or 66 bytes per arm, so 66 to 132 bytes in all.
pub proof fn lemma_node_length(n: BranchNode)
    ensures
        66 <= node_bytes(n).len() <= 132,
        arm_bytes(n.left).len() == 33 || arm_bytes(n.left).len() == 66,
        arm_bytes(n.right).len() == 33 || arm_bytes(n.right).len() == 66,
{
}

/// Appends the encoding of one arm to `buf`.
pub fn serialize_smt_branchnode_arm(arm: &MergeValue, buf: &mut Vec<u8>)
    ensures
        final(buf)@ == old(buf)@ + arm_bytes(*arm),
{
    match arm {
        MergeValue::Value(hash) => {
            buf.push(TAG_VALUE);
            push_hash(hash, buf);
        },
        MergeValue::MergeWithZero { base_node, zero_bits, zero_count } => {
            buf.push(TAG_MERGE_WITH_ZERO);
            push_hash(base_node, buf);
            push_hash(zero_bits, buf);
            buf.push(*zero_count);
        },
    }
    assert(final(buf)@ =~= old(buf)@ + arm_bytes(*arm));
}

/// Appends the 32 bytes of `h` to `buf`.
fn push_hash(h: &H256, buf: &mut Vec<u8>)
    ensures
        final(buf)@ == old(buf)@ + h@,
{
    let ghost start = buf@;
    for i in 0..32
        invariant
            buf@ == start + h@.subrange(0, i as int),
    {
        buf.push(h[i]);
        assert(buf@ =~= start + h@.subrange(0, i + 1));
    }
    assert(h@.subrange(0, 32) =~= h@);
}

/// Encodes a branch node: its left arm, then its right arm.
pub fn encode_branch_node(node: &BranchNode) -> (r: Vec<u8>)
    ensures
        r@ == node_bytes(*node),
{
    let mut buf: Vec<u8> = Vec::new();
    serialize_smt_branchnode_arm(&node.left, &mut buf);
    serialize_smt_branchnode_arm(&node.right, &mut buf);
    assert(buf@ =~= node_bytes(*node));
    buf
}

/// Reads the 32 bytes of `data` that start at `pos`, if there are that many.
pub fn get_32_bytes(data: &[u8], pos: usize) -> (r: Option<H256>)
    ensures
        r is Some <==> pos + 32 <= data@.len(),
        r matches Some(h) ==> h@ == data@.subrange(pos as int, pos + 32),
{
    if data.len() < 32 || pos > data.len() - 32 {
        return None;
    }
    let n = data.len();
    let mut h: H256 = [0u8; 32];
    for i in 0..32
        invariant
            n == data@.len(),
            pos + 32 <= n,
            forall|j: int| 0 <= j < i ==> h@[j] == data@[pos + j],
    {
        h[i] = data[pos + i];
    }
    assert(h@ =~= data@.subrange(pos as int, pos + 32));
    Some(h)
}

/// Decodes the arm that starts at `pos`, and gives the position after it.
pub fn merge_value_from_bytes(data: &[u8], pos: usize) -> (r: Result<(MergeValue, usize), StoreError>)
    requires
        pos <= data@.len(),
    ensures
        match r {
            Ok((m, next)) => arm_at(data@, pos as int, m) && next == pos + arm_bytes(m).len(),
            Err(e) => e == StoreError::Format && forall|m: MergeValue| !arm_at(data@, pos as int, m),
        },
{
    if pos == data.len() {
        return Err(StoreError::Format);
    }
    let tag = data[pos];
    if tag == TAG_VALUE && data.len() - pos >= 33 {
        let h = get_32_bytes(data, pos + 1).unwrap();
        let m = MergeValue::Value(h);
        assert(data@.subrange(pos as int, pos + 33) =~= arm_bytes(m));
        Ok((m, pos + 33))
    } else if tag == TAG_MERGE_WITH_ZERO && data.len() - pos >= 66 {
        let base_node = get_32_bytes(data, pos + 1).unwrap();
        let zero_bits = get_32_bytes(data, pos + 33).unwrap();
        let zero_count = data[pos + 65];
        let m = MergeValue::MergeWithZero { base_node, zero_bits, zero_count };
        assert(data@.subrange(pos as int, pos + 66) =~= arm_bytes(m));
        Ok((m, pos + 66))
    } else {
        assert forall|m: MergeValue| !arm_at(data@, pos as int, m) by {
            if arm_at(data@, pos as int, m) {
                assert(data@.subrange(pos as int, pos + arm_bytes(m).len())[0] == data@[pos as int]);
            }
        }
        Err(StoreError::Format)
    }
}

/// Reads a stored leaf value as a hash: it must hold exactly 32 bytes.
pub fn leaf_value_of(data: &[u8]) -> (r: Result<H256, StoreError>)
    ensures
        match r {
            Ok(h) => data@.len() == 32 && h@ == data@,
            Err(e) => e == StoreError::ValueLength && data@.len() != 32,
        },
{
    if data.len() != 32 {
        return Err(StoreError::ValueLength);
    }
    let h = get_32_bytes(data, 0).unwrap();
    assert(data@.subrange(0, 32) =~= data@);
    Ok(h)
}

/// Decodes a branch node. The buffer must hold exactly two arms: an unknown
/// tag, a missing byte or a byte left over is a format error.
pub fn deserialize_smt_branchnode_arm(data: &[u8]) -> (r: Result<BranchNode, StoreError>)
    ensures
        match r {
            Ok(n) => node_bytes(n) == data@ && decode_spec(data@) == Some(n),
            Err(e) => e == StoreError::Format && decode_spec(data@) is None,
        },
{
    let (left, mid) = match merge_value_from_bytes(data, 0) {
        Ok(p) => p,
        Err(e) => {
            proof { lemma_no_node_without_left(data@) }
            return Err(e);
        },
    };
    let (right, end) = match merge_value_from_bytes(data, mid) {
        Ok(p) => p,
        Err(e) => {
            proof { lemma_no_node_without_right(data@, left) }
            return Err(e);
        },
    };
    let node = BranchNode { left, right };
    if end != data.len() {
        proof { lemma_no_node_with_other_length(data@, node) }
        return Err(StoreError::Format);
    }
    proof {
        assert(data@.subrange(0, mid as int) == arm_bytes(left));
        assert(data@.subrange(mid as int, end as int) == arm_bytes(right));
        assert(data@ =~= data@.subrange(0, mid as int) + data@.subrange(mid as int, end as int));
        lemma_round_trip(node);
    }
    Ok(node)
}

proof fn lemma_no_node_without_left(s: Seq<u8>)
    requires
        forall|m: MergeValue| !arm_at(s, 0, m),
    ensures
        decode_spec(s) is None,
{
    if exists|n: BranchNode| node_bytes(n) == s {
        let n = choose|n: BranchNode| node_bytes(n) == s;
        assert(s.subrange(0, s.len() as int) =~= s);
        lemma_node_arms(s, n);
    }
}

proof fn lemma_no_node_without_right(s: Seq<u8>, left: MergeValue)
    requires
        arm_at(s, 0, left),
        forall|m: MergeValue| !arm_at(s, arm_bytes(left).len() as int, m),
    ensures
        decode_spec(s) is None,
{
    if exists|n: BranchNode| node_bytes(n) == s {
        let n = choose|n: BranchNode| node_bytes(n) == s;
        assert(s.subrange(0, s.len() as int) =~= s);
        lemma_node_arms(s, n);
        lemma_arm_unique(s, 0, left, n.left);
    }
}

proof fn lemma_no_node_with_other_length(s: Seq<u8>, node: BranchNode)
    requires
        arm_at(s, 0, node.left),
        arm_at(s, arm_bytes(node.left).len() as int, node.right),
        node_bytes(node).len() != s.len(),
    ensures
        decode_spec(s) is None,
{
    if exists|n: BranchNode| node_bytes(n) == s {
        let n = choose|n: BranchNode| node_bytes(n) == s;
        assert(s.subrange(0, s.len() as int) =~= s);
        lemma_node_arms(s, n);
        lemma_arm_unique(s, 0, node.left, n.left);
        lemma_arm_unique(s, arm_bytes(n.left).len() as int, node.right, n.right);
    }
}

} // verus!
