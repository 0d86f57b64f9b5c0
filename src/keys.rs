//! Integer keys for 32-byte hashes.
//!
//! A hash is read as two big-endian 128-bit halves. The pair orders as the
//! bytes do, so an ordered map keyed by it walks hashes in byte order.
use vstd::prelude::*;

use crate::types::{BranchKey, H256};

verus! {

/// The big-endian value of a byte string.
pub open spec fn be_value(s: Seq<u8>) -> nat
    decreases s.len(),
{
    if s.len() == 0 {
        0
    } else {
        be_value(s.drop_last()) * 256 + s.last() as nat
    }
}

/// 256 to the power `n`.
pub open spec fn radix(n: nat) -> nat
    decreases n,
{
    if n == 0 {
        1
    } else {
        radix((n - 1) as nat) * 256
    }
}

/// The map key of a 32-byte hash: its two big-endian halves.
pub open spec fn hash_key(s: Seq<u8>) -> (u128, u128) {
    (be_value(s.subrange(0, 16)) as u128, be_value(s.subrange(16, 32)) as u128)
}

/// The map key of a branch position.
pub open spec fn branch_key(k: BranchKey) -> (u8, u128, u128) {
    (k.height, hash_key(k.node_key@).0, hash_key(k.node_key@).1)
}

proof fn lemma_be_bound(s: Seq<u8>)
    ensures
        be_value(s) < radix(s.len()),
    decreases s.len(),
{
    if s.len() > 0 {
        lemma_be_bound(s.drop_last());
    }
}

proof fn lemma_radix_16()
    ensures
        radix(16) == 0x1_0000_0000_0000_0000_0000_0000_0000_0000,
{
    reveal_with_fuel(radix, 17);
}

proof fn lemma_be_injective(a: Seq<u8>, b: Seq<u8>)
    requires
        a.len() == b.len(),
        be_value(a) == be_value(b),
    ensures
        a == b,
    decreases a.len(),
{
    if a.len() > 0 {
        lemma_be_injective(a.drop_last(), b.drop_last());
        assert(a =~= a.drop_last().push(a.last()));
        assert(b =~= b.drop_last().push(b.last()));
    } else {
        assert(a =~= b);
    }
}

/// Distinct 32-byte hashes have distinct map keys.
pub proof fn lemma_hash_key_injective(a: Seq<u8>, b: Seq<u8>)
    requires
        a.len() == 32,
        b.len() == 32,
        hash_key(a) == hash_key(b),
    ensures
        a == b,
{
    lemma_radix_16();
    lemma_be_bound(a.subrange(0, 16));
    lemma_be_bound(b.subrange(0, 16));
    lemma_be_bound(a.subrange(16, 32));
    lemma_be_bound(b.subrange(16, 32));
    lemma_be_injective(a.subrange(0, 16), b.subrange(0, 16));
    lemma_be_injective(a.subrange(16, 32), b.subrange(16, 32));
    assert(a =~= a.subrange(0, 16) + a.subrange(16, 32));
    assert(b =~= b.subrange(0, 16) + b.subrange(16, 32));
}

/// Distinct branch positions have distinct map keys.
pub proof fn lemma_branch_key_injective(a: BranchKey, b: BranchKey)
    requires
        branch_key(a) == branch_key(b),
    ensures
        a == b,
{
    broadcast use vstd::array::group_array_axioms;

    lemma_hash_key_injective(a.node_key@, b.node_key@);
    assert(a.node_key =~= b.node_key);
}

/// The big-endian value of the 16 bytes of `h` that start at `start`.
fn be_half(h: &H256, start: usize) -> (r: u128)
    requires
        start == 0 || start == 16,
    ensures
        r as int == be_value(h@.subrange(start as int, start + 16)),
{
    let mut acc: u128 = 0;
    let mut i: usize = 0;
    while i < 16
        invariant
            start == 0 || start == 16,
            i <= 16,
            h@.len() == 32,
            acc as int == be_value(h@.subrange(start as int, start + i)),
            acc < radix(i as nat),
        decreases 16 - i,
    {
        proof {
            lemma_radix_16();
            lemma_radix_monotone(i as nat + 1, 16);
            let next = h@.subrange(start as int, start + i + 1);
            assert(next.drop_last() =~= h@.subrange(start as int, start + i));
        }
        acc = acc * 256 + h[start + i] as u128;
        i = i + 1;
    }
    acc
}

proof fn lemma_radix_monotone(i: nat, j: nat)
    requires
        i <= j,
    ensures
        radix(i) <= radix(j),
    decreases j - i,
{
    if i < j {
        lemma_radix_monotone(i, (j - 1) as nat);
    }
}

/// The map key of a hash.
pub fn hash_key_of(h: &H256) -> (r: (u128, u128))
    ensures
        r == hash_key(h@),
{
    proof {
        lemma_radix_16();
        lemma_be_bound(h@.subrange(0, 16));
        lemma_be_bound(h@.subrange(16, 32));
    }
    (be_half(h, 0), be_half(h, 16))
}

/// The map key of a branch position.
pub fn branch_key_of(k: &BranchKey) -> (r: (u8, u128, u128))
    ensures
        r == branch_key(*k),
{
    let (hi, lo) = hash_key_of(&k.node_key);
    (k.height, hi, lo)
}

} // verus!
