//! One BLAKE3 core behind the two hashing shapes that tree algorithms use:
//! a one-shot digest and an absorbing accumulator.
use vstd::prelude::*;

use crate::types::H256;

verus! {

/// The BLAKE3 digest of a byte string.
pub uninterp spec fn blake3_of(input: Seq<u8>) -> Seq<u8>;

/// Relies on `blake3::hash`: the 32-byte BLAKE3 digest of `input`, which
/// depends on the input bytes alone.
#[verifier::external_body]
fn blake3_hash(input: &[u8]) -> (r: H256)
    ensures
        r@ == blake3_of(input@),
{
    *::blake3::hash(input).as_bytes()
}

/// An accumulator that absorbs bytes and finalizes to their BLAKE3 digest.
/// Its view is the bytes absorbed so far.
#[derive(Clone, Debug)]
pub struct Blake3SmtHasher {
    absorbed: Vec<u8>,
}

impl View for Blake3SmtHasher {
    type V = Seq<u8>;

    closed spec fn view(&self) -> Seq<u8> {
        self.absorbed@
    }
}

impl Default for Blake3SmtHasher {
    fn default() -> (r: Self)
        ensures
            r@ == Seq::<u8>::empty(),
    {
        Blake3SmtHasher::new()
    }
}

impl Blake3SmtHasher {
    /// Size in bytes of a digest.
    pub const OUTPUT_SIZE: usize = 32;

    /// An accumulator that has absorbed nothing.
    pub fn new() -> (r: Self)
        ensures
            r@ == Seq::<u8>::empty(),
    {
        Blake3SmtHasher { absorbed: Vec::new() }
    }

    /// The digest of `bytes`, whatever this accumulator holds.
    pub fn digest(&self, bytes: &[u8]) -> (r: H256)
        ensures
            r@ == blake3_of(bytes@),
    {
        blake3_hash(bytes)
    }

    /// Absorbs `data`.
    pub fn update(&mut self, data: &[u8])
        ensures
            final(self)@ == old(self)@ + data@,
    {
        let ghost start = self@;
        let mut i: usize = 0;
        while i < data.len()
            invariant
                i <= data@.len(),
                self@ == start + data@.subrange(0, i as int),
            decreases data@.len() - i,
        {
            self.absorbed.push(data[i]);
            i = i + 1;
            assert(self@ =~= start + data@.subrange(0, i as int));
        }
        assert(data@.subrange(0, i as int) =~= data@);
    }

    /// Absorbs the 32 bytes of `h`.
    pub fn write_h256(&mut self, h: &H256)
        ensures
            final(self)@ == old(self)@ + h@,
    {
        self.update(h.as_slice());
    }

    /// Absorbs one byte.
    pub fn write_byte(&mut self, b: u8)
        ensures
            final(self)@ == old(self)@.push(b),
    {
        self.absorbed.push(b);
    }

    /// The digest of everything absorbed; the accumulator is used up.
    pub fn finish(self) -> (r: H256)
        ensures
            r@ == blake3_of(self@),
    {
        blake3_hash(self.absorbed.as_slice())
    }

    /// The digest of everything absorbed; the accumulator is used up.
    pub fn finalize(self) -> (r: H256)
        ensures
            r@ == blake3_of(self@),
    {
        self.finish()
    }

    /// Size in bytes of a digest.
    pub fn output_size() -> (r: usize)
        ensures
            r == 32,
    {
        Self::OUTPUT_SIZE
    }
}

} // verus!
