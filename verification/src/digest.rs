//! The hashing primitive: the standard library's default hasher, fed one 64-bit word at a time.
//!
//! A digest is modelled as what the hasher's `finish` makes of the sequence of writes it has
//! seen. Each word is one write of its eight little-endian bytes, which on a little-endian
//! machine is exactly what hashing a `u64` writes.

use std::collections::hash_map::DefaultHasher;
use std::hash::Hasher;
use vstd::bytes::{spec_u64_to_le_bytes, u64_to_le_bytes};
use vstd::prelude::*;
use vstd::std_specs::hash::DefaultHasherAdditionalSpecFns;

verus! {

/// The writes that hashing `words` in order performs: each word as its little-endian bytes.
pub open spec fn word_writes(words: Seq<u64>) -> Seq<Seq<u8>> {
    Seq::new(words.len(), |i: int| spec_u64_to_le_bytes(words[i]))
}

/// The digest of a sequence of words.
pub open spec fn words_digest(words: Seq<u64>) -> u64 {
    DefaultHasher::spec_finish(word_writes(words))
}

/// Feeds one word to the hasher.
pub fn absorb(hasher: &mut DefaultHasher, word: u64)
    ensures
        final(hasher)@ == old(hasher)@.push(spec_u64_to_le_bytes(word)),
{
    let bytes = u64_to_le_bytes(word);
    hasher.write(bytes.as_slice());
}

} // verus!
