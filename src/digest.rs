//! The content identity of a compiled artifact: a 256-bit BLAKE2b digest of
//! its bytes.
use vstd::prelude::*;

use bytehash::ByteHash;

verus! {

/// The 32-byte BLAKE2b digest of the bytes `code`.
pub uninterp spec fn blake2b_of(code: Seq<u8>) -> Seq<u8>;

/// Relies on `bytehash::Blake2b`'s hash state: a 32-byte BLAKE2b state that
/// is given the raw bytes in one `write` and finished with `fin`, so that the
/// digest depends on the bytes alone.
#[verifier::external_body]
fn blake2b(code: &Vec<u8>) -> (r: [u8; 32])
    ensures
        r@ == blake2b_of(code@),
{
    let mut state = <bytehash::Blake2b as ByteHash>::state();
    std::hash::Hasher::write(&mut state, code.as_slice());
    bytehash::State::fin(state)
}

/// The content identity of the artifact whose bytes are `code`.
pub fn contract_hash(code: &Vec<u8>) -> (r: [u8; 32])
    ensures
        r@ == blake2b_of(code@),
        r@.len() == 32,
{
    blake2b(code)
}

/// Hashing the same bytes twice gives the same digest.
pub proof fn lemma_hash_deterministic(a: Seq<u8>, b: Seq<u8>)
    requires
        a == b,
    ensures
        blake2b_of(a) == blake2b_of(b),
{
}

} // verus!
