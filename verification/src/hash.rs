//! The hash functions that the library calls, and the random number generator.
//!
//! Verus does not read these functions. Each is given a name, or nothing at
//! all: the contracts below are what the proofs in this crate rest on.

use vstd::prelude::*;
use rand::RngCore;
use rand::SeedableRng;
use rand_chacha::ChaCha20Rng;

verus! {

/// The 32-byte BLAKE3 digest of `data`, as `blake3::hash` computes it.
pub uninterp spec fn blake3_digest(data: Seq<u8>) -> Seq<u8>;

/// The 16-byte MD5 digest of `data`, as `md5::compute` computes it.
pub uninterp spec fn md5_digest(data: Seq<u8>) -> Seq<u8>;

/// Calls `blake3::hash`, the default (unkeyed) BLAKE3 hash with 32 bytes of
/// output. The contract claims only that the digest is a function of the
/// input bytes, named `blake3_digest`.
#[verifier::external_body]
pub(crate) fn blake3_hash(data: &[u8]) -> (digest: [u8; 32])
    ensures
        digest@ == blake3_digest(data@),
{
    *blake3::hash(data).as_bytes()
}

/// Calls `md5::compute`. The contract claims only that the digest is a
/// function of the input bytes, named `md5_digest`.
#[verifier::external_body]
pub(crate) fn md5_hash(data: &[u8]) -> (digest: [u8; 16])
    ensures
        digest@ == md5_digest(data@),
{
    md5::compute(data).0
}

/// The ChaCha20 generator of `rand_chacha`, carried through as an opaque
/// value.
#[verifier::external_type_specification]
#[verifier::external_body]
pub struct ExChaCha20Rng(ChaCha20Rng);

/// Calls `ChaCha20Rng::from_seed`. Nothing is claimed of the generator.
#[verifier::external_body]
pub(crate) fn chacha20_from_seed(seed: [u8; 32]) -> (rng: ChaCha20Rng) {
    ChaCha20Rng::from_seed(seed)
}

/// Calls `ChaCha20Rng::next_u64`. Nothing is claimed of the number drawn.
#[verifier::external_body]
pub(crate) fn chacha20_next_u64(rng: &mut ChaCha20Rng) -> (value: u64) {
    rng.next_u64()
}

} // verus!
