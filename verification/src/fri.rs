//! The FRI-style part of a proof: the commitments of the halving rounds,
//! the final polynomial, and the proof of work.

use vstd::prelude::*;
use vstd::bytes::*;
use crate::encoding::push_u64_le;
use crate::field::BabyBearField;
use crate::hash::blake3_digest;
use crate::hash::blake3_hash;
use crate::stark_proof::FriProof;

verus! {

/// The commitments of the halving rounds from `size` down: while the size is
/// above sixteen, the digest of the size as eight little-endian bytes.
pub open spec fn fri_commitments(size: nat) -> Seq<Seq<u8>>
    decreases size,
{
    if size <= 16 {
        Seq::empty()
    } else {
        seq![blake3_digest(spec_u64_to_le_bytes(size as u64))] + fri_commitments(size / 2)
    }
}

/// The size that is left when halving stops: the first not above sixteen.
pub open spec fn fri_final_size(size: nat) -> nat
    decreases size,
{
    if size <= 16 {
        size
    } else {
        fri_final_size(size / 2)
    }
}

/// The final polynomial: `min(size, 8)` coefficients, each one.
pub open spec fn fri_final_poly(size: nat) -> Seq<BabyBearField> {
    Seq::new(
        if fri_final_size(size) < 8 {
            fri_final_size(size)
        } else {
            8
        },
        |i: int| BabyBearField(1),
    )
}

/// The largest nonce that the proof-of-work search tries.
pub const POW_BUDGET: u64 = 1_000_000;

/// The bytes `RepID_PoW`.
pub open spec fn pow_tag() -> Seq<u8> {
    seq![82u8, 101u8, 112u8, 73u8, 68u8, 95u8, 80u8, 111u8, 87u8]
}

/// What is hashed for a nonce: the tag, then the nonce as eight little-endian
/// bytes.
pub open spec fn pow_input(nonce: u64) -> Seq<u8> {
    pow_tag() + spec_u64_to_le_bytes(nonce)
}

/// Whether the digest for `nonce` starts with two zero bytes.
pub open spec fn pow_accepts(nonce: u64) -> bool {
    let digest = blake3_digest(pow_input(nonce));
    digest[0] == 0 && digest[1] == 0
}

/// Whether `nonce` is what the search returns: the least accepted nonce, and
/// within the budget.
pub open spec fn pow_solution(nonce: u64) -> bool {
    &&& nonce <= POW_BUDGET
    &&& pow_accepts(nonce)
    &&& forall|k: u64| k < nonce ==> !pow_accepts(k)
}

/// Whether some nonce within the budget is accepted.
pub open spec fn pow_solvable() -> bool {
    exists|n: u64| n <= POW_BUDGET && pow_accepts(n)
}

/// Whether `fri` is the FRI-style part for an extended trace of `size` rows.
pub open spec fn fri_matches(fri: FriProof, size: nat) -> bool {
    &&& fri.commitment_digests() == fri_commitments(size)
    &&& fri.final_poly@ == fri_final_poly(size)
    &&& pow_solution(fri.pow_nonce)
}

/// Whether the proof of work accepts `nonce`.
pub fn check_pow(nonce: u64) -> (ok: bool)
    ensures
        ok == pow_accepts(nonce),
{
    let mut bytes: Vec<u8> = Vec::new();
    bytes.push(82u8);
    bytes.push(101u8);
    bytes.push(112u8);
    bytes.push(73u8);
    bytes.push(68u8);
    bytes.push(95u8);
    bytes.push(80u8);
    bytes.push(111u8);
    bytes.push(87u8);
    assert(bytes@ =~= pow_tag());
    push_u64_le(&mut bytes, nonce);
    let digest = blake3_hash(bytes.as_slice());
    digest[0] == 0 && digest[1] == 0
}

/// Searches the nonces from zero up to the budget for the first accepted.
pub fn grind_pow() -> (r: Option<u64>)
    ensures
        r matches Some(nonce) ==> pow_solution(nonce),
        r is Some <==> pow_solvable(),
{
    let mut nonce: u64 = 0;
    loop
        invariant
            nonce <= POW_BUDGET,
            forall|k: u64| k < nonce ==> !pow_accepts(k),
        decreases POW_BUDGET - nonce,
    {
        if check_pow(nonce) {
            return Some(nonce);
        }
        if nonce == POW_BUDGET {
            return None;
        }
        nonce = nonce + 1;
    }
}

} // verus!
