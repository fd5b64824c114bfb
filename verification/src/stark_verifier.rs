//! The verifier: structural checks, the proof of work, the range of the
//! public inputs, and the checks that each statement adds.

use vstd::prelude::*;
use crate::field::BABY_BEAR_MODULUS;
use crate::fri::check_pow;
use crate::fri::pow_accepts;
use crate::stark_proof::FriProof;
use crate::stark_proof::ProofView;
use crate::stark_proof::StarkProof;
use crate::types::ZKPError;

verus! {

/// The largest threshold that a threshold proof may state.
pub const MAX_THRESHOLD: u32 = 1000;

/// Whether every public input is below the modulus.
pub open spec fn inputs_in_field(inputs: Seq<u64>) -> bool {
    forall|i: int| 0 <= i < inputs.len() ==> #[trigger] inputs[i] < BABY_BEAR_MODULUS
}

/// What a threshold proof's public inputs must meet: there are at least two,
/// the threshold (the first) lies between 1 and 1000, and the time window
/// (the second) is not zero.
pub open spec fn threshold_inputs_valid(inputs: Seq<u64>) -> bool {
    &&& inputs.len() >= 2
    &&& 1 <= inputs[0] <= MAX_THRESHOLD
    &&& inputs[1] > 0
}

/// What a biometric proof's public inputs must meet: there is at least one,
/// and the challenge (the first) is not zero.
pub open spec fn biometric_inputs_valid(inputs: Seq<u64>) -> bool {
    &&& inputs.len() >= 1
    &&& inputs[0] > 0
}

/// The check that the statement named `proof_type` adds; none for a name
/// that is neither of the two statements.
pub open spec fn statement_valid(inputs: Seq<u64>, proof_type: Seq<char>) -> bool {
    if proof_type == "threshold_verification"@ {
        threshold_inputs_valid(inputs)
    } else if proof_type == "biometric_4fa"@ {
        biometric_inputs_valid(inputs)
    } else {
        true
    }
}

/// The verifier of both statements.
#[derive(Debug, Clone, Copy)]
pub struct CustomStarkVerifier {
    /// The number of queries that a proof must answer.
    pub num_queries: usize,
    /// The factor by which the prover extends the trace.
    pub blowup_factor: usize,
}

impl CustomStarkVerifier {
    /// Whether `proof` is accepted as a proof of the statement named
    /// `proof_type`: it answers `num_queries` queries, its proof of work is
    /// accepted, it has at least one FRI commitment, its public inputs are
    /// below the modulus, and they meet what the statement adds.
    pub open spec fn accepts(&self, proof: ProofView, proof_type: Seq<char>) -> bool {
        &&& proof.queries.len() == self.num_queries
        &&& pow_accepts(proof.pow_nonce)
        &&& proof.commitments.len() > 0
        &&& inputs_in_field(proof.public_inputs)
        &&& statement_valid(proof.public_inputs, proof_type)
    }

    /// A verifier with the given parameters.
    pub fn new(num_queries: usize, blowup_factor: usize) -> (verifier: Self)
        ensures
            verifier.num_queries == num_queries,
            verifier.blowup_factor == blowup_factor,
    {
        CustomStarkVerifier { num_queries, blowup_factor }
    }

    /// Verifies `proof` as a proof of the statement named `proof_type`.
    ///
    /// Never fails: a proof that is not accepted gives `Ok(false)`.
    pub fn verify_proof(&self, proof: &StarkProof, proof_type: &str) -> (r: Result<bool, ZKPError>)
        ensures
            r matches Ok(accepted) && accepted == self.accepts(proof@, proof_type@),
    {
        if proof.queries.len() != self.num_queries {
            return Ok(false);
        }
        match self.verify_proof_of_work(&proof.fri_proof) {
            Ok(true) => {},
            _ => {
                return Ok(false);
            },
        }
        if proof.fri_proof.commitments.len() == 0 {
            return Ok(false);
        }
        let mut i: usize = 0;
        while i < proof.public_inputs.len()
            invariant
                i <= proof.public_inputs@.len(),
                forall|k: int|
                    0 <= k < i ==> (#[trigger] proof.public_inputs@[k]).0 < BABY_BEAR_MODULUS,
            decreases proof.public_inputs@.len() - i,
        {
            if proof.public_inputs[i].0 >= BABY_BEAR_MODULUS {
                assert(proof@.public_inputs[i as int] == proof.public_inputs@[i as int].0);
                return Ok(false);
            }
            i = i + 1;
        }
        assert forall|k: int| 0 <= k < proof@.public_inputs.len() implies (
        #[trigger] proof@.public_inputs[k]) < BABY_BEAR_MODULUS by {
            assert(proof@.public_inputs[k] == proof.public_inputs@[k].0);
        }
        let name: String = proof_type.to_owned();
        if name == "threshold_verification".to_owned() {
            self.verify_threshold_proof(proof)
        } else if name == "biometric_4fa".to_owned() {
            self.verify_biometric_proof(proof)
        } else {
            Ok(true)
        }
    }

    /// Whether the proof of work of `fri_proof` is accepted.
    pub fn verify_proof_of_work(&self, fri_proof: &FriProof) -> (r: Result<bool, ZKPError>)
        ensures
            r matches Ok(accepted) && accepted == pow_accepts(fri_proof.pow_nonce),
    {
        Ok(check_pow(fri_proof.pow_nonce))
    }

    /// Whether the public inputs meet what the threshold statement adds.
    pub fn verify_threshold_proof(&self, proof: &StarkProof) -> (r: Result<bool, ZKPError>)
        ensures
            r matches Ok(accepted) && accepted == threshold_inputs_valid(proof@.public_inputs),
    {
        if proof.public_inputs.len() < 2 {
            return Ok(false);
        }
        let threshold: u64 = proof.public_inputs[0].0;
        let time_window: u64 = proof.public_inputs[1].0;
        if threshold == 0 || threshold > MAX_THRESHOLD as u64 {
            return Ok(false);
        }
        if time_window == 0 {
            return Ok(false);
        }
        Ok(true)
    }

    /// Whether the public inputs meet what the biometric statement adds.
    pub fn verify_biometric_proof(&self, proof: &StarkProof) -> (r: Result<bool, ZKPError>)
        ensures
            r matches Ok(accepted) && accepted == biometric_inputs_valid(proof@.public_inputs),
    {
        if proof.public_inputs.len() == 0 {
            return Ok(false);
        }
        let webauthn_challenge: u64 = proof.public_inputs[0].0;
        Ok(webauthn_challenge > 0)
    }
}

} // verus!
