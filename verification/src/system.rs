//! The facade: a prover and a verifier of one security level, proofs in
//! their byte layout, and the metadata around them.

use vstd::prelude::*;
use vstd::string::StringSliceAdditionalSpecFns;
use crate::biometric::BIOMETRIC_TRACE_HEIGHT;
use crate::biometric::biometric_trace_rows;
use crate::biometric::BIOMETRIC_TRACE_WIDTH;
use crate::biometric::prefix_element;
use crate::codec::deserialize_proof;
use crate::codec::encode_proof;
use crate::codec::parse_proof;
use crate::codec::serialize_proof;
use crate::extension::extension_ok;
use crate::field::BABY_BEAR_MODULUS;
use crate::field::BabyBearField;
use crate::field::reduce;
use crate::fri::pow_solvable;
use crate::hash::md5_digest;
use crate::hash::md5_hash;
use crate::hex::hex_bytes;
use crate::hex::hex_text;
use crate::hex::hex_u64;
use crate::hex::prefixed_hex_text;
use crate::hex::prefixed_hex_u64;
use crate::laws::lemma_encoded_biometric_proof_accepted;
use crate::laws::lemma_encoded_threshold_proof_accepted;
use crate::stark_proof::StarkProof;
use crate::stark_prover::CustomStarkProver;
use crate::stark_prover::proof_matches;
use crate::stark_verifier::CustomStarkVerifier;
use crate::stark_verifier::MAX_THRESHOLD;
use crate::threshold::lemma_score_sum_prefix;
use crate::threshold::score_sum;
use crate::threshold::threshold_scores_ok;
use crate::threshold::THRESHOLD_TRACE_HEIGHT;
use crate::threshold::threshold_trace_rows;
use crate::types::CategoryId;
use crate::types::ProofMetadata;
use crate::types::RepIDCategory;
use crate::types::RepIDProof;
use crate::types::SecurityLevel;
use crate::types::SolidityVerificationData;
use crate::types::ThresholdVerificationRequest;
use crate::types::ThresholdVerificationResult;
use crate::types::VerificationMetadata;
use crate::types::ZKPError;

verus! {

/// Whether `category` is one of `categories`.
pub open spec fn category_listed(categories: Seq<RepIDCategory>, category: CategoryId) -> bool {
    exists|i: int| 0 <= i < categories.len() && (#[trigger] categories[i])@ == category
}

/// The sum of the scores whose category is one of `categories`.
pub open spec fn counted_sum(scores: Seq<(RepIDCategory, u32)>, categories: Seq<RepIDCategory>) -> int
    decreases scores.len(),
{
    if scores.len() == 0 {
        0
    } else if category_listed(categories, scores.last().0@) {
        counted_sum(scores.drop_last(), categories) + scores.last().1
    } else {
        counted_sum(scores.drop_last(), categories)
    }
}

/// The counted scores sum to no more than all scores.
pub proof fn lemma_counted_sum_bounds(
    scores: Seq<(RepIDCategory, u32)>,
    categories: Seq<RepIDCategory>,
)
    ensures
        0 <= counted_sum(scores, categories) <= score_sum(scores),
    decreases scores.len(),
{
    if scores.len() > 0 {
        lemma_counted_sum_bounds(scores.drop_last(), categories);
    }
}

/// Whether `category` is one of `categories`.
pub fn is_listed(categories: &Vec<RepIDCategory>, category: &RepIDCategory) -> (listed: bool)
    ensures
        listed == category_listed(categories@, category@),
{
    let mut i: usize = 0;
    while i < categories.len()
        invariant
            i <= categories@.len(),
            forall|k: int| 0 <= k < i ==> (#[trigger] categories@[k])@ != category@,
        decreases categories@.len() - i,
    {
        if categories[i] == *category {
            return true;
        }
        i = i + 1;
    }
    false
}

/// The sum of the scores whose category is one of `categories`.
pub fn sum_counted(user_scores: &[(RepIDCategory, u32)], categories: &Vec<RepIDCategory>) -> (total:
    u32)
    requires
        score_sum(user_scores@) <= u32::MAX,
    ensures
        total == counted_sum(user_scores@, categories@),
{
    let mut total: u32 = 0;
    let mut i: usize = 0;
    assert(user_scores@.take(0) =~= Seq::empty());
    while i < user_scores.len()
        invariant
            score_sum(user_scores@) <= u32::MAX,
            i <= user_scores@.len(),
            total == counted_sum(user_scores@.take(i as int), categories@),
        decreases user_scores@.len() - i,
    {
        proof {
            assert(user_scores@.take(i + 1).drop_last() =~= user_scores@.take(i as int));
            lemma_score_sum_prefix(user_scores@, i + 1);
            lemma_counted_sum_bounds(user_scores@.take(i + 1), categories@);
        }
        if is_listed(categories, &user_scores[i].0) {
            total = total + user_scores[i].1;
        }
        i = i + 1;
    }
    assert(user_scores@.take(i as int) =~= user_scores@);
    total
}

/// A copy of the categories.
pub fn copy_categories(categories: &Vec<RepIDCategory>) -> (copy: Vec<RepIDCategory>)
    ensures
        copy@ == categories@,
{
    let mut copy: Vec<RepIDCategory> = Vec::new();
    let mut i: usize = 0;
    while i < categories.len()
        invariant
            i <= categories@.len(),
            copy@ == categories@.take(i as int),
        decreases categories@.len() - i,
    {
        copy.push(categories[i].clone());
        assert(categories@.take(i + 1) =~= categories@.take(i as int).push(categories@[i as int]));
        i = i + 1;
    }
    assert(categories@.take(i as int) =~= categories@);
    copy
}

/// A prover and a verifier with the parameters of one security level.
pub struct RepIDZKPSystem {
    prover: CustomStarkProver,
    verifier: CustomStarkVerifier,
}

impl RepIDZKPSystem {
    /// The number of queries of this system's proofs.
    pub closed spec fn num_queries(&self) -> usize {
        self.verifier.num_queries
    }

    /// The blowup factor of this system's proofs.
    pub closed spec fn blowup_factor(&self) -> usize {
        self.verifier.blowup_factor
    }

    /// The prover and the verifier agree on their parameters.
    pub closed spec fn wf(&self) -> bool {
        &&& self.prover.num_queries == self.verifier.num_queries
        &&& self.prover.blowup_factor == self.verifier.blowup_factor
    }

    /// The verifier of this system.
    pub closed spec fn spec_verifier(&self) -> CustomStarkVerifier {
        self.verifier
    }

    /// A system at the given security level.
    pub fn new(security_level: SecurityLevel) -> (system: Self)
        ensures
            system.wf(),
            system.num_queries() == security_level.spec_num_queries(),
            system.blowup_factor() == security_level.spec_blowup_factor(),
    {
        let (num_queries, blowup_factor) = security_level.parameters();
        RepIDZKPSystem {
            prover: CustomStarkProver::new(num_queries, blowup_factor),
            verifier: CustomStarkVerifier::new(num_queries, blowup_factor),
        }
    }

    /// Proves the threshold statement of `request` for `user_scores` at
    /// `current_timestamp`, and says in the clear whether the scores of the
    /// requested categories reach the threshold.
    ///
    /// The proving time is left at zero: this library reads no clock.
    pub fn prove_threshold_verification(
        &mut self,
        request: &ThresholdVerificationRequest,
        user_scores: &[(RepIDCategory, u32)],
        wallet_address: &str,
        current_timestamp: u64,
    ) -> (r: Result<ThresholdVerificationResult, ZKPError>)
        requires
            old(self).wf(),
        ensures
            final(self).wf(),
            final(self).num_queries() == old(self).num_queries(),
            final(self).blowup_factor() == old(self).blowup_factor(),
            r is Ok <==> {
                &&& threshold_scores_ok(user_scores@)
                &&& extension_ok(
                    THRESHOLD_TRACE_HEIGHT as nat,
                    old(self).blowup_factor() as nat,
                    old(self).num_queries() as nat,
                )
                &&& pow_solvable()
            },
            r matches Ok(result) ==> {
                &&& result.meets_threshold == (counted_sum(user_scores@, request.categories@)
                    >= request.threshold)
                &&& exists|stark: StarkProof|
                    {
                        &&& result.proof.proof_data@ == #[trigger] encode_proof(stark@)
                        &&& proof_matches(
                            stark,
                            threshold_trace_rows(
                                user_scores@,
                                request.threshold,
                                request.time_window,
                                request.decay_params,
                                current_timestamp,
                            ),
                            (user_scores@.len() + 6) as nat,
                            old(self).blowup_factor() as nat,
                            old(self).num_queries() as nat,
                            seq![
                                reduce(request.threshold as int),
                                reduce(request.time_window as int),
                            ],
                        )
                    }
                &&& result.proof.public_inputs@ == seq![
                    reduce(request.threshold as int),
                    reduce(request.time_window as int),
                ]
                &&& result.proof.metadata.operation_type@ == "threshold_verification"@
                &&& result.proof.metadata.timestamp == current_timestamp
                &&& result.proof.metadata.wallet_hash@ == hex_bytes(
                    md5_digest(wallet_address.spec_bytes()),
                )
                &&& result.proof.metadata.proof_size == result.proof.proof_data@.len()
                &&& result.proof.metadata.generation_time_ms == 0
                &&& result.metadata.categories_verified@ == request.categories@
                &&& result.metadata.threshold_used == request.threshold
                &&& result.metadata.time_window_applied == request.time_window
                &&& result.metadata.decay_applied == request.decay_params is Some
            },
            r matches Err(e) ==> {
                if !threshold_scores_ok(user_scores@) {
                    e is InvalidInput && e.detail() == "scores out of range"@
                } else if THRESHOLD_TRACE_HEIGHT * old(self).blowup_factor() > usize::MAX {
                    e is InvalidInput && e.detail() == "extended height out of range"@
                } else if !pow_solvable() {
                    e is ProofGenerationError && e.detail() == "PoW timeout"@
                } else {
                    e is InvalidInput && e.detail() == "extended trace is empty"@
                }
            },
    {
        let decay_params = match &request.decay_params {
            Some(decay) => Some(decay),
            None => None,
        };
        let stark_proof = match self.prover.prove_threshold_verification(
            user_scores,
            request.threshold,
            request.time_window,
            decay_params,
            current_timestamp,
        ) {
            Ok(stark_proof) => stark_proof,
            Err(e) => {
                return Err(e);
            },
        };
        let proof_data: Vec<u8> = serialize_proof(&stark_proof);
        let total_score: u32 = sum_counted(user_scores, &request.categories);
        let meets_threshold: bool = total_score >= request.threshold;
        let proof_size: usize = proof_data.len();
        let ghost stark = stark_proof;
        let repid_proof = RepIDProof {
            proof_data,
            public_inputs: stark_proof.public_inputs,
            metadata: ProofMetadata {
                operation_type: "threshold_verification".to_owned(),
                timestamp: current_timestamp,
                wallet_hash: hex_text(md5_hash(wallet_address.as_bytes()).as_slice()),
                proof_size,
                generation_time_ms: 0,
            },
        };
        let verification_metadata = VerificationMetadata {
            categories_verified: copy_categories(&request.categories),
            threshold_used: request.threshold,
            time_window_applied: request.time_window,
            decay_applied: request.decay_params.is_some(),
        };
        proof {
            assert(proof_matches(
                stark,
                threshold_trace_rows(
                    user_scores@,
                    request.threshold,
                    request.time_window,
                    request.decay_params,
                    current_timestamp,
                ),
                (user_scores@.len() + 6) as nat,
                old(self).blowup_factor() as nat,
                old(self).num_queries() as nat,
                seq![reduce(request.threshold as int), reduce(request.time_window as int)],
            ));
        }
        Ok(
            ThresholdVerificationResult {
                meets_threshold,
                proof: repid_proof,
                metadata: verification_metadata,
            },
        )
    }

    /// Proves the biometric statement at `current_timestamp`.
    ///
    /// The proving time is left at zero: this library reads no clock.
    pub fn prove_biometric_4fa(
        &mut self,
        webauthn_challenge: [u8; 32],
        biometric_hash: [u8; 32],
        factor_proofs: &[bool; 4],
        current_timestamp: u64,
    ) -> (r: Result<RepIDProof, ZKPError>)
        requires
            old(self).wf(),
        ensures
            final(self).wf(),
            final(self).num_queries() == old(self).num_queries(),
            final(self).blowup_factor() == old(self).blowup_factor(),
            r is Ok <==> {
                &&& extension_ok(
                    BIOMETRIC_TRACE_HEIGHT as nat,
                    old(self).blowup_factor() as nat,
                    old(self).num_queries() as nat,
                )
                &&& pow_solvable()
            },
            r matches Ok(proof) ==> {
                &&& exists|stark: StarkProof|
                    {
                        &&& proof.proof_data@ == #[trigger] encode_proof(stark@)
                        &&& proof_matches(
                            stark,
                            biometric_trace_rows(
                                webauthn_challenge@,
                                biometric_hash@,
                                factor_proofs@,
                            ),
                            BIOMETRIC_TRACE_WIDTH as nat,
                            old(self).blowup_factor() as nat,
                            old(self).num_queries() as nat,
                            seq![prefix_element(webauthn_challenge@)],
                        )
                    }
                &&& proof.public_inputs@ == seq![prefix_element(webauthn_challenge@)]
                &&& proof.metadata.operation_type@ == "biometric_4fa"@
                &&& proof.metadata.timestamp == current_timestamp
                &&& proof.metadata.wallet_hash@ == "biometric_verification"@
                &&& proof.metadata.proof_size == proof.proof_data@.len()
                &&& proof.metadata.generation_time_ms == 0
            },
            r matches Err(e) ==> {
                if BIOMETRIC_TRACE_HEIGHT * old(self).blowup_factor() > usize::MAX {
                    e is InvalidInput && e.detail() == "extended height out of range"@
                } else if !pow_solvable() {
                    e is ProofGenerationError && e.detail() == "PoW timeout"@
                } else {
                    e is InvalidInput && e.detail() == "extended trace is empty"@
                }
            },
    {
        let stark_proof = self.prover.prove_biometric_verification(
            webauthn_challenge,
            biometric_hash,
            factor_proofs,
        )?;
        let proof_data: Vec<u8> = serialize_proof(&stark_proof);
        let proof_size: usize = proof_data.len();
        let ghost stark = stark_proof;
        proof {
            assert(proof_matches(
                stark,
                biometric_trace_rows(webauthn_challenge@, biometric_hash@, factor_proofs@),
                BIOMETRIC_TRACE_WIDTH as nat,
                old(self).blowup_factor() as nat,
                old(self).num_queries() as nat,
                seq![prefix_element(webauthn_challenge@)],
            ));
        }
        Ok(
            RepIDProof {
                proof_data,
                public_inputs: stark_proof.public_inputs,
                metadata: ProofMetadata {
                    operation_type: "biometric_4fa".to_owned(),
                    timestamp: current_timestamp,
                    wallet_hash: "biometric_verification".to_owned(),
                    proof_size,
                    generation_time_ms: 0,
                },
            },
        )
    }

    /// Verifies an encoded proof as a proof of the statement that its
    /// metadata names.
    ///
    /// Fails where the bytes are not an encoded proof; a proof that is not
    /// accepted gives `Ok(false)`.
    pub fn verify_proof(
        &self,
        proof: &RepIDProof,
        _request: Option<&ThresholdVerificationRequest>,
    ) -> (r: Result<bool, ZKPError>)
        ensures
            match parse_proof(proof.proof_data@) {
                Some((stark, _)) => r matches Ok(accepted) && accepted
                    == self.spec_verifier().accepts(stark, proof.metadata.operation_type@),
                None => r matches Err(e) && e is SerializationError && e.detail()
                    == "Failed to deserialize proof: unexpected end of input"@,
            },
    {
        let stark_proof = match deserialize_proof(proof.proof_data.as_slice()) {
            Ok(stark_proof) => stark_proof,
            Err(e) => {
                return Err(e);
            },
        };
        self.verifier.verify_proof(&stark_proof, proof.metadata.operation_type.as_str())
    }

    /// What an on-chain verifier contract is handed for `proof`.
    pub fn extract_solidity_verification_data(&self, proof: &RepIDProof) -> (data:
        SolidityVerificationData)
        ensures
            data.proof_hash@ == "0x"@ + hex_bytes(md5_digest(proof.proof_data@)),
            data.public_inputs@.len() == proof.public_inputs@.len(),
            forall|i: int|
                0 <= i < proof.public_inputs@.len() ==> (#[trigger] data.public_inputs@[i])@ == "0x"@
                    + hex_u64(proof.public_inputs@[i].0),
            data.proof_type@ == proof.metadata.operation_type@,
            data.timestamp == proof.metadata.timestamp,
            data.proof_size == proof.metadata.proof_size,
    {
        let mut public_inputs: Vec<String> = Vec::new();
        let mut i: usize = 0;
        while i < proof.public_inputs.len()
            invariant
                i <= proof.public_inputs@.len(),
                public_inputs@.len() == i,
                forall|k: int|
                    0 <= k < i ==> (#[trigger] public_inputs@[k])@ == "0x"@ + hex_u64(
                        proof.public_inputs@[k].0,
                    ),
            decreases proof.public_inputs@.len() - i,
        {
            public_inputs.push(prefixed_hex_u64(proof.public_inputs[i].0));
            i = i + 1;
        }
        SolidityVerificationData {
            proof_hash: prefixed_hex_text(md5_hash(proof.proof_data.as_slice()).as_slice()),
            public_inputs,
            proof_type: proof.metadata.operation_type.clone(),
            timestamp: proof.metadata.timestamp,
            proof_size: proof.metadata.proof_size,
        }
    }
}

/// A threshold proof that this system has built is accepted by this system,
/// where the extended trace has more than sixteen rows, the threshold lies
/// between 1 and 1000, and the time window is not a multiple of the modulus.
pub proof fn lemma_threshold_proof_verifies(
    system: RepIDZKPSystem,
    stark: StarkProof,
    user_scores: Seq<(RepIDCategory, u32)>,
    request: ThresholdVerificationRequest,
    timestamp: u64,
)
    requires
        proof_matches(
            stark,
            threshold_trace_rows(
                user_scores,
                request.threshold,
                request.time_window,
                request.decay_params,
                timestamp,
            ),
            (user_scores.len() + 6) as nat,
            system.blowup_factor() as nat,
            system.num_queries() as nat,
            seq![reduce(request.threshold as int), reduce(request.time_window as int)],
        ),
        THRESHOLD_TRACE_HEIGHT * system.blowup_factor() > 16,
        1 <= request.threshold <= MAX_THRESHOLD,
        request.time_window % BABY_BEAR_MODULUS != 0,
    ensures
        parse_proof(encode_proof(stark@)) matches Some((decoded, _))
            && system.spec_verifier().accepts(decoded, "threshold_verification"@),
{
    lemma_encoded_threshold_proof_accepted(
        system.verifier,
        stark,
        user_scores,
        request.threshold,
        request.time_window,
        request.decay_params,
        timestamp,
    );
}

/// A biometric proof that this system has built is accepted by this system,
/// where the extended trace has more than sixteen rows and the first eight
/// bytes of the challenge are not a multiple of the modulus.
pub proof fn lemma_biometric_proof_verifies(
    system: RepIDZKPSystem,
    stark: StarkProof,
    challenge: Seq<u8>,
    hash: Seq<u8>,
    factors: Seq<bool>,
)
    requires
        proof_matches(
            stark,
            biometric_trace_rows(challenge, hash, factors),
            BIOMETRIC_TRACE_WIDTH as nat,
            system.blowup_factor() as nat,
            system.num_queries() as nat,
            seq![prefix_element(challenge)],
        ),
        BIOMETRIC_TRACE_HEIGHT * system.blowup_factor() > 16,
        prefix_element(challenge) != BabyBearField(0),
    ensures
        parse_proof(encode_proof(stark@)) matches Some((decoded, _))
            && system.spec_verifier().accepts(decoded, "biometric_4fa"@),
{
    lemma_encoded_biometric_proof_accepted(system.verifier, stark, challenge, hash, factors);
}

impl Default for RepIDZKPSystem {
    /// A system at the standard security level.
    fn default() -> (system: Self)
        ensures
            system.wf(),
            system.num_queries() == SecurityLevel::Standard.spec_num_queries(),
            system.blowup_factor() == SecurityLevel::Standard.spec_blowup_factor(),
    {
        Self::new(SecurityLevel::Standard)
    }
}

} // verus!
