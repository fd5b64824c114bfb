//! The prover: builds the trace of a statement, commits to it and to its
//! extension, builds the FRI-style part, and answers the queries.

use vstd::prelude::*;
use vstd::arithmetic::mul::lemma_mul_basics;
use rand_chacha::ChaCha20Rng;
use crate::biometric::all_factors;
use crate::biometric::biometric_residuals;
use crate::biometric::biometric_row;
use crate::biometric::BIOMETRIC_TRACE_HEIGHT;
use crate::biometric::biometric_trace_rows;
use crate::biometric::BIOMETRIC_TRACE_WIDTH;
use crate::biometric::flag_field;
use crate::biometric::prefix_element;
use crate::biometric::prefix_field;
use crate::commitment::grid_bytes;
use crate::commitment::grid_commitment;
use crate::commitment::hash_u64;
use crate::commitment::row_bytes;
use crate::encoding::push_u64_le;
use crate::extension::extended_cell;
use crate::extension::extended_rows;
use crate::extension::extension_ok;
use crate::extension::grid_cell;
use crate::field::BabyBearField;
use crate::field::reduce;
use crate::fri::fri_commitments;
use crate::fri::fri_final_poly;
use crate::fri::fri_final_size;
use crate::fri::fri_matches;
use crate::fri::grind_pow;
use crate::fri::pow_solvable;
use crate::hash::blake3_hash;
use crate::hash::chacha20_from_seed;
use crate::hash::chacha20_next_u64;
use crate::query::query_matches;
use crate::query::query_response;
use crate::stark_proof::digests_view;
use crate::stark_proof::FriProof;
use crate::stark_proof::QueryResponse;
use crate::stark_proof::StarkProof;
use crate::threshold::apply_decay;
use crate::threshold::decay_value;
use crate::threshold::THRESHOLD_FIXED_COLUMNS;
use crate::threshold::threshold_residuals;
use crate::threshold::threshold_row;
use crate::threshold::threshold_scores_ok;
use crate::threshold::THRESHOLD_TRACE_HEIGHT;
use crate::threshold::threshold_trace_rows;
use crate::threshold::total_score;
use crate::trace::ExecutionTrace;
use crate::trace::fill_row;
use crate::types::DecayParameters;
use crate::types::RepIDCategory;
use crate::types::ZKPError;

verus! {

/// Whether `proof` is a proof for the trace `rows` of `width` columns:
/// the two commitments, the FRI-style part for the extended trace,
/// `num_queries` answered queries, and the public inputs.
pub open spec fn proof_matches(
    proof: StarkProof,
    rows: Seq<Seq<BabyBearField>>,
    width: nat,
    blowup: nat,
    num_queries: nat,
    public_inputs: Seq<BabyBearField>,
) -> bool {
    let lde = extended_rows(rows, width, blowup);
    &&& proof.trace_root@ == grid_commitment(rows)
    &&& proof.lde_root@ == grid_commitment(lde)
    &&& fri_matches(proof.fri_proof, lde.len())
    &&& proof.queries@.len() == num_queries
    &&& forall|i: int| 0 <= i < num_queries ==> query_matches(#[trigger] proof.queries@[i], lde)
    &&& proof.public_inputs@ == public_inputs
}

/// The prover of both statements.
pub struct CustomStarkProver {
    /// The number of queries in each proof.
    pub num_queries: usize,
    /// The factor by which the trace is extended.
    pub blowup_factor: usize,
    /// The generator from which query positions are drawn.
    pub rng: ChaCha20Rng,
}

impl CustomStarkProver {
    /// A prover with the given parameters, whose generator starts from the
    /// fixed seed of thirty-two bytes `0x2A`.
    pub fn new(num_queries: usize, blowup_factor: usize) -> (prover: Self)
        ensures
            prover.num_queries == num_queries,
            prover.blowup_factor == blowup_factor,
    {
        CustomStarkProver { num_queries, blowup_factor, rng: chacha20_from_seed([42u8;32]) }
    }

    /// Proves the threshold statement at `current_timestamp`.
    ///
    /// The public inputs are the threshold and the time window. Fails where
    /// the scores are out of range, the extended trace cannot be built or
    /// queried, or the proof of work finds no nonce.
    pub fn prove_threshold_verification(
        &mut self,
        user_scores: &[(RepIDCategory, u32)],
        threshold: u32,
        time_window: u64,
        decay_params: Option<&DecayParameters>,
        current_timestamp: u64,
    ) -> (r: Result<StarkProof, ZKPError>)
        ensures
            final(self).num_queries == old(self).num_queries,
            final(self).blowup_factor == old(self).blowup_factor,
            r is Ok <==> {
                &&& threshold_scores_ok(user_scores@)
                &&& extension_ok(
                    THRESHOLD_TRACE_HEIGHT as nat,
                    old(self).blowup_factor as nat,
                    old(self).num_queries as nat,
                )
                &&& pow_solvable()
            },
            r matches Ok(proof) ==> proof_matches(
                proof,
                threshold_trace_rows(
                    user_scores@,
                    threshold,
                    time_window,
                    decay_value(decay_params),
                    current_timestamp,
                ),
                (user_scores@.len() + 6) as nat,
                old(self).blowup_factor as nat,
                old(self).num_queries as nat,
                seq![reduce(threshold as int), reduce(time_window as int)],
            ),
            r matches Err(e) ==> {
                if !threshold_scores_ok(user_scores@) {
                    e is InvalidInput && e.detail() == "scores out of range"@
                } else if THRESHOLD_TRACE_HEIGHT * old(self).blowup_factor > usize::MAX {
                    e is InvalidInput && e.detail() == "extended height out of range"@
                } else if !pow_solvable() {
                    e is ProofGenerationError && e.detail() == "PoW timeout"@
                } else {
                    e is InvalidInput && e.detail() == "extended trace is empty"@
                }
            },
    {
        let trace = self.create_threshold_trace(
            user_scores,
            threshold,
            time_window,
            decay_params,
            current_timestamp,
        )?;
        let constraints = self.generate_threshold_constraints(&trace, threshold, time_window)?;
        let public_inputs: Vec<BabyBearField> = vec![
            BabyBearField::from_u32(threshold),
            BabyBearField::new(time_window),
        ];
        assert(public_inputs@ =~= seq![reduce(threshold as int), reduce(time_window as int)]);
        self.prove_trace(&trace, &constraints, public_inputs)
    }

    /// Proves the biometric statement.
    ///
    /// The public input is the challenge. Fails where the extended trace
    /// cannot be built or queried, or the proof of work finds no nonce.
    pub fn prove_biometric_verification(
        &mut self,
        webauthn_challenge: [u8; 32],
        biometric_hash: [u8; 32],
        factor_proofs: &[bool; 4],
    ) -> (r: Result<StarkProof, ZKPError>)
        ensures
            final(self).num_queries == old(self).num_queries,
            final(self).blowup_factor == old(self).blowup_factor,
            r is Ok <==> {
                &&& extension_ok(
                    BIOMETRIC_TRACE_HEIGHT as nat,
                    old(self).blowup_factor as nat,
                    old(self).num_queries as nat,
                )
                &&& pow_solvable()
            },
            r matches Ok(proof) ==> proof_matches(
                proof,
                biometric_trace_rows(webauthn_challenge@, biometric_hash@, factor_proofs@),
                BIOMETRIC_TRACE_WIDTH as nat,
                old(self).blowup_factor as nat,
                old(self).num_queries as nat,
                seq![prefix_element(webauthn_challenge@)],
            ),
            r matches Err(e) ==> {
                if BIOMETRIC_TRACE_HEIGHT * old(self).blowup_factor > usize::MAX {
                    e is InvalidInput && e.detail() == "extended height out of range"@
                } else if !pow_solvable() {
                    e is ProofGenerationError && e.detail() == "PoW timeout"@
                } else {
                    e is InvalidInput && e.detail() == "extended trace is empty"@
                }
            },
    {
        let trace = self.create_biometric_trace(
            webauthn_challenge,
            biometric_hash,
            factor_proofs,
        )?;
        let constraints = self.generate_biometric_constraints(&trace, webauthn_challenge)?;
        let public_inputs: Vec<BabyBearField> = vec![prefix_field(&webauthn_challenge)];
        assert(public_inputs@ =~= seq![prefix_element(webauthn_challenge@)]);
        self.prove_trace(&trace, &constraints, public_inputs)
    }

    /// The steps that both statements share: commit to the trace, extend it,
    /// commit to the extension, build the FRI-style part, answer the queries.
    ///
    /// Fails where the trace is malformed, the extended trace cannot be built
    /// or queried, or the proof of work finds no nonce.
    pub fn prove_trace(
        &mut self,
        trace: &ExecutionTrace,
        constraints: &Vec<Vec<BabyBearField>>,
        public_inputs: Vec<BabyBearField>,
    ) -> (r: Result<StarkProof, ZKPError>)
        ensures
            final(self).num_queries == old(self).num_queries,
            final(self).blowup_factor == old(self).blowup_factor,
            r is Ok <==> {
                &&& trace.wf()
                &&& extension_ok(
                    trace.height as nat,
                    old(self).blowup_factor as nat,
                    old(self).num_queries as nat,
                )
                &&& pow_solvable()
            },
            r matches Ok(proof) ==> proof_matches(
                proof,
                trace.rows(),
                trace.width as nat,
                old(self).blowup_factor as nat,
                old(self).num_queries as nat,
                public_inputs@,
            ),
            r matches Err(e) ==> {
                if !trace.wf() {
                    e is CircuitError && e.detail() == "malformed trace"@
                } else if trace.height * old(self).blowup_factor > usize::MAX {
                    e is InvalidInput && e.detail() == "extended height out of range"@
                } else if !pow_solvable() {
                    e is ProofGenerationError && e.detail() == "PoW timeout"@
                } else {
                    e is InvalidInput && e.detail() == "extended trace is empty"@
                }
            },
    {
        let trace_commitment = self.commit_to_trace(trace)?;
        let lde = self.compute_lde(trace)?;
        let lde_commitment = self.commit_to_lde(&lde)?;
        let fri_proof = self.generate_fri_proof(&lde, constraints)?;
        let queries = self.generate_queries(trace, &lde, &fri_proof)?;
        Ok(
            StarkProof {
                trace_root: trace_commitment,
                lde_root: lde_commitment,
                fri_proof,
                queries,
                public_inputs,
            },
        )
    }

    /// Builds the trace of the threshold statement at `current_timestamp`.
    ///
    /// Fails where the scores' sum does not fit in 32 bits, or the row does
    /// not fit in memory.
    pub fn create_threshold_trace(
        &self,
        user_scores: &[(RepIDCategory, u32)],
        threshold: u32,
        time_window: u64,
        decay_params: Option<&DecayParameters>,
        current_timestamp: u64,
    ) -> (r: Result<ExecutionTrace, ZKPError>)
        ensures
            r is Ok <==> threshold_scores_ok(user_scores@),
            r matches Ok(trace) ==> {
                &&& trace.wf()
                &&& trace.width == user_scores@.len() + 6
                &&& trace.height == THRESHOLD_TRACE_HEIGHT
                &&& trace.rows() == threshold_trace_rows(
                    user_scores@,
                    threshold,
                    time_window,
                    decay_value(decay_params),
                    current_timestamp,
                )
            },
            r matches Err(e) ==> e is InvalidInput && e.detail() == "scores out of range"@,
    {
        let count: usize = user_scores.len();
        if count > usize::MAX - THRESHOLD_FIXED_COLUMNS {
            return Err(ZKPError::InvalidInput("scores out of range".to_owned()));
        }
        let total: u32 = match total_score(user_scores) {
            Some(total) => total,
            None => {
                return Err(ZKPError::InvalidInput("scores out of range".to_owned()));
            },
        };
        let final_score: u32 = apply_decay(total, decay_params, current_timestamp, time_window);
        let ghost row_spec = threshold_row(
            user_scores@,
            threshold,
            time_window,
            current_timestamp,
            final_score as int,
        );

        let mut row: Vec<BabyBearField> = Vec::new();
        row.push(BabyBearField::from_u32(threshold));
        row.push(BabyBearField::new(time_window));
        row.push(BabyBearField::new(current_timestamp));
        let mut i: usize = 0;
        while i < count
            invariant
                count == user_scores@.len(),
                i <= count,
                row@.len() == 3 + i,
                row_spec.len() == count + 6,
                row_spec == threshold_row(
                    user_scores@,
                    threshold,
                    time_window,
                    current_timestamp,
                    final_score as int,
                ),
                forall|c: int| 0 <= c < 3 + i ==> row@[c] == row_spec[c],
            decreases count - i,
        {
            row.push(BabyBearField::from_u32(user_scores[i].1));
            i = i + 1;
        }
        let final_element = BabyBearField::from_u32(final_score);
        row.push(final_element);
        row.push(flag_field(final_element.0 >= threshold as u64));
        row.push(BabyBearField::one());
        assert(row@ =~= row_spec);

        let width: usize = THRESHOLD_FIXED_COLUMNS + count;
        let mut trace = ExecutionTrace::new(width, THRESHOLD_TRACE_HEIGHT);
        let mut r: usize = 0;
        while r < THRESHOLD_TRACE_HEIGHT
            invariant
                r <= THRESHOLD_TRACE_HEIGHT,
                trace.wf(),
                trace.width == width,
                trace.height == THRESHOLD_TRACE_HEIGHT,
                row@ == row_spec,
                row@.len() == width,
                forall|k: int| 0 <= k < r ==> trace.row(k) == row@,
            decreases THRESHOLD_TRACE_HEIGHT - r,
        {
            fill_row(&mut trace, r, &row);
            r = r + 1;
        }
        proof {
            let expected = threshold_trace_rows(
                user_scores@,
                threshold,
                time_window,
                decay_value(decay_params),
                current_timestamp,
            );
            assert(trace.rows().len() == expected.len());
            assert forall|k: int| 0 <= k < 8 implies trace.rows()[k] == expected[k] by {
                assert(trace.row(k) == row@);
                assert(expected[k] == row_spec);
            }
            assert(trace.rows() =~= expected);
        }
        Ok(trace)
    }

    /// Builds the trace of the biometric statement.
    pub fn create_biometric_trace(
        &self,
        webauthn_challenge: [u8; 32],
        biometric_hash: [u8; 32],
        factor_proofs: &[bool; 4],
    ) -> (r: Result<ExecutionTrace, ZKPError>)
        ensures
            r matches Ok(trace) && {
                &&& trace.wf()
                &&& trace.width == BIOMETRIC_TRACE_WIDTH
                &&& trace.height == BIOMETRIC_TRACE_HEIGHT
                &&& trace.rows() == biometric_trace_rows(
                    webauthn_challenge@,
                    biometric_hash@,
                    factor_proofs@,
                )
                &&& forall|row: int|
                    0 <= row < BIOMETRIC_TRACE_HEIGHT ==> (trace.cell(row, 6) == BabyBearField(1)
                        <==> all_factors(factor_proofs@))
            },
    {
        let ghost row_spec = biometric_row(webauthn_challenge@, biometric_hash@, factor_proofs@);
        let all_verified: bool = factor_proofs[0] && factor_proofs[1] && factor_proofs[2]
            && factor_proofs[3];
        let mut row: Vec<BabyBearField> = Vec::new();
        row.push(prefix_field(&webauthn_challenge));
        row.push(prefix_field(&biometric_hash));
        row.push(flag_field(factor_proofs[0]));
        row.push(flag_field(factor_proofs[1]));
        row.push(flag_field(factor_proofs[2]));
        row.push(flag_field(factor_proofs[3]));
        row.push(flag_field(all_verified));
        row.push(BabyBearField::one());
        assert(row@ =~= row_spec);

        let mut trace = ExecutionTrace::new(BIOMETRIC_TRACE_WIDTH, BIOMETRIC_TRACE_HEIGHT);
        let mut r: usize = 0;
        while r < BIOMETRIC_TRACE_HEIGHT
            invariant
                r <= BIOMETRIC_TRACE_HEIGHT,
                trace.wf(),
                trace.width == BIOMETRIC_TRACE_WIDTH,
                trace.height == BIOMETRIC_TRACE_HEIGHT,
                row@ == row_spec,
                row@.len() == BIOMETRIC_TRACE_WIDTH,
                forall|k: int| 0 <= k < r ==> trace.row(k) == row@,
            decreases BIOMETRIC_TRACE_HEIGHT - r,
        {
            fill_row(&mut trace, r, &row);
            r = r + 1;
        }
        proof {
            let expected = biometric_trace_rows(
                webauthn_challenge@,
                biometric_hash@,
                factor_proofs@,
            );
            assert forall|k: int| 0 <= k < 4 implies trace.rows()[k] == expected[k] by {
                assert(trace.row(k) == row@);
            }
            assert(trace.rows() =~= expected);
            assert forall|k: int| 0 <= k < BIOMETRIC_TRACE_HEIGHT implies (trace.cell(k, 6)
                == BabyBearField(1) <==> all_factors(factor_proofs@)) by {
                assert(trace.row(k) == row@);
                assert(trace.cell(k, 6) == row_spec[6]);
            }
        }
        Ok(trace)
    }

    /// Commits to a grid: the BLAKE3 digest of the encodings of its cells,
    /// rows outer, columns inner.
    pub fn commit_to_trace(&self, trace: &ExecutionTrace) -> (r: Result<[u8; 32], ZKPError>)
        ensures
            r matches Ok(digest) && digest@ == grid_commitment(trace.rows()),
    {
        let mut bytes: Vec<u8> = Vec::new();
        let mut r: usize = 0;
        assert(trace.rows().take(0) =~= Seq::empty());
        while r < trace.data.len()
            invariant
                r <= trace.data@.len(),
                bytes@ == grid_bytes(trace.rows().take(r as int)),
            decreases trace.data@.len() - r,
        {
            let row = &trace.data[r];
            let ghost before = bytes@;
            let mut c: usize = 0;
            assert(row@.take(0) =~= Seq::empty());
            while c < row.len()
                invariant
                    c <= row@.len(),
                    bytes@ == before + row_bytes(row@.take(c as int)),
                decreases row@.len() - c,
            {
                push_u64_le(&mut bytes, row[c].0);
                assert(row@.take(c + 1).drop_last() =~= row@.take(c as int));
                c = c + 1;
            }
            assert(row@.take(c as int) =~= row@);
            assert(trace.rows().take(r + 1).drop_last() =~= trace.rows().take(r as int));
            r = r + 1;
        }
        assert(trace.rows().take(r as int) =~= trace.rows());
        Ok(blake3_hash(bytes.as_slice()))
    }

    /// Commits to the extended trace, as to the trace.
    pub fn commit_to_lde(&self, lde: &ExecutionTrace) -> (r: Result<[u8; 32], ZKPError>)
        ensures
            r matches Ok(digest) && digest@ == grid_commitment(lde.rows()),
    {
        self.commit_to_trace(lde)
    }

    /// Extends the trace to `blowup_factor` times its height.
    ///
    /// Fails where the trace is malformed, or the extended height does not
    /// fit in memory.
    pub fn compute_lde(&self, trace: &ExecutionTrace) -> (r: Result<ExecutionTrace, ZKPError>)
        ensures
            r is Ok <==> trace.wf() && trace.height * self.blowup_factor <= usize::MAX,
            r matches Ok(lde) ==> {
                &&& lde.wf()
                &&& lde.width == trace.width
                &&& lde.height == trace.height * self.blowup_factor
                &&& lde.rows() == extended_rows(
                    trace.rows(),
                    trace.width as nat,
                    self.blowup_factor as nat,
                )
            },
            r matches Err(e) ==> {
                if !trace.wf() {
                    e is CircuitError && e.detail() == "malformed trace"@
                } else {
                    e is InvalidInput && e.detail() == "extended height out of range"@
                }
            },
    {
        if !trace.is_well_formed() {
            return Err(ZKPError::CircuitError("malformed trace".to_owned()));
        }
        let extended_height: usize = match trace.height.checked_mul(self.blowup_factor) {
            Some(h) => h,
            None => {
                return Err(ZKPError::InvalidInput("extended height out of range".to_owned()));
            },
        };
        proof {
            lemma_mul_basics(self.blowup_factor as int);
        }
        let mut lde = ExecutionTrace::new(trace.width, extended_height);
        let mut row: usize = 0;
        while row < extended_height
            invariant
                trace.wf(),
                trace.height == 0 ==> extended_height == 0,
                lde.wf(),
                lde.width == trace.width,
                lde.height == extended_height,
                row <= extended_height,
                forall|r: int, c: int|
                    0 <= r < row && 0 <= c < lde.width ==> lde.row(r)[c] == extended_cell(
                        trace.rows(),
                        r,
                        c,
                    ),
            decreases extended_height - row,
        {
            let mut values: Vec<BabyBearField> = Vec::new();
            let mut col: usize = 0;
            while col < trace.width
                invariant
                    trace.wf(),
                    row < extended_height,
                    trace.height == 0 ==> extended_height == 0,
                    col <= trace.width,
                    values@.len() == col,
                    forall|c: int|
                        0 <= c < col ==> values@[c] == extended_cell(trace.rows(), row as int, c),
                decreases trace.width - col,
            {
                let value = if row < trace.height {
                    trace.get(row, col)
                } else {
                    let interpolation_factor = BabyBearField::new((row as u64) + 1);
                    trace.get(row % trace.height, col) * interpolation_factor
                };
                proof {
                    let source = if row < trace.height {
                        row as int
                    } else {
                        row as int % (trace.height as int)
                    };
                    assert(trace.cell(source, col as int) == grid_cell(
                        trace.rows(),
                        source,
                        col as int,
                    ));
                }
                values.push(value);
                col = col + 1;
            }
            let ghost before = lde;
            fill_row(&mut lde, row, &values);
            proof {
                assert forall|r: int, c: int| 0 <= r < row + 1 && 0 <= c < lde.width implies lde.row(
                    r,
                )[c] == extended_cell(trace.rows(), r, c) by {
                    if r < row {
                        assert(lde.row(r) == before.row(r));
                    }
                }
            }
            row = row + 1;
        }
        proof {
            let expected = extended_rows(
                trace.rows(),
                trace.width as nat,
                self.blowup_factor as nat,
            );
            assert forall|r: int| 0 <= r < lde.height implies lde.rows()[r] == expected[r] by {
                assert(lde.rows()[r] == lde.row(r));
                assert(lde.row(r) =~= expected[r]);
            }
            assert(lde.rows() =~= expected);
        }
        Ok(lde)
    }

    /// Builds the FRI-style part for the extended trace: the commitments of
    /// the halving rounds, the final polynomial, and the proof of work.
    ///
    /// Fails where no nonce within the budget is accepted.
    pub fn generate_fri_proof(
        &mut self,
        lde: &ExecutionTrace,
        _constraints: &Vec<Vec<BabyBearField>>,
    ) -> (r: Result<FriProof, ZKPError>)
        ensures
            *final(self) == *old(self),
            r is Ok <==> pow_solvable(),
            r matches Ok(fri) ==> fri_matches(fri, lde.height as nat),
            r matches Err(e) ==> e is ProofGenerationError && e.detail() == "PoW timeout"@,
    {
        let mut commitments: Vec<[u8; 32]> = Vec::new();
        let mut current_poly_size: usize = lde.height;
        assert(digests_view(commitments@) =~= Seq::empty());
        while current_poly_size > 16
            invariant
                digests_view(commitments@) + fri_commitments(current_poly_size as nat)
                    == fri_commitments(lde.height as nat),
                fri_final_size(current_poly_size as nat) == fri_final_size(lde.height as nat),
            decreases current_poly_size,
        {
            let ghost before = commitments@;
            commitments.push(hash_u64(current_poly_size as u64));
            proof {
                assert(digests_view(commitments@) =~= digests_view(before).push(
                    commitments@.last()@,
                ));
                assert(digests_view(commitments@) + fri_commitments(
                    (current_poly_size / 2) as nat,
                ) =~= digests_view(before) + fri_commitments(current_poly_size as nat));
            }
            current_poly_size = current_poly_size / 2;
        }
        let final_len: usize = if current_poly_size < 8 {
            current_poly_size
        } else {
            8
        };
        let mut final_poly: Vec<BabyBearField> = Vec::new();
        let mut i: usize = 0;
        while i < final_len
            invariant
                i <= final_len,
                final_poly@.len() == i,
                forall|k: int| 0 <= k < i ==> final_poly@[k] == BabyBearField(1),
            decreases final_len - i,
        {
            final_poly.push(BabyBearField::one());
            i = i + 1;
        }
        assert(final_poly@ =~= fri_final_poly(lde.height as nat));
        match grind_pow() {
            Some(pow_nonce) => Ok(FriProof { commitments, final_poly, pow_nonce }),
            None => Err(ZKPError::ProofGenerationError("PoW timeout".to_owned())),
        }
    }

    /// Answers `num_queries` queries at positions drawn from the generator.
    ///
    /// Fails where the extended trace is malformed, or a query is asked of
    /// an empty one.
    pub fn generate_queries(
        &mut self,
        _trace: &ExecutionTrace,
        lde: &ExecutionTrace,
        _fri_proof: &FriProof,
    ) -> (r: Result<Vec<QueryResponse>, ZKPError>)
        ensures
            final(self).num_queries == old(self).num_queries,
            final(self).blowup_factor == old(self).blowup_factor,
            r is Ok <==> lde.wf() && (old(self).num_queries > 0 ==> lde.height > 0),
            r matches Ok(queries) ==> {
                &&& queries@.len() == old(self).num_queries
                &&& forall|i: int|
                    0 <= i < queries@.len() ==> query_matches(#[trigger] queries@[i], lde.rows())
            },
            r matches Err(e) ==> {
                if !lde.wf() {
                    e is CircuitError && e.detail() == "malformed trace"@
                } else {
                    e is InvalidInput && e.detail() == "extended trace is empty"@
                }
            },
    {
        if !lde.is_well_formed() {
            return Err(ZKPError::CircuitError("malformed trace".to_owned()));
        }
        let mut queries: Vec<QueryResponse> = Vec::new();
        if self.num_queries > 0 && lde.height == 0 {
            return Err(ZKPError::InvalidInput("extended trace is empty".to_owned()));
        }
        let mut i: usize = 0;
        while i < self.num_queries
            invariant
                lde.wf(),
                self.num_queries == old(self).num_queries,
                self.blowup_factor == old(self).blowup_factor,
                self.num_queries > 0 ==> lde.height > 0,
                i <= self.num_queries,
                queries@.len() == i,
                forall|k: int| 0 <= k < i ==> query_matches(#[trigger] queries@[k], lde.rows()),
            decreases self.num_queries - i,
        {
            let raw: u64 = chacha20_next_u64(&mut self.rng);
            queries.push(query_response(lde, raw));
            i = i + 1;
        }
        Ok(queries)
    }

    /// The constraint residuals of each row of a threshold trace.
    ///
    /// Fails where the trace is malformed.
    pub fn generate_threshold_constraints(
        &self,
        trace: &ExecutionTrace,
        threshold: u32,
        time_window: u64,
    ) -> (r: Result<Vec<Vec<BabyBearField>>, ZKPError>)
        ensures
            r is Ok <==> trace.wf(),
            r matches Ok(constraints) ==> {
                &&& constraints@.len() == trace.height
                &&& forall|row: int|
                    0 <= row < trace.height ==> (#[trigger] constraints@[row])@
                        == threshold_residuals(*trace, row, threshold, time_window)
            },
            r matches Err(e) ==> e is CircuitError && e.detail() == "malformed trace"@,
    {
        if !trace.is_well_formed() {
            return Err(ZKPError::CircuitError("malformed trace".to_owned()));
        }
        let mut constraints: Vec<Vec<BabyBearField>> = Vec::new();
        let mut row: usize = 0;
        while row < trace.height
            invariant
                trace.wf(),
                row <= trace.height,
                constraints@.len() == row,
                forall|k: int|
                    0 <= k < row ==> (#[trigger] constraints@[k])@ == threshold_residuals(
                        *trace,
                        k,
                        threshold,
                        time_window,
                    ),
            decreases trace.height - row,
        {
            let mut row_constraints: Vec<BabyBearField> = Vec::new();
            row_constraints.push(trace.get(row, 0) - BabyBearField::from_u32(threshold));
            row_constraints.push(trace.get(row, 1) - BabyBearField::new(time_window));
            let final_score = if trace.width >= 3 {
                trace.get(row, trace.width - 3)
            } else {
                BabyBearField::zero()
            };
            let meets_threshold = if trace.width >= 2 {
                trace.get(row, trace.width - 2)
            } else {
                BabyBearField::zero()
            };
            let validity = if trace.width >= 1 {
                trace.get(row, trace.width - 1)
            } else {
                BabyBearField::zero()
            };
            row_constraints.push(meets_threshold - flag_field(final_score.0 >= threshold as u64));
            row_constraints.push(validity - BabyBearField::one());
            assert(row_constraints@ =~= threshold_residuals(
                *trace,
                row as int,
                threshold,
                time_window,
            ));
            constraints.push(row_constraints);
            row = row + 1;
        }
        Ok(constraints)
    }

    /// The constraint residuals of each row of a biometric trace.
    ///
    /// Fails where the trace is malformed.
    pub fn generate_biometric_constraints(
        &self,
        trace: &ExecutionTrace,
        webauthn_challenge: [u8; 32],
    ) -> (r: Result<Vec<Vec<BabyBearField>>, ZKPError>)
        ensures
            r is Ok <==> trace.wf(),
            r matches Ok(constraints) ==> {
                &&& constraints@.len() == trace.height
                &&& forall|row: int|
                    0 <= row < trace.height ==> (#[trigger] constraints@[row])@
                        == biometric_residuals(*trace, row, webauthn_challenge@)
            },
            r matches Err(e) ==> e is CircuitError && e.detail() == "malformed trace"@,
    {
        if !trace.is_well_formed() {
            return Err(ZKPError::CircuitError("malformed trace".to_owned()));
        }
        let expected_challenge = prefix_field(&webauthn_challenge);
        let mut constraints: Vec<Vec<BabyBearField>> = Vec::new();
        let mut row: usize = 0;
        while row < trace.height
            invariant
                trace.wf(),
                row <= trace.height,
                constraints@.len() == row,
                expected_challenge == prefix_element(webauthn_challenge@),
                forall|k: int|
                    0 <= k < row ==> (#[trigger] constraints@[k])@ == biometric_residuals(
                        *trace,
                        k,
                        webauthn_challenge@,
                    ),
            decreases trace.height - row,
        {
            let mut row_constraints: Vec<BabyBearField> = Vec::new();
            row_constraints.push(trace.get(row, 0) - expected_challenge);
            let expected_all_verified = trace.get(row, 2) * trace.get(row, 3) * trace.get(row, 4)
                * trace.get(row, 5);
            row_constraints.push(trace.get(row, 6) - expected_all_verified);
            assert(row_constraints@ =~= biometric_residuals(
                *trace,
                row as int,
                webauthn_challenge@,
            ));
            constraints.push(row_constraints);
            row = row + 1;
        }
        Ok(constraints)
    }
}

} // verus!
