//! What holds of the prover and the verifier together.

use vstd::prelude::*;
use vstd::bytes::*;
use vstd::std_specs::ops::MulSpec;
use crate::biometric::biometric_residuals;
use crate::biometric::BIOMETRIC_TRACE_HEIGHT;
use crate::biometric::biometric_trace_rows;
use crate::biometric::BIOMETRIC_TRACE_WIDTH;
use crate::biometric::flag;
use crate::biometric::prefix_element;
use crate::codec::encode_proof;
use crate::codec::parse_proof;
use crate::codec_laws::lemma_serialized_proof_decodes;
use crate::commitment::grid_bytes;
use crate::commitment::grid_commitment;
use crate::commitment::row_bytes;
use crate::field::BABY_BEAR_MODULUS;
use crate::field::BabyBearField;
use crate::field::reduce;
use crate::fri::fri_commitments;
use crate::fri::pow_accepts;
use crate::stark_proof::StarkProof;
use crate::stark_prover::proof_matches;
use crate::stark_verifier::CustomStarkVerifier;
use crate::stark_verifier::MAX_THRESHOLD;
use crate::threshold::threshold_residuals;
use crate::threshold::THRESHOLD_TRACE_HEIGHT;
use crate::threshold::threshold_trace_rows;
use crate::trace::ExecutionTrace;
use crate::types::DecayParameters;
use crate::types::RepIDCategory;

verus! {

/// In every row of the biometric trace, the all-verified column is one if
/// and only if all four factors are verified.
pub proof fn lemma_all_verified_iff_all_factors(
    challenge: Seq<u8>,
    hash: Seq<u8>,
    factors: Seq<bool>,
    row: int,
)
    requires
        0 <= row < BIOMETRIC_TRACE_HEIGHT,
    ensures
        biometric_trace_rows(challenge, hash, factors)[row][6] == BabyBearField(1) <==> (factors[0]
            && factors[1] && factors[2] && factors[3]),
{
}

/// The product of two flags is the flag of their conjunction.
proof fn lemma_flag_product(a: bool, b: bool)
    ensures
        flag(a).mul_spec(flag(b)) == flag(a && b),
{
    if a && b {
        assert(1int * 1int == 1int);
    } else if a {
        assert(1int * 0int == 0int);
    } else if b {
        assert(0int * 1int == 0int);
    } else {
        assert(0int * 0int == 0int);
    }
}

/// The residuals of the biometric trace are zero in every row.
pub proof fn lemma_biometric_trace_satisfies_constraints(
    trace: ExecutionTrace,
    challenge: Seq<u8>,
    hash: Seq<u8>,
    factors: Seq<bool>,
    row: int,
)
    requires
        trace.wf(),
        trace.width == BIOMETRIC_TRACE_WIDTH,
        trace.height == BIOMETRIC_TRACE_HEIGHT,
        trace.rows() == biometric_trace_rows(challenge, hash, factors),
        0 <= row < BIOMETRIC_TRACE_HEIGHT,
    ensures
        biometric_residuals(trace, row, challenge) == seq![BabyBearField(0), BabyBearField(0)],
{
    let cells = biometric_trace_rows(challenge, hash, factors)[row];
    assert(trace.rows()[row] == cells);
    assert forall|c: int| 0 <= c < 8 implies trace.cell(row, c) == cells[c] by {}
    lemma_flag_product(factors[0], factors[1]);
    lemma_flag_product(factors[0] && factors[1], factors[2]);
    lemma_flag_product(factors[0] && factors[1] && factors[2], factors[3]);
    assert(biometric_residuals(trace, row, challenge) =~= seq![
        BabyBearField(0),
        BabyBearField(0),
    ]);
}

/// The residuals of the threshold trace are zero in every row.
pub proof fn lemma_threshold_trace_satisfies_constraints(
    trace: ExecutionTrace,
    scores: Seq<(RepIDCategory, u32)>,
    threshold: u32,
    time_window: u64,
    decay: Option<DecayParameters>,
    timestamp: u64,
    row: int,
)
    requires
        trace.wf(),
        trace.width == scores.len() + 6,
        trace.height == THRESHOLD_TRACE_HEIGHT,
        trace.rows() == threshold_trace_rows(scores, threshold, time_window, decay, timestamp),
        0 <= row < THRESHOLD_TRACE_HEIGHT,
    ensures
        threshold_residuals(trace, row, threshold, time_window) == seq![
            BabyBearField(0),
            BabyBearField(0),
            BabyBearField(0),
            BabyBearField(0),
        ],
{
    let cells = threshold_trace_rows(scores, threshold, time_window, decay, timestamp)[row];
    let w = trace.width as int;
    assert(trace.rows()[row] == cells);
    assert(trace.cell(row, 0) == cells[0]);
    assert(trace.cell(row, 1) == cells[1]);
    assert(trace.cell(row, w - 3) == cells[w - 3]);
    assert(trace.cell(row, w - 2) == cells[w - 2]);
    assert(trace.cell(row, w - 1) == cells[w - 1]);
    assert(threshold_residuals(trace, row, threshold, time_window) =~= seq![
        BabyBearField(0),
        BabyBearField(0),
        BabyBearField(0),
        BabyBearField(0),
    ]);
}

/// A proof that matches a threshold trace is accepted as a threshold proof,
/// where the extended trace has more than sixteen rows, the threshold lies
/// between 1 and 1000, and the time window is not a multiple of the modulus.
pub proof fn lemma_threshold_proof_accepted(
    verifier: CustomStarkVerifier,
    proof: StarkProof,
    scores: Seq<(RepIDCategory, u32)>,
    threshold: u32,
    time_window: u64,
    decay: Option<DecayParameters>,
    timestamp: u64,
)
    requires
        proof_matches(
            proof,
            threshold_trace_rows(scores, threshold, time_window, decay, timestamp),
            (scores.len() + 6) as nat,
            verifier.blowup_factor as nat,
            verifier.num_queries as nat,
            seq![reduce(threshold as int), reduce(time_window as int)],
        ),
        THRESHOLD_TRACE_HEIGHT * verifier.blowup_factor > 16,
        1 <= threshold <= MAX_THRESHOLD,
        time_window % BABY_BEAR_MODULUS != 0,
    ensures
        verifier.accepts(proof@, "threshold_verification"@),
{
    let size = (THRESHOLD_TRACE_HEIGHT * verifier.blowup_factor) as nat;
    assert(proof.fri_proof.commitment_digests().len() == proof.fri_proof.commitments@.len());
    assert(fri_commitments(size).len() > 0);
}

/// A proof that matches a biometric trace is accepted as a biometric proof,
/// where the extended trace has more than sixteen rows and the first eight
/// bytes of the challenge are not a multiple of the modulus.
pub proof fn lemma_biometric_proof_accepted(
    verifier: CustomStarkVerifier,
    proof: StarkProof,
    challenge: Seq<u8>,
    hash: Seq<u8>,
    factors: Seq<bool>,
)
    requires
        proof_matches(
            proof,
            biometric_trace_rows(challenge, hash, factors),
            BIOMETRIC_TRACE_WIDTH as nat,
            verifier.blowup_factor as nat,
            verifier.num_queries as nat,
            seq![prefix_element(challenge)],
        ),
        BIOMETRIC_TRACE_HEIGHT * verifier.blowup_factor > 16,
        prefix_element(challenge) != BabyBearField(0),
    ensures
        verifier.accepts(proof@, "biometric_4fa"@),
{
    let size = (BIOMETRIC_TRACE_HEIGHT * verifier.blowup_factor) as nat;
    assert(proof.fri_proof.commitment_digests().len() == proof.fri_proof.commitments@.len());
    assert(fri_commitments(size).len() > 0);
    reveal_strlit("threshold_verification");
    reveal_strlit("biometric_4fa");
    assert("threshold_verification"@.len() != "biometric_4fa"@.len());
}

/// The encoding of a proof that matches a threshold trace decodes to a
/// proof that is accepted, under the conditions of acceptance.
pub proof fn lemma_encoded_threshold_proof_accepted(
    verifier: CustomStarkVerifier,
    proof: StarkProof,
    scores: Seq<(RepIDCategory, u32)>,
    threshold: u32,
    time_window: u64,
    decay: Option<DecayParameters>,
    timestamp: u64,
)
    requires
        proof_matches(
            proof,
            threshold_trace_rows(scores, threshold, time_window, decay, timestamp),
            (scores.len() + 6) as nat,
            verifier.blowup_factor as nat,
            verifier.num_queries as nat,
            seq![reduce(threshold as int), reduce(time_window as int)],
        ),
        THRESHOLD_TRACE_HEIGHT * verifier.blowup_factor > 16,
        1 <= threshold <= MAX_THRESHOLD,
        time_window % BABY_BEAR_MODULUS != 0,
    ensures
        parse_proof(encode_proof(proof@)) matches Some((decoded, _)) && verifier.accepts(
            decoded,
            "threshold_verification"@,
        ),
{
    lemma_threshold_proof_accepted(verifier, proof, scores, threshold, time_window, decay, timestamp);
    lemma_serialized_proof_decodes(proof, Seq::empty());
    assert(encode_proof(proof@) + Seq::<u8>::empty() =~= encode_proof(proof@));
}

/// The encoding of a proof that matches a biometric trace decodes to a proof
/// that is accepted, under the conditions of acceptance.
pub proof fn lemma_encoded_biometric_proof_accepted(
    verifier: CustomStarkVerifier,
    proof: StarkProof,
    challenge: Seq<u8>,
    hash: Seq<u8>,
    factors: Seq<bool>,
)
    requires
        proof_matches(
            proof,
            biometric_trace_rows(challenge, hash, factors),
            BIOMETRIC_TRACE_WIDTH as nat,
            verifier.blowup_factor as nat,
            verifier.num_queries as nat,
            seq![prefix_element(challenge)],
        ),
        BIOMETRIC_TRACE_HEIGHT * verifier.blowup_factor > 16,
        prefix_element(challenge) != BabyBearField(0),
    ensures
        parse_proof(encode_proof(proof@)) matches Some((decoded, _)) && verifier.accepts(
            decoded,
            "biometric_4fa"@,
        ),
{
    lemma_biometric_proof_accepted(verifier, proof, challenge, hash, factors);
    lemma_serialized_proof_decodes(proof, Seq::empty());
    assert(encode_proof(proof@) + Seq::<u8>::empty() =~= encode_proof(proof@));
}

/// A proof whose nonce the proof of work does not accept is rejected,
/// whatever else it holds.
pub proof fn lemma_rejected_without_proof_of_work(
    verifier: CustomStarkVerifier,
    proof: StarkProof,
    proof_type: Seq<char>,
)
    requires
        !pow_accepts(proof.fri_proof.pow_nonce),
    ensures
        !verifier.accepts(proof@, proof_type),
{
}

/// The encoding of a field element determines it.
pub proof fn lemma_encoding_injective(a: BabyBearField, b: BabyBearField)
    requires
        a.spec_to_bytes() == b.spec_to_bytes(),
    ensures
        a == b,
{
    lemma_auto_spec_u64_to_from_le_bytes();
}

/// The bytes of a row are eight for each cell.
pub proof fn lemma_row_bytes_len(row: Seq<BabyBearField>)
    ensures
        row_bytes(row).len() == 8 * row.len(),
    decreases row.len(),
{
    lemma_auto_spec_u64_to_from_le_bytes();
    if row.len() > 0 {
        lemma_row_bytes_len(row.drop_last());
    }
}

/// Two sequences that end in parts of equal length are equal only if both
/// parts are.
proof fn lemma_concat_cancel(head: Seq<u8>, tail: Seq<u8>, other_head: Seq<u8>, other_tail: Seq<u8>)
    requires
        head + tail == other_head + other_tail,
        tail.len() == other_tail.len(),
    ensures
        head == other_head,
        tail == other_tail,
{
    let whole = head + tail;
    assert(whole.len() == head.len() + tail.len());
    assert(whole.len() == other_head.len() + other_tail.len());
    assert(head =~= (head + tail).subrange(0, head.len() as int));
    assert(other_head =~= (other_head + other_tail).subrange(0, other_head.len() as int));
    assert(tail =~= (head + tail).subrange(head.len() as int, (head + tail).len() as int));
    assert(other_tail =~= (other_head + other_tail).subrange(other_head.len() as int, (other_head + other_tail).len() as int));
}

/// The bytes of a row determine its cells.
pub proof fn lemma_row_bytes_injective(a: Seq<BabyBearField>, b: Seq<BabyBearField>)
    requires
        a.len() == b.len(),
        row_bytes(a) == row_bytes(b),
    ensures
        a == b,
    decreases a.len(),
{
    if a.len() > 0 {
        lemma_auto_spec_u64_to_from_le_bytes();
        lemma_concat_cancel(
            row_bytes(a.drop_last()),
            a.last().spec_to_bytes(),
            row_bytes(b.drop_last()),
            b.last().spec_to_bytes(),
        );
        lemma_encoding_injective(a.last(), b.last());
        lemma_row_bytes_injective(a.drop_last(), b.drop_last());
        assert(a =~= a.drop_last().push(a.last()));
        assert(b =~= b.drop_last().push(b.last()));
    } else {
        assert(a =~= b);
    }
}

/// The bytes of a grid determine its cells, among grids of one shape.
pub proof fn lemma_grid_bytes_injective(a: Seq<Seq<BabyBearField>>, b: Seq<Seq<BabyBearField>>)
    requires
        a.len() == b.len(),
        forall|r: int| 0 <= r < a.len() ==> (#[trigger] a[r]).len() == b[r].len(),
        grid_bytes(a) == grid_bytes(b),
    ensures
        a == b,
    decreases a.len(),
{
    if a.len() > 0 {
        lemma_row_bytes_len(a.last());
        lemma_row_bytes_len(b.last());
        assert(a.last().len() == b.last().len());
        lemma_concat_cancel(
            grid_bytes(a.drop_last()),
            row_bytes(a.last()),
            grid_bytes(b.drop_last()),
            row_bytes(b.last()),
        );
        lemma_row_bytes_injective(a.last(), b.last());
        assert forall|r: int| 0 <= r < a.drop_last().len() implies (#[trigger] a.drop_last()[r]).len()
            == b.drop_last()[r].len() by {
            assert(a.drop_last()[r] == a[r]);
        }
        lemma_grid_bytes_injective(a.drop_last(), b.drop_last());
        assert(a =~= a.drop_last().push(a.last()));
        assert(b =~= b.drop_last().push(b.last()));
    } else {
        assert(a =~= b);
    }
}

/// Changing one cell of a grid changes the bytes that its commitment is the
/// digest of: the commitments then differ unless BLAKE3 maps the two byte
/// strings to one digest.
pub proof fn lemma_cell_change_changes_committed_bytes(
    a: Seq<Seq<BabyBearField>>,
    b: Seq<Seq<BabyBearField>>,
    row: int,
    col: int,
)
    requires
        a.len() == b.len(),
        forall|r: int| 0 <= r < a.len() ==> (#[trigger] a[r]).len() == b[r].len(),
        0 <= row < a.len(),
        0 <= col < a[row].len(),
        a[row][col] != b[row][col],
    ensures
        grid_bytes(a) != grid_bytes(b),
{
    if grid_bytes(a) == grid_bytes(b) {
        lemma_grid_bytes_injective(a, b);
    }
}

/// Equal grids have equal commitments.
pub proof fn lemma_commitment_deterministic(
    a: Seq<Seq<BabyBearField>>,
    b: Seq<Seq<BabyBearField>>,
)
    requires
        a == b,
    ensures
        grid_commitment(a) == grid_commitment(b),
{
}

} // verus!
