//! The proof of a statement and its parts.

use vstd::prelude::*;
use crate::field::BabyBearField;

verus! {

/// A vector of 32-byte digests as a sequence of byte sequences.
pub open spec fn digests_view(digests: Seq<[u8; 32]>) -> Seq<Seq<u8>> {
    Seq::new(digests.len(), |i: int| digests[i]@)
}

/// The FRI-style part of a proof.
#[derive(Debug, Clone)]
pub struct FriProof {
    /// One commitment for each halving round.
    pub commitments: Vec<[u8; 32]>,
    /// The coefficients of the final polynomial, at most eight.
    pub final_poly: Vec<BabyBearField>,
    /// The nonce of the proof of work.
    pub pow_nonce: u64,
}

impl FriProof {
    /// The commitments as byte sequences.
    pub open spec fn commitment_digests(&self) -> Seq<Seq<u8>> {
        digests_view(self.commitments@)
    }
}

/// The answer to one query.
#[derive(Debug, Clone)]
pub struct QueryResponse {
    /// The queried row of the extended trace.
    pub position: usize,
    /// The first cell of that row.
    pub value: BabyBearField,
    /// The authentication path, one digest for each level.
    pub auth_path: Vec<[u8; 32]>,
}

impl QueryResponse {
    /// The authentication path as byte sequences.
    pub open spec fn path_digests(&self) -> Seq<Seq<u8>> {
        digests_view(self.auth_path@)
    }
}

/// A proof of either statement.
#[derive(Debug, Clone)]
pub struct StarkProof {
    /// The commitment to the execution trace.
    pub trace_root: [u8; 32],
    /// The commitment to the extended trace.
    pub lde_root: [u8; 32],
    /// The FRI-style part.
    pub fri_proof: FriProof,
    /// The answers to the queries.
    pub queries: Vec<QueryResponse>,
    /// The public inputs of the statement.
    pub public_inputs: Vec<BabyBearField>,
}


/// What a query holds, as plain values.
pub struct QueryView {
    pub position: nat,
    pub value: u64,
    pub auth_path: Seq<Seq<u8>>,
}

/// What a proof holds, as plain values.
pub struct ProofView {
    pub trace_root: Seq<u8>,
    pub lde_root: Seq<u8>,
    pub commitments: Seq<Seq<u8>>,
    pub final_poly: Seq<u64>,
    pub pow_nonce: u64,
    pub queries: Seq<QueryView>,
    pub public_inputs: Seq<u64>,
}

/// The stored integers of field elements.
pub open spec fn element_values(elements: Seq<BabyBearField>) -> Seq<u64> {
    Seq::new(elements.len(), |i: int| elements[i].0)
}

impl View for QueryResponse {
    type V = QueryView;

    open spec fn view(&self) -> QueryView {
        QueryView {
            position: self.position as nat,
            value: self.value.0,
            auth_path: self.path_digests(),
        }
    }
}

/// The views of queries.
pub open spec fn query_views(queries: Seq<QueryResponse>) -> Seq<QueryView> {
    Seq::new(queries.len(), |i: int| queries[i]@)
}

impl View for StarkProof {
    type V = ProofView;

    open spec fn view(&self) -> ProofView {
        ProofView {
            trace_root: self.trace_root@,
            lde_root: self.lde_root@,
            commitments: self.fri_proof.commitment_digests(),
            final_poly: element_values(self.fri_proof.final_poly@),
            pow_nonce: self.fri_proof.pow_nonce,
            queries: query_views(self.queries@),
            public_inputs: element_values(self.public_inputs@),
        }
    }
}

} // verus!
