//! The byte layout of a proof.
//!
//! Integers are eight little-endian bytes; a digest is its thirty-two bytes;
//! a sequence is its length as an integer, then its items. A proof is its
//! two roots, the FRI-style part (commitments, final polynomial, nonce), the
//! queries (position, value, authentication path), and the public inputs.

use vstd::prelude::*;
use vstd::bytes::*;
use vstd::slice::slice_subrange;
use crate::encoding::push_digest;
use crate::encoding::push_u64_le;
use crate::field::BabyBearField;
use crate::stark_proof::digests_view;
use crate::stark_proof::element_values;
use crate::stark_proof::FriProof;
use crate::stark_proof::ProofView;
use crate::stark_proof::query_views;
use crate::stark_proof::QueryResponse;
use crate::stark_proof::QueryView;
use crate::stark_proof::StarkProof;
use crate::types::ZKPError;

verus! {

/// The items of a sequence of byte strings, one after the other.
pub open spec fn concat(items: Seq<Seq<u8>>) -> Seq<u8>
    decreases items.len(),
{
    if items.len() == 0 {
        Seq::empty()
    } else {
        concat(items.drop_last()) + items.last()
    }
}

/// A sequence of digests: its length, then the digests.
pub open spec fn encode_digests(digests: Seq<Seq<u8>>) -> Seq<u8> {
    spec_u64_to_le_bytes(digests.len() as u64) + concat(digests)
}

/// A sequence of integers: its length, then the integers.
pub open spec fn encode_values(values: Seq<u64>) -> Seq<u8> {
    spec_u64_to_le_bytes(values.len() as u64) + concat(
        Seq::new(values.len(), |i: int| spec_u64_to_le_bytes(values[i])),
    )
}

/// A query: position, value, authentication path.
pub open spec fn encode_query(query: QueryView) -> Seq<u8> {
    spec_u64_to_le_bytes(query.position as u64) + spec_u64_to_le_bytes(query.value)
        + encode_digests(query.auth_path)
}

/// A sequence of queries: its length, then the queries.
pub open spec fn encode_queries(queries: Seq<QueryView>) -> Seq<u8> {
    spec_u64_to_le_bytes(queries.len() as u64) + concat(
        Seq::new(queries.len(), |i: int| encode_query(queries[i])),
    )
}

/// A proof: the two roots, the commitments, the final polynomial, the nonce,
/// the queries, and the public inputs.
pub open spec fn encode_proof(proof: ProofView) -> Seq<u8> {
    proof.trace_root + proof.lde_root + encode_digests(proof.commitments) + encode_values(
        proof.final_poly,
    ) + spec_u64_to_le_bytes(proof.pow_nonce) + encode_queries(proof.queries) + encode_values(
        proof.public_inputs,
    )
}

/// Appends a sequence of digests: its length, then the digests.
fn push_digests(out: &mut Vec<u8>, digests: &Vec<[u8; 32]>)
    ensures
        final(out)@ == old(out)@ + encode_digests(digests_view(digests@)),
{
    let ghost items = digests_view(digests@);
    push_u64_le(out, digests.len() as u64);
    let ghost start = out@;
    let mut i: usize = 0;
    assert(items.take(0) =~= Seq::empty());
    while i < digests.len()
        invariant
            i <= digests@.len(),
            items == digests_view(digests@),
            out@ == start + concat(items.take(i as int)),
        decreases digests@.len() - i,
    {
        push_digest(out, &digests[i]);
        assert(items.take(i + 1).drop_last() =~= items.take(i as int));
        i = i + 1;
    }
    assert(items.take(i as int) =~= items);
}

/// Appends a sequence of field elements: its length, then the stored
/// integers.
fn push_elements(out: &mut Vec<u8>, elements: &Vec<BabyBearField>)
    ensures
        final(out)@ == old(out)@ + encode_values(element_values(elements@)),
{
    let ghost items = Seq::new(
        elements@.len(),
        |i: int| spec_u64_to_le_bytes(element_values(elements@)[i]),
    );
    push_u64_le(out, elements.len() as u64);
    let ghost start = out@;
    let mut i: usize = 0;
    assert(items.take(0) =~= Seq::empty());
    while i < elements.len()
        invariant
            i <= elements@.len(),
            items == Seq::new(
                elements@.len(),
                |i: int| spec_u64_to_le_bytes(element_values(elements@)[i]),
            ),
            out@ == start + concat(items.take(i as int)),
        decreases elements@.len() - i,
    {
        push_u64_le(out, elements[i].0);
        assert(items.take(i + 1).drop_last() =~= items.take(i as int));
        i = i + 1;
    }
    assert(items.take(i as int) =~= items);
}

/// Appends a query: position, value, authentication path.
fn push_query(out: &mut Vec<u8>, query: &QueryResponse)
    ensures
        final(out)@ == old(out)@ + encode_query(query@),
{
    push_u64_le(out, query.position as u64);
    push_u64_le(out, query.value.0);
    push_digests(out, &query.auth_path);
    assert(out@ =~= old(out)@ + encode_query(query@));
}

/// Encodes a proof in its byte layout.
pub fn serialize_proof(proof: &StarkProof) -> (bytes: Vec<u8>)
    ensures
        bytes@ == encode_proof(proof@),
{
    let mut out: Vec<u8> = Vec::new();
    push_digest(&mut out, &proof.trace_root);
    push_digest(&mut out, &proof.lde_root);
    push_digests(&mut out, &proof.fri_proof.commitments);
    push_elements(&mut out, &proof.fri_proof.final_poly);
    push_u64_le(&mut out, proof.fri_proof.pow_nonce);
    let ghost head = out@;
    let ghost items = Seq::new(proof.queries@.len(), |i: int| encode_query(proof@.queries[i]));
    push_u64_le(&mut out, proof.queries.len() as u64);
    let ghost start = out@;
    let mut i: usize = 0;
    assert(items.take(0) =~= Seq::empty());
    while i < proof.queries.len()
        invariant
            i <= proof.queries@.len(),
            items == Seq::new(proof.queries@.len(), |i: int| encode_query(proof@.queries[i])),
            out@ == start + concat(items.take(i as int)),
        decreases proof.queries@.len() - i,
    {
        push_query(&mut out, &proof.queries[i]);
        assert(items.take(i + 1).drop_last() =~= items.take(i as int));
        i = i + 1;
    }
    assert(items.take(i as int) =~= items);
    assert(out@ =~= head + encode_queries(proof@.queries));
    push_elements(&mut out, &proof.public_inputs);
    assert(out@ =~= encode_proof(proof@));
    out
}

/// The integer at `at`, and where the bytes after it start.
pub open spec fn parse_u64(bytes: Seq<u8>, at: int) -> Option<(u64, int)> {
    if 0 <= at && at + 8 <= bytes.len() {
        Some((spec_u64_from_le_bytes(bytes.subrange(at, at + 8)), at + 8))
    } else {
        None
    }
}

/// The digest at `at`, and where the bytes after it start.
pub open spec fn parse_digest(bytes: Seq<u8>, at: int) -> Option<(Seq<u8>, int)> {
    if 0 <= at && at + 32 <= bytes.len() {
        Some((bytes.subrange(at, at + 32), at + 32))
    } else {
        None
    }
}

/// The sequence of digests at `at`: a length, then that many digests.
pub open spec fn parse_digests(bytes: Seq<u8>, at: int) -> Option<(Seq<Seq<u8>>, int)> {
    match parse_u64(bytes, at) {
        Some((count, start)) => if start + 32 * count <= bytes.len() {
            Some(
                (
                    Seq::new(
                        count as nat,
                        |i: int| bytes.subrange(start + 32 * i, start + 32 * i + 32),
                    ),
                    start + 32 * count,
                ),
            )
        } else {
            None
        },
        None => None,
    }
}

/// The sequence of integers at `at`: a length, then that many integers.
pub open spec fn parse_values(bytes: Seq<u8>, at: int) -> Option<(Seq<u64>, int)> {
    match parse_u64(bytes, at) {
        Some((count, start)) => if start + 8 * count <= bytes.len() {
            Some(
                (
                    Seq::new(
                        count as nat,
                        |i: int|
                            spec_u64_from_le_bytes(bytes.subrange(start + 8 * i, start + 8 * i + 8)),
                    ),
                    start + 8 * count,
                ),
            )
        } else {
            None
        },
        None => None,
    }
}

/// The query at `at`: a position that fits the machine, a value, and an
/// authentication path.
pub open spec fn parse_query(bytes: Seq<u8>, at: int) -> Option<(QueryView, int)> {
    match parse_u64(bytes, at) {
        Some((position, after_position)) => if position > usize::MAX {
            None
        } else {
            match parse_u64(bytes, after_position) {
                Some((value, after_value)) => match parse_digests(bytes, after_value) {
                    Some((auth_path, end)) => Some(
                        (QueryView { position: position as nat, value, auth_path }, end),
                    ),
                    None => None,
                },
                None => None,
            }
        },
        None => None,
    }
}

/// `count` queries from `at` on.
pub open spec fn parse_queries_from(bytes: Seq<u8>, at: int, count: nat) -> Option<
    (Seq<QueryView>, int),
>
    decreases count,
{
    if count == 0 {
        Some((Seq::empty(), at))
    } else {
        match parse_query(bytes, at) {
            Some((query, next)) => match parse_queries_from(bytes, next, (count - 1) as nat) {
                Some((rest, end)) => Some((seq![query] + rest, end)),
                None => None,
            },
            None => None,
        }
    }
}

/// The sequence of queries at `at`: a length, then that many queries.
pub open spec fn parse_queries(bytes: Seq<u8>, at: int) -> Option<(Seq<QueryView>, int)> {
    match parse_u64(bytes, at) {
        Some((count, start)) => parse_queries_from(bytes, start, count as nat),
        None => None,
    }
}

/// The proof that the bytes start with, and where it ends; none where the
/// bytes end before the proof does, or a position does not fit the machine.
pub open spec fn parse_proof(bytes: Seq<u8>) -> Option<(ProofView, int)> {
    match parse_digest(bytes, 0) {
        Some((trace_root, lde_at)) => match parse_digest(bytes, lde_at) {
            Some((lde_root, commitments_at)) => match parse_digests(bytes, commitments_at) {
                Some((commitments, poly_at)) => match parse_values(bytes, poly_at) {
                    Some((final_poly, nonce_at)) => match parse_u64(bytes, nonce_at) {
                        Some((pow_nonce, queries_at)) => match parse_queries(bytes, queries_at) {
                            Some((queries, inputs_at)) => match parse_values(bytes, inputs_at) {
                                Some((public_inputs, end)) => Some(
                                    (
                                        ProofView {
                                            trace_root,
                                            lde_root,
                                            commitments,
                                            final_poly,
                                            pow_nonce,
                                            queries,
                                            public_inputs,
                                        },
                                        end,
                                    ),
                                ),
                                None => None,
                            },
                            None => None,
                        },
                        None => None,
                    },
                    None => None,
                },
                None => None,
            },
            None => None,
        },
        None => None,
    }
}

/// Reads the integer at `at`.
fn read_u64(bytes: &[u8], at: usize) -> (r: Option<(u64, usize)>)
    ensures
        r matches Some((value, next)) ==> parse_u64(bytes@, at as int) == Some((value, next as int)),
        r is None ==> parse_u64(bytes@, at as int) is None,
{
    if at > bytes.len() || bytes.len() - at < 8 {
        return None;
    }
    let value: u64 = u64_from_le_bytes(slice_subrange(bytes, at, at + 8));
    Some((value, at + 8))
}

/// Reads the digest at `at`.
fn read_digest(bytes: &[u8], at: usize) -> (r: Option<([u8; 32], usize)>)
    ensures
        r matches Some((digest, next)) ==> parse_digest(bytes@, at as int) == Some(
            (digest@, next as int),
        ),
        r is None ==> parse_digest(bytes@, at as int) is None,
{
    if at > bytes.len() || bytes.len() - at < 32 {
        return None;
    }
    let mut digest: [u8; 32] = [0u8;32];
    let mut k: usize = 0;
    while k < 32
        invariant
            k <= 32,
            at + 32 <= bytes@.len() <= usize::MAX,
            forall|j: int| 0 <= j < k ==> digest@[j] == bytes@[at + j],
        decreases 32 - k,
    {
        digest[k] = bytes[at + k];
        k = k + 1;
    }
    assert(digest@ =~= bytes@.subrange(at as int, at + 32));
    Some((digest, at + 32))
}

/// Reads the sequence of digests at `at`.
fn read_digests(bytes: &[u8], at: usize) -> (r: Option<(Vec<[u8; 32]>, usize)>)
    ensures
        r matches Some((digests, next)) ==> parse_digests(bytes@, at as int) == Some(
            (digests_view(digests@), next as int),
        ),
        r is None ==> parse_digests(bytes@, at as int) is None,
{
    let (count, start) = read_u64(bytes, at)?;
    if count > ((bytes.len() - start) / 32) as u64 {
        return None;
    }
    let count: usize = count as usize;
    let ghost expected = Seq::new(
        count as nat,
        |i: int| bytes@.subrange(start + 32 * i, start + 32 * i + 32),
    );
    let mut digests: Vec<[u8; 32]> = Vec::new();
    let mut cursor: usize = start;
    let mut i: usize = 0;
    while i < count
        invariant
            i <= count,
            start + 32 * count <= bytes@.len(),
            cursor == start + 32 * i,
            digests@.len() == i,
            forall|k: int|
                0 <= k < i ==> (#[trigger] digests@[k])@ == bytes@.subrange(
                    start + 32 * k,
                    start + 32 * k + 32,
                ),
        decreases count - i,
    {
        match read_digest(bytes, cursor) {
            Some((digest, next)) => {
                digests.push(digest);
                cursor = next;
            },
            None => {
                return None;
            },
        }
        i = i + 1;
    }
    assert(digests_view(digests@) =~= expected);
    Some((digests, cursor))
}

/// Reads the sequence of field elements at `at`, each as its stored integer.
fn read_elements(bytes: &[u8], at: usize) -> (r: Option<(Vec<BabyBearField>, usize)>)
    ensures
        r matches Some((elements, next)) ==> parse_values(bytes@, at as int) == Some(
            (element_values(elements@), next as int),
        ),
        r is None ==> parse_values(bytes@, at as int) is None,
{
    let (count, start) = read_u64(bytes, at)?;
    if count > ((bytes.len() - start) / 8) as u64 {
        return None;
    }
    let count: usize = count as usize;
    let ghost expected = Seq::new(
        count as nat,
        |i: int| spec_u64_from_le_bytes(bytes@.subrange(start + 8 * i, start + 8 * i + 8)),
    );
    let mut elements: Vec<BabyBearField> = Vec::new();
    let mut cursor: usize = start;
    let mut i: usize = 0;
    while i < count
        invariant
            i <= count,
            start + 8 * count <= bytes@.len(),
            cursor == start + 8 * i,
            elements@.len() == i,
            forall|k: int|
                0 <= k < i ==> (#[trigger] elements@[k]).0 == spec_u64_from_le_bytes(
                    bytes@.subrange(start + 8 * k, start + 8 * k + 8),
                ),
        decreases count - i,
    {
        match read_u64(bytes, cursor) {
            Some((value, next)) => {
                elements.push(BabyBearField(value));
                cursor = next;
            },
            None => {
                return None;
            },
        }
        i = i + 1;
    }
    assert(element_values(elements@) =~= expected);
    Some((elements, cursor))
}

/// Reads the query at `at`.
fn read_query(bytes: &[u8], at: usize) -> (r: Option<(QueryResponse, usize)>)
    ensures
        r matches Some((query, next)) ==> parse_query(bytes@, at as int) == Some(
            (query@, next as int),
        ),
        r is None ==> parse_query(bytes@, at as int) is None,
{
    let (position, after_position) = read_u64(bytes, at)?;
    if position > usize::MAX as u64 {
        return None;
    }
    let (value, after_value) = read_u64(bytes, after_position)?;
    let (auth_path, end) = read_digests(bytes, after_value)?;
    Some((QueryResponse { position: position as usize, value: BabyBearField(value), auth_path }, end))
}

/// Reads the sequence of queries at `at`.
fn read_queries(bytes: &[u8], at: usize) -> (r: Option<(Vec<QueryResponse>, usize)>)
    ensures
        r matches Some((queries, next)) ==> parse_queries(bytes@, at as int) == Some(
            (query_views(queries@), next as int),
        ),
        r is None ==> parse_queries(bytes@, at as int) is None,
{
    let (count, start) = read_u64(bytes, at)?;
    let mut queries: Vec<QueryResponse> = Vec::new();
    let mut cursor: usize = start;
    let mut left: u64 = count;
    proof {
        assert(query_views(queries@) =~= Seq::empty());
        match parse_queries_from(bytes@, start as int, count as nat) {
            Some((rest, end)) => {
                assert(query_views(queries@) + rest =~= rest);
            },
            None => {},
        }
    }
    while left > 0
        invariant
            parse_queries(bytes@, at as int) == parse_queries_from(
                bytes@,
                start as int,
                count as nat,
            ),
            parse_queries_from(bytes@, start as int, count as nat) == match parse_queries_from(
                bytes@,
                cursor as int,
                left as nat,
            ) {
                Some((rest, end)) => Some((query_views(queries@) + rest, end)),
                None => None,
            },
        decreases left,
    {
        let ghost before = queries@;
        match read_query(bytes, cursor) {
            Some((query, next)) => {
                queries.push(query);
                proof {
                    assert(query_views(queries@) =~= query_views(before).push(queries@.last()@));
                    match parse_queries_from(bytes@, next as int, (left - 1) as nat) {
                        Some((rest, end)) => {
                            assert(query_views(before) + (seq![queries@.last()@] + rest)
                                =~= query_views(queries@) + rest);
                        },
                        None => {},
                    }
                }
                cursor = next;
            },
            None => {
                assert(parse_queries_from(bytes@, cursor as int, left as nat) is None);
                return None;
            },
        }
        left = left - 1;
    }
    assert(query_views(queries@) + Seq::<QueryView>::empty() =~= query_views(queries@));
    Some((queries, cursor))
}

/// Decodes the proof that `bytes` start with; bytes after it are ignored.
///
/// Fails where the bytes end before the proof does, or a position does not
/// fit the machine.
pub fn deserialize_proof(bytes: &[u8]) -> (r: Result<StarkProof, ZKPError>)
    ensures
        match parse_proof(bytes@) {
            Some((view, _)) => r matches Ok(proof) && proof@ == view,
            None => r matches Err(e) && e is SerializationError && e.detail()
                == "Failed to deserialize proof: unexpected end of input"@,
        },
{
    match read_proof(bytes) {
        Some(proof) => Ok(proof),
        None => Err(
            ZKPError::SerializationError(
                "Failed to deserialize proof: unexpected end of input".to_owned(),
            ),
        ),
    }
}

/// Reads the proof that `bytes` start with.
fn read_proof(bytes: &[u8]) -> (r: Option<StarkProof>)
    ensures
        match parse_proof(bytes@) {
            Some((view, _)) => r matches Some(proof) && proof@ == view,
            None => r is None,
        },
{
    let (trace_root, lde_at) = read_digest(bytes, 0)?;
    let (lde_root, commitments_at) = read_digest(bytes, lde_at)?;
    let (commitments, poly_at) = read_digests(bytes, commitments_at)?;
    let (final_poly, nonce_at) = read_elements(bytes, poly_at)?;
    let (pow_nonce, queries_at) = read_u64(bytes, nonce_at)?;
    let (queries, inputs_at) = read_queries(bytes, queries_at)?;
    let (public_inputs, _end) = read_elements(bytes, inputs_at)?;
    Some(
        StarkProof {
            trace_root,
            lde_root,
            fri_proof: FriProof { commitments, final_poly, pow_nonce },
            queries,
            public_inputs,
        },
    )
}

} // verus!
