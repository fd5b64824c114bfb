//! Decoding is the inverse of encoding.

use vstd::prelude::*;
use vstd::bytes::*;
use crate::codec::concat;
use crate::codec::encode_digests;
use crate::codec::encode_proof;
use crate::codec::encode_queries;
use crate::codec::encode_query;
use crate::codec::encode_values;
use crate::codec::parse_digest;
use crate::codec::parse_digests;
use crate::codec::parse_proof;
use crate::codec::parse_queries;
use crate::codec::parse_queries_from;
use crate::codec::parse_query;
use crate::codec::parse_u64;
use crate::codec::parse_values;
use crate::stark_proof::ProofView;
use crate::stark_proof::QueryView;
use crate::stark_proof::StarkProof;

verus! {

/// Whether `part` stands in `bytes` at `at`.
pub open spec fn has_at(bytes: Seq<u8>, at: int, part: Seq<u8>) -> bool {
    &&& 0 <= at
    &&& at + part.len() <= bytes.len()
    &&& bytes.subrange(at, at + part.len()) == part
}

/// Where two parts stand one after the other, each stands at its place.
proof fn lemma_has_at_split(bytes: Seq<u8>, at: int, first: Seq<u8>, second: Seq<u8>)
    requires
        has_at(bytes, at, first + second),
    ensures
        has_at(bytes, at, first),
        has_at(bytes, at + first.len(), second),
{
    let whole = first + second;
    assert(bytes.subrange(at, at + first.len()) =~= whole.subrange(0, first.len() as int));
    assert(whole.subrange(0, first.len() as int) =~= first);
    assert(bytes.subrange(at + first.len(), at + first.len() + second.len()) =~= whole.subrange(
        first.len() as int,
        whole.len() as int,
    ));
    assert(whole.subrange(first.len() as int, whole.len() as int) =~= second);
}

/// Every digest is thirty-two bytes long.
pub open spec fn digests_sized(digests: Seq<Seq<u8>>) -> bool {
    forall|i: int| 0 <= i < digests.len() ==> (#[trigger] digests[i]).len() == 32
}

/// Whether a query can be encoded and read back: its position fits the
/// machine, its path's length fits an integer, and its digests are of size.
pub open spec fn query_encodable(query: QueryView) -> bool {
    &&& query.position <= usize::MAX
    &&& query.auth_path.len() <= u64::MAX
    &&& digests_sized(query.auth_path)
}

/// Whether a proof can be encoded and read back: its roots and digests are
/// of size, its lengths fit an integer, and its queries are encodable.
pub open spec fn proof_encodable(proof: ProofView) -> bool {
    &&& proof.trace_root.len() == 32
    &&& proof.lde_root.len() == 32
    &&& proof.commitments.len() <= u64::MAX
    &&& digests_sized(proof.commitments)
    &&& proof.final_poly.len() <= u64::MAX
    &&& proof.queries.len() <= u64::MAX
    &&& forall|i: int| 0 <= i < proof.queries.len() ==> query_encodable(#[trigger] proof.queries[i])
    &&& proof.public_inputs.len() <= u64::MAX
}

/// An encoded integer is read back.
proof fn lemma_parse_u64(bytes: Seq<u8>, at: int, value: u64)
    requires
        has_at(bytes, at, spec_u64_to_le_bytes(value)),
    ensures
        spec_u64_to_le_bytes(value).len() == 8,
        parse_u64(bytes, at) == Some((value, at + 8)),
{
    lemma_auto_spec_u64_to_from_le_bytes();
}

/// Items of one size, one after the other: the length of the whole, and where
/// each item stands.
proof fn lemma_concat_sized(items: Seq<Seq<u8>>, size: int, i: int)
    requires
        size >= 0,
        forall|k: int| 0 <= k < items.len() ==> (#[trigger] items[k]).len() == size,
        0 <= i < items.len(),
    ensures
        concat(items).len() == size * items.len(),
        0 <= size * i,
        size * i + size <= size * items.len(),
        concat(items).subrange(size * i, size * i + size) == items[i],
    decreases items.len(),
{
    let n = items.len() as int;
    let front = items.drop_last();
    assert(size * (n - 1) + size == size * n) by (nonlinear_arith);
    assert(0 <= size * i && size * i + size <= size * n) by (nonlinear_arith)
        requires
            0 <= i < n,
            size >= 0,
    ;
    lemma_concat_len(front, size);
    if i == n - 1 {
        assert(concat(items).subrange(size * i, size * i + size) =~= items[i]);
    } else {
        lemma_concat_sized(front, size, i);
        assert(size * i + size <= size * (n - 1)) by (nonlinear_arith)
            requires
                0 <= i < n - 1,
                size >= 0,
        ;
        assert(concat(items).subrange(size * i, size * i + size) =~= concat(front).subrange(
            size * i,
            size * i + size,
        ));
        assert(front[i] == items[i]);
    }
}

/// Items of one size, one after the other, are as long as all of them.
proof fn lemma_concat_len(items: Seq<Seq<u8>>, size: int)
    requires
        size >= 0,
        forall|k: int| 0 <= k < items.len() ==> (#[trigger] items[k]).len() == size,
    ensures
        concat(items).len() == size * items.len(),
    decreases items.len(),
{
    let n = items.len() as int;
    if n > 0 {
        lemma_concat_len(items.drop_last(), size);
        assert(size * (n - 1) + size == size * n) by (nonlinear_arith);
    } else {
        assert(size * 0 == 0);
    }
}

/// The first item, then the rest one after the other.
proof fn lemma_concat_first(items: Seq<Seq<u8>>)
    requires
        items.len() > 0,
    ensures
        concat(items) == items[0] + concat(items.drop_first()),
    decreases items.len(),
{
    if items.len() == 1 {
        assert(items.drop_last() =~= Seq::empty());
        assert(items.drop_first() =~= Seq::empty());
        assert(concat(items) =~= items[0] + concat(items.drop_first()));
    } else {
        lemma_concat_first(items.drop_last());
        assert(items.drop_last().drop_first() =~= items.drop_first().drop_last());
        assert(items.drop_last()[0] == items[0]);
        assert(items.drop_first().last() == items.last());
        assert(concat(items) =~= items[0] + concat(items.drop_first()));
    }
}

/// An encoded sequence of digests is read back.
proof fn lemma_parse_digests(bytes: Seq<u8>, at: int, digests: Seq<Seq<u8>>)
    requires
        digests.len() <= u64::MAX,
        digests_sized(digests),
        has_at(bytes, at, encode_digests(digests)),
    ensures
        parse_digests(bytes, at) == Some((digests, at + encode_digests(digests).len())),
{
    let n = digests.len() as int;
    let head = spec_u64_to_le_bytes(digests.len() as u64);
    lemma_has_at_split(bytes, at, head, concat(digests));
    lemma_parse_u64(bytes, at, digests.len() as u64);
    lemma_concat_len(digests, 32);
    let start = at + 8;
    let parsed = Seq::new(n as nat, |i: int| bytes.subrange(start + 32 * i, start + 32 * i + 32));
    assert forall|i: int| 0 <= i < n implies parsed[i] == digests[i] by {
        lemma_concat_sized(digests, 32, i);
        assert(bytes.subrange(start + 32 * i, start + 32 * i + 32) =~= bytes.subrange(
            start,
            start + 32 * n,
        ).subrange(32 * i, 32 * i + 32));
    }
    assert(parsed =~= digests);
}

/// An encoded sequence of integers is read back.
proof fn lemma_parse_values(bytes: Seq<u8>, at: int, values: Seq<u64>)
    requires
        values.len() <= u64::MAX,
        has_at(bytes, at, encode_values(values)),
    ensures
        parse_values(bytes, at) == Some((values, at + encode_values(values).len())),
{
    lemma_auto_spec_u64_to_from_le_bytes();
    let n = values.len() as int;
    let head = spec_u64_to_le_bytes(values.len() as u64);
    let items = Seq::new(values.len(), |i: int| spec_u64_to_le_bytes(values[i]));
    lemma_has_at_split(bytes, at, head, concat(items));
    lemma_parse_u64(bytes, at, values.len() as u64);
    lemma_concat_len(items, 8);
    let start = at + 8;
    let parsed = Seq::new(
        n as nat,
        |i: int| spec_u64_from_le_bytes(bytes.subrange(start + 8 * i, start + 8 * i + 8)),
    );
    assert forall|i: int| 0 <= i < n implies parsed[i] == values[i] by {
        lemma_concat_sized(items, 8, i);
        assert(bytes.subrange(start + 8 * i, start + 8 * i + 8) =~= bytes.subrange(
            start,
            start + 8 * n,
        ).subrange(8 * i, 8 * i + 8));
    }
    assert(parsed =~= values);
}

/// An encoded query is read back.
proof fn lemma_parse_query(bytes: Seq<u8>, at: int, query: QueryView)
    requires
        query_encodable(query),
        has_at(bytes, at, encode_query(query)),
    ensures
        parse_query(bytes, at) == Some((query, at + encode_query(query).len())),
{
    let position = spec_u64_to_le_bytes(query.position as u64);
    let value = spec_u64_to_le_bytes(query.value);
    let path = encode_digests(query.auth_path);
    lemma_has_at_split(bytes, at, position + value, path);
    lemma_has_at_split(bytes, at, position, value);
    lemma_parse_u64(bytes, at, query.position as u64);
    lemma_parse_u64(bytes, at + 8, query.value);
    lemma_parse_digests(bytes, at + 16, query.auth_path);
}

/// Encoded queries, one after the other, are read back.
proof fn lemma_parse_queries_from(bytes: Seq<u8>, at: int, queries: Seq<QueryView>)
    requires
        forall|i: int| 0 <= i < queries.len() ==> query_encodable(#[trigger] queries[i]),
        has_at(bytes, at, concat(Seq::new(queries.len(), |i: int| encode_query(queries[i])))),
    ensures
        parse_queries_from(bytes, at, queries.len()) == Some(
            (queries, at + concat(Seq::new(queries.len(), |i: int| encode_query(queries[i]))).len()),
        ),
    decreases queries.len(),
{
    let items = Seq::new(queries.len(), |i: int| encode_query(queries[i]));
    if queries.len() == 0 {
        assert(queries =~= Seq::empty());
    } else {
        let rest = queries.drop_first();
        let rest_items = Seq::new(rest.len(), |i: int| encode_query(rest[i]));
        assert(items.drop_first() =~= rest_items);
        lemma_concat_first(items);
        lemma_has_at_split(bytes, at, items[0], concat(rest_items));
        assert(query_encodable(queries[0]));
        lemma_parse_query(bytes, at, queries[0]);
        assert forall|i: int| 0 <= i < rest.len() implies query_encodable(#[trigger] rest[i]) by {
            assert(rest[i] == queries[i + 1]);
        }
        lemma_parse_queries_from(bytes, at + items[0].len(), rest);
        assert(seq![queries[0]] + rest =~= queries);
    }
}

/// An encoded sequence of queries is read back.
proof fn lemma_parse_queries(bytes: Seq<u8>, at: int, queries: Seq<QueryView>)
    requires
        queries.len() <= u64::MAX,
        forall|i: int| 0 <= i < queries.len() ==> query_encodable(#[trigger] queries[i]),
        has_at(bytes, at, encode_queries(queries)),
    ensures
        parse_queries(bytes, at) == Some((queries, at + encode_queries(queries).len())),
{
    let head = spec_u64_to_le_bytes(queries.len() as u64);
    let items = Seq::new(queries.len(), |i: int| encode_query(queries[i]));
    lemma_has_at_split(bytes, at, head, concat(items));
    lemma_parse_u64(bytes, at, queries.len() as u64);
    lemma_parse_queries_from(bytes, at + 8, queries);
}

/// Round trip: the bytes of an encodable proof, followed by any bytes, decode
/// to that proof, and the decoding ends where the encoding does.
pub proof fn lemma_decode_encode(proof: ProofView, tail: Seq<u8>)
    requires
        proof_encodable(proof),
    ensures
        parse_proof(encode_proof(proof) + tail) == Some((proof, encode_proof(proof).len() as int)),
{
    let encoded = encode_proof(proof);
    let bytes = encoded + tail;
    assert(bytes.subrange(0, encoded.len() as int) =~= encoded);
    assert(has_at(bytes, 0, encoded));
    let trace_root = proof.trace_root;
    let lde_root = proof.lde_root;
    let commitments = encode_digests(proof.commitments);
    let final_poly = encode_values(proof.final_poly);
    let pow_nonce = spec_u64_to_le_bytes(proof.pow_nonce);
    let queries = encode_queries(proof.queries);
    let public_inputs = encode_values(proof.public_inputs);
    let roots = trace_root + lde_root;
    lemma_has_at_split(
        bytes,
        0,
        roots + commitments + final_poly + pow_nonce + queries,
        public_inputs,
    );
    lemma_has_at_split(bytes, 0, roots + commitments + final_poly + pow_nonce, queries);
    lemma_has_at_split(bytes, 0, roots + commitments + final_poly, pow_nonce);
    lemma_has_at_split(bytes, 0, roots + commitments, final_poly);
    lemma_has_at_split(bytes, 0, roots, commitments);
    lemma_has_at_split(bytes, 0, trace_root, lde_root);
    assert(parse_digest(bytes, 0) == Some((trace_root, 32int)));
    assert(parse_digest(bytes, 32) == Some((lde_root, 64int)));
    lemma_parse_digests(bytes, 64, proof.commitments);
    let poly_at: int = 64int + commitments.len();
    lemma_parse_values(bytes, poly_at, proof.final_poly);
    let nonce_at: int = poly_at + final_poly.len();
    lemma_parse_u64(bytes, nonce_at, proof.pow_nonce);
    let queries_at: int = nonce_at + 8;
    lemma_parse_queries(bytes, queries_at, proof.queries);
    let inputs_at: int = queries_at + queries.len();
    lemma_parse_values(bytes, inputs_at, proof.public_inputs);
}

/// Every proof can be encoded and read back.
pub proof fn lemma_proof_encodable(proof: StarkProof)
    ensures
        proof_encodable(proof@),
{
    broadcast use vstd::array::array_len_matches_n;

    assert forall|i: int| 0 <= i < proof@.queries.len() implies query_encodable(
        #[trigger] proof@.queries[i],
    ) by {
        let query = proof.queries@[i];
        assert(proof@.queries[i] == query@);
        assert(query.auth_path.len() == query.auth_path@.len());
        assert forall|k: int| 0 <= k < query@.auth_path.len() implies (
        #[trigger] query@.auth_path[k]).len() == 32 by {
            assert(query@.auth_path[k] == query.auth_path@[k]@);
        }
    }
    assert(proof.fri_proof.commitments.len() == proof.fri_proof.commitments@.len());
    assert(proof.fri_proof.final_poly.len() == proof.fri_proof.final_poly@.len());
    assert(proof.queries.len() == proof.queries@.len());
    assert(proof.public_inputs.len() == proof.public_inputs@.len());
    assert forall|k: int| 0 <= k < proof@.commitments.len() implies (
    #[trigger] proof@.commitments[k]).len() == 32 by {
        assert(proof@.commitments[k] == proof.fri_proof.commitments@[k]@);
    }
}

/// Round trip: what `serialize_proof` writes for a proof, followed by any
/// bytes, is what `deserialize_proof` reads that proof from.
pub proof fn lemma_serialized_proof_decodes(proof: StarkProof, tail: Seq<u8>)
    ensures
        parse_proof(encode_proof(proof@) + tail) == Some(
            (proof@, encode_proof(proof@).len() as int),
        ),
{
    lemma_proof_encodable(proof);
    lemma_decode_encode(proof@, tail);
}

} // verus!
