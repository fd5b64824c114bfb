//! Queries: a position in the extended trace, the value there, and the
//! authentication path of the position.
//!
//! The path belongs to a binary Merkle tree over the rows of the extended
//! trace. The leaf of a row is the digest of the eight little-endian bytes of
//! the row's first cell; rows beyond the trace count as zero cells. The node
//! over a span of leaves is the digest of the node over the first half of
//! the span followed by the node over the second half. The path of a
//! position holds, for each level while more than one position is left, the
//! node next to the node that the position lies under.

use vstd::prelude::*;
use vstd::arithmetic::logarithm::log;
use vstd::bytes::*;
use crate::commitment::hash_u64;
use crate::encoding::push_digest;
use crate::extension::grid_cell;
use crate::field::BabyBearField;
use crate::hash::blake3_digest;
use crate::hash::blake3_hash;
use crate::stark_proof::digests_view;
use crate::stark_proof::QueryResponse;
use crate::trace::ExecutionTrace;

verus! {

/// The position next to `position` in its pair.
pub open spec fn sibling(position: nat) -> nat {
    if position % 2 == 0 {
        position + 1
    } else {
        (position - 1) as nat
    }
}

/// The leaf of row `row`: the digest of the eight little-endian bytes of the
/// row's first cell.
pub open spec fn merkle_leaf(lde: Seq<Seq<BabyBearField>>, row: nat) -> Seq<u8> {
    blake3_digest(spec_u64_to_le_bytes(grid_cell(lde, row as int, 0).0))
}

/// The node over the `span` leaves from `start` on, `span` a power of two:
/// the leaf itself for a span of one, else the digest of the node over the
/// first half followed by the node over the second half.
pub open spec fn merkle_node(lde: Seq<Seq<BabyBearField>>, start: nat, span: nat) -> Seq<u8>
    decreases span,
{
    if span <= 1 {
        merkle_leaf(lde, start)
    } else {
        blake3_digest(
            merkle_node(lde, start, span / 2) + merkle_node(lde, start + span / 2, span / 2),
        )
    }
}

/// The path upwards from the node with number `index` among `size` nodes
/// that each span `span` leaves: for each level while more than one node is
/// left, the node next to it.
pub open spec fn auth_path_from(
    lde: Seq<Seq<BabyBearField>>,
    index: nat,
    span: nat,
    size: nat,
) -> Seq<Seq<u8>>
    decreases size,
{
    if size <= 1 {
        Seq::empty()
    } else {
        seq![merkle_node(lde, sibling(index) * span, span)] + auth_path_from(
            lde,
            index / 2,
            2 * span,
            size / 2,
        )
    }
}

/// The authentication path of row `position` of the extended trace: first
/// the leaf next to it, then the node next to each node above it.
pub open spec fn auth_path(lde: Seq<Seq<BabyBearField>>, position: nat) -> Seq<Seq<u8>> {
    auth_path_from(lde, position, 1, lde.len())
}

/// The authentication path has one digest for each halving of the size: the
/// logarithm of the size to base two, rounded down.
pub proof fn lemma_auth_path_len(
    lde: Seq<Seq<BabyBearField>>,
    index: nat,
    span: nat,
    size: nat,
)
    ensures
        auth_path_from(lde, index, span, size).len() == log(2, size as int),
    decreases size,
{
    reveal(log);
    if size > 1 {
        lemma_auth_path_len(lde, index / 2, 2 * span, size / 2);
    }
}

/// The first digest of an authentication path is the leaf of the row next
/// to the position.
pub proof fn lemma_auth_path_first(lde: Seq<Seq<BabyBearField>>, position: nat)
    requires
        lde.len() > 1,
    ensures
        auth_path(lde, position)[0] == blake3_digest(
            spec_u64_to_le_bytes(grid_cell(lde, sibling(position) as int, 0).0),
        ),
{
    assert(sibling(position) * 1 == sibling(position));
}

/// The node that `path` leads up to from the node `current` with number
/// `index`: at each level the digest of the pair, the node with the even
/// number first.
pub open spec fn merkle_fold(current: Seq<u8>, index: nat, path: Seq<Seq<u8>>) -> Seq<u8>
    decreases path.len(),
{
    if path.len() == 0 {
        current
    } else {
        let parent = if index % 2 == 0 {
            blake3_digest(current + path[0])
        } else {
            blake3_digest(path[0] + current)
        };
        merkle_fold(parent, index / 2, path.drop_first())
    }
}

/// The node above the node with number `index` at the level where one node
/// is left of `size`.
pub open spec fn merkle_top(lde: Seq<Seq<BabyBearField>>, index: nat, span: nat, size: nat) -> Seq<
    u8,
>
    decreases size,
{
    if size <= 1 {
        merkle_node(lde, index * span, span)
    } else {
        merkle_top(lde, index / 2, 2 * span, size / 2)
    }
}

/// An authentication path opens its node: folding the node with its path
/// gives the node at the top of the tree above it.
pub proof fn lemma_auth_path_opens(
    lde: Seq<Seq<BabyBearField>>,
    index: nat,
    span: nat,
    size: nat,
)
    requires
        span >= 1,
    ensures
        merkle_fold(
            merkle_node(lde, index * span, span),
            index,
            auth_path_from(lde, index, span, size),
        ) == merkle_top(lde, index, span, size),
    decreases size,
{
    if size > 1 {
        let path = auth_path_from(lde, index, span, size);
        let rest = auth_path_from(lde, index / 2, 2 * span, size / 2);
        let current = merkle_node(lde, index * span, span);
        let next = merkle_node(lde, sibling(index) * span, span);
        let above = (index / 2) * (2 * span);
        assert(path[0] == next);
        assert(path.drop_first() =~= rest);
        assert((2 * span) / 2 == span);
        if index % 2 == 0 {
            assert(index * span == above && sibling(index) * span == above + span)
                by (nonlinear_arith)
                requires
                    index == 2 * (index / 2),
                    sibling(index) == index + 1,
                    above == (index / 2) * (2 * span),
            ;
        } else {
            assert(index * span == above + span && sibling(index) * span == above)
                by (nonlinear_arith)
                requires
                    index == 2 * (index / 2) + 1,
                    sibling(index) == index - 1,
                    above == (index / 2) * (2 * span),
            ;
        }
        lemma_auth_path_opens(lde, index / 2, 2 * span, size / 2);
    }
}

/// Whether `query` answers for its position in the extended grid `lde`.
pub open spec fn query_matches(query: QueryResponse, lde: Seq<Seq<BabyBearField>>) -> bool {
    &&& query.position < lde.len()
    &&& query.value == grid_cell(lde, query.position as int, 0)
    &&& query.path_digests() == auth_path(lde, query.position as nat)
}

/// The node over the `span` leaves from `start` on.
pub fn merkle_node_digest(lde: &ExecutionTrace, start: u128, span: u128) -> (digest: [u8; 32])
    requires
        lde.wf(),
        start + span <= u128::MAX,
    ensures
        digest@ == merkle_node(lde.rows(), start as nat, span as nat),
    decreases span,
{
    if span <= 1 {
        let cell = if start < lde.height as u128 {
            lde.get(start as usize, 0)
        } else {
            BabyBearField::zero()
        };
        assert(cell == grid_cell(lde.rows(), start as int, 0));
        hash_u64(cell.0)
    } else {
        let half: u128 = span / 2;
        let left = merkle_node_digest(lde, start, half);
        let right = merkle_node_digest(lde, start + half, half);
        let mut bytes: Vec<u8> = Vec::new();
        push_digest(&mut bytes, &left);
        push_digest(&mut bytes, &right);
        assert(bytes@ =~= left@ + right@);
        blake3_hash(bytes.as_slice())
    }
}

/// The answer to the query that the draw `raw` selects: the position is the
/// draw modulo the height of the extended trace.
pub fn query_response(lde: &ExecutionTrace, raw: u64) -> (query: QueryResponse)
    requires
        lde.wf(),
        lde.height > 0,
    ensures
        query.position == raw as int % (lde.height as int),
        query_matches(query, lde.rows()),
{
    let position: usize = (raw % (lde.height as u64)) as usize;
    let value = lde.get(position, 0);
    let mut path: Vec<[u8; 32]> = Vec::new();
    let mut current_pos: usize = position;
    let mut current_size: usize = lde.height;
    let mut span: u128 = 1;
    proof {
        assert(digests_view(path@) =~= Seq::empty());
        assert(span * current_size == current_size);
    }
    while current_size > 1
        invariant
            lde.wf(),
            span >= 1,
            span * current_size <= lde.height,
            digests_view(path@) + auth_path_from(
                lde.rows(),
                current_pos as nat,
                span as nat,
                current_size as nat,
            ) == auth_path(lde.rows(), position as nat),
        decreases current_size,
    {
        let ghost before = path@;
        proof {
            assert(current_pos ^ 1 == if current_pos % 2 == 0 {
                current_pos + 1
            } else {
                current_pos - 1
            }) by (bit_vector);
            assert(span <= 0x7fff_ffff_ffff_ffff && (2 * span) * (current_size / 2) <= lde.height)
                by (nonlinear_arith)
                requires
                    span * current_size <= lde.height,
                    lde.height <= 0xffff_ffff_ffff_ffff,
                    current_size >= 2,
                    span >= 1,
            ;
        }
        let sibling_pos: usize = current_pos ^ 1;
        proof {
            assert(0 <= sibling_pos * span <= 0xffff_ffff_ffff_ffff * 0x7fff_ffff_ffff_ffff)
                by (nonlinear_arith)
                requires
                    0 <= sibling_pos <= 0xffff_ffff_ffff_ffff,
                    1 <= span <= 0x7fff_ffff_ffff_ffff,
            ;
        }
        let sibling_start: u128 = (sibling_pos as u128) * span;
        path.push(merkle_node_digest(lde, sibling_start, span));
        proof {
            assert(digests_view(path@) =~= digests_view(before).push(path@.last()@));
            assert(digests_view(path@) + auth_path_from(
                lde.rows(),
                (current_pos / 2) as nat,
                (2 * span) as nat,
                (current_size / 2) as nat,
            ) =~= digests_view(before) + auth_path_from(
                lde.rows(),
                current_pos as nat,
                span as nat,
                current_size as nat,
            ));
        }
        current_pos = current_pos / 2;
        current_size = current_size / 2;
        span = 2 * span;
    }
    QueryResponse { position, value, auth_path: path }
}

} // verus!
