//! Commitments: the digest of a grid of field elements in row-major order.

use vstd::prelude::*;
use vstd::bytes::*;
use crate::encoding::push_u64_le;
use crate::field::BabyBearField;
use crate::hash::blake3_digest;
use crate::hash::blake3_hash;

verus! {

/// The encodings of the cells of a row, one after the other.
pub open spec fn row_bytes(row: Seq<BabyBearField>) -> Seq<u8>
    decreases row.len(),
{
    if row.len() == 0 {
        Seq::empty()
    } else {
        row_bytes(row.drop_last()) + row.last().spec_to_bytes()
    }
}

/// The encodings of the cells of a grid in row-major order.
pub open spec fn grid_bytes(rows: Seq<Seq<BabyBearField>>) -> Seq<u8>
    decreases rows.len(),
{
    if rows.len() == 0 {
        Seq::empty()
    } else {
        grid_bytes(rows.drop_last()) + row_bytes(rows.last())
    }
}

/// The commitment to a grid: the BLAKE3 digest of its cells' encodings in
/// row-major order.
pub open spec fn grid_commitment(rows: Seq<Seq<BabyBearField>>) -> Seq<u8> {
    blake3_digest(grid_bytes(rows))
}

/// The digest of `value` as eight little-endian bytes.
pub fn hash_u64(value: u64) -> (digest: [u8; 32])
    ensures
        digest@ == blake3_digest(spec_u64_to_le_bytes(value)),
{
    let mut bytes: Vec<u8> = Vec::new();
    push_u64_le(&mut bytes, value);
    assert(bytes@ =~= spec_u64_to_le_bytes(value));
    blake3_hash(bytes.as_slice())
}

} // verus!
