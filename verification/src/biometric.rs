//! The biometric statement: its trace and its constraints.

use vstd::prelude::*;
use vstd::std_specs::ops::MulSpec;
use vstd::std_specs::ops::SubSpec;
use crate::field::BabyBearField;
use crate::trace::ExecutionTrace;

verus! {

/// The number of rows of a biometric trace.
pub const BIOMETRIC_TRACE_HEIGHT: usize = 4;

/// The number of columns of a biometric trace.
pub const BIOMETRIC_TRACE_WIDTH: usize = 8;

/// The field element that the first eight bytes, read little-endian, stand
/// for.
pub open spec fn prefix_element(bytes: Seq<u8>) -> BabyBearField {
    BabyBearField::spec_from_bytes(bytes.subrange(0, 8))
}

/// One for true, zero for false.
pub open spec fn flag(b: bool) -> BabyBearField {
    if b {
        BabyBearField(1)
    } else {
        BabyBearField(0)
    }
}

/// Whether all four factors were verified.
pub open spec fn all_factors(factors: Seq<bool>) -> bool {
    factors[0] && factors[1] && factors[2] && factors[3]
}

/// One row of the biometric trace: challenge, biometric hash, the four
/// factor flags, whether all four hold, and the validity flag.
pub open spec fn biometric_row(challenge: Seq<u8>, hash: Seq<u8>, factors: Seq<bool>) -> Seq<
    BabyBearField,
> {
    seq![
        prefix_element(challenge),
        prefix_element(hash),
        flag(factors[0]),
        flag(factors[1]),
        flag(factors[2]),
        flag(factors[3]),
        flag(all_factors(factors)),
        BabyBearField(1),
    ]
}

/// The rows of the biometric trace: four times the same row.
pub open spec fn biometric_trace_rows(
    challenge: Seq<u8>,
    hash: Seq<u8>,
    factors: Seq<bool>,
) -> Seq<Seq<BabyBearField>> {
    Seq::new(BIOMETRIC_TRACE_HEIGHT as nat, |r: int| biometric_row(challenge, hash, factors))
}

/// The residuals of row `row` of a biometric trace: the challenge column less
/// the expected challenge, and the all-verified column less the product of
/// the four factor columns.
pub open spec fn biometric_residuals(trace: ExecutionTrace, row: int, challenge: Seq<u8>) -> Seq<
    BabyBearField,
> {
    let product = trace.cell(row, 2).mul_spec(trace.cell(row, 3)).mul_spec(
        trace.cell(row, 4),
    ).mul_spec(trace.cell(row, 5));
    seq![
        trace.cell(row, 0).sub_spec(prefix_element(challenge)),
        trace.cell(row, 6).sub_spec(product),
    ]
}

/// Reads the first eight bytes little-endian and reduces them into the field.
pub fn prefix_field(bytes: &[u8; 32]) -> (r: BabyBearField)
    ensures
        r == prefix_element(bytes@),
        r.is_reduced(),
{
    let head: [u8; 8] = [
        bytes[0],
        bytes[1],
        bytes[2],
        bytes[3],
        bytes[4],
        bytes[5],
        bytes[6],
        bytes[7],
    ];
    assert(head@ =~= bytes@.subrange(0, 8));
    BabyBearField::from_bytes(head)
}

/// The field element of a flag.
pub fn flag_field(b: bool) -> (r: BabyBearField)
    ensures
        r == flag(b),
        r.is_reduced(),
{
    if b {
        BabyBearField::one()
    } else {
        BabyBearField::zero()
    }
}

} // verus!
