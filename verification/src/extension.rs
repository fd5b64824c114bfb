//! The extension of a trace to a multiple of its height.

use vstd::prelude::*;
use vstd::std_specs::ops::MulSpec;
use crate::field::BabyBearField;
use crate::field::reduce;

verus! {

/// The cell of a grid at `(row, col)`; zero outside the grid.
pub open spec fn grid_cell(rows: Seq<Seq<BabyBearField>>, row: int, col: int) -> BabyBearField {
    if 0 <= row < rows.len() && 0 <= col < rows[row].len() {
        rows[row][col]
    } else {
        BabyBearField(0)
    }
}

/// The cell of the extended grid at `(row, col)`: the cell of the grid for a
/// row of the grid; below, the cell of the row modulo the height, times the
/// row number plus one.
pub open spec fn extended_cell(rows: Seq<Seq<BabyBearField>>, row: int, col: int) -> BabyBearField {
    if row < rows.len() {
        grid_cell(rows, row, col)
    } else {
        grid_cell(rows, row % (rows.len() as int), col).mul_spec(reduce(row + 1))
    }
}

/// The grid of `width` columns extended to `blowup` times its height.
pub open spec fn extended_rows(rows: Seq<Seq<BabyBearField>>, width: nat, blowup: nat) -> Seq<
    Seq<BabyBearField>,
> {
    Seq::new(
        rows.len() * blowup,
        |r: int| Seq::new(width, |c: int| extended_cell(rows, r, c)),
    )
}

/// Whether an extended trace of `height * blowup` rows can be built and
/// queried `num_queries` times: the height fits in memory, and is not zero
/// where a query is asked.
pub open spec fn extension_ok(height: nat, blowup: nat, num_queries: nat) -> bool {
    height * blowup <= usize::MAX && (num_queries > 0 ==> height * blowup > 0)
}

} // verus!
