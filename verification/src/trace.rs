//! The execution trace: a dense row-major grid of field elements.

use vstd::prelude::*;
use crate::field::BabyBearField;

verus! {

/// A vector of vectors as a sequence of sequences.
pub open spec fn grid_view(grid: Seq<Vec<BabyBearField>>) -> Seq<Seq<BabyBearField>> {
    Seq::new(grid.len(), |r: int| grid[r]@)
}

/// A `width` by `height` grid of field elements, stored row by row.
#[derive(Debug, Clone)]
pub struct ExecutionTrace {
    /// The number of columns.
    pub width: usize,
    /// The number of rows.
    pub height: usize,
    /// The rows, each `width` cells long.
    pub data: Vec<Vec<BabyBearField>>,
}

impl ExecutionTrace {
    /// The grid holds `height` rows of `width` cells each.
    pub open spec fn wf(&self) -> bool {
        &&& self.data@.len() == self.height
        &&& forall|r: int| 0 <= r < self.height ==> (#[trigger] self.data@[r])@.len() == self.width
    }

    /// The cells of row `row`.
    pub open spec fn row(&self, row: int) -> Seq<BabyBearField> {
        self.data@[row]@
    }

    /// The rows of the grid, each as the sequence of its cells.
    pub open spec fn rows(&self) -> Seq<Seq<BabyBearField>> {
        grid_view(self.data@)
    }

    /// Whether `(row, col)` lies in the grid, and in the rows that are
    /// stored.
    pub open spec fn in_bounds(&self, row: int, col: int) -> bool {
        &&& 0 <= row < self.height
        &&& 0 <= col < self.width
        &&& row < self.data@.len()
        &&& col < self.data@[row]@.len()
    }

    /// The cell at `(row, col)`; zero outside the grid.
    pub open spec fn cell(&self, row: int, col: int) -> BabyBearField {
        if self.in_bounds(row, col) {
            self.data@[row]@[col]
        } else {
            BabyBearField(0)
        }
    }

    /// A grid of the given size with every cell zero.
    pub fn new(width: usize, height: usize) -> (trace: Self)
        ensures
            trace.wf(),
            trace.width == width,
            trace.height == height,
            forall|r: int, c: int| trace.cell(r, c) == BabyBearField(0),
    {
        let mut data: Vec<Vec<BabyBearField>> = Vec::new();
        let mut r: usize = 0;
        while r < height
            invariant
                r <= height,
                data@.len() == r,
                forall|i: int| 0 <= i < r ==> (#[trigger] data@[i])@.len() == width,
                forall|i: int, j: int|
                    0 <= i < r && 0 <= j < width ==> (#[trigger] data@[i]@[j]) == BabyBearField(0),
            decreases height - r,
        {
            let mut row: Vec<BabyBearField> = Vec::new();
            let mut c: usize = 0;
            while c < width
                invariant
                    c <= width,
                    row@.len() == c,
                    forall|j: int| 0 <= j < c ==> (#[trigger] row@[j]) == BabyBearField(0),
                decreases width - c,
            {
                row.push(BabyBearField::zero());
                c = c + 1;
            }
            data.push(row);
            r = r + 1;
        }
        ExecutionTrace { width, height, data }
    }

    /// Whether the grid holds `height` rows of `width` cells each.
    pub fn is_well_formed(&self) -> (r: bool)
        ensures
            r == self.wf(),
    {
        if self.data.len() != self.height {
            return false;
        }
        let mut row: usize = 0;
        while row < self.height
            invariant
                self.data@.len() == self.height,
                row <= self.height,
                forall|r: int| 0 <= r < row ==> (#[trigger] self.data@[r])@.len() == self.width,
            decreases self.height - row,
        {
            if self.data[row].len() != self.width {
                return false;
            }
            row = row + 1;
        }
        true
    }

    /// Writes `value` at `(row, col)`; outside the grid nothing changes.
    pub fn set(&mut self, row: usize, col: usize, value: BabyBearField)
        ensures
            final(self).width == old(self).width,
            final(self).height == old(self).height,
            old(self).wf() ==> final(self).wf(),
            !old(self).in_bounds(row as int, col as int) ==> *final(self) == *old(self),
            old(self).in_bounds(row as int, col as int) ==> final(self).cell(row as int, col as int)
                == value,
            forall|r: int, c: int|
                !(r == row && c == col) ==> final(self).cell(r, c) == old(self).cell(r, c),
    {
        if row < self.height && col < self.width && row < self.data.len() && col
            < self.data[row].len() {
            self.data[row][col] = value;
        }
    }

    /// Reads the cell at `(row, col)`; zero outside the grid.
    pub fn get(&self, row: usize, col: usize) -> (value: BabyBearField)
        ensures
            value == self.cell(row as int, col as int),
    {
        if row < self.height && col < self.width && row < self.data.len() && col
            < self.data[row].len() {
            self.data[row][col]
        } else {
            BabyBearField::zero()
        }
    }
}

/// Sets every cell of row `row` to the value of its column in `values`.
pub fn fill_row(trace: &mut ExecutionTrace, row: usize, values: &Vec<BabyBearField>)
    requires
        old(trace).wf(),
        row < old(trace).height,
        values@.len() == old(trace).width,
    ensures
        final(trace).wf(),
        final(trace).width == old(trace).width,
        final(trace).height == old(trace).height,
        final(trace).row(row as int) == values@,
        forall|r: int|
            0 <= r < old(trace).height && r != row ==> final(trace).row(r) == old(trace).row(r),
{
    let mut col: usize = 0;
    while col < trace.width
        invariant
            old(trace).wf(),
            trace.wf(),
            trace.width == old(trace).width,
            trace.height == old(trace).height,
            row < trace.height,
            values@.len() == trace.width,
            col <= trace.width,
            forall|c: int| 0 <= c < col ==> trace.row(row as int)[c] == values@[c],
            forall|r: int|
                0 <= r < trace.height && r != row ==> trace.row(r) == old(trace).row(r),
        decreases trace.width - col,
    {
        let ghost before = *trace;
        trace.set(row, col, values[col]);
        proof {
            assert forall|c: int| 0 <= c < col + 1 implies trace.row(row as int)[c]
                == values@[c] by {
                assert(trace.cell(row as int, c) == trace.row(row as int)[c]);
                assert(before.cell(row as int, c) == before.row(row as int)[c]);
            }
            assert forall|r: int| 0 <= r < trace.height && r != row implies trace.row(r)
                == old(trace).row(r) by {
                assert forall|c: int| 0 <= c < trace.width implies trace.row(r)[c]
                    == before.row(r)[c] by {
                    assert(trace.cell(r, c) == before.cell(r, c));
                }
                assert(trace.row(r) =~= before.row(r));
            }
        }
        col = col + 1;
    }
    assert(trace.row(row as int) =~= values@);
}

} // verus!
