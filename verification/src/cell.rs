use vstd::prelude::*;

use crate::board::Region;
use crate::board::Sudoku;
use crate::board::peer_values;
use crate::error::SudokuError;
use crate::pos::Pos;

verus! {

/// One slot of the grid: an optional digit and the slot's fixed position.
///
/// A present value always lies in [1, 9]; the position never changes for
/// the cell's lifetime, while the value may be reassigned by a solver.
#[derive(Clone, Copy, Debug, PartialEq, Eq)]
pub struct Cell {
    value: Option<u8>,
    position: Pos,
}

/// Whether an optional digit is one a cell may hold: absent, or in [1, 9].
pub open spec fn valid_cell_value(value: Option<u8>) -> bool {
    match value {
        Some(v) => 1 <= v <= 9,
        None => true,
    }
}

impl Cell {
    /// The stored value.
    pub closed spec fn spec_value(&self) -> Option<u8> {
        self.value
    }

    /// The stored position.
    pub closed spec fn spec_pos(&self) -> Pos {
        self.position
    }

    /// The value, if present, is a digit in [1, 9], and the position is
    /// on the grid.
    pub open spec fn wf(&self) -> bool {
        valid_cell_value(self.spec_value()) && self.spec_pos().wf()
    }

    /// Builds a cell; a present value must be a digit in [1, 9].
    pub fn new(value: Option<u8>, position: Pos) -> (r: Result<Self, SudokuError>)
        ensures
            valid_cell_value(value) <==> r is Ok,
            r matches Ok(c) ==> c.spec_value() == value && c.spec_pos() == position,
            r matches Ok(c) ==> (position.wf() ==> c.wf()),
            r matches Err(e) ==> e == SudokuError::InvalidCellValue,
    {
        if let Some(v) = value {
            if v == 0 || v > 9 {
                return Err(SudokuError::InvalidCellValue);
            }
        }
        Ok(Self { value, position })
    }

    /// The cell's value, if any.
    pub fn value(&self) -> (r: Option<u8>)
        ensures
            r == self.spec_value(),
    {
        self.value
    }

    /// The cell's position.
    pub fn position(&self) -> (r: Pos)
        ensures
            r == self.spec_pos(),
    {
        self.position
    }

    /// Reassigns the cell's value; a present value must be a digit in
    /// [1, 9], and an invalid one leaves the cell untouched. The position
    /// is never changed.
    pub fn set_value(&mut self, value: Option<u8>) -> (r: Result<(), SudokuError>)
        ensures
            valid_cell_value(value) <==> r is Ok,
            r is Ok ==> final(self).spec_value() == value,
            r matches Err(e) ==> e == SudokuError::InvalidCellValue
                && *final(self) == *old(self),
            final(self).spec_pos() == old(self).spec_pos(),
            old(self).wf() ==> final(self).wf(),
    {
        if let Some(v) = value {
            if v == 0 || v > 9 {
                return Err(SudokuError::InvalidCellValue);
            }
        }
        self.value = value;
        Ok(())
    }

    /// The constraint set for this cell: the union of the row, column,
    /// and box peer values at the cell's position, each digit at most
    /// once, in unspecified order. These are the digits a Sudoku rule
    /// already forbids at the cell.
    pub fn get_constraints(&self, board: &Sudoku) -> (r: Vec<u8>)
        requires
            board.wf(),
            self.wf(),
        ensures
            r@.no_duplicates(),
            forall|v: u8|
                #[trigger] r@.contains(v) <==> (peer_values(
                    board.spec_values(),
                    Region::Row,
                    self.spec_pos().spec_x() as int,
                    self.spec_pos().spec_y() as int,
                ).contains(v) || peer_values(
                    board.spec_values(),
                    Region::Column,
                    self.spec_pos().spec_x() as int,
                    self.spec_pos().spec_y() as int,
                ).contains(v) || peer_values(
                    board.spec_values(),
                    Region::SubGrid,
                    self.spec_pos().spec_x() as int,
                    self.spec_pos().spec_y() as int,
                ).contains(v)),
    {
        let row: Vec<u8> = board.get_rest_of_row(self.position);
        let column: Vec<u8> = board.get_rest_of_column(self.position);
        let square: Vec<u8> = board.get_rest_of_box(self.position);
        let mut out: Vec<u8> = Vec::new();
        push_unique(&mut out, &row);
        push_unique(&mut out, &column);
        push_unique(&mut out, &square);
        out
    }

    /// Builds a cell from parts already known to be valid.
    pub(crate) fn make(value: Option<u8>, position: Pos) -> (r: Self)
        requires
            valid_cell_value(value),
        ensures
            r.spec_value() == value,
            r.spec_pos() == position,
            position.wf() ==> r.wf(),
    {
        Self { value, position }
    }
}

/// Whether the vector holds the value.
fn contains_value(v: &Vec<u8>, x: u8) -> (r: bool)
    ensures
        r == v@.contains(x),
{
    let mut i: usize = 0;
    while i < v.len()
        invariant
            i <= v@.len(),
            forall|j: int| 0 <= j < i ==> v@[j] != x,
        decreases v@.len() - i,
    {
        if v[i] == x {
            assert(v@[i as int] == x);
            return true;
        }
        i += 1;
    }
    false
}

/// Appends to out the values of vals that out does not yet hold, keeping
/// out free of duplicates.
fn push_unique(out: &mut Vec<u8>, vals: &Vec<u8>)
    requires
        old(out)@.no_duplicates(),
    ensures
        final(out)@.no_duplicates(),
        forall|v: u8|
            #[trigger] final(out)@.contains(v) <==> (old(out)@.contains(v) || vals@.contains(v)),
{
    let mut i: usize = 0;
    while i < vals.len()
        invariant
            i <= vals@.len(),
            out@.no_duplicates(),
            forall|v: u8|
                #[trigger] out@.contains(v) <==> (old(out)@.contains(v) || vals@.subrange(
                    0,
                    i as int,
                ).contains(v)),
        decreases vals@.len() - i,
    {
        let x: u8 = vals[i];
        let ghost before = out@;
        if !contains_value(out, x) {
            out.push(x);
            proof {
                assert(out@ == before.push(x));
                assert forall|p: int, q: int| 0 <= p < q < out@.len() implies out@[p] != out@[q] by {
                    if q == out@.len() - 1 {
                        assert(before[p] != x) by {
                            if before[p] == x {
                                assert(before.contains(x));
                            }
                        }
                    }
                }
                assert forall|v: u8| #[trigger] out@.contains(v) implies (before.contains(v) || v
                    == x) by {
                    let k = choose|k: int| 0 <= k < out@.len() && out@[k] == v;
                    if k < out@.len() - 1 {
                        assert(before[k] == v);
                    }
                }
                assert forall|v: u8| before.contains(v) implies #[trigger] out@.contains(v) by {
                    let k = choose|k: int| 0 <= k < before.len() && before[k] == v;
                    assert(out@[k] == v);
                }
                assert(out@.contains(x)) by {
                    assert(out@[out@.len() - 1] == x);
                }
            }
        }
        proof {
            assert(vals@.subrange(0, i as int + 1) =~= vals@.subrange(0, i as int).push(
                vals@[i as int],
            ));
            assert forall|v: u8| vals@.subrange(0, i as int + 1).contains(v) implies (vals@.subrange(
                0,
                i as int,
            ).contains(v) || v == x) by {
                let sub = vals@.subrange(0, i as int + 1);
                let k = choose|k: int| 0 <= k < sub.len() && sub[k] == v;
                if k < sub.len() - 1 {
                    assert(vals@.subrange(0, i as int)[k] == v);
                }
            }
            assert forall|v: u8| vals@.subrange(0, i as int).contains(v) implies vals@.subrange(
                0,
                i as int + 1,
            ).contains(v) by {
                let pre = vals@.subrange(0, i as int);
                let k = choose|k: int| 0 <= k < pre.len() && pre[k] == v;
                assert(vals@.subrange(0, i as int + 1)[k] == v);
            }
            assert(vals@.subrange(0, i as int + 1)[i as int] == x);
            assert(vals@.subrange(0, i as int + 1).contains(x));
        }
        i += 1;
    }
    proof {
        assert(vals@.subrange(0, vals@.len() as int) =~= vals@);
    }
}

} // verus!
