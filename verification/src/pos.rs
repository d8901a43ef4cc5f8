use vstd::prelude::*;

use crate::error::SudokuError;

verus! {

/// A validated coordinate on the 9x9 grid: both axes lie in [0, 8].
///
/// `x` is the column and `y` the row; the row-major linear index
/// `y * 9 + x` lies in [0, 80]. A position is an immutable value,
/// copied wherever it is needed.
#[derive(Clone, Copy, Debug, PartialEq, Eq, Structural)]
pub struct Pos {
    x: u8,
    y: u8,
}

impl Pos {
    /// The stored column.
    pub closed spec fn spec_x(&self) -> u8 {
        self.x
    }

    /// The stored row.
    pub closed spec fn spec_y(&self) -> u8 {
        self.y
    }

    /// Both coordinates lie on the grid.
    pub open spec fn wf(&self) -> bool {
        self.spec_x() <= 8 && self.spec_y() <= 8
    }

    /// The row-major linear index of this position.
    pub open spec fn linear_index(&self) -> int {
        self.spec_y() as int * 9 + self.spec_x() as int
    }

    /// Builds a position from coordinates; each axis must be at most 8.
    pub fn new(x: u8, y: u8) -> (r: Result<Self, SudokuError>)
        ensures
            (x <= 8 && y <= 8) <==> r is Ok,
            r matches Ok(p) ==> p.spec_x() == x && p.spec_y() == y && p.wf(),
            r matches Err(e) ==> e == SudokuError::InvalidCoordinate,
    {
        if x > 8 || y > 8 {
            Err(SudokuError::InvalidCoordinate)
        } else {
            Ok(Self { x, y })
        }
    }

    /// Builds a position from a linear index; the index must be at most 80.
    /// The column is `i % 9` and the row `i / 9`.
    pub fn from_index(i: usize) -> (r: Result<Self, SudokuError>)
        ensures
            i <= 80 <==> r is Ok,
            r matches Ok(p) ==> p.spec_x() == i as int % 9 && p.spec_y() == i as int / 9
                && p.wf() && p.linear_index() == i,
            r matches Err(e) ==> e == SudokuError::InvalidIndex,
    {
        if i > 80 {
            Err(SudokuError::InvalidIndex)
        } else {
            Ok(Self { x: (i % 9) as u8, y: (i / 9) as u8 })
        }
    }

    /// The row-major linear index, `y * 9 + x`; total, and at most 80
    /// for any well-formed position.
    pub fn to_index(&self) -> (r: usize)
        ensures
            r == self.linear_index(),
            self.wf() ==> r <= 80,
    {
        self.y as usize * 9 + self.x as usize
    }

    /// The column.
    pub fn x(&self) -> (r: u8)
        ensures
            r == self.spec_x(),
    {
        self.x
    }

    /// The row.
    pub fn y(&self) -> (r: u8)
        ensures
            r == self.spec_y(),
    {
        self.y
    }

    /// Builds a position from coordinates already known to be on the grid.
    pub(crate) fn make(x: u8, y: u8) -> (r: Self)
        requires
            x <= 8,
            y <= 8,
        ensures
            r.spec_x() == x,
            r.spec_y() == y,
            r.wf(),
    {
        Self { x, y }
    }
}

/// Two positions with the same coordinates are the same position.
pub proof fn lemma_pos_ext_equal(a: Pos, b: Pos)
    requires
        a.spec_x() == b.spec_x(),
        a.spec_y() == b.spec_y(),
    ensures
        a == b,
{
}

/// Round trip: a position whose coordinates were taken from an in-range
/// linear index maps back to that same index.
pub proof fn lemma_index_round_trip(p: Pos, i: int)
    requires
        0 <= i <= 80,
        p.spec_x() == i % 9,
        p.spec_y() == i / 9,
    ensures
        p.linear_index() == i,
{
}

/// Round trip: a position built from in-range coordinates maps to the
/// linear index `y * 9 + x`.
pub proof fn lemma_coords_round_trip(p: Pos, x: int, y: int)
    requires
        p.spec_x() == x,
        p.spec_y() == y,
    ensures
        p.linear_index() == y * 9 + x,
{
}

} // verus!
