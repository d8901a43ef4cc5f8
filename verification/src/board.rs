use vstd::prelude::*;
use vstd::string::StrSliceExecFns;

use crate::cell::Cell;
use crate::error::SudokuError;
use crate::pos::Pos;
use crate::text::spec_trimmed;
use crate::text::trimmed_bounds;

verus! {

/// The three kinds of peer group a constraint query can ask about.
#[derive(Clone, Copy, Debug, PartialEq, Eq, Structural)]
pub enum Region {
    /// The cells sharing the row of a position.
    Row,
    /// The cells sharing the column of a position.
    Column,
    /// The cells sharing the 3x3 box of a position.
    SubGrid,
}

/// The origin, 0, 3, or 6, of the 3-wide band that holds a coordinate:
/// 0..=2 map to 0, 3..=5 to 3, and 6..=8 to 6.
pub open spec fn spec_box_origin(c: int) -> int {
    if c <= 2 {
        0
    } else if c <= 5 {
        3
    } else {
        6
    }
}

/// Whether the slot at linear index i holds a peer of the position
/// (px, py) for the given region: it shares the region and is not the
/// position's own slot.
pub open spec fn selects(region: Region, px: int, py: int, i: int) -> bool {
    match region {
        Region::Row => i / 9 == py && i % 9 != px,
        Region::Column => i % 9 == px && i / 9 != py,
        Region::SubGrid => spec_box_origin(i % 9) == spec_box_origin(px)
            && spec_box_origin(i / 9) == spec_box_origin(py)
            && i != py * 9 + px,
    }
}

/// The values of the present cells among the first n slots that the
/// region query for (px, py) selects, in ascending index order.
pub open spec fn peer_values_up_to(
    values: Seq<Option<u8>>,
    region: Region,
    px: int,
    py: int,
    n: int,
) -> Seq<u8>
    decreases n,
{
    if n <= 0 {
        Seq::empty()
    } else {
        let rest = peer_values_up_to(values, region, px, py, n - 1);
        match values[n - 1] {
            Some(v) => if selects(region, px, py, n - 1) {
                rest.push(v)
            } else {
                rest
            },
            None => rest,
        }
    }
}

/// The values of all present peers of (px, py) for the region, over the
/// whole board, in ascending index order.
pub open spec fn peer_values(
    values: Seq<Option<u8>>,
    region: Region,
    px: int,
    py: int,
) -> Seq<u8> {
    peer_values_up_to(values, region, px, py, 81)
}

/// Whether the character may appear in a puzzle text: `.` or a digit 1-9.
pub open spec fn is_puzzle_char(c: char) -> bool {
    c == '.' || char_cell_value(c) is Some
}

/// The cell value a puzzle character denotes: the digit for `1`..`9`,
/// and None for `.` or any character outside the alphabet.
pub open spec fn char_cell_value(c: char) -> Option<u8> {
    if c == '1' {
        Some(1u8)
    } else if c == '2' {
        Some(2u8)
    } else if c == '3' {
        Some(3u8)
    } else if c == '4' {
        Some(4u8)
    } else if c == '5' {
        Some(5u8)
    } else if c == '6' {
        Some(6u8)
    } else if c == '7' {
        Some(7u8)
    } else if c == '8' {
        Some(8u8)
    } else if c == '9' {
        Some(9u8)
    } else {
        None
    }
}

/// A 9x9 board: exactly 81 cells in row-major order, the cell at linear
/// index i carrying the position with column i % 9 and row i / 9.
#[derive(Debug, PartialEq, Eq)]
pub struct Sudoku {
    cells: Vec<Cell>,
}

impl Sudoku {
    /// The stored cells, in index order.
    pub closed spec fn spec_cells(&self) -> Seq<Cell> {
        self.cells@
    }

    /// The 81 stored values, in index order.
    pub open spec fn spec_values(&self) -> Seq<Option<u8>> {
        Seq::new(self.spec_cells().len(), |i: int| self.spec_cells()[i].spec_value())
    }

    /// Exactly 81 well-formed cells, each stored at the linear index its
    /// position denotes.
    pub open spec fn wf(&self) -> bool {
        &&& self.spec_cells().len() == 81
        &&& forall|i: int|
            0 <= i < 81 ==> (#[trigger] self.spec_cells()[i]).wf()
                && self.spec_cells()[i].spec_pos().spec_x() == i % 9
                && self.spec_cells()[i].spec_pos().spec_y() == i / 9
    }

    /// Parses a board from puzzle text: after trimming surrounding
    /// whitespace the text must hold exactly 81 characters, each `.` for
    /// an empty cell or a digit `1`..`9` for a filled one, in row-major
    /// order. The length is checked first, then the alphabet; nothing is
    /// produced on failure.
    pub fn from_str(s: &str) -> (r: Result<Sudoku, SudokuError>)
        ensures
            r is Ok <==> (spec_trimmed(s@).len() == 81 && forall|i: int|
                0 <= i < 81 ==> is_puzzle_char(#[trigger] spec_trimmed(s@)[i])),
            r matches Ok(board) ==> board.wf() && board.spec_values() == Seq::new(
                81,
                |i: int| char_cell_value(spec_trimmed(s@)[i]),
            ),
            spec_trimmed(s@).len() != 81 ==> (r matches Err(e) && e
                == SudokuError::MalformedLength),
            spec_trimmed(s@).len() == 81 && r is Err ==> (r matches Err(e) && e
                == SudokuError::MalformedCharacter),
    {
        let bounds: (usize, usize) = trimmed_bounds(s);
        let a: usize = bounds.0;
        let b: usize = bounds.1;
        if b - a != 81 {
            return Err(SudokuError::MalformedLength);
        }
        let ghost t = spec_trimmed(s@);
        let mut cells: Vec<Cell> = Vec::new();
        let mut i: usize = 0;
        while i < 81
            invariant
                i <= 81,
                a <= b <= s@.len(),
                b - a == 81,
                t == s@.subrange(a as int, b as int),
                t == spec_trimmed(s@),
                cells@.len() == i,
                forall|j: int| 0 <= j < i ==> is_puzzle_char(#[trigger] t[j]),
                forall|j: int|
                    0 <= j < i ==> (#[trigger] cells@[j]).spec_value() == char_cell_value(t[j]),
                forall|j: int|
                    0 <= j < i ==> (#[trigger] cells@[j]).wf()
                        && cells@[j].spec_pos().spec_x() == j % 9
                        && cells@[j].spec_pos().spec_y() == j / 9,
            decreases 81 - i,
        {
            let c: char = s.get_char(a + i);
            assert(c == t[i as int]);
            let value: Option<u8> = match c {
                '.' => None,
                '1' => Some(1u8),
                '2' => Some(2u8),
                '3' => Some(3u8),
                '4' => Some(4u8),
                '5' => Some(5u8),
                '6' => Some(6u8),
                '7' => Some(7u8),
                '8' => Some(8u8),
                '9' => Some(9u8),
                _ => {
                    return Err(SudokuError::MalformedCharacter);
                },
            };
            assert(value == char_cell_value(t[i as int]) && is_puzzle_char(t[i as int]));
            let position: Pos = Pos::make((i % 9) as u8, (i / 9) as u8);
            let cell: Cell = Cell::make(value, position);
            cells.push(cell);
            i += 1;
        }
        let board = Sudoku { cells };
        proof {
            assert(board.spec_values() =~= Seq::new(
                81,
                |j: int| char_cell_value(spec_trimmed(s@)[j]),
            ));
        }
        Ok(board)
    }

    /// A read-only view of all 81 cells, in index order; iterating it
    /// again without mutation yields the same cells.
    pub fn iter(&self) -> (r: &Vec<Cell>)
        ensures
            r@ == self.spec_cells(),
    {
        &self.cells
    }

    /// Mutable access to the cell at linear index i; the board afterwards
    /// holds whatever the caller leaves behind the reference, and every
    /// other cell is untouched.
    pub fn iter_mut(&mut self, i: usize) -> (r: &mut Cell)
        requires
            i < old(self).spec_cells().len(),
        ensures
            *r == old(self).spec_cells()[i as int],
            final(self).spec_cells() == old(self).spec_cells().update(i as int, *final(r)),
    {
        &mut self.cells[i]
    }

    /// The values of the other present cells in the row of pos,
    /// in ascending index order (equivalently ascending column).
    pub fn get_rest_of_row(&self, pos: Pos) -> (r: Vec<u8>)
        requires
            self.wf(),
            pos.wf(),
        ensures
            r@ == peer_values(
                self.spec_values(),
                Region::Row,
                pos.spec_x() as int,
                pos.spec_y() as int,
            ),
    {
        self.collect_peers(Region::Row, pos)
    }

    /// The values of the other present cells in the column of pos,
    /// in ascending index order (equivalently ascending row).
    pub fn get_rest_of_column(&self, pos: Pos) -> (r: Vec<u8>)
        requires
            self.wf(),
            pos.wf(),
        ensures
            r@ == peer_values(
                self.spec_values(),
                Region::Column,
                pos.spec_x() as int,
                pos.spec_y() as int,
            ),
    {
        self.collect_peers(Region::Column, pos)
    }

    /// The values of the other present cells in the 3x3 box of pos,
    /// in ascending index order.
    pub fn get_rest_of_box(&self, pos: Pos) -> (r: Vec<u8>)
        requires
            self.wf(),
            pos.wf(),
        ensures
            r@ == peer_values(
                self.spec_values(),
                Region::SubGrid,
                pos.spec_x() as int,
                pos.spec_y() as int,
            ),
    {
        self.collect_peers(Region::SubGrid, pos)
    }

    /// The unique cell whose stored position is pos; lookup on a
    /// well-formed board never fails.
    pub fn get_cell_at_pos(&self, pos: Pos) -> (r: &Cell)
        requires
            self.wf(),
            pos.wf(),
        ensures
            *r == self.spec_cells()[pos.linear_index()],
            r.spec_pos() == pos,
            r.spec_value() == self.spec_values()[pos.linear_index()],
    {
        let i: usize = pos.to_index();
        let cell: &Cell = &self.cells[i];
        proof {
            lemma_linear_index_decomposes(pos.spec_x() as int, pos.spec_y() as int);
            crate::pos::lemma_pos_ext_equal(cell.spec_pos(), pos);
        }
        cell
    }

    /// Walks all 81 slots once and gathers the values the region query
    /// for pos selects, in ascending index order.
    fn collect_peers(&self, region: Region, pos: Pos) -> (r: Vec<u8>)
        requires
            self.wf(),
            pos.wf(),
        ensures
            r@ == peer_values(
                self.spec_values(),
                region,
                pos.spec_x() as int,
                pos.spec_y() as int,
            ),
    {
        let px: u8 = pos.x();
        let py: u8 = pos.y();
        let bx: u8 = box_origin(px);
        let by: u8 = box_origin(py);
        let mut out: Vec<u8> = Vec::new();
        let mut i: usize = 0;
        while i < 81
            invariant
                i <= 81,
                self.wf(),
                pos.wf(),
                px == pos.spec_x(),
                py == pos.spec_y(),
                bx == spec_box_origin(px as int),
                by == spec_box_origin(py as int),
                out@ == peer_values_up_to(self.spec_values(), region, px as int, py as int, i as int),
            decreases 81 - i,
        {
            let x: u8 = (i % 9) as u8;
            let y: u8 = (i / 9) as u8;
            let selected: bool = match region {
                Region::Row => y == py && x != px,
                Region::Column => x == px && y != py,
                Region::SubGrid => box_origin(x) == bx && box_origin(y) == by
                    && !(x == px && y == py),
            };
            proof {
                lemma_linear_index_decomposes(px as int, py as int);
                assert(selected == selects(region, px as int, py as int, i as int));
            }
            if selected {
                if let Some(v) = self.cells[i].value() {
                    out.push(v);
                }
            }
            i += 1;
        }
        out
    }
}

/// The origin, 0, 3, or 6, of the 3-wide band that holds the coordinate.
pub(crate) fn box_origin(c: u8) -> (r: u8)
    ensures
        r == spec_box_origin(c as int),
{
    if c <= 2 {
        0
    } else if c <= 5 {
        3
    } else {
        6
    }
}

/// A linear index built from in-range coordinates decomposes back into
/// them: `(py * 9 + px) % 9 == px` and `(py * 9 + px) / 9 == py`.
proof fn lemma_linear_index_decomposes(px: int, py: int)
    requires
        0 <= px <= 8,
        0 <= py <= 8,
    ensures
        (py * 9 + px) % 9 == px,
        (py * 9 + px) / 9 == py,
{
    assert((py * 9 + px) % 9 == px && (py * 9 + px) / 9 == py) by (nonlinear_arith)
        requires
            0 <= px <= 8,
            0 <= py <= 8,
    ;
}

/// Iterating a board twice without mutation yields the same cells: any
/// two cell sequences read from the same board are equal.
pub proof fn lemma_iteration_idempotent(board: &Sudoku, first: Seq<Cell>, second: Seq<Cell>)
    requires
        first == board.spec_cells(),
        second == board.spec_cells(),
    ensures
        first == second,
{
}

/// A peer query for a position never selects the position's own slot,
/// whatever the region and whether or not its own cell is filled.
pub proof fn lemma_peers_exclude_self(region: Region, px: int, py: int, i: int)
    requires
        0 <= px <= 8,
        0 <= py <= 8,
        selects(region, px, py, i),
    ensures
        i != py * 9 + px,
{
    lemma_linear_index_decomposes(px, py);
}

} // verus!
