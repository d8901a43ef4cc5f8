//! A 9x9 Sudoku board model with verified constraint queries.
//!
//! The crate offers a validated grid coordinate ([`Pos`]), a grid slot
//! holding an optional digit ([`Cell`]), and the board itself ([`Sudoku`]),
//! which is parsed from an 81-character puzzle text and answers which
//! digits already occupy a cell's row, column, and 3x3 box.

mod board;
mod cell;
mod error;
mod pos;
mod text;

pub use board::Region;
pub use board::Sudoku;
pub use board::char_cell_value;
pub use board::is_puzzle_char;
pub use board::lemma_iteration_idempotent;
pub use board::lemma_peers_exclude_self;
pub use board::peer_values;
pub use board::peer_values_up_to;
pub use board::selects;
pub use board::spec_box_origin;
pub use cell::Cell;
pub use cell::valid_cell_value;
pub use error::SudokuError;
pub use pos::Pos;
pub use pos::lemma_coords_round_trip;
pub use pos::lemma_index_round_trip;
pub use pos::lemma_pos_ext_equal;
pub use text::is_whitespace_char;
pub use text::spec_trim_back;
pub use text::spec_trim_front;
pub use text::spec_trimmed;
