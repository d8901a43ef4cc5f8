use sudoku::Cell;
use sudoku::Pos;
use sudoku::Sudoku;
use sudoku::SudokuError;

const PUZZLE: &str =
    ".5..83.17...1..4..3.4..56.8....3...9.9.8245....6....7...9....5...729..861.36.72.4";

const EMPTY_PUZZLE: &str =
    ".................................................................................";

#[test]
fn sudoku_can_get_rest_of_row() {
    let s = Sudoku::from_str(PUZZLE).unwrap();
    assert_eq!(s.get_rest_of_row(Pos::new(5, 4).unwrap()), vec![9u8, 8, 2, 5]);
}

#[test]
fn sudoku_can_get_rest_of_column() {
    let s = Sudoku::from_str(PUZZLE).unwrap();
    assert_eq!(s.get_rest_of_column(Pos::new(5, 2).unwrap()), vec![3u8, 4, 7]);
}

#[test]
fn sudoku_can_get_rest_of_box() {
    let s = Sudoku::from_str(PUZZLE).unwrap();
    assert_eq!(s.get_rest_of_box(Pos::new(7, 1).unwrap()), vec![1u8, 7, 4, 6, 8]);
}

#[test]
fn correct_constraints_from_position() {
    let s = Sudoku::from_str(PUZZLE).unwrap();
    let mut constraints = s
        .get_cell_at_pos(Pos::new(7, 1).unwrap())
        .get_constraints(&s);
    constraints.sort();
    assert_eq!(constraints, vec![1u8, 4, 5, 6, 7, 8]);
}

#[test]
fn cell_value_out_of_range_is_rejected() {
    let p = Pos::new(0, 0).unwrap();
    assert_eq!(Cell::new(Some(0), p), Err(SudokuError::InvalidCellValue));
    assert_eq!(Cell::new(Some(10), p), Err(SudokuError::InvalidCellValue));
    assert!(Cell::new(Some(1), p).is_ok());
    assert!(Cell::new(Some(9), p).is_ok());
    assert!(Cell::new(None, p).is_ok());
}

#[test]
fn parse_rejects_wrong_length() {
    let eighty = ".".repeat(80);
    let eighty_two = ".".repeat(82);
    assert_eq!(Sudoku::from_str(&eighty), Err(SudokuError::MalformedLength));
    assert_eq!(Sudoku::from_str(&eighty_two), Err(SudokuError::MalformedLength));
    assert_eq!(Sudoku::from_str(""), Err(SudokuError::MalformedLength));
    assert!(Sudoku::from_str(EMPTY_PUZZLE).is_ok());
    assert!(Sudoku::from_str(PUZZLE).is_ok());
}

#[test]
fn parse_rejects_invalid_characters() {
    let with_zero = format!("0{}", ".".repeat(80));
    let with_letter = format!("{}a{}", ".".repeat(40), ".".repeat(40));
    assert_eq!(Sudoku::from_str(&with_zero), Err(SudokuError::MalformedCharacter));
    assert_eq!(Sudoku::from_str(&with_letter), Err(SudokuError::MalformedCharacter));
}

#[test]
fn parse_trims_surrounding_whitespace_only() {
    let padded = format!("  \n\t{}\r\n ", PUZZLE);
    let s = Sudoku::from_str(&padded).unwrap();
    let t = Sudoku::from_str(PUZZLE).unwrap();
    assert_eq!(s.iter(), t.iter());

    // Whitespace inside the 81 characters is not trimmed away: the text
    // then holds an invalid character (or, at the edge, too few cells).
    let inner_space = format!("{} {}", ".".repeat(40), ".".repeat(40));
    assert_eq!(Sudoku::from_str(&inner_space), Err(SudokuError::MalformedCharacter));
}

#[test]
fn parse_places_each_character_at_its_index() {
    let s = Sudoku::from_str(PUZZLE).unwrap();
    let chars: Vec<char> = PUZZLE.chars().collect();
    for idx in 0..81usize {
        let p = Pos::from_index(idx).unwrap();
        let cell = s.get_cell_at_pos(p);
        let expected = match chars[idx] {
            '.' => None,
            d => Some(d.to_digit(10).unwrap() as u8),
        };
        assert_eq!(cell.value(), expected);
        assert_eq!(cell.position(), p);
    }
}

#[test]
fn iteration_is_idempotent() {
    let s = Sudoku::from_str(PUZZLE).unwrap();
    assert_eq!(s.iter(), s.iter());
    let first: Vec<Option<u8>> = s.iter().iter().map(|c| c.value()).collect();
    let second: Vec<Option<u8>> = s.iter().iter().map(|c| c.value()).collect();
    assert_eq!(first, second);
    assert_eq!(s.iter().len(), 81);
}

#[test]
fn peer_queries_exclude_the_position_itself() {
    // A board whose only filled cell sits at the queried position: every
    // peer list must come back empty even though that cell is present.
    let lone = format!("{}5{}", ".".repeat(40), ".".repeat(40));
    let s = Sudoku::from_str(&lone).unwrap();
    let p = Pos::from_index(40).unwrap();
    assert_eq!(s.get_cell_at_pos(p).value(), Some(5));
    assert_eq!(s.get_rest_of_row(p), Vec::<u8>::new());
    assert_eq!(s.get_rest_of_column(p), Vec::<u8>::new());
    assert_eq!(s.get_rest_of_box(p), Vec::<u8>::new());
    assert_eq!(s.get_cell_at_pos(p).get_constraints(&s), Vec::<u8>::new());
}

#[test]
fn box_origin_treats_boundary_coordinates_correctly() {
    // One filled cell at (0, 0): it must appear among the box peers of
    // every other cell of the top-left box, and of no cell outside it.
    let lone = format!("9{}", ".".repeat(80));
    let s = Sudoku::from_str(&lone).unwrap();
    assert_eq!(s.get_rest_of_box(Pos::new(1, 1).unwrap()), vec![9u8]);
    assert_eq!(s.get_rest_of_box(Pos::new(2, 2).unwrap()), vec![9u8]);
    assert_eq!(s.get_rest_of_box(Pos::new(0, 2).unwrap()), vec![9u8]);
    assert_eq!(s.get_rest_of_box(Pos::new(2, 0).unwrap()), vec![9u8]);
    assert_eq!(s.get_rest_of_box(Pos::new(3, 0).unwrap()), Vec::<u8>::new());
    assert_eq!(s.get_rest_of_box(Pos::new(0, 3).unwrap()), Vec::<u8>::new());
    assert_eq!(s.get_rest_of_box(Pos::new(5, 5).unwrap()), Vec::<u8>::new());
    assert_eq!(s.get_rest_of_box(Pos::new(8, 8).unwrap()), Vec::<u8>::new());
}

#[test]
fn mutation_is_visible_to_later_queries() {
    let mut s = Sudoku::from_str(EMPTY_PUZZLE).unwrap();
    let p = Pos::new(4, 4).unwrap();
    let cell = s.iter_mut(p.to_index());
    cell.set_value(Some(7)).unwrap();
    assert_eq!(s.get_cell_at_pos(p).value(), Some(7));
    assert_eq!(s.get_rest_of_row(Pos::new(0, 4).unwrap()), vec![7u8]);
    assert_eq!(s.get_rest_of_column(Pos::new(4, 0).unwrap()), vec![7u8]);
    assert_eq!(s.get_rest_of_box(Pos::new(3, 3).unwrap()), vec![7u8]);
}

#[test]
fn set_value_rejects_invalid_digits() {
    let mut s = Sudoku::from_str(PUZZLE).unwrap();
    let idx = Pos::new(1, 0).unwrap().to_index();
    let cell = s.iter_mut(idx);
    assert_eq!(cell.set_value(Some(0)), Err(SudokuError::InvalidCellValue));
    assert_eq!(cell.set_value(Some(10)), Err(SudokuError::InvalidCellValue));
    assert_eq!(cell.value(), Some(5));
    assert_eq!(cell.set_value(None), Ok(()));
    assert_eq!(s.get_cell_at_pos(Pos::new(1, 0).unwrap()).value(), None);
}
