use sudoku::Pos;
use sudoku::SudokuError;

#[test]
fn pos_converts_to_index() {
    assert_eq!(Pos::new(5, 3).unwrap().to_index(), 32);
}

#[test]
fn pos_from_index_is_correct() {
    assert_eq!(Pos::from_index(32).unwrap(), Pos::new(5, 3).unwrap());
}

#[test]
fn index_round_trip_holds_for_every_index() {
    for idx in 0..=80usize {
        let p = Pos::from_index(idx).unwrap();
        assert_eq!(p.to_index(), idx);
    }
}

#[test]
fn coords_round_trip_holds_for_every_coordinate() {
    for y in 0..=8u8 {
        for x in 0..=8u8 {
            let p = Pos::new(x, y).unwrap();
            assert_eq!(p.to_index(), (y as usize) * 9 + (x as usize));
            assert_eq!(p.x(), x);
            assert_eq!(p.y(), y);
        }
    }
}

#[test]
fn out_of_bounds_coordinates_are_rejected() {
    assert_eq!(Pos::new(9, 0), Err(SudokuError::InvalidCoordinate));
    assert_eq!(Pos::new(0, 9), Err(SudokuError::InvalidCoordinate));
    assert_eq!(Pos::new(255, 255), Err(SudokuError::InvalidCoordinate));
    assert!(Pos::new(8, 8).is_ok());
    assert!(Pos::new(0, 0).is_ok());
}

#[test]
fn out_of_bounds_index_is_rejected() {
    assert_eq!(Pos::from_index(81), Err(SudokuError::InvalidIndex));
    assert_eq!(Pos::from_index(usize::MAX), Err(SudokuError::InvalidIndex));
    assert!(Pos::from_index(80).is_ok());
    assert!(Pos::from_index(0).is_ok());
}

#[test]
fn error_messages_are_distinct() {
    let errors = [
        SudokuError::InvalidCoordinate,
        SudokuError::InvalidIndex,
        SudokuError::InvalidCellValue,
        SudokuError::MalformedLength,
        SudokuError::MalformedCharacter,
    ];
    for (i, a) in errors.iter().enumerate() {
        assert!(!a.message().is_empty());
        for (j, b) in errors.iter().enumerate() {
            if i != j {
                assert_ne!(a.message(), b.message());
            }
        }
    }
}
