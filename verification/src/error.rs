use vstd::prelude::*;

verus! {

/// The failures that position, cell, and board construction can report.
///
/// Every failure is detected synchronously at the call that violates the
/// invariant; a failed parse never produces a partial board.
#[derive(Clone, Copy, Debug, PartialEq, Eq, Structural)]
pub enum SudokuError {
    /// A position was given a coordinate above 8.
    InvalidCoordinate,
    /// A position was given a linear index above 80.
    InvalidIndex,
    /// A cell was given a present value of 0 or above 9.
    InvalidCellValue,
    /// The puzzle text does not hold exactly 81 characters once trimmed.
    MalformedLength,
    /// The puzzle text holds a character other than `.` or `1`..`9`.
    MalformedCharacter,
}

impl SudokuError {
    /// A short description of the failure, one fixed text per kind.
    pub fn message(&self) -> (r: &'static str)
        ensures
            self is InvalidCoordinate ==> r@ == "position coordinate out of bounds"@,
            self is InvalidIndex ==> r@ == "position index out of bounds"@,
            self is InvalidCellValue ==> r@ == "cell value out of range"@,
            self is MalformedLength ==> r@ == "puzzle text is not 81 characters"@,
            self is MalformedCharacter ==> r@ == "puzzle text contains an invalid character"@,
    {
        match self {
            SudokuError::InvalidCoordinate => "position coordinate out of bounds",
            SudokuError::InvalidIndex => "position index out of bounds",
            SudokuError::InvalidCellValue => "cell value out of range",
            SudokuError::MalformedLength => "puzzle text is not 81 characters",
            SudokuError::MalformedCharacter => "puzzle text contains an invalid character",
        }
    }
}

} // verus!
