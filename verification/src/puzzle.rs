//! A grid together with the constraint that it is to meet.

use crate::constraint::AnyConstraint;
use crate::constraint::ConstraintModel;
use crate::grid::grid_digits;
use crate::grid::grid_shape;
use sudoku_variants::SudokuGrid;
use vstd::prelude::*;

verus! {

/// A puzzle: the digits that are given, and the rules for the rest.
pub struct Puzzle {
    pub grid: SudokuGrid,
    pub constraint: AnyConstraint,
}

/// A puzzle as a plain value: the shape of a block, the digits by
/// `(column, row)`, and the constraint.
pub struct PuzzleModel {
    pub shape: (usize, usize),
    pub digits: Map<(usize, usize), usize>,
    pub constraint: ConstraintModel,
}

impl View for Puzzle {
    type V = PuzzleModel;

    open spec fn view(&self) -> PuzzleModel {
        PuzzleModel {
            shape: grid_shape(self.grid),
            digits: grid_digits(self.grid),
            constraint: self.constraint@,
        }
    }
}

impl Puzzle {
    /// Puts a grid and a constraint together.
    pub fn new_with_grid(grid: SudokuGrid, constraint: AnyConstraint) -> (puzzle: Puzzle)
        ensures
            puzzle.grid == grid,
            puzzle.constraint == constraint,
    {
        Puzzle { grid, constraint }
    }

    /// Takes the puzzle apart again.
    pub fn into_raw_parts(self) -> (parts: (SudokuGrid, AnyConstraint))
        ensures
            parts.0 == self.grid,
            parts.1 == self.constraint,
    {
        (self.grid, self.constraint)
    }
}

} // verus!
