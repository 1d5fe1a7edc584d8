//! The answer to the question whether a grid meets its constraint.

use crate::constraint::ConstraintModel;
use crate::grid::grid_size;
use crate::grid::in_grid;
use crate::grid::well_formed;
use crate::puzzle::Puzzle;
use sudoku_variants::SudokuGrid;
use vstd::prelude::*;

verus! {

/// Whether a puzzle breaks no rule, and if it does, where.
pub enum CheckResponse {
    /// The constraint accepts the grid.
    Valid,
    /// The constraint does not accept the grid. The cells that it does not
    /// accept are listed as `(column, row)`, row by row.
    Invalid(Vec<(usize, usize)>),
}

/// The cells among the first `upto` of a row that the constraint does not
/// accept, from left to right.
pub open spec fn invalid_in_row(constraint: ConstraintModel, grid: SudokuGrid, row: usize, upto: int) -> Seq<(usize, usize)>
    decreases upto,
{
    if upto <= 0 {
        Seq::empty()
    } else if constraint.cell_fits(grid, (upto - 1) as usize, row) {
        invalid_in_row(constraint, grid, row, upto - 1)
    } else {
        invalid_in_row(constraint, grid, row, upto - 1).push(((upto - 1) as usize, row))
    }
}

/// The cells of the first `upto` rows that the constraint does not accept,
/// row by row.
pub open spec fn invalid_in_rows(constraint: ConstraintModel, grid: SudokuGrid, upto: int) -> Seq<(usize, usize)>
    decreases upto,
{
    if upto <= 0 {
        Seq::empty()
    } else {
        invalid_in_rows(constraint, grid, upto - 1) + invalid_in_row(
            constraint,
            grid,
            (upto - 1) as usize,
            grid_size(grid),
        )
    }
}

/// Every cell of the grid that the constraint does not accept, row by row.
pub open spec fn invalid_cells(constraint: ConstraintModel, grid: SudokuGrid) -> Seq<(usize, usize)> {
    invalid_in_rows(constraint, grid, grid_size(grid))
}

/// A cell is listed for a row exactly if it is one of the first cells of
/// that row and the constraint does not accept it.
pub proof fn lemma_invalid_in_row(constraint: ConstraintModel, grid: SudokuGrid, row: usize, upto: int, cell: (usize, usize))
    requires
        0 <= upto <= usize::MAX,
    ensures
        invalid_in_row(constraint, grid, row, upto).contains(cell) <==> cell.1 == row && cell.0
            < upto && !constraint.cell_fits(grid, cell.0, cell.1),
    decreases upto,
{
    if upto > 0 {
        lemma_invalid_in_row(constraint, grid, row, upto - 1, cell);
        let before = invalid_in_row(constraint, grid, row, upto - 1);
        let last = ((upto - 1) as usize, row);
        if !constraint.cell_fits(grid, (upto - 1) as usize, row) {
            let after = before.push(last);
            assert(after[before.len() as int] == last);
            if before.contains(cell) {
                let at = choose|at: int| 0 <= at < before.len() && before[at] == cell;
                assert(after[at] == cell);
            }
            if after.contains(cell) && cell != last {
                let at = choose|at: int| 0 <= at < after.len() && after[at] == cell;
                assert(before[at] == cell);
            }
        }
    }
}

/// A cell is listed for the first rows exactly if it is a cell of one of
/// them and the constraint does not accept it.
pub proof fn lemma_invalid_in_rows(constraint: ConstraintModel, grid: SudokuGrid, upto: int, cell: (usize, usize))
    requires
        well_formed(grid),
        0 <= upto <= grid_size(grid),
    ensures
        invalid_in_rows(constraint, grid, upto).contains(cell) <==> cell.1 < upto && cell.0
            < grid_size(grid) && !constraint.cell_fits(grid, cell.0, cell.1),
    decreases upto,
{
    crate::grid::lemma_size_positive(grid);
    if upto > 0 {
        lemma_invalid_in_rows(constraint, grid, upto - 1, cell);
        lemma_invalid_in_row(constraint, grid, (upto - 1) as usize, grid_size(grid), cell);
        let before = invalid_in_rows(constraint, grid, upto - 1);
        let row = invalid_in_row(constraint, grid, (upto - 1) as usize, grid_size(grid));
        let after = before + row;
        if before.contains(cell) {
            let at = choose|at: int| 0 <= at < before.len() && before[at] == cell;
            assert(after[at] == cell);
        }
        if row.contains(cell) {
            let at = choose|at: int| 0 <= at < row.len() && row[at] == cell;
            assert(after[before.len() + at] == cell);
        }
        if after.contains(cell) {
            let at = choose|at: int| 0 <= at < after.len() && after[at] == cell;
            if at < before.len() {
                assert(before[at] == cell);
            } else {
                assert(row[at - before.len()] == cell);
            }
        }
    }
}

/// The list of the cells that a constraint does not accept holds exactly
/// the cells of the grid that the constraint does not accept. It is empty
/// exactly if the constraint accepts the grid.
pub proof fn lemma_invalid_cells_are_exact(constraint: ConstraintModel, grid: SudokuGrid)
    requires
        well_formed(grid),
    ensures
        forall|column: usize, row: usize| #[trigger]
            invalid_cells(constraint, grid).contains((column, row)) <==> in_grid(grid, column, row)
                && !constraint.cell_fits(grid, column, row),
        invalid_cells(constraint, grid).len() == 0 <==> constraint.grid_fits(grid),
{
    crate::grid::lemma_size_positive(grid);
    let cells = invalid_cells(constraint, grid);
    assert forall|column: usize, row: usize| #[trigger]
        cells.contains((column, row)) <==> in_grid(grid, column, row) && !constraint.cell_fits(
            grid,
            column,
            row,
        ) by {
        lemma_invalid_in_rows(constraint, grid, grid_size(grid), (column, row));
    }
    crate::constraint::lemma_grid_fits_is_cells(constraint, grid);
    if cells.len() > 0 {
        let cell = cells[0];
        assert(cells.contains(cell));
        assert(cell == (cell.0, cell.1));
        assert(cells.contains((cell.0, cell.1)));
    }
    if !constraint.grid_fits(grid) {
        let (column, row) = choose|column: usize, row: usize|
            in_grid(grid, column, row) && !#[trigger] constraint.cell_fits(grid, column, row);
        assert(cells.contains((column, row)));
    }
}

impl CheckResponse {
    /// Checks the puzzle: `Valid` if the constraint accepts the grid, and
    /// otherwise `Invalid` with every cell that it does not accept.
    pub fn from_sudoku(sudoku: &Puzzle) -> (response: CheckResponse)
        requires
            well_formed(sudoku.grid),
        ensures
            response is Valid <==> sudoku.constraint@.grid_fits(sudoku.grid),
            response is Invalid ==> response->Invalid_0@ == invalid_cells(
                sudoku.constraint@,
                sudoku.grid,
            ),
            response is Invalid ==> response->Invalid_0@.len() > 0,
    {
        proof {
            lemma_invalid_cells_are_exact(sudoku.constraint@, sudoku.grid);
        }
        if sudoku.constraint.check(&sudoku.grid) {
            CheckResponse::Valid
        } else {
            let size = sudoku.grid.size();
            let mut errors: Vec<(usize, usize)> = Vec::new();
            let mut row: usize = 0;
            while row < size
                invariant
                    well_formed(sudoku.grid),
                    size == grid_size(sudoku.grid),
                    row <= size,
                    errors@ == invalid_in_rows(sudoku.constraint@, sudoku.grid, row as int),
                decreases size - row,
            {
                let ghost before = errors@;
                let mut column: usize = 0;
                while column < size
                    invariant
                        well_formed(sudoku.grid),
                        size == grid_size(sudoku.grid),
                        row < size,
                        column <= size,
                        errors@ == before + invalid_in_row(
                            sudoku.constraint@,
                            sudoku.grid,
                            row,
                            column as int,
                        ),
                    decreases size - column,
                {
                    if !sudoku.constraint.check_cell(&sudoku.grid, column, row) {
                        errors.push((column, row));
                        assert(errors@ =~= before + invalid_in_row(
                            sudoku.constraint@,
                            sudoku.grid,
                            row,
                            column + 1,
                        ));
                    }
                    column += 1;
                }
                row += 1;
            }
            CheckResponse::Invalid(errors)
        }
    }
}

} // verus!
