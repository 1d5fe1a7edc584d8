//! Filling the empty cells of a puzzle, if that can be done.

use crate::constraint::lemma_allowed_in_part;
use crate::constraint::lemma_grid_fits_is_cells;
use crate::constraint::lemma_part_fits;
use crate::constraint::AnyConstraint;
use crate::constraint::ConstraintModel;
use crate::grid::cell_at;
use crate::grid::clear_digit;
use crate::grid::extends;
use crate::grid::grid_digits;
use crate::grid::grid_size;
use crate::grid::in_grid;
use crate::grid::is_full;
use crate::grid::put_digit;
use crate::grid::same_grid;
use crate::grid::well_formed;
use crate::puzzle::Puzzle;
use crate::random::random_order;
use sudoku_variants::SudokuGrid;
use vstd::prelude::*;

verus! {

/// A full grid for a puzzle, or the finding that there is none.
pub enum FillResponse {
    /// A full grid that keeps the digits of the puzzle and that the
    /// constraint accepts.
    Filled(SudokuGrid),
    /// No such grid exists.
    Unsatisfiable,
}

/// Whether `full` is a full grid that keeps the digits of `grid` and that
/// the constraint accepts.
pub open spec fn completes(constraint: ConstraintModel, grid: SudokuGrid, full: SudokuGrid) -> bool {
    &&& extends(grid, full)
    &&& well_formed(full)
    &&& is_full(full)
    &&& constraint.grid_fits(full)
}

/// Whether some full grid keeps the digits of `grid` and is accepted.
pub open spec fn can_complete(constraint: ConstraintModel, grid: SudokuGrid) -> bool {
    exists|full: SudokuGrid| completes(constraint, grid, full)
}

/// Whether every cell before the given one, row by row, is filled.
pub open spec fn filled_before(grid: SudokuGrid, column: usize, row: usize) -> bool {
    forall|c: usize, r: usize|
        in_grid(grid, c, r) && (r < row || (r == row && c < column)) ==> #[trigger] grid_digits(
            grid,
        ).contains_key((c, r))
}

/// A grid that is full already is completed by itself alone, as far as its
/// digits go.
pub proof fn lemma_full_grid_is_complete(constraint: ConstraintModel, grid: SudokuGrid, full: SudokuGrid)
    requires
        well_formed(grid),
        is_full(grid),
        completes(constraint, grid, full),
    ensures
        same_grid(grid, full),
{
    assert forall|key: (usize, usize)|
        grid_digits(full).contains_key(key) <==> grid_digits(grid).contains_key(key) by {
        assert(key == (key.0, key.1));
        if grid_digits(full).contains_key(key) {
            assert(grid_digits(full).contains_key((key.0, key.1)));
            assert(in_grid(grid, key.0, key.1));
            assert(grid_digits(grid).contains_key((key.0, key.1)));
        }
        if grid_digits(grid).contains_key(key) {
            assert(grid_digits(grid).contains_key((key.0, key.1)));
        }
    }
    assert forall|key: (usize, usize)| grid_digits(grid).contains_key(key) implies grid_digits(
        grid,
    )[key] == grid_digits(full)[key] by {
        assert(key == (key.0, key.1));
        assert(grid_digits(grid).contains_key((key.0, key.1)));
    }
    assert(grid_digits(grid) =~= grid_digits(full));
}

/// Fills the cells from the given one on, row by row, trying the digits of
/// each empty cell in a random order and going back where none fits.
fn fill_rec(grid: &mut SudokuGrid, constraint: &AnyConstraint, column: usize, row: usize) -> (done: bool)
    requires
        well_formed(*old(grid)),
        row <= grid_size(*old(grid)),
        column < grid_size(*old(grid)),
        filled_before(*old(grid), column, row),
    ensures
        done ==> completes(constraint@, *old(grid), *final(grid)),
        !done ==> same_grid(*final(grid), *old(grid)),
        !done ==> forall|full: SudokuGrid| !completes(constraint@, *old(grid), full),
    decreases grid_size(*old(grid)) - row, grid_size(*old(grid)) - column,
{
    let size = grid.size();
    let ghost start = *grid;
    if row >= size {
        let valid = constraint.check(grid);
        proof {
            if !valid {
                assert forall|full: SudokuGrid| !completes(constraint@, start, full) by {
                    if completes(constraint@, start, full) {
                        lemma_part_fits(constraint@, start, full);
                    }
                }
            }
        }
        return valid;
    }
    let last = column + 1 == size;
    let next_column = if last {
        0
    } else {
        column + 1
    };
    let next_row = if last {
        row + 1
    } else {
        row
    };
    match grid.get_cell(column, row) {
        Ok(Some(_)) => {
            return fill_rec(grid, constraint, next_column, next_row);
        },
        _ => {},
    }
    let order = random_order(size);
    let mut tried: usize = 0;
    while tried < size
        invariant
            well_formed(start),
            size == grid_size(start),
            same_grid(*grid, start),
            column < size,
            row < size,
            next_row <= size,
            next_column < size,
            next_row == row + 1 && next_column == 0 && column + 1 == size || next_row == row
                && next_column == column + 1,
            start == *old(grid),
            filled_before(start, column, row),
            !grid_digits(start).contains_key((column, row)),
            order@.len() == size,
            crate::random::is_order(order@),
            tried <= size,
            forall|full: SudokuGrid, at: int|
                0 <= at < tried && #[trigger] completes(constraint@, start, full) ==> cell_at(
                    full,
                    column,
                    row,
                ) != Some(#[trigger] (order@[at] + 1) as usize),
        decreases size - tried,
    {
        let number = order[tried] + 1;
        let ghost here = *grid;
        if constraint.check_number(grid, column, row, number) {
            put_digit(grid, column, row, number);
            let ghost placed = *grid;
            proof {
                assert forall|c: usize, r: usize|
                    in_grid(placed, c, r) && (r < next_row || (r == next_row && c < next_column))
                    implies #[trigger] grid_digits(placed).contains_key((c, r)) by {
                    if c != column || r != row {
                        assert(grid_digits(start).contains_key((c, r)));
                    }
                }
            }
            if fill_rec(grid, constraint, next_column, next_row) {
                proof {
                    assert(extends(start, placed));
                    assert forall|c: usize, r: usize| #[trigger]
                        grid_digits(start).contains_key((c, r)) implies grid_digits(
                        *grid,
                    ).contains_key((c, r)) && grid_digits(*grid)[(c, r)] == grid_digits(start)[(
                        c,
                        r,
                    )] by {
                        assert(grid_digits(placed).contains_key((c, r)));
                    }
                }
                return true;
            }
            clear_digit(grid, column, row);
            proof {
                assert(grid_digits(*grid) =~= grid_digits(start));
                assert forall|full: SudokuGrid| #[trigger]
                    completes(constraint@, start, full) implies cell_at(full, column, row) != Some(
                    number,
                ) by {
                    if cell_at(full, column, row) == Some(number) {
                        assert forall|c: usize, r: usize| #[trigger]
                            grid_digits(placed).contains_key((c, r)) implies grid_digits(
                            full,
                        ).contains_key((c, r)) && grid_digits(full)[(c, r)] == grid_digits(placed)[(
                            c,
                            r,
                        )] by {
                            if c != column || r != row {
                                assert(grid_digits(start).contains_key((c, r)));
                            }
                        }
                        assert(completes(constraint@, placed, full));
                    }
                }
            }
        } else {
            proof {
                assert forall|full: SudokuGrid| #[trigger]
                    completes(constraint@, start, full) implies cell_at(full, column, row) != Some(
                    number,
                ) by {
                    if cell_at(full, column, row) == Some(number) {
                        lemma_grid_fits_is_cells(constraint@, full);
                        assert(in_grid(full, column, row));
                        assert(constraint@.cell_fits(full, column, row));
                        lemma_allowed_in_part(constraint@, start, full, column, row);
                        lemma_same_grid_allows(constraint@, here, start, column, row, number);
                    }
                }
            }
        }
        tried += 1;
    }
    proof {
        assert forall|full: SudokuGrid| !completes(constraint@, start, full) by {
            if completes(constraint@, start, full) {
                assert(in_grid(full, column, row));
                assert(grid_digits(full).contains_key((column, row)));
                let number = grid_digits(full)[(column, row)];
                let below = (number - 1) as usize;
                assert(order@.contains(below));
                let at = choose|at: int| 0 <= at < order@.len() && order@[at] == below;
                assert((order@[at] + 1) as usize == number);
            }
        }
    }
    false
}

/// What a constraint lets stand in a cell depends on the shape and the
/// digits of the grid alone.
pub proof fn lemma_same_grid_allows(constraint: ConstraintModel, a: SudokuGrid, b: SudokuGrid, column: usize, row: usize, number: usize)
    requires
        same_grid(a, b),
    ensures
        constraint.allows(a, column, row, number) == constraint.allows(b, column, row, number),
    decreases constraint,
{
    match constraint {
        ConstraintModel::Composite(members) => {
            assert forall|i: int| 0 <= i < members.len() implies (#[trigger] members[i]).allows(
                a,
                column,
                row,
                number,
            ) == members[i].allows(b, column, row, number) by {
                lemma_same_grid_allows(members[i], a, b, column, row, number);
            }
        },
        ConstraintModel::Sandwich(clues) => {
            assert(crate::sandwich::line(
                a,
                true,
                row,
                Some(crate::sandwich::Trial { at: column, number }),
            ) =~= crate::sandwich::line(
                b,
                true,
                row,
                Some(crate::sandwich::Trial { at: column, number }),
            ));
            assert(crate::sandwich::line(
                a,
                false,
                column,
                Some(crate::sandwich::Trial { at: row, number }),
            ) =~= crate::sandwich::line(
                b,
                false,
                column,
                Some(crate::sandwich::Trial { at: row, number }),
            ));
        },
        _ => {
            assert forall|c: usize, r: usize| crate::grid::holds(a, c, r, number) == crate::grid::holds(b, c, r, number) by {}
        },
    }
}

impl FillResponse {
    /// Fills the empty cells of the puzzle with digits that the constraint
    /// accepts together with those that are there. Which of several full
    /// grids comes out is left to chance. A puzzle with digits that the
    /// constraint does not accept, or with no way to fill the rest, is
    /// `Unsatisfiable`. A full grid that the constraint accepts comes back
    /// as it is.
    pub fn from_sudoku(sudoku: Puzzle) -> (response: FillResponse)
        requires
            well_formed(sudoku.grid),
        ensures
            response is Filled <==> can_complete(sudoku.constraint@, sudoku.grid),
            response is Filled ==> completes(sudoku.constraint@, sudoku.grid, response->Filled_0),
            is_full(sudoku.grid) && sudoku.constraint@.grid_fits(sudoku.grid) ==> response is Filled
                && same_grid(response->Filled_0, sudoku.grid),
    {
        let ghost given = sudoku.grid;
        let (mut grid, constraint) = sudoku.into_raw_parts();
        proof {
            if is_full(given) && constraint@.grid_fits(given) {
                assert(completes(constraint@, given, given));
            }
        }
        if !constraint.check(&grid) {
            proof {
                assert forall|full: SudokuGrid| !completes(constraint@, given, full) by {
                    if completes(constraint@, given, full) {
                        lemma_part_fits(constraint@, given, full);
                    }
                }
            }
            return FillResponse::Unsatisfiable;
        }
        proof {
            crate::grid::lemma_size_positive(grid);
        }
        if fill_rec(&mut grid, &constraint, 0, 0) {
            proof {
                if is_full(given) {
                    lemma_full_grid_is_complete(constraint@, given, grid);
                }
            }
            FillResponse::Filled(grid)
        } else {
            FillResponse::Unsatisfiable
        }
    }
}

} // verus!
