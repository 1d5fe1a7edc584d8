//! The grid of a puzzle, and what is taken for granted of it.
//!
//! A grid is a `SudokuGrid` of the `sudoku_variants` crate. The verifier
//! cannot look inside one, so this module names what a grid holds and gives
//! the methods that the engine calls a specification over those names.

use sudoku_variants::error::SudokuError;
use sudoku_variants::SudokuGrid;
use vstd::prelude::*;

verus! {

/// `SudokuGrid`, the grid of `sudoku_variants`, as a value that is only
/// passed on.
#[verifier::external_type_specification]
#[verifier::external_body]
pub struct ExSudokuGrid(SudokuGrid);

/// `SudokuError`, the error of the methods of a grid, as a value that is
/// only passed on.
#[verifier::external_type_specification]
#[verifier::external_body]
pub struct ExSudokuError(SudokuError);

/// The digits that a grid holds, keyed by `(column, row)`. An empty cell has
/// no entry.
pub uninterp spec fn grid_digits(grid: SudokuGrid) -> Map<(usize, usize), usize>;

/// The width and the height of one block of a grid, in this order.
pub uninterp spec fn grid_shape(grid: SudokuGrid) -> (usize, usize);

/// The number of columns, rows and digits of a grid.
pub open spec fn grid_size(grid: SudokuGrid) -> int {
    grid_shape(grid).0 * grid_shape(grid).1
}

/// The content of one cell.
pub open spec fn cell_at(grid: SudokuGrid, column: usize, row: usize) -> Option<usize> {
    if grid_digits(grid).contains_key((column, row)) {
        Some(grid_digits(grid)[(column, row)])
    } else {
        None
    }
}

/// The digits of a grid without any.
pub open spec fn no_digits() -> Map<(usize, usize), usize> {
    Map::empty()
}

/// Whether a cell holds the given digit.
pub open spec fn holds(grid: SudokuGrid, column: usize, row: usize, number: usize) -> bool {
    cell_at(grid, column, row) == Some(number)
}

/// Whether the coordinates name a cell of the grid.
pub open spec fn in_grid(grid: SudokuGrid, column: usize, row: usize) -> bool {
    column < grid_size(grid) && row < grid_size(grid)
}

/// A grid is well formed if its blocks are not degenerate, the number of its
/// cells is a machine number, and every digit sits in a cell of the grid and
/// lies between 1 and the size.
pub open spec fn well_formed(grid: SudokuGrid) -> bool {
    &&& 1 <= grid_shape(grid).0
    &&& 1 <= grid_shape(grid).1
    &&& grid_size(grid) * grid_size(grid) <= usize::MAX
    &&& forall|column: usize, row: usize| #[trigger]
        grid_digits(grid).contains_key((column, row)) ==> in_grid(grid, column, row) && 1
            <= grid_digits(grid)[(column, row)] <= grid_size(grid)
}

/// A well formed grid has at least one cell.
pub proof fn lemma_size_positive(grid: SudokuGrid)
    requires
        well_formed(grid),
    ensures
        1 <= grid_size(grid) <= usize::MAX,
{
    assert(1 <= grid_shape(grid).0 * grid_shape(grid).1) by (nonlinear_arith)
        requires
            1 <= grid_shape(grid).0,
            1 <= grid_shape(grid).1,
    ;
    assert(grid_size(grid) <= grid_size(grid) * grid_size(grid)) by (nonlinear_arith)
        requires
            1 <= grid_size(grid),
    ;
}

/// Whether no cell of the grid is empty.
pub open spec fn is_full(grid: SudokuGrid) -> bool {
    forall|column: usize, row: usize|
        in_grid(grid, column, row) ==> #[trigger] grid_digits(grid).contains_key((column, row))
}

/// Whether two grids have the same shape and hold the same digits.
pub open spec fn same_grid(a: SudokuGrid, b: SudokuGrid) -> bool {
    grid_shape(a) == grid_shape(b) && grid_digits(a) == grid_digits(b)
}

/// Whether `b` has the shape of `a` and every digit of `a` in its place.
pub open spec fn extends(a: SudokuGrid, b: SudokuGrid) -> bool {
    &&& grid_shape(a) == grid_shape(b)
    &&& forall|column: usize, row: usize| #[trigger]
        grid_digits(a).contains_key((column, row)) ==> grid_digits(b).contains_key((column, row))
            && grid_digits(b)[(column, row)] == grid_digits(a)[(column, row)]
}

/// `SudokuGrid::new` refuses a block without width or height and otherwise
/// makes the empty grid of that shape. The bound keeps the grid small: a
/// grid of 255 rows has 65025 cells.
pub assume_specification[ SudokuGrid::new ](block_width: usize, block_height: usize) -> (r: Result<SudokuGrid, SudokuError>)
    requires
        block_width * block_height <= 0xff,
    ensures
        r is Err <==> block_width == 0 || block_height == 0,
        r is Ok ==> grid_shape(r->Ok_0) == (block_width, block_height),
        r is Ok ==> grid_digits(r->Ok_0) == no_digits(),
;

/// `SudokuGrid::size` reads the product of block width and block height,
/// computed when the grid was made.
pub assume_specification[ SudokuGrid::size ](grid: &SudokuGrid) -> (size: usize)
    ensures
        size == grid_size(*grid),
        size >= 1,
;

/// `SudokuGrid::get_cell` refuses coordinates outside the grid and otherwise
/// reads the cell.
pub assume_specification[ SudokuGrid::get_cell ](grid: &SudokuGrid, column: usize, row: usize) -> (r: Result<Option<usize>, SudokuError>)
    ensures
        r is Ok <==> in_grid(*grid, column, row),
        r is Ok ==> r->Ok_0 == cell_at(*grid, column, row),
;

/// `SudokuGrid::set_cell` refuses coordinates outside the grid and digits
/// outside `1..=size`, leaving the grid as it was, and otherwise writes the
/// digit into the cell.
pub assume_specification[ SudokuGrid::set_cell ](grid: &mut SudokuGrid, column: usize, row: usize, number: usize) -> (r: Result<(), SudokuError>)
    ensures
        grid_shape(*final(grid)) == grid_shape(*old(grid)),
        r is Ok <==> in_grid(*old(grid), column, row) && 1 <= number <= grid_size(*old(grid)),
        r is Ok ==> grid_digits(*final(grid)) == grid_digits(*old(grid)).insert(
            (column, row),
            number,
        ),
        r is Err ==> grid_digits(*final(grid)) == grid_digits(*old(grid)),
;

/// `SudokuGrid::clear_cell` refuses coordinates outside the grid, leaving the
/// grid as it was, and otherwise empties the cell.
pub assume_specification[ SudokuGrid::clear_cell ](grid: &mut SudokuGrid, column: usize, row: usize) -> (r: Result<(), SudokuError>)
    ensures
        grid_shape(*final(grid)) == grid_shape(*old(grid)),
        r is Ok <==> in_grid(*old(grid), column, row),
        r is Ok ==> grid_digits(*final(grid)) == grid_digits(*old(grid)).remove((column, row)),
        r is Err ==> grid_digits(*final(grid)) == grid_digits(*old(grid)),
;

/// The derived `Clone` of `SudokuGrid` copies the shape and every cell.
pub assume_specification[ <SudokuGrid as Clone>::clone ](grid: &SudokuGrid) -> (copy: SudokuGrid)
    ensures
        same_grid(copy, *grid),
;

/// Makes the empty grid with blocks of the given width and height, if
/// neither is zero and the grid has at most 255 rows.
pub fn empty_grid(block_width: usize, block_height: usize) -> (made: Option<SudokuGrid>)
    ensures
        made is Some <==> 1 <= block_width * block_height <= 0xff,
        made is Some ==> well_formed(made->0),
        made is Some ==> grid_shape(made->0) == (block_width, block_height),
        made is Some ==> grid_digits(made->0) == no_digits(),
{
    if block_width == 0 || block_height == 0 {
        assert(block_width * block_height == 0) by (nonlinear_arith)
            requires
                block_width == 0 || block_height == 0,
        ;
        return None;
    }
    if block_width > 0xff || block_height > 0xff / block_width {
        assert(block_width * block_height > 0xff) by (nonlinear_arith)
            requires
                block_width >= 1,
                block_height >= 1,
                block_width > 0xff || block_height > 0xffint / (block_width as int),
        ;
        return None;
    }
    assert(1 <= block_width * block_height <= 0xff) by (nonlinear_arith)
        requires
            1 <= block_width <= 0xff,
            1 <= block_height <= 0xffint / (block_width as int),
    ;
    match SudokuGrid::new(block_width, block_height) {
        Ok(grid) => {
            assert(grid_size(grid) * grid_size(grid) <= usize::MAX) by (nonlinear_arith)
                requires
                    0 <= grid_size(grid) <= 0xff,
                    usize::MAX >= 0xffff_ffff,
            ;
            Some(grid)
        },
        Err(_) => None,
    }
}

/// Writes a digit into a cell of a well formed grid, which stays well
/// formed. Coordinates outside the grid and digits outside `1..=size` are
/// refused, and the grid is left as it was.
pub fn put_digit(grid: &mut SudokuGrid, column: usize, row: usize, number: usize) -> (done: bool)
    requires
        well_formed(*old(grid)),
    ensures
        well_formed(*final(grid)),
        grid_shape(*final(grid)) == grid_shape(*old(grid)),
        done <==> in_grid(*old(grid), column, row) && 1 <= number <= grid_size(*old(grid)),
        done ==> grid_digits(*final(grid)) == grid_digits(*old(grid)).insert((column, row), number),
        !done ==> grid_digits(*final(grid)) == grid_digits(*old(grid)),
{
    let ghost before = *grid;
    let done = grid.set_cell(column, row, number).is_ok();
    proof {
        assert forall|c: usize, r: usize| #[trigger]
            grid_digits(*grid).contains_key((c, r)) implies in_grid(*grid, c, r) && 1
            <= grid_digits(*grid)[(c, r)] <= grid_size(*grid) by {
            if c != column || r != row {
                assert(grid_digits(before).contains_key((c, r)));
            }
        }
    }
    done
}

/// Empties a cell of a well formed grid, which stays well formed.
/// Coordinates outside the grid are refused.
pub fn clear_digit(grid: &mut SudokuGrid, column: usize, row: usize) -> (done: bool)
    requires
        well_formed(*old(grid)),
    ensures
        well_formed(*final(grid)),
        grid_shape(*final(grid)) == grid_shape(*old(grid)),
        done <==> in_grid(*old(grid), column, row),
        grid_digits(*final(grid)) == grid_digits(*old(grid)).remove((column, row)),
{
    let ghost before = *grid;
    let done = grid.clear_cell(column, row).is_ok();
    proof {
        if !done {
            assert(!grid_digits(before).contains_key((column, row)));
            assert(grid_digits(*grid) =~= grid_digits(before).remove((column, row)));
        }
        assert forall|c: usize, r: usize| #[trigger]
            grid_digits(*grid).contains_key((c, r)) implies in_grid(*grid, c, r) && 1
            <= grid_digits(*grid)[(c, r)] <= grid_size(*grid) by {
            assert(grid_digits(before).contains_key((c, r)));
        }
    }
    done
}

} // verus!
