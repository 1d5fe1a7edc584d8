//! The four rules without a state: the classic rule of rows, columns and
//! blocks, the two diagonals, the knight's move and the king's move.
//!
//! The `sudoku_variants` crate decides them. Each of its answers is stated
//! here over the digits of the grid, and taken for granted.

use crate::grid::cell_at;
use crate::grid::extends;
use crate::grid::grid_digits;
use crate::grid::grid_shape;
use crate::grid::grid_size;
use crate::grid::holds;
use crate::grid::in_grid;
use crate::grid::well_formed;
use sudoku_variants::constraint::Constraint;
use sudoku_variants::constraint::DefaultConstraint;
use sudoku_variants::constraint::DiagonallyAdjacentConstraint;
use sudoku_variants::constraint::DiagonalsConstraint;
use sudoku_variants::constraint::KnightsMoveConstraint;
use sudoku_variants::SudokuGrid;
use vstd::prelude::*;

verus! {

/// One of the four rules without a state.
pub enum Classic {
    /// No digit twice in a row, a column or a block.
    Default,
    /// No digit twice on either of the two diagonals.
    Diagonals,
    /// No digit twice a knight's move apart.
    KnightsMove,
    /// No digit twice in diagonally adjacent cells.
    KingsMove,
}

/// The cells of a group, each as `(column, row)`.
pub type Group = Vec<(usize, usize)>;

/// Whether two cells lie in the same block.
pub open spec fn same_block(grid: SudokuGrid, c1: usize, r1: usize, c2: usize, r2: usize) -> bool {
    &&& c1 as int / grid_shape(grid).0 as int == c2 as int / grid_shape(grid).0 as int
    &&& r1 as int / grid_shape(grid).1 as int == r2 as int / grid_shape(grid).1 as int
}

/// Whether two different cells share a row, a column or a block.
pub open spec fn classic_peers(grid: SudokuGrid, c1: usize, r1: usize, c2: usize, r2: usize) -> bool {
    &&& c1 != c2 || r1 != r2
    &&& c1 == c2 || r1 == r2 || same_block(grid, c1, r1, c2, r2)
}

/// Whether two different cells lie on one diagonal of the grid.
pub open spec fn diagonal_peers(grid: SudokuGrid, c1: usize, r1: usize, c2: usize, r2: usize) -> bool {
    &&& c1 != c2
    &&& (c1 == r1 && c2 == r2) || (c1 + r1 == grid_size(grid) - 1 && c2 + r2 == grid_size(grid) - 1)
}

/// Whether two cells are a knight's move apart.
pub open spec fn knight_peers(c1: usize, r1: usize, c2: usize, r2: usize) -> bool {
    let dc = c1 - c2;
    let dr = r1 - r2;
    ((dc == 1 || dc == -1) && (dr == 2 || dr == -2)) || ((dc == 2 || dc == -2) && (dr == 1 || dr
        == -1))
}

/// Whether two cells touch at a corner.
pub open spec fn king_peers(c1: usize, r1: usize, c2: usize, r2: usize) -> bool {
    let dc = c1 - c2;
    let dr = r1 - r2;
    (dc == 1 || dc == -1) && (dr == 1 || dr == -1)
}

/// Whether the rule forbids two cells to hold the same digit.
pub open spec fn peers(kind: Classic, grid: SudokuGrid, c1: usize, r1: usize, c2: usize, r2: usize) -> bool {
    match kind {
        Classic::Default => classic_peers(grid, c1, r1, c2, r2),
        Classic::Diagonals => diagonal_peers(grid, c1, r1, c2, r2),
        Classic::KnightsMove => knight_peers(c1, r1, c2, r2),
        Classic::KingsMove => king_peers(c1, r1, c2, r2),
    }
}

/// Whether the rule lets the number stand in the cell: no peer of the cell
/// holds it. What the cell itself holds does not count.
pub open spec fn allows(kind: Classic, grid: SudokuGrid, column: usize, row: usize, number: usize) -> bool {
    forall|c: usize, r: usize|
        in_grid(grid, c, r) && peers(kind, grid, column, row, c, r) ==> !#[trigger] holds(
            grid,
            c,
            r,
            number,
        )
}

/// Whether the rule accepts what the cell holds. An empty cell is accepted.
pub open spec fn cell_fits(kind: Classic, grid: SudokuGrid, column: usize, row: usize) -> bool {
    match cell_at(grid, column, row) {
        Some(number) => allows(kind, grid, column, row, number),
        None => true,
    }
}

/// Whether the rule accepts every cell of the grid.
pub open spec fn grid_fits(kind: Classic, grid: SudokuGrid) -> bool {
    forall|column: usize, row: usize|
        in_grid(grid, column, row) ==> #[trigger] cell_fits(kind, grid, column, row)
}

/// What a rule accepts in a cell of a grid, it lets stand in that cell of
/// every grid of the same shape that holds no digit which the first grid
/// does not hold in the same place.
pub proof fn lemma_allowed_in_part(kind: Classic, part: SudokuGrid, whole: SudokuGrid, column: usize, row: usize)
    requires
        extends(part, whole),
        cell_at(whole, column, row) is Some,
        cell_fits(kind, whole, column, row),
    ensures
        allows(kind, part, column, row, cell_at(whole, column, row)->0),
{
    let number = cell_at(whole, column, row)->0;
    assert forall|c: usize, r: usize|
        in_grid(part, c, r) && peers(kind, part, column, row, c, r) implies !#[trigger] holds(
        part,
        c,
        r,
        number,
    ) by {
        if holds(part, c, r, number) {
            assert(grid_digits(part).contains_key((c, r)));
            assert(grid_digits(whole).contains_key((c, r)));
            assert(holds(whole, c, r, number));
            assert(peers(kind, whole, column, row, c, r));
        }
    }
}

/// Whether no two cells of the grid that the rule forbids to hold the same
/// digit do hold the same digit.
pub open spec fn no_equal_peers(kind: Classic, grid: SudokuGrid) -> bool {
    forall|c1: usize, r1: usize, c2: usize, r2: usize|
        in_grid(grid, c1, r1) && in_grid(grid, c2, r2) && #[trigger] peers(
            kind,
            grid,
            c1,
            r1,
            c2,
            r2,
        ) && cell_at(grid, c1, r1) is Some ==> cell_at(grid, c1, r1) != cell_at(grid, c2, r2)
}

/// A rule accepts a grid exactly if no two cells that it forbids to hold
/// the same digit do hold the same digit.
pub proof fn lemma_grid_fits_is_no_equal_peers(kind: Classic, grid: SudokuGrid)
    ensures
        grid_fits(kind, grid) <==> no_equal_peers(kind, grid),
{
    if grid_fits(kind, grid) {
        assert forall|c1: usize, r1: usize, c2: usize, r2: usize|
            in_grid(grid, c1, r1) && in_grid(grid, c2, r2) && #[trigger] peers(
                kind,
                grid,
                c1,
                r1,
                c2,
                r2,
            ) && cell_at(grid, c1, r1) is Some implies cell_at(grid, c1, r1) != cell_at(
            grid,
            c2,
            r2,
        ) by {
            assert(cell_fits(kind, grid, c1, r1));
            let number = cell_at(grid, c1, r1)->0;
            assert(!holds(grid, c2, r2, number));
        }
    }
    if no_equal_peers(kind, grid) {
        assert forall|column: usize, row: usize| in_grid(grid, column, row) implies #[trigger] cell_fits(
            kind,
            grid,
            column,
            row,
        ) by {
            if cell_at(grid, column, row) is Some {
                let number = cell_at(grid, column, row)->0;
                assert forall|c: usize, r: usize|
                    in_grid(grid, c, r) && peers(kind, grid, column, row, c, r) implies !#[trigger] holds(
                    grid,
                    c,
                    r,
                    number,
                ) by {}
            }
        }
    }
}

/// The cells of one row, from left to right.
pub open spec fn row_group(size: int, row: int) -> Seq<(usize, usize)> {
    Seq::new(size as nat, |column: int| (column as usize, row as usize))
}

/// The cells of one column, from top to bottom.
pub open spec fn column_group(size: int, column: int) -> Seq<(usize, usize)> {
    Seq::new(size as nat, |row: int| (column as usize, row as usize))
}

/// The cells of one block, row by row. Blocks are counted row by row too.
pub open spec fn block_group(width: int, height: int, block: int) -> Seq<(usize, usize)> {
    Seq::new(
        (width * height) as nat,
        |cell: int|
            (
                ((block % height) * width + cell % width) as usize,
                ((block / height) * height + cell / width) as usize,
            ),
    )
}

/// The groups of the classic rule: the rows, then the columns, then the
/// blocks.
pub open spec fn classic_groups(grid: SudokuGrid) -> Seq<Seq<(usize, usize)>> {
    let size = grid_size(grid);
    Seq::new(size as nat, |row: int| row_group(size, row)) + Seq::new(
        size as nat,
        |column: int| column_group(size, column),
    ) + Seq::new(
        size as nat,
        |block: int| block_group(grid_shape(grid).0 as int, grid_shape(grid).1 as int, block),
    )
}

/// The two diagonals: from the top left corner down, then from the bottom
/// left corner up.
pub open spec fn diagonal_groups(grid: SudokuGrid) -> Seq<Seq<(usize, usize)>> {
    let size = grid_size(grid);
    seq![
        Seq::new(size as nat, |i: int| (i as usize, i as usize)),
        Seq::new(size as nat, |i: int| (i as usize, (size - i - 1) as usize)),
    ]
}

/// The groups of a rule: sets of cells that may not hold a digit twice, as
/// far as the rule has any.
pub open spec fn groups(kind: Classic, grid: SudokuGrid) -> Seq<Seq<(usize, usize)>> {
    match kind {
        Classic::Default => classic_groups(grid),
        Classic::Diagonals => diagonal_groups(grid),
        Classic::KnightsMove => Seq::empty(),
        Classic::KingsMove => Seq::empty(),
    }
}

/// A list of groups as a sequence of sequences.
pub open spec fn groups_model(groups: Vec<Group>) -> Seq<Seq<(usize, usize)>> {
    Seq::new(groups@.len(), |i: int| groups@[i]@)
}

/// `DefaultConstraint::check` looks for a digit that stands twice in a row,
/// a column or a block, and answers whether there is none.
#[verifier::external_body]
pub(crate) fn default_check(grid: &SudokuGrid) -> (ok: bool)
    requires
        well_formed(*grid),
    ensures
        ok == grid_fits(Classic::Default, *grid),
{
    DefaultConstraint.check(grid)
}

/// `DefaultConstraint::check_cell` answers for the digit of one cell what
/// `check_number` answers, and accepts an empty cell.
#[verifier::external_body]
pub(crate) fn default_check_cell(grid: &SudokuGrid, column: usize, row: usize) -> (ok: bool)
    requires
        well_formed(*grid),
        in_grid(*grid, column, row),
    ensures
        ok == cell_fits(Classic::Default, *grid, column, row),
{
    DefaultConstraint.check_cell(grid, column, row)
}

/// `DefaultConstraint::check_number` answers whether no other cell of the
/// row, of the column or of the block holds the number.
#[verifier::external_body]
pub(crate) fn default_check_number(grid: &SudokuGrid, column: usize, row: usize, number: usize) -> (ok: bool)
    requires
        well_formed(*grid),
        in_grid(*grid, column, row),
    ensures
        ok == allows(Classic::Default, *grid, column, row, number),
{
    DefaultConstraint.check_number(grid, column, row, number)
}

/// `DefaultConstraint::get_groups` lists the rows, the columns and the
/// blocks.
#[verifier::external_body]
pub(crate) fn default_get_groups(grid: &SudokuGrid) -> (groups: Vec<Group>)
    requires
        well_formed(*grid),
    ensures
        groups_model(groups) == classic_groups(*grid),
{
    DefaultConstraint.get_groups(grid)
}

/// `DiagonalsConstraint::check`, which the trait gives it: every cell passes
/// `check_cell`.
#[verifier::external_body]
pub(crate) fn diagonals_check(grid: &SudokuGrid) -> (ok: bool)
    requires
        well_formed(*grid),
    ensures
        ok == grid_fits(Classic::Diagonals, *grid),
{
    DiagonalsConstraint.check(grid)
}

/// `DiagonalsConstraint::check_cell`, which the trait gives it: the digit of
/// the cell passes `check_number`, or the cell is empty.
#[verifier::external_body]
pub(crate) fn diagonals_check_cell(grid: &SudokuGrid, column: usize, row: usize) -> (ok: bool)
    requires
        well_formed(*grid),
        in_grid(*grid, column, row),
    ensures
        ok == cell_fits(Classic::Diagonals, *grid, column, row),
{
    DiagonalsConstraint.check_cell(grid, column, row)
}

/// `DiagonalsConstraint::check_number` answers, for a cell on a diagonal,
/// whether no other cell of that diagonal holds the number.
#[verifier::external_body]
pub(crate) fn diagonals_check_number(grid: &SudokuGrid, column: usize, row: usize, number: usize) -> (ok: bool)
    requires
        well_formed(*grid),
        in_grid(*grid, column, row),
    ensures
        ok == allows(Classic::Diagonals, *grid, column, row, number),
{
    DiagonalsConstraint.check_number(grid, column, row, number)
}

/// `DiagonalsConstraint::get_groups` lists the two diagonals.
#[verifier::external_body]
pub(crate) fn diagonals_get_groups(grid: &SudokuGrid) -> (groups: Vec<Group>)
    requires
        well_formed(*grid),
    ensures
        groups_model(groups) == diagonal_groups(*grid),
{
    DiagonalsConstraint.get_groups(grid)
}

/// `KnightsMoveConstraint::check`, which the trait gives it: every cell
/// passes `check_cell`.
#[verifier::external_body]
pub(crate) fn knights_move_check(grid: &SudokuGrid) -> (ok: bool)
    requires
        well_formed(*grid),
    ensures
        ok == grid_fits(Classic::KnightsMove, *grid),
{
    KnightsMoveConstraint.check(grid)
}

/// `KnightsMoveConstraint::check_cell`, which the trait gives it: the digit
/// of the cell passes `check_number`, or the cell is empty.
#[verifier::external_body]
pub(crate) fn knights_move_check_cell(grid: &SudokuGrid, column: usize, row: usize) -> (ok: bool)
    requires
        well_formed(*grid),
        in_grid(*grid, column, row),
    ensures
        ok == cell_fits(Classic::KnightsMove, *grid, column, row),
{
    KnightsMoveConstraint.check_cell(grid, column, row)
}

/// `KnightsMoveConstraint::check_number` answers whether none of the up to
/// eight cells a knight's move away holds the number.
#[verifier::external_body]
pub(crate) fn knights_move_check_number(grid: &SudokuGrid, column: usize, row: usize, number: usize) -> (ok: bool)
    requires
        well_formed(*grid),
        in_grid(*grid, column, row),
    ensures
        ok == allows(Classic::KnightsMove, *grid, column, row, number),
{
    KnightsMoveConstraint.check_number(grid, column, row, number)
}

/// `KnightsMoveConstraint::get_groups` has no group to list.
#[verifier::external_body]
pub(crate) fn knights_move_get_groups(grid: &SudokuGrid) -> (groups: Vec<Group>)
    ensures
        groups@.len() == 0,
{
    KnightsMoveConstraint.get_groups(grid)
}

/// `DiagonallyAdjacentConstraint::check`, which the trait gives it: every
/// cell passes `check_cell`.
#[verifier::external_body]
pub(crate) fn kings_move_check(grid: &SudokuGrid) -> (ok: bool)
    requires
        well_formed(*grid),
    ensures
        ok == grid_fits(Classic::KingsMove, *grid),
{
    DiagonallyAdjacentConstraint.check(grid)
}

/// `DiagonallyAdjacentConstraint::check_cell`, which the trait gives it: the
/// digit of the cell passes `check_number`, or the cell is empty.
#[verifier::external_body]
pub(crate) fn kings_move_check_cell(grid: &SudokuGrid, column: usize, row: usize) -> (ok: bool)
    requires
        well_formed(*grid),
        in_grid(*grid, column, row),
    ensures
        ok == cell_fits(Classic::KingsMove, *grid, column, row),
{
    DiagonallyAdjacentConstraint.check_cell(grid, column, row)
}

/// `DiagonallyAdjacentConstraint::check_number` answers whether none of the
/// up to four cells that touch the cell at a corner holds the number.
#[verifier::external_body]
pub(crate) fn kings_move_check_number(grid: &SudokuGrid, column: usize, row: usize, number: usize) -> (ok: bool)
    requires
        well_formed(*grid),
        in_grid(*grid, column, row),
    ensures
        ok == allows(Classic::KingsMove, *grid, column, row, number),
{
    DiagonallyAdjacentConstraint.check_number(grid, column, row, number)
}

/// `DiagonallyAdjacentConstraint::get_groups` has no group to list.
#[verifier::external_body]
pub(crate) fn kings_move_get_groups(grid: &SudokuGrid) -> (groups: Vec<Group>)
    ensures
        groups@.len() == 0,
{
    DiagonallyAdjacentConstraint.get_groups(grid)
}

} // verus!
