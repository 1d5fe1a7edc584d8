//! The sandwich rule: a clue beside a row or a column gives the sum of the
//! digits that stand between the two buns of that line. The buns are the
//! cells that hold the digit 1 and the highest digit.
//!
//! A clue is judged once its line is full: then the line must show two buns,
//! and the digits between the first two must add up to the clue. Until then
//! the clue is taken as met, so that a digit that is refused once is refused
//! for good, whatever else is filled in later.

use crate::classic::Group;
use crate::grid::cell_at;
use crate::grid::extends;
use crate::grid::grid_digits;
use crate::grid::grid_size;
use crate::grid::in_grid;
use crate::grid::well_formed;
use sudoku_variants::SudokuGrid;
use vstd::prelude::*;

verus! {

/// The clues of a sandwich puzzle: for every column and every row the sum
/// that is asked for, if one is given.
pub struct SandwichConstraint {
    column_sums: Vec<Option<usize>>,
    row_sums: Vec<Option<usize>>,
}

/// The clues as plain sequences.
pub struct SandwichModel {
    pub column_sums: Seq<Option<usize>>,
    pub row_sums: Seq<Option<usize>>,
}

impl View for SandwichConstraint {
    type V = SandwichModel;

    closed spec fn view(&self) -> SandwichModel {
        SandwichModel { column_sums: self.column_sums@, row_sums: self.row_sums@ }
    }
}

/// The removal of one clue.
#[derive(Clone, Copy, Debug, PartialEq, Eq, Structural)]
pub enum SandwichReduction {
    /// Removes the clue of a column.
    RemoveColumn { column: usize },
    /// Removes the clue of a row.
    RemoveRow { row: usize },
}

/// Why a reduction could not be applied.
#[derive(Clone, Copy, Debug, PartialEq, Eq, Structural)]
pub enum ReductionError {
    /// The reduction names nothing that the constraint could give up.
    InvalidReduction,
}

/// Whether a cell holds a bun: the digit 1 or the highest digit.
pub open spec fn is_bun(cell: Option<usize>, size: int) -> bool {
    cell is Some && (cell->0 == 1 || cell->0 == size)
}

/// The first position at or after `from` that holds a bun, or the length of
/// the line if there is none.
pub open spec fn first_bun(line: Seq<Option<usize>>, size: int, from: int) -> int
    decreases line.len() - from,
{
    if from < 0 || from >= line.len() {
        line.len() as int
    } else if is_bun(line[from], size) {
        from
    } else {
        first_bun(line, size, from + 1)
    }
}

/// The sum of the digits at the positions from `from` up to, not including,
/// `to`, or `None` if one of these cells is empty.
pub open spec fn inner_sum(line: Seq<Option<usize>>, from: int, to: int) -> Option<int>
    decreases to - from,
{
    if from >= to {
        Some(0)
    } else {
        match (line[from], inner_sum(line, from + 1, to)) {
            (Some(digit), Some(rest)) => Some(digit + rest),
            _ => None,
        }
    }
}

/// The sum between the first two buns of a line, if the line shows two buns
/// and every cell between them.
pub open spec fn sandwich_sum(line: Seq<Option<usize>>, size: int) -> Option<int> {
    let first = first_bun(line, size, 0);
    let second = first_bun(line, size, first + 1);
    if second < line.len() {
        inner_sum(line, first + 1, second)
    } else {
        None
    }
}

/// Whether no cell of a line is empty.
pub open spec fn line_full(line: Seq<Option<usize>>) -> bool {
    forall|at: int| 0 <= at < line.len() ==> (#[trigger] line[at]) is Some
}

/// Whether a line meets its clue. A line without a clue and a line with an
/// empty cell meet it. A full line meets it if it shows two buns with that
/// sum between them.
pub open spec fn clue_met(line: Seq<Option<usize>>, size: int, clue: Option<usize>) -> bool {
    clue is Some && line_full(line) ==> sandwich_sum(line, size) == Some(clue->0 as int)
}

/// One cell of a line of the grid: of the row `index` if `horizontal`, of the
/// column `index` if not.
pub open spec fn line_cell(grid: SudokuGrid, horizontal: bool, index: usize, at: int) -> Option<usize> {
    if horizontal {
        cell_at(grid, at as usize, index)
    } else {
        cell_at(grid, index, at as usize)
    }
}

/// A digit that is tried at one position of a line.
#[derive(Clone, Copy)]
pub struct Trial {
    pub at: usize,
    pub number: usize,
}

/// A line of the grid, with the digit of `put` in place of what the grid
/// holds at that position, if `put` names one.
pub open spec fn line(grid: SudokuGrid, horizontal: bool, index: usize, put: Option<Trial>) -> Seq<Option<usize>> {
    Seq::new(
        grid_size(grid) as nat,
        |at: int|
            if put is Some && put->0.at == at {
                Some(put->0.number)
            } else {
                line_cell(grid, horizontal, index, at)
            },
    )
}

/// The clue of a line, if the list reaches that far and holds one.
pub open spec fn clue_of(sums: Seq<Option<usize>>, index: usize) -> Option<usize> {
    if index < sums.len() {
        sums[index as int]
    } else {
        None
    }
}

/// The clue that can be read off a line of the grid: the sum between its
/// first two buns, if the line shows them and every cell between them.
pub open spec fn full_clue(grid: SudokuGrid, horizontal: bool, index: usize) -> Option<usize> {
    match sandwich_sum(line(grid, horizontal, index, None), grid_size(grid)) {
        Some(sum) => Some(sum as usize),
        None => None,
    }
}

impl SandwichModel {
    /// Whether the clues let the number stand in the cell: with it there, the
    /// row and the column of the cell meet their clues.
    pub open spec fn allows(self, grid: SudokuGrid, column: usize, row: usize, number: usize) -> bool {
        &&& clue_met(
            line(grid, true, row, Some(Trial { at: column, number })),
            grid_size(grid),
            clue_of(self.row_sums, row),
        )
        &&& clue_met(
            line(grid, false, column, Some(Trial { at: row, number })),
            grid_size(grid),
            clue_of(self.column_sums, column),
        )
    }

    /// Whether the clues accept what the cell holds. An empty cell is
    /// accepted.
    pub open spec fn cell_fits(self, grid: SudokuGrid, column: usize, row: usize) -> bool {
        match cell_at(grid, column, row) {
            Some(number) => self.allows(grid, column, row, number),
            None => true,
        }
    }

    /// Whether the clues accept every cell of the grid.
    pub open spec fn grid_fits(self, grid: SudokuGrid) -> bool {
        forall|column: usize, row: usize|
            in_grid(grid, column, row) ==> #[trigger] self.cell_fits(grid, column, row)
    }

    /// The removals that the first `upto` clues of the columns allow, in
    /// order.
    pub open spec fn column_reductions(self, upto: int) -> Seq<SandwichReduction>
        decreases upto,
    {
        if upto <= 0 {
            Seq::empty()
        } else if self.column_sums[upto - 1] is Some {
            self.column_reductions(upto - 1).push(
                SandwichReduction::RemoveColumn { column: (upto - 1) as usize },
            )
        } else {
            self.column_reductions(upto - 1)
        }
    }

    /// The removals that the first `upto` clues of the rows allow, in order.
    pub open spec fn row_reductions(self, upto: int) -> Seq<SandwichReduction>
        decreases upto,
    {
        if upto <= 0 {
            Seq::empty()
        } else if self.row_sums[upto - 1] is Some {
            self.row_reductions(upto - 1).push(
                SandwichReduction::RemoveRow { row: (upto - 1) as usize },
            )
        } else {
            self.row_reductions(upto - 1)
        }
    }

    /// Every removal that the clues allow: one for each clue that is given,
    /// the columns first.
    pub open spec fn reductions(self) -> Seq<SandwichReduction> {
        self.column_reductions(self.column_sums.len() as int) + self.row_reductions(
            self.row_sums.len() as int,
        )
    }

    /// Whether the reduction names a clue that is given.
    pub open spec fn can_reduce(self, reduction: SandwichReduction) -> bool {
        match reduction {
            SandwichReduction::RemoveColumn { column } => clue_of(self.column_sums, column) is Some,
            SandwichReduction::RemoveRow { row } => clue_of(self.row_sums, row) is Some,
        }
    }

    /// The clue that the reduction removes.
    pub open spec fn removed(self, reduction: SandwichReduction) -> usize {
        match reduction {
            SandwichReduction::RemoveColumn { column } => clue_of(self.column_sums, column)->0,
            SandwichReduction::RemoveRow { row } => clue_of(self.row_sums, row)->0,
        }
    }

    /// The clues with the one that the reduction names set to `clue`, if the
    /// clues reach that far.
    pub open spec fn with_clue(self, reduction: SandwichReduction, clue: Option<usize>) -> SandwichModel {
        if !self.reaches(reduction) {
            self
        } else {
            match reduction {
                SandwichReduction::RemoveColumn { column } => SandwichModel {
                    column_sums: self.column_sums.update(column as int, clue),
                    row_sums: self.row_sums,
                },
                SandwichReduction::RemoveRow { row } => SandwichModel {
                    column_sums: self.column_sums,
                    row_sums: self.row_sums.update(row as int, clue),
                },
            }
        }
    }

    /// Whether the reduction names a line that the clues reach.
    pub open spec fn reaches(self, reduction: SandwichReduction) -> bool {
        match reduction {
            SandwichReduction::RemoveColumn { column } => column < self.column_sums.len(),
            SandwichReduction::RemoveRow { row } => row < self.row_sums.len(),
        }
    }
}

/// The model without any clue, for lines of the given number.
pub open spec fn no_clues(size: usize) -> SandwichModel {
    SandwichModel {
        column_sums: Seq::new(size as nat, |i: int| None),
        row_sums: Seq::new(size as nat, |i: int| None),
    }
}

/// The model with the clue of every line that the grid lets one compute.
pub open spec fn full_clues(grid: SudokuGrid) -> SandwichModel {
    SandwichModel {
        column_sums: Seq::new(grid_size(grid) as nat, |i: int| full_clue(grid, false, i as usize)),
        row_sums: Seq::new(grid_size(grid) as nat, |i: int| full_clue(grid, true, i as usize)),
    }
}

/// The sum of the digits of a stretch of a line is at most as large as if
/// every cell held the highest digit of the stretch.
pub proof fn lemma_inner_sum_bound(line: Seq<Option<usize>>, from: int, to: int, bound: int)
    requires
        0 <= from <= to <= line.len(),
        forall|i: int| from <= i < to && line[i] is Some ==> (#[trigger] line[i])->0 <= bound,
        inner_sum(line, from, to) is Some,
    ensures
        0 <= inner_sum(line, from, to)->0 <= (to - from) * bound,
    decreases to - from,
{
    if from < to {
        assert(line[from] is Some);
        assert(inner_sum(line, from + 1, to) is Some);
        lemma_inner_sum_bound(line, from + 1, to, bound);
        assert((to - from) * bound == (to - from - 1) * bound + bound) by (nonlinear_arith);
    } else {
        assert((to - from) * bound == 0) by (nonlinear_arith)
            requires
                to - from == 0,
        ;
    }
}

/// Reads one cell of a line, with the trial digit in its place.
fn read_line(grid: &SudokuGrid, horizontal: bool, index: usize, put: Option<Trial>, at: usize) -> (cell: Option<usize>)
    requires
        index < grid_size(*grid),
        at < grid_size(*grid),
    ensures
        cell == line(*grid, horizontal, index, put)[at as int],
{
    if let Some(trial) = put {
        if trial.at == at {
            return Some(trial.number);
        }
    }
    let read = if horizontal {
        grid.get_cell(at, index)
    } else {
        grid.get_cell(index, at)
    };
    match read {
        Ok(cell) => cell,
        Err(_) => None,
    }
}

/// Finds the first bun of a line at or after `from`.
fn find_bun(grid: &SudokuGrid, horizontal: bool, index: usize, put: Option<Trial>, from: usize) -> (at: usize)
    requires
        index < grid_size(*grid),
    ensures
        at == first_bun(line(*grid, horizontal, index, put), grid_size(*grid), from as int),
        at <= grid_size(*grid),
        from <= grid_size(*grid) ==> from <= at,
{
    let size = grid.size();
    let ghost cells = line(*grid, horizontal, index, put);
    let mut at = from;
    while at < size
        invariant
            size == grid_size(*grid),
            index < size,
            cells == line(*grid, horizontal, index, put),
            from <= at,
            first_bun(cells, size as int, from as int) == first_bun(cells, size as int, at as int),
        decreases size - at,
    {
        let cell = read_line(grid, horizontal, index, put, at);
        if let Some(digit) = cell {
            if digit == 1 || digit == size {
                return at;
            }
        }
        at += 1;
    }
    size
}

/// Computes the sum between the first two buns of a line, if the line shows
/// two buns and every cell between them.
fn measure(grid: &SudokuGrid, horizontal: bool, index: usize, put: Option<Trial>) -> (sum: Option<u128>)
    requires
        well_formed(*grid),
        index < grid_size(*grid),
    ensures
        sum is Some <==> sandwich_sum(line(*grid, horizontal, index, put), grid_size(*grid)) is Some,
        sum is Some ==> sum->0 == sandwich_sum(
            line(*grid, horizontal, index, put),
            grid_size(*grid),
        )->0,
{
    let size = grid.size();
    let ghost cells = line(*grid, horizontal, index, put);
    let first = find_bun(grid, horizontal, index, put, 0);
    if first >= size {
        return None;
    }
    let second = find_bun(grid, horizontal, index, put, first + 1);
    if second >= size {
        return None;
    }
    assert(size * size <= usize::MAX);
    assert(size <= 0xffff_ffff) by (nonlinear_arith)
        requires
            size * size <= usize::MAX,
            usize::MAX <= 0xffff_ffff_ffff_ffff,
    ;
    let mut sum: u128 = 0;
    let mut at = first + 1;
    while at < second
        invariant
            size == grid_size(*grid),
            index < size,
            size <= 0xffff_ffff,
            cells == line(*grid, horizontal, index, put),
            first + 1 <= at <= second < size,
            first == first_bun(cells, size as int, 0),
            second == first_bun(cells, size as int, first + 1),
            sum <= (at - first - 1) * 0xffff_ffff_ffff_ffff,
            inner_sum(cells, first + 1, second as int) == match inner_sum(
                cells,
                at as int,
                second as int,
            ) {
                Some(rest) => Some(sum + rest),
                None => None,
            },
        decreases second - at,
    {
        let cell = read_line(grid, horizontal, index, put, at);
        match cell {
            Some(digit) => {
                assert((at - first - 1) * 0xffff_ffff_ffff_ffff + 0xffff_ffff_ffff_ffff == (at + 1
                    - first - 1) * 0xffff_ffff_ffff_ffff) by (nonlinear_arith);
                assert((at - first - 1) * 0xffff_ffff_ffff_ffff <= 0xffff_ffff
                    * 0xffff_ffff_ffff_ffff) by (nonlinear_arith)
                    requires
                        0 <= at - first - 1 <= 0xffff_ffff,
                ;
                sum = sum + digit as u128;
            },
            None => {
                assert(inner_sum(cells, at as int, second as int) is None);
                return None;
            },
        }
        assert(inner_sum(cells, at as int, second as int) == match inner_sum(
            cells,
            at + 1,
            second as int,
        ) {
            Some(rest) => Some(cells[at as int]->0 + rest),
            None => None,
        });
        at += 1;
    }
    Some(sum)
}

/// Decides whether no cell of a line is empty.
fn is_line_full(grid: &SudokuGrid, horizontal: bool, index: usize, put: Option<Trial>) -> (full: bool)
    requires
        index < grid_size(*grid),
    ensures
        full == line_full(line(*grid, horizontal, index, put)),
{
    let size = grid.size();
    let ghost cells = line(*grid, horizontal, index, put);
    let mut at: usize = 0;
    while at < size
        invariant
            size == grid_size(*grid),
            index < size,
            at <= size,
            cells == line(*grid, horizontal, index, put),
            forall|i: int| 0 <= i < at ==> (#[trigger] cells[i]) is Some,
        decreases size - at,
    {
        if read_line(grid, horizontal, index, put, at).is_none() {
            assert(cells[at as int] is None);
            return false;
        }
        at += 1;
    }
    true
}

/// Decides whether a line meets a clue.
fn clue_is_met(grid: &SudokuGrid, horizontal: bool, index: usize, put: Option<Trial>, clue: Option<usize>) -> (ok: bool)
    requires
        well_formed(*grid),
        index < grid_size(*grid),
    ensures
        ok == clue_met(line(*grid, horizontal, index, put), grid_size(*grid), clue),
{
    match clue {
        None => true,
        Some(asked) => {
            if is_line_full(grid, horizontal, index, put) {
                match measure(grid, horizontal, index, put) {
                    Some(sum) => sum == asked as u128,
                    None => false,
                }
            } else {
                true
            }
        },
    }
}

/// Reads the clue of a line, if the list reaches that far and holds one.
fn read_clue(sums: &Vec<Option<usize>>, index: usize) -> (clue: Option<usize>)
    ensures
        clue == clue_of(sums@, index),
{
    if index < sums.len() {
        sums[index]
    } else {
        None
    }
}

/// Makes a list of `size` missing clues.
fn blank(size: usize) -> (sums: Vec<Option<usize>>)
    ensures
        sums@ == Seq::new(size as nat, |i: int| None::<usize>),
{
    let mut sums: Vec<Option<usize>> = Vec::new();
    let mut i: usize = 0;
    while i < size
        invariant
            i <= size,
            sums@ == Seq::new(i as nat, |i: int| None::<usize>),
        decreases size - i,
    {
        sums.push(None);
        assert(sums@ =~= Seq::new((i + 1) as nat, |i: int| None::<usize>));
        i += 1;
    }
    sums
}

/// Computes the clue of every row, or of every column, as far as the grid
/// lets one compute it.
fn measure_all(grid: &SudokuGrid, horizontal: bool) -> (sums: Vec<Option<usize>>)
    requires
        well_formed(*grid),
    ensures
        sums@ == Seq::new(
            grid_size(*grid) as nat,
            |i: int| full_clue(*grid, horizontal, i as usize),
        ),
{
    let size = grid.size();
    let mut sums: Vec<Option<usize>> = Vec::new();
    let mut index: usize = 0;
    while index < size
        invariant
            well_formed(*grid),
            size == grid_size(*grid),
            index <= size,
            sums@ == Seq::new(index as nat, |i: int| full_clue(*grid, horizontal, i as usize)),
        decreases size - index,
    {
        let clue = match measure(grid, horizontal, index, None) {
            Some(sum) => {
                proof {
                    let cells = line(*grid, horizontal, index, None);
                    let first = first_bun(cells, size as int, 0);
                    let second = first_bun(cells, size as int, first + 1);
                    lemma_first_bun_bounds(cells, size as int, 0);
                    lemma_first_bun_bounds(cells, size as int, first + 1);
                    assert forall|i: int| first + 1 <= i < second && cells[i] is Some implies (
                    #[trigger] cells[i])->0 <= size by {
                        if horizontal {
                            assert(grid_digits(*grid).contains_key((i as usize, index)));
                        } else {
                            assert(grid_digits(*grid).contains_key((index, i as usize)));
                        }
                    }
                    lemma_inner_sum_bound(cells, first + 1, second, size as int);
                    assert((second - first - 1) * size <= size * size) by (nonlinear_arith)
                        requires
                            0 <= second - first - 1 <= size,
                    ;
                }
                Some(sum as usize)
            },
            None => None,
        };
        sums.push(clue);
        assert(sums@ =~= Seq::new(
            (index + 1) as nat,
            |i: int| full_clue(*grid, horizontal, i as usize),
        ));
        index += 1;
    }
    sums
}

/// A bun that is found lies at or after the place where the search began,
/// and no search runs past the end of the line.
pub proof fn lemma_first_bun_bounds(line: Seq<Option<usize>>, size: int, from: int)
    requires
        0 <= from,
    ensures
        first_bun(line, size, from) <= line.len(),
        from <= line.len() ==> from <= first_bun(line, size, from),
    decreases line.len() - from,
{
    if from < line.len() && !is_bun(line[from], size) {
        lemma_first_bun_bounds(line, size, from + 1);
    }
}

impl SandwichConstraint {
    /// The constraint without any clue, for a grid of the given size.
    pub fn new(size: usize) -> (constraint: SandwichConstraint)
        ensures
            constraint@ == no_clues(size),
    {
        SandwichConstraint { column_sums: blank(size), row_sums: blank(size) }
    }

    /// The constraint with the given clues.
    pub fn with_sums(column_sums: Vec<Option<usize>>, row_sums: Vec<Option<usize>>) -> (constraint: SandwichConstraint)
        ensures
            constraint@.column_sums == column_sums@,
            constraint@.row_sums == row_sums@,
    {
        SandwichConstraint { column_sums, row_sums }
    }

    /// The constraint with the clue of every line of the grid that shows two
    /// buns and every cell between them. Of a full grid with one 1 and one
    /// highest digit in every line, that is every line.
    pub fn new_full(grid: &SudokuGrid) -> (constraint: SandwichConstraint)
        requires
            well_formed(*grid),
        ensures
            constraint@ == full_clues(*grid),
    {
        SandwichConstraint {
            column_sums: measure_all(grid, false),
            row_sums: measure_all(grid, true),
        }
    }

    /// The clues of the columns, from left to right.
    pub fn column_sums(&self) -> (sums: &Vec<Option<usize>>)
        ensures
            sums@ == self@.column_sums,
    {
        &self.column_sums
    }

    /// The clues of the rows, from top to bottom.
    pub fn row_sums(&self) -> (sums: &Vec<Option<usize>>)
        ensures
            sums@ == self@.row_sums,
    {
        &self.row_sums
    }

    /// A copy with the same clues.
    pub fn copy(&self) -> (constraint: SandwichConstraint)
        ensures
            constraint@ == self@,
    {
        SandwichConstraint {
            column_sums: copy_sums(&self.column_sums),
            row_sums: copy_sums(&self.row_sums),
        }
    }

    /// Decides whether the clues let the number stand in the cell.
    pub fn check_number(&self, grid: &SudokuGrid, column: usize, row: usize, number: usize) -> (ok: bool)
        requires
            well_formed(*grid),
            in_grid(*grid, column, row),
        ensures
            ok == self@.allows(*grid, column, row, number),
    {
        clue_is_met(
            grid,
            true,
            row,
            Some(Trial { at: column, number }),
            read_clue(&self.row_sums, row),
        ) && clue_is_met(
            grid,
            false,
            column,
            Some(Trial { at: row, number }),
            read_clue(&self.column_sums, column),
        )
    }

    /// Decides whether the clues accept what the cell holds.
    pub fn check_cell(&self, grid: &SudokuGrid, column: usize, row: usize) -> (ok: bool)
        requires
            well_formed(*grid),
            in_grid(*grid, column, row),
        ensures
            ok == self@.cell_fits(*grid, column, row),
    {
        match grid.get_cell(column, row) {
            Ok(Some(number)) => self.check_number(grid, column, row, number),
            _ => true,
        }
    }

    /// Decides whether the clues accept every cell of the grid.
    pub fn check(&self, grid: &SudokuGrid) -> (ok: bool)
        requires
            well_formed(*grid),
        ensures
            ok == self@.grid_fits(*grid),
    {
        let size = grid.size();
        let mut row: usize = 0;
        while row < size
            invariant
                well_formed(*grid),
                size == grid_size(*grid),
                row <= size,
                forall|c: usize, r: usize| c < size && r < row ==> #[trigger] self@.cell_fits(*grid, c, r),
            decreases size - row,
        {
            let mut column: usize = 0;
            while column < size
                invariant
                    well_formed(*grid),
                    size == grid_size(*grid),
                    row < size,
                    column <= size,
                    forall|c: usize, r: usize| c < size && r < row ==> #[trigger] self@.cell_fits(*grid, c, r),
                    forall|c: usize| c < column ==> #[trigger] self@.cell_fits(*grid, c, row),
                decreases size - column,
            {
                if !self.check_cell(grid, column, row) {
                    return false;
                }
                column += 1;
            }
            row += 1;
        }
        true
    }

    /// The sandwich rule has no group of cells with distinct digits.
    pub fn get_groups(&self, grid: &SudokuGrid) -> (groups: Vec<Group>)
        ensures
            groups@.len() == 0,
    {
        Vec::new()
    }

    /// Lists the removal of every clue that is given, the columns first.
    pub fn list_reductions(&self, solution: &SudokuGrid) -> (reductions: Vec<SandwichReduction>)
        ensures
            reductions@ == self@.reductions(),
    {
        let mut reductions: Vec<SandwichReduction> = Vec::new();
        let mut column: usize = 0;
        while column < self.column_sums.len()
            invariant
                column <= self.column_sums.len(),
                reductions@ == self@.column_reductions(column as int),
            decreases self.column_sums.len() - column,
        {
            if self.column_sums[column].is_some() {
                reductions.push(SandwichReduction::RemoveColumn { column });
            }
            column += 1;
        }
        let mut row: usize = 0;
        while row < self.row_sums.len()
            invariant
                row <= self.row_sums.len(),
                reductions@ == self@.column_reductions(self.column_sums.len() as int)
                    + self@.row_reductions(row as int),
            decreases self.row_sums.len() - row,
        {
            if self.row_sums[row].is_some() {
                reductions.push(SandwichReduction::RemoveRow { row });
                assert(reductions@ =~= self@.column_reductions(self.column_sums.len() as int)
                    + self@.row_reductions(row + 1));
            }
            row += 1;
        }
        reductions
    }

    /// Removes the clue that the reduction names and hands it back, or
    /// refuses the reduction if no such clue is given.
    pub fn reduce(&mut self, solution: &SudokuGrid, reduction: &SandwichReduction) -> (r: Result<usize, ReductionError>)
        ensures
            r is Ok <==> old(self)@.can_reduce(*reduction),
            r is Ok ==> r->Ok_0 == old(self)@.removed(*reduction),
            r is Ok ==> final(self)@ == old(self)@.with_clue(*reduction, None),
            r is Err ==> final(self)@ == old(self)@,
    {
        match reduction {
            SandwichReduction::RemoveColumn { column } => {
                match read_clue(&self.column_sums, *column) {
                    Some(sum) => {
                        self.column_sums.set(*column, None);
                        Ok(sum)
                    },
                    None => Err(ReductionError::InvalidReduction),
                }
            },
            SandwichReduction::RemoveRow { row } => {
                match read_clue(&self.row_sums, *row) {
                    Some(sum) => {
                        self.row_sums.set(*row, None);
                        Ok(sum)
                    },
                    None => Err(ReductionError::InvalidReduction),
                }
            },
        }
    }

    /// Puts back the clue that a reduction removed.
    pub fn revert(&mut self, solution: &SudokuGrid, reduction: &SandwichReduction, revert_info: usize)
        requires
            old(self)@.reaches(*reduction),
        ensures
            final(self)@ == old(self)@.with_clue(*reduction, Some(revert_info)),
    {
        match reduction {
            SandwichReduction::RemoveColumn { column } => {
                self.column_sums.set(*column, Some(revert_info));
            },
            SandwichReduction::RemoveRow { row } => {
                self.row_sums.set(*row, Some(revert_info));
            },
        }
    }
}

/// Copies a list of clues.
fn copy_sums(sums: &Vec<Option<usize>>) -> (copy: Vec<Option<usize>>)
    ensures
        copy@ == sums@,
{
    let mut copy: Vec<Option<usize>> = Vec::new();
    let mut i: usize = 0;
    while i < sums.len()
        invariant
            i <= sums.len(),
            copy@ == sums@.subrange(0, i as int),
        decreases sums.len() - i,
    {
        copy.push(sums[i]);
        assert(copy@ =~= sums@.subrange(0, i + 1));
        i += 1;
    }
    assert(sums@.subrange(0, sums.len() as int) =~= sums@);
    copy
}

impl Clone for SandwichConstraint {
    fn clone(&self) -> (constraint: SandwichConstraint)
        ensures
            constraint@ == self@,
    {
        self.copy()
    }
}

/// What the clues accept in a cell of a grid, they let stand in that cell
/// of every grid of the same shape that holds no digit which the first grid
/// does not hold in the same place.
pub proof fn lemma_allowed_in_part(clues: SandwichModel, part: SudokuGrid, whole: SudokuGrid, column: usize, row: usize)
    requires
        extends(part, whole),
        cell_at(whole, column, row) is Some,
        clues.cell_fits(whole, column, row),
    ensures
        clues.allows(part, column, row, cell_at(whole, column, row)->0),
{
    let number = cell_at(whole, column, row)->0;
    lemma_line_in_part(part, whole, true, row, Trial { at: column, number });
    lemma_line_in_part(part, whole, false, column, Trial { at: row, number });
}

/// A full line of a grid, with a digit tried in it, is the same line of
/// every grid of the same shape that holds all its digits.
proof fn lemma_line_in_part(part: SudokuGrid, whole: SudokuGrid, horizontal: bool, index: usize, put: Trial)
    requires
        extends(part, whole),
    ensures
        line_full(line(part, horizontal, index, Some(put))) ==> line(
            part,
            horizontal,
            index,
            Some(put),
        ) == line(whole, horizontal, index, Some(put)),
{
    let small = line(part, horizontal, index, Some(put));
    let large = line(whole, horizontal, index, Some(put));
    if line_full(small) {
        assert forall|at: int| 0 <= at < small.len() implies small[at] == large[at] by {
            assert(small[at] is Some);
            if put.at != at {
                if horizontal {
                    assert(grid_digits(part).contains_key((at as usize, index)));
                    assert(grid_digits(whole).contains_key((at as usize, index)));
                } else {
                    assert(grid_digits(part).contains_key((index, at as usize)));
                    assert(grid_digits(whole).contains_key((index, at as usize)));
                }
            }
        }
        assert(small =~= large);
    }
}

/// Clues of which none is given let every digit stand in every cell, and
/// accept every cell and every grid.
pub proof fn lemma_no_clues_accept_all(size: usize, grid: SudokuGrid, column: usize, row: usize, number: usize)
    ensures
        no_clues(size).allows(grid, column, row, number),
        no_clues(size).cell_fits(grid, column, row),
        no_clues(size).grid_fits(grid),
{
    assert forall|c: usize, r: usize, n: usize| #[trigger] no_clues(size).allows(grid, c, r, n) by {
        assert(clue_of(no_clues(size).row_sums, r) is None);
        assert(clue_of(no_clues(size).column_sums, c) is None);
    }
    assert forall|c: usize, r: usize| #[trigger] no_clues(size).cell_fits(grid, c, r) by {
        if cell_at(grid, c, r) is Some {
            assert(no_clues(size).allows(grid, c, r, cell_at(grid, c, r)->0));
        }
    }
}

impl SandwichModel {
    /// Whether the lists of clues are no longer than a vector can be.
    pub open spec fn is_bounded(self) -> bool {
        self.column_sums.len() <= usize::MAX && self.row_sums.len() <= usize::MAX
    }
}

/// The clues of a constraint are held by vectors.
pub proof fn lemma_view_is_bounded(constraint: SandwichConstraint)
    ensures
        constraint@.is_bounded(),
{
    assert(constraint.column_sums@.len() == constraint.column_sums.len());
    assert(constraint.row_sums@.len() == constraint.row_sums.len());
}

/// Every removal among those of the first columns names a clue that is
/// given.
proof fn lemma_column_removals_apply(clues: SandwichModel, upto: int, k: int)
    requires
        clues.is_bounded(),
        0 <= upto <= clues.column_sums.len(),
        0 <= k < clues.column_reductions(upto).len(),
    ensures
        clues.can_reduce(clues.column_reductions(upto)[k]),
    decreases upto,
{
    if k < clues.column_reductions(upto - 1).len() {
        lemma_column_removals_apply(clues, upto - 1, k);
    }
}

/// Every removal among those of the first rows names a clue that is given.
proof fn lemma_row_removals_apply(clues: SandwichModel, upto: int, k: int)
    requires
        clues.is_bounded(),
        0 <= upto <= clues.row_sums.len(),
        0 <= k < clues.row_reductions(upto).len(),
    ensures
        clues.can_reduce(clues.row_reductions(upto)[k]),
    decreases upto,
{
    if k < clues.row_reductions(upto - 1).len() {
        lemma_row_removals_apply(clues, upto - 1, k);
    }
}

/// Every removal that clues offer names a clue that is given.
pub proof fn lemma_offered_removals_apply(clues: SandwichModel, k: int)
    requires
        clues.is_bounded(),
        0 <= k < clues.reductions().len(),
    ensures
        clues.can_reduce(clues.reductions()[k]),
{
    let columns = clues.column_reductions(clues.column_sums.len() as int);
    if k < columns.len() {
        lemma_column_removals_apply(clues, clues.column_sums.len() as int, k);
    } else {
        lemma_row_removals_apply(clues, clues.row_sums.len() as int, k - columns.len());
    }
}

/// The clue that can be read off a line is met by the line.
proof fn lemma_full_clue_is_met(grid: SudokuGrid, horizontal: bool, index: usize)
    requires
        well_formed(grid),
        index < grid_size(grid),
    ensures
        clue_met(
            line(grid, horizontal, index, None),
            grid_size(grid),
            full_clue(grid, horizontal, index),
        ),
{
    let cells = line(grid, horizontal, index, None);
    let size = grid_size(grid);
    if sandwich_sum(cells, size) is Some {
        let first = first_bun(cells, size, 0);
        let second = first_bun(cells, size, first + 1);
        lemma_first_bun_bounds(cells, size, 0);
        lemma_first_bun_bounds(cells, size, first + 1);
        assert forall|i: int| first + 1 <= i < second && cells[i] is Some implies (
        #[trigger] cells[i])->0 <= size by {
            if horizontal {
                assert(grid_digits(grid).contains_key((i as usize, index)));
            } else {
                assert(grid_digits(grid).contains_key((index, i as usize)));
            }
        }
        lemma_inner_sum_bound(cells, first + 1, second, size);
        assert((second - first - 1) * size <= size * size) by (nonlinear_arith)
            requires
                0 <= second - first - 1 <= size,
                0 <= size,
        ;
    }
}

/// The clues that `SandwichConstraint::new_full` reads off a grid accept
/// that grid.
pub proof fn lemma_full_clues_fit(grid: SudokuGrid)
    requires
        well_formed(grid),
    ensures
        full_clues(grid).grid_fits(grid),
{
    let clues = full_clues(grid);
    crate::grid::lemma_size_positive(grid);
    assert forall|column: usize, row: usize| in_grid(grid, column, row) implies #[trigger] clues.cell_fits(
        grid,
        column,
        row,
    ) by {
        if cell_at(grid, column, row) is Some {
            let number = cell_at(grid, column, row)->0;
            lemma_full_clue_is_met(grid, true, row);
            lemma_full_clue_is_met(grid, false, column);
            assert(line(grid, true, row, Some(Trial { at: column, number })) =~= line(
                grid,
                true,
                row,
                None,
            ));
            assert(line(grid, false, column, Some(Trial { at: row, number })) =~= line(
                grid,
                false,
                column,
                None,
            ));
            assert(clue_of(clues.row_sums, row) == full_clue(grid, true, row));
            assert(clue_of(clues.column_sums, column) == full_clue(grid, false, column));
        }
    }
}

/// Clues with one of them removed let stand whatever they let stand
/// before.
pub proof fn lemma_fewer_clues_allow_more(clues: SandwichModel, reduction: SandwichReduction, grid: SudokuGrid, column: usize, row: usize, number: usize)
    requires
        clues.allows(grid, column, row, number),
    ensures
        clues.with_clue(reduction, None).allows(grid, column, row, number),
{
    let fewer = clues.with_clue(reduction, None);
    assert(clue_of(fewer.row_sums, row) is None || clue_of(fewer.row_sums, row) == clue_of(
        clues.row_sums,
        row,
    ));
    assert(clue_of(fewer.column_sums, column) is None || clue_of(fewer.column_sums, column)
        == clue_of(clues.column_sums, column));
}

/// A clue that is not given is not given after a removal either, and the
/// clue that a removal names is not given after it.
pub proof fn lemma_removal_gives_nothing(clues: SandwichModel, removal: SandwichReduction, other: SandwichReduction)
    ensures
        clues.with_clue(removal, None).can_reduce(other) ==> clues.can_reduce(other),
        !clues.with_clue(removal, None).can_reduce(removal),
{
}

} // verus!
