//! Taking digits and clues away from a puzzle for as long as a given solver
//! still finds its one solution.

use crate::constraint::lemma_revert_undoes_reduce;
use crate::constraint::AnyReduction;
use crate::constraint::ConstraintModel;
use crate::grid::clear_digit;
use crate::grid::extends;
use crate::grid::grid_digits;
use crate::grid::grid_shape;
use crate::grid::put_digit;
use crate::grid::well_formed;
use crate::puzzle::Puzzle;
use crate::puzzle::PuzzleModel;
use crate::random::is_order;
use crate::random::random_order;
use crate::solver::is_unique;
use crate::solver::AnySolver;
use crate::sync::Cancelled;
use sudoku_variants::SudokuGrid;
use vstd::prelude::*;

verus! {

/// One thing that can be taken away from a puzzle.
pub enum Reduction {
    /// The digit of a cell.
    RemoveDigit { column: usize, row: usize },
    /// Something that the constraint can give up.
    ReduceConstraint { reduction: AnyReduction },
}

/// How early a reduction is tried: the higher, the earlier. What the
/// constraint can give up is tried before any digit.
pub fn prioritize(reduction: &Reduction) -> (priority: u32)
    ensures
        priority == priority_of(*reduction),
{
    match reduction {
        Reduction::RemoveDigit { .. } => 0,
        Reduction::ReduceConstraint { .. } => 100,
    }
}

/// The priority of a reduction.
pub open spec fn priority_of(reduction: Reduction) -> u32 {
    match reduction {
        Reduction::RemoveDigit { .. } => 0,
        Reduction::ReduceConstraint { .. } => 100,
    }
}

/// The constraint after a row of reductions, each applied where the
/// constraint can give up what it names.
pub open spec fn reduced_by(constraint: ConstraintModel, steps: Seq<AnyReduction>) -> ConstraintModel
    decreases steps.len(),
{
    if steps.len() == 0 {
        constraint
    } else {
        reduced_by(constraint, steps.drop_last()).reduced(steps.last())
    }
}

/// A row of reductions leaves a constraint without a state as it is.
pub proof fn lemma_stateless_reduced_by(constraint: ConstraintModel, steps: Seq<AnyReduction>)
    requires
        constraint.is_stateless(),
    ensures
        reduced_by(constraint, steps) == constraint,
    decreases steps.len(),
{
    if steps.len() > 0 {
        lemma_stateless_reduced_by(constraint, steps.drop_last());
        crate::constraint::lemma_stateless_stays(constraint, steps.last());
    }
}

/// A grid that a constraint accepts is accepted after every row of
/// reductions of the constraint.
pub proof fn lemma_reduced_by_accepts_more(constraint: ConstraintModel, steps: Seq<AnyReduction>, grid: SudokuGrid)
    requires
        constraint.grid_fits(grid),
    ensures
        reduced_by(constraint, steps).grid_fits(grid),
    decreases steps.len(),
{
    if steps.len() > 0 {
        lemma_reduced_by_accepts_more(constraint, steps.drop_last(), grid);
        crate::constraint::lemma_reduced_accepts_more(
            reduced_by(constraint, steps.drop_last()),
            steps.last(),
            grid,
        );
    }
}

/// A puzzle that came out of an accepted puzzle by taking away is accepted
/// too.
pub proof fn lemma_reduced_puzzle_fits(after: Puzzle, before: Puzzle)
    requires
        is_reduced(after, before),
        before.constraint@.grid_fits(before.grid),
    ensures
        after.constraint@.grid_fits(after.grid),
{
    let steps = choose|steps: Seq<AnyReduction>|
        after.constraint@ == reduced_by(before.constraint@, steps);
    lemma_reduced_by_accepts_more(before.constraint@, steps, before.grid);
    crate::constraint::lemma_part_fits(after.constraint@, after.grid, before.grid);
}

/// Whether a constraint is another one, or came out of it by a reduction.
pub open spec fn one_step(after: ConstraintModel, before: ConstraintModel) -> bool {
    after == before || exists|step: AnyReduction| after == before.reduced(step)
}

/// Whether a puzzle came out of another by taking digits away and by
/// reductions of the constraint.
pub open spec fn is_reduced(after: Puzzle, before: Puzzle) -> bool {
    &&& extends(after.grid, before.grid)
    &&& exists|steps: Seq<AnyReduction>| after.constraint@ == reduced_by(before.constraint@, steps)
}

/// Whether the solver finds the one solution of the puzzle.
pub open spec fn solves(solver: AnySolver, puzzle: Puzzle) -> bool {
    solver.outcome(grid_shape(puzzle.grid), grid_digits(puzzle.grid), puzzle.constraint@) is Unique
}

/// Whether two puzzles have the same grid and the same constraint.
pub open spec fn same_puzzle(a: Puzzle, b: Puzzle) -> bool {
    &&& grid_shape(a.grid) == grid_shape(b.grid)
    &&& grid_digits(a.grid) == grid_digits(b.grid)
    &&& a.constraint@ == b.constraint@
}

/// The removal of the digit of each of the first `upto` cells of a column,
/// from the top down.
pub open spec fn removals_in_column(column: usize, upto: int) -> Seq<Reduction>
    decreases upto,
{
    if upto <= 0 {
        Seq::empty()
    } else {
        removals_in_column(column, upto - 1).push(
            Reduction::RemoveDigit { column, row: (upto - 1) as usize },
        )
    }
}

/// The removal of the digit of each cell of the first `upto` columns of a
/// grid of the given size, column by column.
pub open spec fn removals_in_columns(size: int, upto: int) -> Seq<Reduction>
    decreases upto,
{
    if upto <= 0 {
        Seq::empty()
    } else {
        removals_in_columns(size, upto - 1) + removals_in_column((upto - 1) as usize, size)
    }
}

impl PuzzleModel {
    /// The number of columns, rows and digits of the puzzle.
    pub open spec fn size(self) -> int {
        self.shape.0 * self.shape.1
    }

    /// Everything that can be tried on the puzzle: the removal of the digit
    /// of every cell, column by column, and then every reduction that the
    /// constraint offers.
    pub open spec fn reductions(self) -> Seq<Reduction> {
        removals_in_columns(self.size(), self.size()) + self.constraint.reductions().map_values(
            |reduction: AnyReduction| Reduction::ReduceConstraint { reduction },
        )
    }

    /// Whether the puzzle holds what a reduction names: a digit in the cell,
    /// or something that the constraint can give up.
    pub open spec fn holds(self, reduction: Reduction) -> bool {
        match reduction {
            Reduction::RemoveDigit { column, row } => self.digits.contains_key((column, row)),
            Reduction::ReduceConstraint { reduction } => self.constraint.can_reduce(reduction),
        }
    }

    /// The puzzle without what a reduction names.
    pub open spec fn without(self, reduction: Reduction) -> PuzzleModel {
        match reduction {
            Reduction::RemoveDigit { column, row } => PuzzleModel {
                shape: self.shape,
                digits: self.digits.remove((column, row)),
                constraint: self.constraint,
            },
            Reduction::ReduceConstraint { reduction } => PuzzleModel {
                shape: self.shape,
                digits: self.digits,
                constraint: self.constraint.reduced(reduction),
            },
        }
    }

    /// Whether the solver finds the one solution of the puzzle.
    pub open spec fn solved_by(self, solver: AnySolver) -> bool {
        solver.outcome(self.shape, self.digits, self.constraint) is Unique
    }

    /// The puzzle after one attempt to take something away: without it, if
    /// the puzzle holds it and the solver finds the one solution without
    /// it, and as it was otherwise.
    pub open spec fn after(self, solver: AnySolver, reduction: Reduction) -> PuzzleModel {
        if self.holds(reduction) && self.without(reduction).solved_by(solver) {
            self.without(reduction)
        } else {
            self
        }
    }
}

/// The puzzle after one round of attempts: the first `upto` numbers of the
/// order are gone through, and each one that names a reduction of the list
/// which belongs to the round is tried. The early round is for what the
/// constraint can give up, the late round for the digits.
pub open spec fn after_round(solver: AnySolver, puzzle: PuzzleModel, reductions: Seq<Reduction>, order: Seq<usize>, early: bool, upto: int) -> PuzzleModel
    decreases upto,
{
    if upto <= 0 || upto > order.len() {
        puzzle
    } else {
        let before = after_round(solver, puzzle, reductions, order, early, upto - 1);
        let index = order[upto - 1];
        if index < reductions.len() && (priority_of(reductions[index as int]) > 0) == early {
            before.after(solver, reductions[index as int])
        } else {
            before
        }
    }
}

/// The puzzle after it was reduced in a given order: everything that can be
/// tried on the puzzle is listed, and the order is gone through twice, first
/// for what the constraint can give up, then for the digits.
pub open spec fn reduced_in_order(solver: AnySolver, puzzle: PuzzleModel, order: Seq<usize>) -> PuzzleModel {
    let early = after_round(
        solver,
        puzzle,
        puzzle.reductions(),
        order,
        true,
        order.len() as int,
    );
    after_round(solver, early, puzzle.reductions(), order, false, order.len() as int)
}

/// Lists what can be taken away from a puzzle: the digit of every cell,
/// column by column, and then what the constraint offers to give up.
fn list_reductions(sudoku: &Puzzle) -> (reductions: Vec<Reduction>)
    requires
        well_formed(sudoku.grid),
    ensures
        reductions@ == sudoku@.reductions(),
{
    let size = sudoku.grid.size();
    let mut reductions: Vec<Reduction> = Vec::new();
    let mut column: usize = 0;
    while column < size
        invariant
            column <= size,
            reductions@ == removals_in_columns(size as int, column as int),
        decreases size - column,
    {
        let ghost before = reductions@;
        let mut row: usize = 0;
        while row < size
            invariant
                row <= size,
                column < size,
                reductions@ == before + removals_in_column(column, row as int),
            decreases size - row,
        {
            reductions.push(Reduction::RemoveDigit { column, row });
            assert(reductions@ =~= before + removals_in_column(column, row + 1));
            row += 1;
        }
        column += 1;
    }
    let offered = sudoku.constraint.list_reductions(&sudoku.grid);
    let ghost digits = reductions@;
    let mut i: usize = 0;
    while i < offered.len()
        invariant
            i <= offered.len(),
            reductions@ == digits + offered@.subrange(0, i as int).map_values(
                |reduction: AnyReduction| Reduction::ReduceConstraint { reduction },
            ),
        decreases offered.len() - i,
    {
        reductions.push(Reduction::ReduceConstraint { reduction: offered[i].copy() });
        assert(reductions@ =~= digits + offered@.subrange(0, i + 1).map_values(
            |reduction: AnyReduction| Reduction::ReduceConstraint { reduction },
        ));
        i += 1;
    }
    assert(offered@.subrange(0, offered.len() as int) =~= offered@);
    reductions
}

/// What became of one attempt to take something away.
enum Attempt {
    /// It is gone, and the solver still finds the one solution.
    Taken,
    /// It is back in place, or was not there to begin with.
    Kept,
    /// The solver was called off. It is back in place.
    Stopped(Cancelled),
}

/// Tries to take one thing away. What the puzzle does not hold is not
/// tried. Otherwise it is taken away and the solver is asked: it stays away
/// if the solver finds the one solution without it, and is put back if the
/// solver does not, or is called off.
fn attempt(sudoku: &mut Puzzle, solution: &SudokuGrid, solver: &AnySolver, reduction: &Reduction) -> (outcome: Attempt)
    requires
        well_formed(old(sudoku).grid),
    ensures
        well_formed(final(sudoku).grid),
        grid_shape(final(sudoku).grid) == grid_shape(old(sudoku).grid),
        outcome is Taken ==> old(sudoku)@.holds(*reduction) && old(sudoku)@.without(
            *reduction,
        ).solved_by(*solver),
        outcome is Kept ==> !(old(sudoku)@.holds(*reduction) && old(sudoku)@.without(
            *reduction,
        ).solved_by(*solver)),
        outcome is Stopped ==> old(sudoku)@.holds(*reduction),
        outcome is Taken ==> final(sudoku)@ == old(sudoku)@.without(*reduction),
        !(outcome is Stopped) ==> final(sudoku)@ == old(sudoku)@.after(*solver, *reduction),
        outcome is Taken ==> solves(*solver, *final(sudoku)),
        outcome is Taken ==> extends(final(sudoku).grid, old(sudoku).grid),
        outcome is Taken ==> one_step(final(sudoku).constraint@, old(sudoku).constraint@),
        !(outcome is Taken) ==> same_puzzle(*final(sudoku), *old(sudoku)),
        outcome is Stopped ==> solver.is_cancellable(),
{
    let ghost before = *sudoku;
    match reduction {
        Reduction::RemoveDigit { column, row } => {
            let number = match sudoku.grid.get_cell(*column, *row) {
                Ok(Some(number)) => number,
                _ => {
                    return Attempt::Kept;
                },
            };
            clear_digit(&mut sudoku.grid, *column, *row);
            proof {
                assert(grid_digits(before.grid).contains_key((*column, *row)));
                assert forall|c: usize, r: usize| #[trigger]
                    grid_digits(sudoku.grid).contains_key((c, r)) implies grid_digits(
                    before.grid,
                ).contains_key((c, r)) && grid_digits(before.grid)[(c, r)] == grid_digits(
                    sudoku.grid,
                )[(c, r)] by {}
            }
            let answer = solver.solve(&sudoku.grid, &sudoku.constraint);
            match answer {
                Ok(solution) => {
                    if is_unique(&solution) {
                        Attempt::Taken
                    } else {
                        put_digit(&mut sudoku.grid, *column, *row, number);
                        assert(grid_digits(sudoku.grid) =~= grid_digits(before.grid));
                        Attempt::Kept
                    }
                },
                Err(cancelled) => {
                    put_digit(&mut sudoku.grid, *column, *row, number);
                    assert(grid_digits(sudoku.grid) =~= grid_digits(before.grid));
                    Attempt::Stopped(cancelled)
                },
            }
        },
        Reduction::ReduceConstraint { reduction } => {
            let revert_info = match sudoku.constraint.reduce(solution, reduction) {
                Ok(revert_info) => revert_info,
                Err(_) => {
                    return Attempt::Kept;
                },
            };
            proof {
                lemma_revert_undoes_reduce(before.constraint@, *reduction);
            }
            let answer = solver.solve(&sudoku.grid, &sudoku.constraint);
            match answer {
                Ok(found) => {
                    if is_unique(&found) {
                        Attempt::Taken
                    } else {
                        sudoku.constraint.revert(solution, reduction, revert_info);
                        Attempt::Kept
                    }
                },
                Err(cancelled) => {
                    sudoku.constraint.revert(solution, reduction, revert_info);
                    Attempt::Stopped(cancelled)
                },
            }
        },
    }
}

/// Whether a puzzle came out of another by taking away, and by taking away
/// at least one thing: it holds no digit and can give up nothing that the
/// other does not, and the other holds a digit or can give up something
/// that it does not.
pub open spec fn is_less(less: PuzzleModel, more: PuzzleModel) -> bool {
    &&& forall|key: (usize, usize)| #[trigger]
        less.digits.contains_key(key) ==> more.digits.contains_key(key)
    &&& forall|reduction: AnyReduction| #[trigger]
        less.constraint.can_reduce(reduction) ==> more.constraint.can_reduce(reduction)
    &&& (exists|key: (usize, usize)| #[trigger]
        more.digits.contains_key(key) && !less.digits.contains_key(key)) || (exists|
        reduction: AnyReduction,
    | #[trigger]
        more.constraint.can_reduce(reduction) && !less.constraint.can_reduce(reduction))
}

/// Whether the solver does not let a reduction be taken from a puzzle:
/// the puzzle does not hold what it names, or the solver does not find the
/// one solution without it.
pub open spec fn is_refused(solver: AnySolver, puzzle: PuzzleModel, reduction: Reduction) -> bool {
    !(puzzle.holds(reduction) && puzzle.without(reduction).solved_by(solver))
}

/// One attempt leaves a puzzle as it is or takes something away for good:
/// what came out of a puzzle by taking away never becomes that puzzle
/// again.
pub proof fn lemma_attempt_is_less(solver: AnySolver, start: PuzzleModel, puzzle: PuzzleModel, reduction: Reduction)
    requires
        puzzle == start || is_less(puzzle, start),
    ensures
        puzzle.after(solver, reduction) == start || is_less(puzzle.after(solver, reduction), start),
        puzzle.after(solver, reduction) == start ==> puzzle == start && is_refused(
            solver,
            start,
            reduction,
        ),
{
    let next = puzzle.after(solver, reduction);
    if puzzle.holds(reduction) && puzzle.without(reduction).solved_by(solver) {
        assert forall|other: AnyReduction| #[trigger]
            next.constraint.can_reduce(other) implies start.constraint.can_reduce(other) by {
            match reduction {
                Reduction::ReduceConstraint { reduction } => {
                    crate::constraint::lemma_nothing_comes_back(
                        puzzle.constraint,
                        reduction,
                        other,
                    );
                },
                _ => {},
            }
            assert(puzzle.constraint.can_reduce(other));
        }
        assert forall|key: (usize, usize)| #[trigger]
            next.digits.contains_key(key) implies start.digits.contains_key(key) by {
            assert(puzzle.digits.contains_key(key));
        }
        match reduction {
            Reduction::RemoveDigit { column, row } => {
                assert(start.digits.contains_key((column, row)) && !next.digits.contains_key(
                    (column, row),
                ));
            },
            Reduction::ReduceConstraint { reduction } => {
                crate::constraint::lemma_given_up_is_gone(puzzle.constraint, reduction);
                assert(start.constraint.can_reduce(reduction) && !next.constraint.can_reduce(
                    reduction,
                ));
            },
        }
        assert(is_less(next, start));
    }
}

/// A round of attempts leaves a puzzle as it is only if every reduction
/// that was tried in it is refused.
pub proof fn lemma_round_is_less(solver: AnySolver, start: PuzzleModel, puzzle: PuzzleModel, reductions: Seq<Reduction>, order: Seq<usize>, early: bool, upto: int)
    requires
        puzzle == start || is_less(puzzle, start),
        0 <= upto <= order.len(),
    ensures
        after_round(solver, puzzle, reductions, order, early, upto) == start || is_less(
            after_round(solver, puzzle, reductions, order, early, upto),
            start,
        ),
        after_round(solver, puzzle, reductions, order, early, upto) == start ==> puzzle == start
            && forall|at: int|
            0 <= at < upto && order[at] < reductions.len() && (priority_of(
                reductions[order[at] as int],
            ) > 0) == early ==> is_refused(solver, start, #[trigger] reductions[order[at] as int]),
    decreases upto,
{
    if upto > 0 {
        lemma_round_is_less(solver, start, puzzle, reductions, order, early, upto - 1);
        let before = after_round(solver, puzzle, reductions, order, early, upto - 1);
        let index = order[upto - 1];
        if index < reductions.len() && (priority_of(reductions[index as int]) > 0) == early {
            lemma_attempt_is_less(solver, start, before, reductions[index as int]);
        }
    }
}

/// If reducing a puzzle in an order that names every reduction leaves the
/// puzzle as it is, then nothing can be taken from it: the solver refuses
/// every reduction. The order is one that a vector can hold.
pub proof fn lemma_nothing_left(solver: AnySolver, puzzle: PuzzleModel, order: Seq<usize>)
    requires
        is_order(order),
        order.len() == puzzle.reductions().len(),
        order.len() <= usize::MAX,
        reduced_in_order(solver, puzzle, order) == puzzle,
    ensures
        forall|k: int|
            0 <= k < puzzle.reductions().len() ==> is_refused(
                solver,
                puzzle,
                #[trigger] puzzle.reductions()[k],
            ),
{
    let reductions = puzzle.reductions();
    let early = after_round(solver, puzzle, reductions, order, true, order.len() as int);
    lemma_round_is_less(solver, puzzle, puzzle, reductions, order, true, order.len() as int);
    lemma_round_is_less(solver, puzzle, early, reductions, order, false, order.len() as int);
    assert forall|k: int| 0 <= k < reductions.len() implies is_refused(
        solver,
        puzzle,
        #[trigger] reductions[k],
    ) by {
        assert(order.contains(k as usize));
        let at = choose|at: int| 0 <= at < order.len() && order[at] == k as usize;
        assert(reductions[order[at] as int] == reductions[k]);
    }
}

/// Goes through an order twice, first for what the constraint can give up
/// and then for the digits, and tries each reduction of the list that the
/// order names.
fn reduce_with(sudoku: &mut Puzzle, solver: &AnySolver, reductions: &Vec<Reduction>, order: &Vec<usize>) -> (r: Result<(), Cancelled>)
    requires
        well_formed(old(sudoku).grid),
    ensures
        well_formed(final(sudoku).grid),
        is_reduced(*final(sudoku), *old(sudoku)),
        same_puzzle(*final(sudoku), *old(sudoku)) || solves(*solver, *final(sudoku)),
        old(sudoku).constraint@.grid_fits(old(sudoku).grid) ==> final(sudoku).constraint@.grid_fits(
            final(sudoku).grid,
        ),
        r is Err ==> solver.is_cancellable(),
        r is Ok ==> final(sudoku)@ == after_round(
            *solver,
            after_round(*solver, old(sudoku)@, reductions@, order@, true, order@.len() as int),
            reductions@,
            order@,
            false,
            order@.len() as int,
        ),
{
    let ghost start = *sudoku;
    let solution = sudoku.grid.clone();
    let ghost mut steps: Seq<AnyReduction> = Seq::empty();
    let ghost mut base = start@;
    let mut round: usize = 0;
    while round < 2
        invariant
            start == *old(sudoku),
            well_formed(sudoku.grid),
            extends(sudoku.grid, start.grid),
            sudoku.constraint@ == reduced_by(start.constraint@, steps),
            same_puzzle(*sudoku, start) || solves(*solver, *sudoku),
            round <= 2,
            base == sudoku@,
            round == 0 ==> base == start@,
            round == 1 ==> base == after_round(
                *solver,
                start@,
                reductions@,
                order@,
                true,
                order@.len() as int,
            ),
            round == 2 ==> base == after_round(
                *solver,
                after_round(*solver, start@, reductions@, order@, true, order@.len() as int),
                reductions@,
                order@,
                false,
                order@.len() as int,
            ),
        decreases 2 - round,
    {
        let mut next: usize = 0;
        while next < order.len()
            invariant
                start == *old(sudoku),
                well_formed(sudoku.grid),
                extends(sudoku.grid, start.grid),
                sudoku.constraint@ == reduced_by(start.constraint@, steps),
                same_puzzle(*sudoku, start) || solves(*solver, *sudoku),
                next <= order@.len(),
                round < 2,
                sudoku@ == after_round(
                    *solver,
                    base,
                    reductions@,
                    order@,
                    round == 0,
                    next as int,
                ),
            decreases order@.len() - next,
        {
            let index = order[next];
            if index < reductions.len() && (prioritize(&reductions[index]) > 0) == (round == 0) {
                let reduction = &reductions[index];
                let ghost before = *sudoku;
                let outcome = attempt(sudoku, &solution, solver, reduction);
                proof {
                    if !(outcome is Taken) {
                        assert(extends(sudoku.grid, start.grid));
                        assert(same_puzzle(*sudoku, start) || solves(*solver, *sudoku));
                    }
                    if outcome is Taken {
                        assert forall|c: usize, r: usize| #[trigger]
                            grid_digits(sudoku.grid).contains_key((c, r)) implies grid_digits(
                            start.grid,
                        ).contains_key((c, r)) && grid_digits(start.grid)[(c, r)] == grid_digits(
                            sudoku.grid,
                        )[(c, r)] by {
                            assert(grid_digits(before.grid).contains_key((c, r)));
                        }
                        if sudoku.constraint@ != before.constraint@ {
                            let step = choose|step: AnyReduction|
                                sudoku.constraint@ == before.constraint@.reduced(step);
                            assert(steps.push(step).drop_last() =~= steps);
                            steps = steps.push(step);
                        }
                    }
                }
                match outcome {
                    Attempt::Stopped(cancelled) => {
                        proof {
                            if start.constraint@.grid_fits(start.grid) {
                                lemma_reduced_puzzle_fits(*sudoku, start);
                            }
                        }
                        return Err(cancelled);
                    },
                    _ => {},
                }
            }
            next += 1;
        }
        round += 1;
        proof {
            base = sudoku@;
        }
    }
    proof {
        if start.constraint@.grid_fits(start.grid) {
            lemma_reduced_puzzle_fits(*sudoku, start);
        }
    }
    Ok(())
}

/// Counts what can be tried on a puzzle: one removal for every cell, and
/// every reduction that the constraint offers.
pub fn count_reductions(sudoku: &Puzzle) -> (count: usize)
    requires
        well_formed(sudoku.grid),
    ensures
        count == sudoku@.reductions().len(),
{
    list_reductions(sudoku).len()
}

/// Takes digits and clues away from the puzzle in a given order. Everything
/// that can be tried is listed, a number of the order names the reduction
/// at that place of the list, and a number beyond the list names nothing.
/// The order is gone through twice, first for what the constraint can give
/// up and then for the digits. Each reduction is tried on the puzzle as it
/// then stands: what the puzzle holds is taken away if the solver finds the
/// one solution without it. A solver that is called off ends the work where
/// it stands.
pub fn reduce_in_order(sudoku: &mut Puzzle, solver: &AnySolver, order: &Vec<usize>) -> (r: Result<(), Cancelled>)
    requires
        well_formed(old(sudoku).grid),
    ensures
        well_formed(final(sudoku).grid),
        is_reduced(*final(sudoku), *old(sudoku)),
        same_puzzle(*final(sudoku), *old(sudoku)) || solves(*solver, *final(sudoku)),
        old(sudoku).constraint@.grid_fits(old(sudoku).grid) ==> final(sudoku).constraint@.grid_fits(
            final(sudoku).grid,
        ),
        r is Err ==> solver.is_cancellable(),
        r is Ok ==> final(sudoku)@ == reduced_in_order(*solver, old(sudoku)@, order@),
{
    let reductions = list_reductions(sudoku);
    reduce_with(sudoku, solver, &reductions, order)
}

/// Takes digits and clues away from the puzzle, in a random order but
/// clues first, and keeps away each one without which the solver still
/// finds the one solution. A solver that is called off ends the work where
/// it stands.
///
/// What is left is what `reduce_in_order` leaves for some order that holds
/// the place of every reduction once. If that is the puzzle as it was, the
/// solver refuses every reduction of it. What is left came out of the
/// puzzle by taking away alone. Unless nothing was taken away, the solver finds its one
/// solution. If the constraint accepted the puzzle, it accepts what is
/// left.
pub fn reduce(sudoku: &mut Puzzle, solver: &AnySolver) -> (r: Result<(), Cancelled>)
    requires
        well_formed(old(sudoku).grid),
    ensures
        well_formed(final(sudoku).grid),
        is_reduced(*final(sudoku), *old(sudoku)),
        same_puzzle(*final(sudoku), *old(sudoku)) || solves(*solver, *final(sudoku)),
        old(sudoku).constraint@.grid_fits(old(sudoku).grid) ==> final(sudoku).constraint@.grid_fits(
            final(sudoku).grid,
        ),
        r is Err ==> solver.is_cancellable(),
        r is Ok ==> exists|order: Seq<usize>| #[trigger]
            is_order(order) && order.len() == old(sudoku)@.reductions().len() && final(sudoku)@
                == reduced_in_order(*solver, old(sudoku)@, order),
        r is Ok && same_puzzle(*final(sudoku), *old(sudoku)) ==> forall|k: int|
            0 <= k < old(sudoku)@.reductions().len() ==> is_refused(
                *solver,
                old(sudoku)@,
                #[trigger] old(sudoku)@.reductions()[k],
            ),
{
    let reductions = list_reductions(sudoku);
    let order = random_order(reductions.len());
    let ghost start = sudoku@;
    let r = reduce_with(sudoku, solver, &reductions, &order);
    proof {
        if r is Ok {
            assert(is_order(order@) && order@.len() == start.reductions().len() && sudoku@
                == reduced_in_order(*solver, start, order@));
            if sudoku@ == start {
                lemma_nothing_left(*solver, start, order@);
            }
        }
    }
    r
}

} // verus!
