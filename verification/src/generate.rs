//! Generating a puzzle of a wanted difficulty.
//!
//! A difficulty is a band between two solvers: the weaker one must fail on
//! the puzzle, the stronger one must find its solution. A full grid is
//! generated, reduced with a third solver, and kept if it lies in the band.

use crate::constraint::composite_of;
use crate::constraint::AnyConstraint;
use crate::constraint::AnyReduction;
use crate::constraint::ConstraintModel;
use crate::grid::extends;
use crate::grid::grid_digits;
use crate::grid::grid_shape;
use crate::grid::in_grid;
use crate::grid::is_full;
use crate::grid::well_formed;
use crate::puzzle::Puzzle;
use crate::puzzle::PuzzleModel;
use crate::random::is_order;
use crate::random::random_order;
use crate::reducer::count_reductions;
use crate::reducer::is_reduced;
use crate::reducer::reduce_in_order;
use crate::reducer::reduced_in_order;
use crate::reducer::reduced_by;
use crate::reducer::same_puzzle;
use crate::reducer::solves;
use crate::sandwich::full_clues;
use crate::sandwich::SandwichConstraint;
use crate::solve::solved_as;
use crate::solver::backtracking_outcome;
use crate::solver::can_solve_after;
use crate::solver::is_unique;
use crate::solver::chess_model;
use crate::solver::classic_with;
use crate::solver::AnySolver;
use crate::solver::AnyStrategy;
use crate::solver::Probe;
use crate::sync::CancelHandle;
use crate::sync::CancellableStrategy;
use crate::sync::refuse_if;
use crate::sync::Cancelled;
use sudoku_variants::error::SudokuError;
use sudoku_variants::generator::Generator;
use sudoku_variants::SudokuGrid;
use vstd::prelude::*;

verus! {

/// `Generator::generate` with the generator of `Generator::new_default`
/// makes an empty grid of the given shape and fills its cells one by one
/// with digits that the constraint lets stand, in an order left to chance.
/// It fails if the shape is degenerate or if no filling is found. Every
/// cell of a grid that it hands out is filled, and the grid matches the
/// constraint, as the crate promises. The generator calls itself once for
/// every cell, so it is asked for grids of at most 16 rows.
#[verifier::external_body]
pub(crate) fn generate_full(block_width: usize, block_height: usize, constraint: AnyConstraint) -> (r: Result<SudokuGrid, SudokuError>)
    requires
        block_width * block_height <= 16,
    ensures
        r is Ok ==> grid_shape(r->Ok_0) == (block_width, block_height),
        r is Ok ==> well_formed(r->Ok_0) && is_full(r->Ok_0),
        r is Ok ==> constraint@.grid_fits(r->Ok_0),
{
    Generator::new_default().generate(block_width, block_height, constraint).map(
        |sudoku| sudoku.grid().clone(),
    )
}

/// The strategy of each level of difficulty below the highest.
pub open spec fn level_strategy(level: int) -> AnyStrategy {
    let once = Probe { limit: 2, applications: Some(0) };
    let twice = Probe { limit: 2, applications: Some(1) };
    let thrice = Probe { limit: 2, applications: Some(2) };
    if level <= 1 {
        AnyStrategy::OnlyCell
    } else if level == 2 {
        AnyStrategy::Probing { probe: once }
    } else if level == 3 {
        AnyStrategy::Pairs { outer: twice, inner: once, tuple: 2 }
    } else {
        AnyStrategy::Deep { outer: twice, inner: once, tuple: 3, cells: thrice, options: thrice }
    }
}

/// Whether a solver deduces with the strategy of a level and is called off
/// by the handle.
pub open spec fn is_level(solver: AnySolver, level: int, handle: CancelHandle) -> bool {
    &&& solver is Cancellable
    &&& solver->Cancellable_0.strategy == level_strategy(level)
    &&& solver->Cancellable_0.handle == handle
}

/// Whether a solver is the one that stands for a difficulty: below 1 the
/// solver that solves nothing, from 1 to 4 the strategy of the level, at 5
/// deduction and search, and above 5 the solver that claims to solve
/// everything. The handle calls off the solvers of the difficulties 1 to 5.
pub open spec fn is_solver_of(solver: AnySolver, difficulty: int, handle: CancelHandle) -> bool {
    if difficulty <= 0 {
        solver is Not
    } else if difficulty <= 4 {
        is_level(solver, difficulty, handle)
    } else if difficulty == 5 {
        solver is CancellableBacktracking && solver->CancellableBacktracking_0 == handle
    } else {
        solver is DummyPerfect
    }
}

/// The difficulty whose solver is the upper bound of a band: the
/// difficulty itself, or at 5 the one above all.
pub open spec fn upper_of(difficulty: int) -> int {
    if difficulty >= 5 {
        6
    } else {
        difficulty
    }
}

/// The difficulty whose solver a puzzle of a difficulty is reduced with:
/// up to 2 the difficulty itself, above that 5.
pub open spec fn generator_of(difficulty: int) -> int {
    if difficulty <= 2 {
        difficulty
    } else {
        5
    }
}

/// The solver below every difficulty: it solves nothing.
pub fn difficulty_0(_handle: CancelHandle) -> (solver: AnySolver)
    ensures
        solver is Not,
{
    AnySolver::Not
}

/// The solver above every difficulty: it claims to solve everything.
pub fn difficulty_inf(_handle: CancelHandle) -> (solver: AnySolver)
    ensures
        solver is DummyPerfect,
{
    AnySolver::DummyPerfect
}

/// The solver of difficulty 1: it places a digit where a group leaves it
/// only one cell, unless it is called off.
pub fn default_difficulty_1(handle: CancelHandle) -> (solver: AnySolver)
    ensures
        is_solver_of(solver, 1, handle),
{
    AnySolver::Cancellable(CancellableStrategy::new(AnyStrategy::OnlyCell, handle))
}

/// The solver of difficulty 2: it also places the last candidate of a cell,
/// and tries out digits that a group leaves at most 2 cells, without
/// following up.
pub fn default_difficulty_2(handle: CancelHandle) -> (solver: AnySolver)
    ensures
        is_solver_of(solver, 2, handle),
{
    AnySolver::Cancellable(
        CancellableStrategy::new(
            AnyStrategy::Probing { probe: Probe { limit: 2, applications: Some(0) } },
            handle,
        ),
    )
}

/// The solver of difficulty 3: its trials are followed up once by trials
/// without a follow-up, and it looks for pairs.
pub fn default_difficulty_3(handle: CancelHandle) -> (solver: AnySolver)
    ensures
        is_solver_of(solver, 3, handle),
{
    AnySolver::Cancellable(
        CancellableStrategy::new(
            AnyStrategy::Pairs {
                outer: Probe { limit: 2, applications: Some(1) },
                inner: Probe { limit: 2, applications: Some(0) },
                tuple: 2,
            },
            handle,
        ),
    )
}

/// The solver of difficulty 4: it looks for triples, and tries out cells
/// and candidates with the two placing rules to follow up twice.
pub fn default_difficulty_4(handle: CancelHandle) -> (solver: AnySolver)
    ensures
        is_solver_of(solver, 4, handle),
{
    AnySolver::Cancellable(
        CancellableStrategy::new(
            AnyStrategy::Deep {
                outer: Probe { limit: 2, applications: Some(1) },
                inner: Probe { limit: 2, applications: Some(0) },
                tuple: 3,
                cells: Probe { limit: 2, applications: Some(2) },
                options: Probe { limit: 2, applications: Some(2) },
            },
            handle,
        ),
    )
}

/// The solver of difficulty 5: deduction and search, unless it is called
/// off.
pub fn default_difficulty_5(handle: CancelHandle) -> (solver: AnySolver)
    ensures
        is_solver_of(solver, 5, handle),
{
    AnySolver::CancellableBacktracking(handle)
}

/// The solver of difficulty 1 for sandwich puzzles. No rule of deduction is
/// special to the clues of a sandwich puzzle: the clues are met because the
/// constraint refuses what breaks them, and the solvers of the sandwich
/// puzzles are those of the other puzzles.
pub fn sandwich_difficulty_1(handle: CancelHandle) -> (solver: AnySolver)
    ensures
        is_solver_of(solver, 1, handle),
{
    default_difficulty_1(handle)
}

/// The solver of difficulty 2 for sandwich puzzles, which is the one of the
/// other puzzles.
pub fn sandwich_difficulty_2(handle: CancelHandle) -> (solver: AnySolver)
    ensures
        is_solver_of(solver, 2, handle),
{
    default_difficulty_2(handle)
}

/// The solver of difficulty 3 for sandwich puzzles, which is the one of the
/// other puzzles.
pub fn sandwich_difficulty_3(handle: CancelHandle) -> (solver: AnySolver)
    ensures
        is_solver_of(solver, 3, handle),
{
    default_difficulty_3(handle)
}

/// The solver of difficulty 4 for sandwich puzzles, which is the one of the
/// other puzzles.
pub fn sandwich_difficulty_4(handle: CancelHandle) -> (solver: AnySolver)
    ensures
        is_solver_of(solver, 4, handle),
{
    default_difficulty_4(handle)
}

/// The solver of difficulty 5 for sandwich puzzles, which is the one of the
/// other puzzles.
pub fn sandwich_difficulty_5(handle: CancelHandle) -> (solver: AnySolver)
    ensures
        is_solver_of(solver, 5, handle),
{
    default_difficulty_5(handle)
}

/// The classic rule.
pub fn default_constraint() -> (constraint: AnyConstraint)
    ensures
        constraint@ == ConstraintModel::Default,
{
    AnyConstraint::Default
}

/// The classic rule and the diagonals.
pub fn diagonals_constraint() -> (constraint: AnyConstraint)
    ensures
        constraint@ == classic_with(ConstraintModel::Diagonals),
{
    let constraint = composite_of(AnyConstraint::Default, AnyConstraint::Diagonals);
    assert(constraint@->Composite_0 =~= classic_with(ConstraintModel::Diagonals)->Composite_0);
    constraint
}

/// The classic rule and the knight's move.
pub fn knights_move_constraint() -> (constraint: AnyConstraint)
    ensures
        constraint@ == classic_with(ConstraintModel::KnightsMove),
{
    let constraint = composite_of(AnyConstraint::Default, AnyConstraint::KnightsMove);
    assert(constraint@->Composite_0 =~= classic_with(ConstraintModel::KnightsMove)->Composite_0);
    constraint
}

/// The classic rule and the king's move.
pub fn kings_move_constraint() -> (constraint: AnyConstraint)
    ensures
        constraint@ == classic_with(ConstraintModel::KingsMove),
{
    let constraint = composite_of(AnyConstraint::Default, AnyConstraint::KingsMove);
    assert(constraint@->Composite_0 =~= classic_with(ConstraintModel::KingsMove)->Composite_0);
    constraint
}

/// The classic rule, the knight's move and the king's move.
pub fn chess_constraint() -> (constraint: AnyConstraint)
    ensures
        constraint@ == chess_model(),
{
    let moves = composite_of(AnyConstraint::KnightsMove, AnyConstraint::KingsMove);
    let constraint = composite_of(AnyConstraint::Default, moves);
    assert(constraint@->Composite_0 =~= chess_model()->Composite_0);
    constraint
}

/// A constraint with the sandwich clues of a grid.
pub open spec fn with_clues(constraint: ConstraintModel, grid: SudokuGrid) -> ConstraintModel {
    ConstraintModel::Composite(
        crate::constraint::flattened(constraint) + seq![
            ConstraintModel::Sandwich(full_clues(grid)),
        ],
    )
}

/// Adds to a constraint the sandwich clue of every line of the grid.
pub fn make_sandwich_constraint(constraint: AnyConstraint, grid: &SudokuGrid) -> (with: AnyConstraint)
    requires
        well_formed(*grid),
    ensures
        with@ == with_clues(constraint@, *grid),
{
    let clues = SandwichConstraint::new_full(grid);
    let with = composite_of(constraint, AnyConstraint::Sandwich(clues));
    assert(with@->Composite_0 =~= with_clues(constraint@, *grid)->Composite_0);
    with
}

/// Leaves a constraint as it is.
pub fn constraint_identity(constraint: AnyConstraint, _grid: &SudokuGrid) -> (same: AnyConstraint)
    ensures
        same == constraint,
{
    constraint
}

/// What is done to the constraint of a full grid before the grid is
/// reduced.
#[derive(Clone, Copy, Debug, PartialEq, Eq, Structural)]
pub enum Transform {
    /// Nothing.
    Identity,
    /// The sandwich clues of the full grid are added.
    Sandwich,
}

impl Transform {
    /// The constraint after the transformation.
    pub open spec fn applied(self, constraint: ConstraintModel, grid: SudokuGrid) -> ConstraintModel {
        match self {
            Transform::Identity => constraint,
            Transform::Sandwich => with_clues(constraint, grid),
        }
    }

    /// Transforms the constraint of a full grid.
    pub fn apply(self, constraint: AnyConstraint, grid: &SudokuGrid) -> (transformed: AnyConstraint)
        requires
            well_formed(*grid),
        ensures
            transformed@ == self.applied(constraint@, *grid),
    {
        match self {
            Transform::Identity => constraint_identity(constraint, grid),
            Transform::Sandwich => make_sandwich_constraint(constraint, grid),
        }
    }
}

/// The three solvers of a difficulty.
pub struct Band {
    /// The solver that must fail on the puzzle.
    pub lower: AnySolver,
    /// The solver that must find the solution of the puzzle.
    pub upper: AnySolver,
    /// The solver that the puzzle is reduced with.
    pub generator: AnySolver,
}

/// Whether a puzzle lies in a band: the lower solver fails on it and the
/// upper solver finds its solution.
pub open spec fn in_band(puzzle: Puzzle, lower: AnySolver, upper: AnySolver) -> bool {
    !solves(lower, puzzle) && solves(upper, puzzle)
}

/// Decides from what the two bounds of a band did with a puzzle whether the
/// puzzle lies in the band: the lower solver must have failed, the upper
/// solver must have found the solution.
pub fn lies_between(lower_solves: bool, upper_solves: bool) -> (inside: bool)
    ensures
        inside == (!lower_solves && upper_solves),
{
    !lower_solves && upper_solves
}

/// Whether the solver that stands for a difficulty finds the one solution
/// of a puzzle. Below 1 stands the solver that solves nothing, above 4 the
/// solver that claims to solve everything, and between them the solver that
/// deduces with the strategy of that level.
pub open spec fn difficulty_solves(difficulty: int, puzzle: Puzzle) -> bool {
    if difficulty <= 0 {
        false
    } else if difficulty <= 4 {
        level_strategy(difficulty).outcome(
            grid_shape(puzzle.grid),
            grid_digits(puzzle.grid),
            puzzle.constraint@,
        ) is Unique
    } else {
        true
    }
}

/// Whether the solver that a puzzle of a difficulty is reduced with finds
/// the one solution of a puzzle: up to difficulty 2 the solver of the
/// difficulty itself, above that deduction and search.
pub open spec fn generator_solves(difficulty: int, puzzle: Puzzle) -> bool {
    if difficulty <= 2 {
        difficulty_solves(difficulty, puzzle)
    } else {
        backtracking_outcome(
            grid_shape(puzzle.grid),
            grid_digits(puzzle.grid),
            puzzle.constraint@,
        ) is Unique
    }
}

/// Whether a puzzle has a difficulty: the solver of the next lower
/// difficulty fails on it, and the solver of the difficulty itself finds
/// its solution.
pub open spec fn has_difficulty(puzzle: Puzzle, difficulty: int) -> bool {
    !difficulty_solves(difficulty - 1, puzzle) && difficulty_solves(difficulty, puzzle)
}

/// Whether a puzzle is fit to be handed out: its grid has blocks of three
/// by three cells, the constraint accepts it, and deduction and search find
/// it to have one solution.
pub open spec fn is_sound(puzzle: Puzzle) -> bool {
    &&& well_formed(puzzle.grid)
    &&& grid_shape(puzzle.grid) == (3usize, 3usize)
    &&& puzzle.constraint@.grid_fits(puzzle.grid)
    &&& backtracking_outcome(
        grid_shape(puzzle.grid),
        grid_digits(puzzle.grid),
        solved_as(puzzle.constraint@),
    ) is Unique
}

/// Whether a puzzle was made for a constraint: some full grid of its shape
/// holds every digit of the puzzle, and the constraint of the puzzle came
/// out of the transformed constraint of that grid by reductions.
pub open spec fn made_for(puzzle: Puzzle, constraint: ConstraintModel, transform: Transform) -> bool {
    exists|solution: SudokuGrid, steps: Seq<AnyReduction>|
        well_formed(solution) && is_full(solution) && extends(puzzle.grid, solution)
            && puzzle.constraint@ == #[trigger] reduced_by(
            transform.applied(constraint, solution),
            steps,
        )
}

/// A puzzle that was made for a constraint without a state, and without a
/// transformation, has that constraint.
pub proof fn lemma_made_for_stateless(puzzle: Puzzle, constraint: ConstraintModel)
    requires
        made_for(puzzle, constraint, Transform::Identity),
        constraint.is_stateless(),
    ensures
        puzzle.constraint@ == constraint,
{
    let (solution, steps) = choose|solution: SudokuGrid, steps: Seq<AnyReduction>|
        well_formed(solution) && is_full(solution) && extends(puzzle.grid, solution)
            && puzzle.constraint@ == #[trigger] reduced_by(
            Transform::Identity.applied(constraint, solution),
            steps,
        );
    crate::reducer::lemma_stateless_reduced_by(constraint, steps);
}

/// Whether a puzzle is one that a worker hands out for a band, a
/// generator solver, a constraint and a transformation: it lies in the
/// band, it is sound, it was made for the constraint, and it is what
/// `reduce_in_order` leaves of some puzzle of nine by nine cells in some
/// order that holds the place of every reduction once, which is a full grid
/// or a puzzle whose solution the generator solver finds.
pub open spec fn is_handed_out(puzzle: Puzzle, lower: AnySolver, upper: AnySolver, generator_solver: AnySolver, constraint: ConstraintModel, transform: Transform) -> bool {
    &&& in_band(puzzle, lower, upper)
    &&& is_sound(puzzle)
    &&& made_for(puzzle, constraint, transform)
    &&& is_full(puzzle.grid) || solves(generator_solver, puzzle)
    &&& exists|full: PuzzleModel, order: Seq<usize>|
        is_order(order) && order.len() == full.reductions().len() && full.shape == (
            3usize,
            3usize,
        ) && puzzle@ == #[trigger] reduced_in_order(generator_solver, full, order)
}

/// Makes one attempt at a puzzle, by a reading of the handle. If the flag
/// was raised, nothing is generated and the answer is `Err(Cancelled)`.
/// Otherwise a full grid of nine by nine cells is generated for the
/// constraint, the constraint is transformed, an order of the reductions is
/// drawn, and `make_in_order` makes a puzzle of them, or none.
pub fn attempt_after(cancelled: bool, lower: &AnySolver, upper: &AnySolver, generator_solver: &AnySolver, constraint: &AnyConstraint, transform: Transform) -> (r: Result<Option<Puzzle>, Cancelled>)
    ensures
        r is Err <==> cancelled,
        r is Ok && r->Ok_0 is Some ==> is_handed_out(
            r->Ok_0->0,
            *lower,
            *upper,
            *generator_solver,
            constraint@,
            transform,
        ),
{
    match refuse_if(cancelled) {
        Ok(()) => {},
        Err(refusal) => {
            return Err(refusal);
        },
    }
    let grid = match generate_full(3, 3, constraint.copy()) {
        Ok(grid) => grid,
        Err(_) => {
            return Ok(None);
        },
    };
    let transformed = transform.apply(constraint.copy(), &grid);
    let full = Puzzle::new_with_grid(grid, transformed);
    let order = random_order(count_reductions(&full));
    let ghost start = full;
    match make_in_order(full, &order, lower, upper, generator_solver) {
        Some(sudoku) => {
            proof {
                let steps = choose|steps: Seq<AnyReduction>|
                    sudoku.constraint@ == reduced_by(start.constraint@, steps);
                assert(sudoku.constraint@ == reduced_by(
                    transform.applied(constraint@, start.grid),
                    steps,
                ));
                assert(made_for(sudoku, constraint@, transform));
                assert(is_order(order@) && order@.len() == start@.reductions().len()
                    && start@.shape == (3usize, 3usize) && sudoku@ == reduced_in_order(
                    *generator_solver,
                    start@,
                    order@,
                ));
                if same_puzzle(sudoku, start) {
                    assert forall|column: usize, row: usize|
                        in_grid(sudoku.grid, column, row) implies #[trigger] grid_digits(
                        sudoku.grid,
                    ).contains_key((column, row)) by {
                        assert(grid_digits(start.grid).contains_key((column, row)));
                    }
                }
            }
            Ok(Some(sudoku))
        },
        None => Ok(None),
    }
}

/// Tries a number of times to make a puzzle that lies in a band. The handle
/// is read before every attempt, and `attempt_after` goes by the reading: a
/// raised flag ends the work at once, before anything is generated. The
/// first puzzle that an attempt makes is handed out. Whether there is one
/// is left to chance, to the solvers and to the handle; without attempts
/// there is none.
pub fn gen_with_difficulty_thread(lower: &AnySolver, upper: &AnySolver, generator_solver: &AnySolver, constraint: &AnyConstraint, transform: Transform, handle: &CancelHandle, attempts: usize) -> (found: Option<Puzzle>)
    ensures
        attempts == 0 ==> found is None,
        found is Some ==> in_band(found->0, *lower, *upper),
        found is Some ==> is_sound(found->0),
        found is Some ==> made_for(found->0, constraint@, transform),
        found is Some ==> is_full(found->0.grid) || solves(*generator_solver, found->0),
        found is Some ==> exists|full: PuzzleModel, order: Seq<usize>|
            is_order(order) && order.len() == full.reductions().len() && full.shape == (
                3usize,
                3usize,
            ) && found->0@ == #[trigger] reduced_in_order(*generator_solver, full, order),
{
    let mut tried: usize = 0;
    while tried < attempts
        invariant
            tried <= attempts,
        decreases attempts - tried,
    {
        tried += 1;
        let made = attempt_after(
            handle.is_cancelled(),
            lower,
            upper,
            generator_solver,
            constraint,
            transform,
        );
        match made {
            Ok(Some(sudoku)) => {
                return Some(sudoku);
            },
            Ok(None) => {},
            Err(_) => {
                return None;
            },
        }
    }
    None
}

/// Whether a puzzle is handed out for a band: the lower solver fails on it,
/// the upper solver finds its solution, and deduction and search find it to
/// have one solution.
pub open spec fn accepts(puzzle: PuzzleModel, lower: AnySolver, upper: AnySolver) -> bool {
    &&& !puzzle.solved_by(lower)
    &&& puzzle.solved_by(upper)
    &&& backtracking_outcome(puzzle.shape, puzzle.digits, solved_as(puzzle.constraint)) is Unique
}

/// Makes a puzzle of a full grid with its constraint, in a given order of
/// reductions. A grid that the constraint does not accept gives nothing.
/// Otherwise the puzzle is reduced in that order with the generator solver,
/// and what is left is handed out if `judge` accepts it for the band. A
/// solver that is called off gives nothing. With solvers that nobody can
/// call off, the answer is settled by the grid, the constraint and the
/// order.
pub fn make_in_order(full: Puzzle, order: &Vec<usize>, lower: &AnySolver, upper: &AnySolver, generator_solver: &AnySolver) -> (made: Option<Puzzle>)
    requires
        well_formed(full.grid),
    ensures
        made is Some ==> full.constraint@.grid_fits(full.grid),
        made is Some ==> made->0@ == reduced_in_order(*generator_solver, full@, order@),
        made is Some ==> accepts(made->0@, *lower, *upper),
        made is None ==> lower.is_cancellable() || upper.is_cancellable()
            || generator_solver.is_cancellable() || !(full.constraint@.grid_fits(full.grid)
            && accepts(reduced_in_order(*generator_solver, full@, order@), *lower, *upper)),
        made is Some ==> well_formed(made->0.grid) && is_reduced(made->0, full),
        made is Some ==> made->0.constraint@.grid_fits(made->0.grid),
        made is Some ==> same_puzzle(made->0, full) || solves(*generator_solver, made->0),
{
    if !full.constraint.check(&full.grid) {
        return None;
    }
    let mut sudoku = full;
    if reduce_in_order(&mut sudoku, generator_solver, order).is_err() {
        return None;
    }
    match judge(&sudoku, lower, upper) {
        Ok(true) => Some(sudoku),
        _ => None,
    }
}

/// Whether a puzzle is handed out for a band: it lies in the band, and
/// deduction and search find it to have one solution.
pub open spec fn is_accepted(puzzle: Puzzle, lower: AnySolver, upper: AnySolver) -> bool {
    &&& in_band(puzzle, lower, upper)
    &&& backtracking_outcome(
        grid_shape(puzzle.grid),
        grid_digits(puzzle.grid),
        solved_as(puzzle.constraint@),
    ) is Unique
}

/// Decides whether a puzzle is handed out for a band. The lower solver is
/// asked first, and the upper solver only if the lower one failed; the
/// puzzle is classified only if it lies in the band. The handles of the
/// solvers are read before that, and `judge_after` goes by the readings: a
/// solver that is called off ends the matter with `Err(Cancelled)`; with
/// solvers that cannot be called off there is always an answer.
pub fn judge(sudoku: &Puzzle, lower: &AnySolver, upper: &AnySolver) -> (r: Result<bool, Cancelled>)
    requires
        well_formed(sudoku.grid),
    ensures
        r is Ok ==> r->Ok_0 == is_accepted(*sudoku, *lower, *upper),
        r is Err ==> lower.is_cancellable() || (upper.is_cancellable() && !solves(
            *lower,
            *sudoku,
        )),
{
    judge_after(lower.read(), upper.read(), sudoku, lower, upper)
}

/// Decides by readings of the handles whether a puzzle is handed out for a
/// band. The lower solver is asked first, and the upper solver only if the
/// lower one failed; the puzzle is classified only if it lies in the band.
/// A solver that can be called off and is asked passes on the refusal if
/// its flag was raised.
pub fn judge_after(lower_reading: Result<(), Cancelled>, upper_reading: Result<(), Cancelled>, sudoku: &Puzzle, lower: &AnySolver, upper: &AnySolver) -> (r: Result<bool, Cancelled>)
    requires
        well_formed(sudoku.grid),
    ensures
        r is Ok ==> r->Ok_0 == is_accepted(*sudoku, *lower, *upper),
        r is Err <==> (lower.is_cancellable() && lower_reading is Err) || (!solves(
            *lower,
            *sudoku,
        ) && upper.is_cancellable() && upper_reading is Err),
{
    let lower_solves = match can_solve_after(
        lower_reading,
        &sudoku.grid,
        &sudoku.constraint,
        lower,
    ) {
        Ok(solves) => solves,
        Err(cancelled) => {
            return Err(cancelled);
        },
    };
    if lower_solves {
        return Ok(false);
    }
    let upper_solves = match can_solve_after(
        upper_reading,
        &sudoku.grid,
        &sudoku.constraint,
        upper,
    ) {
        Ok(solves) => solves,
        Err(cancelled) => {
            return Err(cancelled);
        },
    };
    if !lies_between(lower_solves, upper_solves) {
        return Ok(false);
    }
    let copy = Puzzle::new_with_grid(sudoku.grid.clone(), sudoku.constraint.copy());
    Ok(is_unique(&crate::solve::solve(copy)))
}

/// The band of a difficulty for the puzzles without clues.
pub fn default_band(difficulty: i32, handle: &CancelHandle) -> (band: Band)
    requires
        1 <= difficulty <= 5,
    ensures
        is_solver_of(band.lower, difficulty - 1, *handle),
        is_solver_of(band.upper, upper_of(difficulty as int), *handle),
        is_solver_of(band.generator, generator_of(difficulty as int), *handle),
{
    if difficulty == 1 {
        Band {
            lower: difficulty_0(handle.clone()),
            upper: default_difficulty_1(handle.clone()),
            generator: default_difficulty_1(handle.clone()),
        }
    } else if difficulty == 2 {
        Band {
            lower: default_difficulty_1(handle.clone()),
            upper: default_difficulty_2(handle.clone()),
            generator: default_difficulty_2(handle.clone()),
        }
    } else if difficulty == 3 {
        Band {
            lower: default_difficulty_2(handle.clone()),
            upper: default_difficulty_3(handle.clone()),
            generator: default_difficulty_5(handle.clone()),
        }
    } else if difficulty == 4 {
        Band {
            lower: default_difficulty_3(handle.clone()),
            upper: default_difficulty_4(handle.clone()),
            generator: default_difficulty_5(handle.clone()),
        }
    } else {
        Band {
            lower: default_difficulty_4(handle.clone()),
            upper: difficulty_inf(handle.clone()),
            generator: default_difficulty_5(handle.clone()),
        }
    }
}

/// The band of a difficulty for sandwich puzzles.
pub fn sandwich_band(difficulty: i32, handle: &CancelHandle) -> (band: Band)
    requires
        1 <= difficulty <= 5,
    ensures
        is_solver_of(band.lower, difficulty - 1, *handle),
        is_solver_of(band.upper, upper_of(difficulty as int), *handle),
        is_solver_of(band.generator, generator_of(difficulty as int), *handle),
{
    if difficulty == 1 {
        Band {
            lower: difficulty_0(handle.clone()),
            upper: sandwich_difficulty_1(handle.clone()),
            generator: sandwich_difficulty_1(handle.clone()),
        }
    } else if difficulty == 2 {
        Band {
            lower: sandwich_difficulty_1(handle.clone()),
            upper: sandwich_difficulty_2(handle.clone()),
            generator: sandwich_difficulty_2(handle.clone()),
        }
    } else if difficulty == 3 {
        Band {
            lower: sandwich_difficulty_2(handle.clone()),
            upper: sandwich_difficulty_3(handle.clone()),
            generator: sandwich_difficulty_5(handle.clone()),
        }
    } else if difficulty == 4 {
        Band {
            lower: sandwich_difficulty_3(handle.clone()),
            upper: sandwich_difficulty_4(handle.clone()),
            generator: sandwich_difficulty_5(handle.clone()),
        }
    } else {
        Band {
            lower: sandwich_difficulty_4(handle.clone()),
            upper: difficulty_inf(handle.clone()),
            generator: sandwich_difficulty_5(handle.clone()),
        }
    }
}

/// Tries to make a puzzle of the given difficulty with a constraint that
/// needs no clues.
pub fn gen_simple(difficulty: i32, constraint: &AnyConstraint, handle: &CancelHandle, attempts: usize) -> (found: Option<Puzzle>)
    requires
        1 <= difficulty <= 5,
    ensures
        attempts == 0 ==> found is None,
        found is Some ==> is_full(found->0.grid) || generator_solves(
            difficulty as int,
            found->0,
        ),
        found is Some ==> is_sound(found->0),
        found is Some ==> made_for(found->0, constraint@, Transform::Identity),
        found is Some && constraint@.is_stateless() ==> found->0.constraint@ == constraint@,
        found is Some ==> has_difficulty(found->0, difficulty as int),
{
    let band = default_band(difficulty, handle);
    let found = gen_with_difficulty_thread(
        &band.lower,
        &band.upper,
        &band.generator,
        constraint,
        Transform::Identity,
        handle,
        attempts,
    );
    proof {
        if found is Some {
            assert(in_band(found->0, band.lower, band.upper));
            if constraint@.is_stateless() {
                lemma_made_for_stateless(found->0, constraint@);
            }
        }
    }
    found
}

/// Tries to make a sandwich puzzle of the given difficulty: the classic
/// rule with the clues of the rows and columns, as far as they are needed.
pub fn gen_sandwich(difficulty: i32, handle: &CancelHandle, attempts: usize) -> (found: Option<Puzzle>)
    requires
        1 <= difficulty <= 5,
    ensures
        attempts == 0 ==> found is None,
        found is Some ==> is_full(found->0.grid) || generator_solves(
            difficulty as int,
            found->0,
        ),
        found is Some ==> is_sound(found->0),
        found is Some ==> made_for(found->0, ConstraintModel::Default, Transform::Sandwich),
        found is Some ==> has_difficulty(found->0, difficulty as int),
{
    let band = sandwich_band(difficulty, handle);
    let constraint = default_constraint();
    let found = gen_with_difficulty_thread(
        &band.lower,
        &band.upper,
        &band.generator,
        &constraint,
        Transform::Sandwich,
        handle,
        attempts,
    );
    proof {
        if found is Some {
            assert(in_band(found->0, band.lower, band.upper));
        }
    }
    found
}

} // verus!
