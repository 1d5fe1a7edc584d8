//! Solvers of fixed strength, run by the `sudoku_variants` crate.
//!
//! What a solver of that crate answers is a function of the puzzle alone.
//! It is too long to state, so each answer has a name here, and the
//! contracts of this module speak of these names.

use crate::constraint::AnyConstraint;
use crate::constraint::ConstraintModel;
use crate::grid::empty_grid;
use crate::grid::extends;
use crate::grid::grid_digits;
use crate::grid::grid_shape;
use crate::grid::is_full;
use crate::grid::no_digits;
use crate::grid::well_formed;
use crate::sync::CancelHandle;
use crate::sync::CancellableStrategy;
use crate::sync::Cancelled;
use sudoku_variants::constraint::CompositeConstraint;
use sudoku_variants::constraint::DefaultConstraint;
use sudoku_variants::constraint::DiagonallyAdjacentConstraint;
use sudoku_variants::constraint::DiagonalsConstraint;
use sudoku_variants::constraint::KnightsMoveConstraint;
use sudoku_variants::solver::strategy::BoundedCellsBacktrackingStrategy;
use sudoku_variants::solver::strategy::BoundedOptionsBacktrackingStrategy;
use sudoku_variants::solver::strategy::CompositeStrategy;
use sudoku_variants::solver::strategy::NakedSingleStrategy;
use sudoku_variants::solver::strategy::NoStrategy;
use sudoku_variants::solver::strategy::OnlyCellStrategy;
use sudoku_variants::solver::strategy::StrategicBacktrackingSolver;
use sudoku_variants::solver::strategy::StrategicSolver;
use sudoku_variants::solver::strategy::TupleStrategy;
use sudoku_variants::solver::Solution;
use sudoku_variants::solver::Solver;
use sudoku_variants::Sudoku;
use sudoku_variants::SudokuGrid;
use vstd::prelude::*;

verus! {

/// `Solution`, the answer of a solver of `sudoku_variants`, with its three
/// variants.
#[verifier::external_type_specification]
pub struct ExSolution(Solution);

/// What a solver found, with the digits of the solution in place of its
/// grid.
pub enum Outcome {
    /// The puzzle has no solution.
    Impossible,
    /// The puzzle has exactly this solution.
    Unique(Map<(usize, usize), usize>),
    /// The solver could not settle on one solution.
    Ambiguous,
}

/// The outcome that a solution stands for.
pub open spec fn outcome_of(solution: Solution) -> Outcome {
    match solution {
        Solution::Impossible => Outcome::Impossible,
        Solution::Unique(grid) => Outcome::Unique(grid_digits(grid)),
        Solution::Ambiguous => Outcome::Ambiguous,
    }
}

/// The bounds of a strategy that tries out digits: how many candidates it
/// takes on at most, and how often it applies the strategy that follows up
/// on each of them, if that is limited.
#[derive(Clone, Copy)]
pub struct Probe {
    pub limit: usize,
    pub applications: Option<usize>,
}

/// A strategy of deduction, from the weakest to the strongest.
#[derive(Clone, Copy)]
pub enum AnyStrategy {
    /// Places a digit where a group leaves it only one cell.
    OnlyCell,
    /// Places a digit where a group leaves it only one cell or a cell has
    /// only one candidate, then tries out the few cells that a group leaves
    /// to a digit.
    Probing { probe: Probe },
    /// As `Probing`, where each trial is followed up by an inner round of
    /// trials, and then looks for tuples of cells that share their
    /// candidates.
    Pairs { outer: Probe, inner: Probe, tuple: usize },
    /// As `Pairs`, and then tries out cells and candidates with the two
    /// placing rules to follow up.
    Deep { outer: Probe, inner: Probe, tuple: usize, cells: Probe, options: Probe },
}

/// What `StrategicBacktrackingSolver` answers with the two placing rules.
pub uninterp spec fn backtracking_outcome(shape: (usize, usize), digits: Map<(usize, usize), usize>, constraint: ConstraintModel) -> Outcome;

/// What `StrategicSolver` answers with the only-cell rule.
pub uninterp spec fn only_cell_outcome(shape: (usize, usize), digits: Map<(usize, usize), usize>, constraint: ConstraintModel) -> Outcome;

/// What `StrategicSolver` answers with the strategy of `AnyStrategy::Probing`.
pub uninterp spec fn probing_outcome(probe: Probe, shape: (usize, usize), digits: Map<(usize, usize), usize>, constraint: ConstraintModel) -> Outcome;

/// What `StrategicSolver` answers with the strategy of `AnyStrategy::Pairs`.
pub uninterp spec fn pairs_outcome(outer: Probe, inner: Probe, tuple: usize, shape: (usize, usize), digits: Map<(usize, usize), usize>, constraint: ConstraintModel) -> Outcome;

/// What `StrategicSolver` answers with the strategy of `AnyStrategy::Deep`.
pub uninterp spec fn deep_outcome(outer: Probe, inner: Probe, tuple: usize, cells: Probe, options: Probe, shape: (usize, usize), digits: Map<(usize, usize), usize>, constraint: ConstraintModel) -> Outcome;

/// What a solver of `sudoku_variants` hands out as the one solution is a
/// full grid of the puzzle's shape that the constraint accepts.
pub open spec fn solution_of(solution: Solution, grid: SudokuGrid, constraint: ConstraintModel) -> bool {
    solution matches Solution::Unique(found) ==> {
        &&& grid_shape(found) == grid_shape(grid)
        &&& well_formed(found)
        &&& is_full(found)
        &&& constraint.grid_fits(found)
    }
}

/// A solution that deduction and search hand out keeps the digits of the
/// puzzle: the solver enters digits into empty cells only.
pub open spec fn keeps_givens(solution: Solution, grid: SudokuGrid) -> bool {
    solution matches Solution::Unique(found) ==> extends(grid, found)
}

/// What a solver answers about a puzzle.
pub open spec fn answers(solution: Solution, outcome: Outcome, grid: SudokuGrid, constraint: ConstraintModel) -> bool {
    outcome_of(solution) == outcome && solution_of(solution, grid, constraint)
}

/// The classic rule together with another constraint.
pub open spec fn classic_with(other: ConstraintModel) -> ConstraintModel {
    ConstraintModel::Composite(seq![ConstraintModel::Default, other])
}

/// The classic rule together with the two rules of chess.
pub open spec fn chess_model() -> ConstraintModel {
    ConstraintModel::Composite(
        seq![ConstraintModel::Default, ConstraintModel::KnightsMove, ConstraintModel::KingsMove],
    )
}

/// Runs `StrategicBacktrackingSolver::solve` with the two placing rules on a
/// puzzle with any constraint. The answer depends on the puzzle alone and
/// goes by the name `backtracking_outcome`. The solver hands out a grid as
/// the solution only after it found the grid full and accepted by the
/// constraint, and the grid has the shape of the puzzle. It enters digits
/// into empty cells only, so the grid keeps the digits of the puzzle.
#[verifier::external_body]
pub(crate) fn backtrack(grid: SudokuGrid, constraint: AnyConstraint) -> (solution: Solution)
    requires
        well_formed(grid),
    ensures
        answers(solution, backtracking_outcome(grid_shape(grid), grid_digits(grid), constraint@), grid, constraint@),
        keeps_givens(solution, grid),
{
    StrategicBacktrackingSolver::new(CompositeStrategy::new(OnlyCellStrategy, NakedSingleStrategy))
        .solve(&Sudoku::new_with_grid(grid, constraint))
}

/// Runs `StrategicBacktrackingSolver::solve` with the two placing rules on a
/// puzzle with the classic rule, as `DefaultConstraint`.
/// The constraint answers the solver as the list of the same rules does,
/// so the answer goes by the same name, and what holds of a solution that
/// `backtrack` hands out holds here.
#[verifier::external_body]
pub(crate) fn backtrack_default(grid: SudokuGrid) -> (solution: Solution)
    requires
        well_formed(grid),
    ensures
        answers(solution, backtracking_outcome(grid_shape(grid), grid_digits(grid), ConstraintModel::Default), grid, ConstraintModel::Default),
        keeps_givens(solution, grid),
{
    StrategicBacktrackingSolver::new(CompositeStrategy::new(OnlyCellStrategy, NakedSingleStrategy))
        .solve(&Sudoku::new_with_grid(grid, DefaultConstraint))
}

/// Runs `StrategicBacktrackingSolver::solve` with the two placing rules on a
/// puzzle with the classic rule and the diagonals, as a
/// `CompositeConstraint`.
/// The constraint answers the solver as the list of the same rules does,
/// so the answer goes by the same name, and what holds of a solution that
/// `backtrack` hands out holds here.
#[verifier::external_body]
pub(crate) fn backtrack_diagonals(grid: SudokuGrid) -> (solution: Solution)
    requires
        well_formed(grid),
    ensures
        answers(solution, backtracking_outcome(grid_shape(grid), grid_digits(grid), classic_with(ConstraintModel::Diagonals)), grid, classic_with(ConstraintModel::Diagonals)),
        keeps_givens(solution, grid),
{
    StrategicBacktrackingSolver::new(CompositeStrategy::new(OnlyCellStrategy, NakedSingleStrategy))
        .solve(&Sudoku::new_with_grid(grid, CompositeConstraint::new(DefaultConstraint, DiagonalsConstraint)))
}

/// Runs `StrategicBacktrackingSolver::solve` with the two placing rules on a
/// puzzle with the classic rule and the knight's move, as a
/// `CompositeConstraint`.
/// The constraint answers the solver as the list of the same rules does,
/// so the answer goes by the same name, and what holds of a solution that
/// `backtrack` hands out holds here.
#[verifier::external_body]
pub(crate) fn backtrack_knights_move(grid: SudokuGrid) -> (solution: Solution)
    requires
        well_formed(grid),
    ensures
        answers(solution, backtracking_outcome(grid_shape(grid), grid_digits(grid), classic_with(ConstraintModel::KnightsMove)), grid, classic_with(ConstraintModel::KnightsMove)),
        keeps_givens(solution, grid),
{
    StrategicBacktrackingSolver::new(CompositeStrategy::new(OnlyCellStrategy, NakedSingleStrategy))
        .solve(&Sudoku::new_with_grid(grid, CompositeConstraint::new(DefaultConstraint, KnightsMoveConstraint)))
}

/// Runs `StrategicBacktrackingSolver::solve` with the two placing rules on a
/// puzzle with the classic rule and the king's move, as a
/// `CompositeConstraint`.
/// The constraint answers the solver as the list of the same rules does,
/// so the answer goes by the same name, and what holds of a solution that
/// `backtrack` hands out holds here.
#[verifier::external_body]
pub(crate) fn backtrack_kings_move(grid: SudokuGrid) -> (solution: Solution)
    requires
        well_formed(grid),
    ensures
        answers(solution, backtracking_outcome(grid_shape(grid), grid_digits(grid), classic_with(ConstraintModel::KingsMove)), grid, classic_with(ConstraintModel::KingsMove)),
        keeps_givens(solution, grid),
{
    StrategicBacktrackingSolver::new(CompositeStrategy::new(OnlyCellStrategy, NakedSingleStrategy))
        .solve(&Sudoku::new_with_grid(grid, CompositeConstraint::new(DefaultConstraint, DiagonallyAdjacentConstraint)))
}

/// Runs `StrategicBacktrackingSolver::solve` with the two placing rules on a
/// puzzle with the classic rule, the knight's move and the king's move, as
/// nested `CompositeConstraint`s.
/// The constraint answers the solver as the list of the same rules does,
/// so the answer goes by the same name, and what holds of a solution that
/// `backtrack` hands out holds here.
#[verifier::external_body]
pub(crate) fn backtrack_chess(grid: SudokuGrid) -> (solution: Solution)
    requires
        well_formed(grid),
    ensures
        answers(solution, backtracking_outcome(grid_shape(grid), grid_digits(grid), chess_model()), grid, chess_model()),
        keeps_givens(solution, grid),
{
    StrategicBacktrackingSolver::new(CompositeStrategy::new(OnlyCellStrategy, NakedSingleStrategy))
        .solve(&Sudoku::new_with_grid(grid, CompositeConstraint::new(DefaultConstraint, CompositeConstraint::new(KnightsMoveConstraint, DiagonallyAdjacentConstraint))))
}

/// Runs `StrategicSolver::solve` with `OnlyCellStrategy`. The answer
/// depends on the puzzle alone and goes by the name `only_cell_outcome`.
/// The solver hands out a grid as the solution only after it found the grid
/// accepted by the constraint and full, and the grid has the shape of the
/// puzzle.
#[verifier::external_body]
pub(crate) fn propagate_only_cell(grid: SudokuGrid, constraint: AnyConstraint) -> (solution: Solution)
    requires
        well_formed(grid),
    ensures
        answers(solution, only_cell_outcome(grid_shape(grid), grid_digits(grid), constraint@), grid, constraint@),
{
    StrategicSolver::new(OnlyCellStrategy).solve(&Sudoku::new_with_grid(grid, constraint))
}

/// Runs `StrategicSolver::solve` with the two placing rules and then a
/// `BoundedCellsBacktrackingStrategy` that follows up with `NoStrategy`.
/// The answer depends on the bounds and the puzzle alone and goes by the
/// name `probing_outcome`. Of a solution that is handed out the same holds
/// as in `propagate_only_cell`.
#[verifier::external_body]
pub(crate) fn propagate_probing(probe: Probe, grid: SudokuGrid, constraint: AnyConstraint) -> (solution: Solution)
    requires
        well_formed(grid),
    ensures
        answers(solution, probing_outcome(probe, grid_shape(grid), grid_digits(grid), constraint@), grid, constraint@),
{
    StrategicSolver::new(CompositeStrategy::new(
        CompositeStrategy::new(OnlyCellStrategy, NakedSingleStrategy),
        BoundedCellsBacktrackingStrategy::new(move |_| probe.limit, move |_| probe.applications, NoStrategy),
    )).solve(&Sudoku::new_with_grid(grid, constraint))
}

/// Runs `StrategicSolver::solve` with the two placing rules, then a
/// `BoundedCellsBacktrackingStrategy` that follows up with another one, then
/// a `TupleStrategy`. The answer depends on the bounds and the puzzle alone
/// and goes by the name `pairs_outcome`. Of a solution that is handed out
/// the same holds as in `propagate_only_cell`.
#[verifier::external_body]
pub(crate) fn propagate_pairs(outer: Probe, inner: Probe, tuple: usize, grid: SudokuGrid, constraint: AnyConstraint) -> (solution: Solution)
    requires
        well_formed(grid),
    ensures
        answers(solution, pairs_outcome(outer, inner, tuple, grid_shape(grid), grid_digits(grid), constraint@), grid, constraint@),
{
    StrategicSolver::new(CompositeStrategy::new(
        CompositeStrategy::new(OnlyCellStrategy, NakedSingleStrategy),
        CompositeStrategy::new(
            BoundedCellsBacktrackingStrategy::new(move |_| outer.limit, move |_| outer.applications,
                BoundedCellsBacktrackingStrategy::new(move |_| inner.limit, move |_| inner.applications, NoStrategy)),
            TupleStrategy::new(move |_| tuple),
        ),
    )).solve(&Sudoku::new_with_grid(grid, constraint))
}

/// Runs `StrategicSolver::solve` with the two placing rules, then a
/// `BoundedCellsBacktrackingStrategy` that follows up with another one, then
/// a `TupleStrategy`, then a `BoundedCellsBacktrackingStrategy` and a
/// `BoundedOptionsBacktrackingStrategy` that follow up with the two placing
/// rules. The answer depends on the bounds and the puzzle alone and goes by
/// the name `deep_outcome`. Of a solution that is handed out the same holds
/// as in `propagate_only_cell`.
#[verifier::external_body]
pub(crate) fn propagate_deep(outer: Probe, inner: Probe, tuple: usize, cells: Probe, options: Probe, grid: SudokuGrid, constraint: AnyConstraint) -> (solution: Solution)
    requires
        well_formed(grid),
    ensures
        answers(solution, deep_outcome(outer, inner, tuple, cells, options, grid_shape(grid), grid_digits(grid), constraint@), grid, constraint@),
{
    StrategicSolver::new(CompositeStrategy::new(
        CompositeStrategy::new(OnlyCellStrategy, NakedSingleStrategy),
        CompositeStrategy::new(
            CompositeStrategy::new(
                BoundedCellsBacktrackingStrategy::new(move |_| outer.limit, move |_| outer.applications,
                    BoundedCellsBacktrackingStrategy::new(move |_| inner.limit, move |_| inner.applications, NoStrategy)),
                TupleStrategy::new(move |_| tuple)),
            CompositeStrategy::new(
                BoundedCellsBacktrackingStrategy::new(move |_| cells.limit, move |_| cells.applications,
                    CompositeStrategy::new(OnlyCellStrategy, NakedSingleStrategy)),
                BoundedOptionsBacktrackingStrategy::new(move |_| options.limit, move |_| options.applications,
                    CompositeStrategy::new(OnlyCellStrategy, NakedSingleStrategy))))))
        .solve(&Sudoku::new_with_grid(grid, constraint))
}

impl AnyStrategy {
    /// What `StrategicSolver` answers with this strategy.
    pub open spec fn outcome(self, shape: (usize, usize), digits: Map<(usize, usize), usize>, constraint: ConstraintModel) -> Outcome {
        match self {
            AnyStrategy::OnlyCell => only_cell_outcome(shape, digits, constraint),
            AnyStrategy::Probing { probe } => probing_outcome(probe, shape, digits, constraint),
            AnyStrategy::Pairs { outer, inner, tuple } => pairs_outcome(
                outer,
                inner,
                tuple,
                shape,
                digits,
                constraint,
            ),
            AnyStrategy::Deep { outer, inner, tuple, cells, options } => deep_outcome(
                outer,
                inner,
                tuple,
                cells,
                options,
                shape,
                digits,
                constraint,
            ),
        }
    }

    /// Applies the strategy to the puzzle until nothing more comes of it,
    /// and classifies what is left.
    pub fn propagate(&self, grid: &SudokuGrid, constraint: &AnyConstraint) -> (solution: Solution)
        requires
            well_formed(*grid),
        ensures
            answers(
                solution,
                self.outcome(grid_shape(*grid), grid_digits(*grid), constraint@),
                *grid,
                constraint@,
            ),
    {
        match self {
            AnyStrategy::OnlyCell => propagate_only_cell(grid.clone(), constraint.copy()),
            AnyStrategy::Probing { probe } => propagate_probing(
                *probe,
                grid.clone(),
                constraint.copy(),
            ),
            AnyStrategy::Pairs { outer, inner, tuple } => propagate_pairs(
                *outer,
                *inner,
                *tuple,
                grid.clone(),
                constraint.copy(),
            ),
            AnyStrategy::Deep { outer, inner, tuple, cells, options } => propagate_deep(
                *outer,
                *inner,
                *tuple,
                *cells,
                *options,
                grid.clone(),
                constraint.copy(),
            ),
        }
    }
}

impl CancellableStrategy<AnyStrategy> {
    /// Reads the handle and answers `Err(Cancelled)` if the flag is raised.
    /// Otherwise applies the strategy to the puzzle until nothing more comes
    /// of it, and classifies what is left. The handle is read once, before
    /// the first application.
    pub fn apply(&self, grid: &SudokuGrid, constraint: &AnyConstraint) -> (r: Result<Solution, Cancelled>)
        requires
            well_formed(*grid),
        ensures
            r is Ok ==> answers(
                r->Ok_0,
                self.strategy.outcome(grid_shape(*grid), grid_digits(*grid), constraint@),
                *grid,
                constraint@,
            ),
    {
        self.apply_after(self.handle.assert_not_cancelled(), grid, constraint)
    }

    /// Goes by a reading of the handle: passes on the refusal if the flag was
    /// raised, and otherwise applies the strategy to the puzzle until nothing
    /// more comes of it, and classifies what is left.
    pub fn apply_after(&self, reading: Result<(), Cancelled>, grid: &SudokuGrid, constraint: &AnyConstraint) -> (r: Result<Solution, Cancelled>)
        requires
            well_formed(*grid),
        ensures
            r is Err <==> reading is Err,
            r is Ok ==> answers(
                r->Ok_0,
                self.strategy.outcome(grid_shape(*grid), grid_digits(*grid), constraint@),
                *grid,
                constraint@,
            ),
    {
        match reading {
            Ok(()) => Ok(self.strategy.propagate(grid, constraint)),
            Err(cancelled) => Err(cancelled),
        }
    }
}

/// A solver of some strength.
pub enum AnySolver {
    /// Solves nothing: every puzzle is ambiguous to it.
    Not,
    /// Claims to solve everything: every puzzle has a solution to it, which
    /// it does not give.
    DummyPerfect,
    /// Deduces with a strategy and gives up where the strategy does.
    Strategic(AnyStrategy),
    /// As `Strategic`, unless it was called off.
    Cancellable(CancellableStrategy<AnyStrategy>),
    /// Deduces with the two placing rules and searches where they end.
    Backtracking,
    /// As `Backtracking`, unless it was called off.
    CancellableBacktracking(CancelHandle),
}

impl AnySolver {
    /// The strategy that the solver deduces with, if it goes by one alone.
    pub open spec fn strategy(self) -> Option<AnyStrategy> {
        match self {
            AnySolver::Strategic(strategy) => Some(strategy),
            AnySolver::Cancellable(cancellable) => Some(cancellable.strategy),
            _ => None,
        }
    }

    /// The handle that can call the solver off, if there is one.
    pub open spec fn handle(self) -> Option<CancelHandle> {
        match self {
            AnySolver::Cancellable(cancellable) => Some(cancellable.handle),
            AnySolver::CancellableBacktracking(handle) => Some(handle),
            _ => None,
        }
    }

    /// Whether the solver can be called off.
    pub open spec fn is_cancellable(self) -> bool {
        self is Cancellable || self is CancellableBacktracking
    }

    /// What the solver answers, if it is not called off.
    pub open spec fn outcome(self, shape: (usize, usize), digits: Map<(usize, usize), usize>, constraint: ConstraintModel) -> Outcome {
        match self {
            AnySolver::Not => Outcome::Ambiguous,
            AnySolver::DummyPerfect => Outcome::Unique(no_digits()),
            AnySolver::Strategic(strategy) => strategy.outcome(shape, digits, constraint),
            AnySolver::Cancellable(cancellable) => cancellable.strategy.outcome(
                shape,
                digits,
                constraint,
            ),
            AnySolver::Backtracking => backtracking_outcome(shape, digits, constraint),
            AnySolver::CancellableBacktracking(_) => backtracking_outcome(shape, digits, constraint),
        }
    }

    /// Solves the puzzle as far as the solver can. A solver that can be
    /// called off reads its handle first and answers `Err(Cancelled)` if the
    /// flag is raised. The handle is read once: a run that has begun goes on
    /// to its end.
    pub fn solve(&self, grid: &SudokuGrid, constraint: &AnyConstraint) -> (r: Result<Solution, Cancelled>)
        requires
            well_formed(*grid),
        ensures
            r is Err ==> self.is_cancellable(),
            r is Ok ==> outcome_of(r->Ok_0) == self.outcome(
                grid_shape(*grid),
                grid_digits(*grid),
                constraint@,
            ),
            r is Ok && !(self is DummyPerfect) ==> solution_of(r->Ok_0, *grid, constraint@),
            r is Ok && (self is Backtracking || self is CancellableBacktracking) ==> keeps_givens(
                r->Ok_0,
                *grid,
            ),
    {
        self.solve_after(self.read(), grid, constraint)
    }

    /// Reads the handle of a solver that can be called off, and answers
    /// `Ok(())` for a solver that nobody can call off.
    pub fn read(&self) -> (reading: Result<(), Cancelled>)
        ensures
            reading is Err ==> self.is_cancellable(),
    {
        match self {
            AnySolver::Cancellable(cancellable) => cancellable.handle.assert_not_cancelled(),
            AnySolver::CancellableBacktracking(handle) => handle.assert_not_cancelled(),
            _ => Ok(()),
        }
    }

    /// Goes by a reading of the handle: a solver that can be called off
    /// passes on the refusal if the flag was raised. Otherwise, and whatever
    /// the reading if nobody can call it off, the solver solves the puzzle
    /// as far as it can.
    pub fn solve_after(&self, reading: Result<(), Cancelled>, grid: &SudokuGrid, constraint: &AnyConstraint) -> (r: Result<Solution, Cancelled>)
        requires
            well_formed(*grid),
        ensures
            r is Err <==> self.is_cancellable() && reading is Err,
            r is Ok ==> outcome_of(r->Ok_0) == self.outcome(
                grid_shape(*grid),
                grid_digits(*grid),
                constraint@,
            ),
            r is Ok && !(self is DummyPerfect) ==> solution_of(r->Ok_0, *grid, constraint@),
            r is Ok && (self is Backtracking || self is CancellableBacktracking) ==> keeps_givens(
                r->Ok_0,
                *grid,
            ),
    {
        match self {
            AnySolver::Not => Ok(Solution::Ambiguous),
            AnySolver::DummyPerfect => {
                match empty_grid(1, 1) {
                    Some(grid) => Ok(Solution::Unique(grid)),
                    None => Ok(Solution::Ambiguous),
                }
            },
            AnySolver::Strategic(strategy) => Ok(strategy.propagate(grid, constraint)),
            AnySolver::Cancellable(cancellable) => cancellable.apply_after(
                reading,
                grid,
                constraint,
            ),
            AnySolver::Backtracking => Ok(backtrack(grid.clone(), constraint.copy())),
            AnySolver::CancellableBacktracking(_) => {
                match reading {
                    Ok(()) => Ok(backtrack(grid.clone(), constraint.copy())),
                    Err(cancelled) => Err(cancelled),
                }
            },
        }
    }
}

/// Whether a solution is the finding of exactly one solution.
pub fn is_unique(solution: &Solution) -> (unique: bool)
    ensures
        unique == (outcome_of(*solution) is Unique),
{
    match solution {
        Solution::Unique(_) => true,
        _ => false,
    }
}

/// Decides whether the solver finds the one solution of the puzzle.
pub fn can_solve(grid: &SudokuGrid, constraint: &AnyConstraint, solver: &AnySolver) -> (r: Result<bool, Cancelled>)
    requires
        well_formed(*grid),
    ensures
        r is Err ==> solver.is_cancellable(),
        r is Ok ==> r->Ok_0 == (solver.outcome(
            grid_shape(*grid),
            grid_digits(*grid),
            constraint@,
        ) is Unique),
{
    can_solve_after(solver.read(), grid, constraint, solver)
}

/// Decides by a reading of the handle whether the solver finds the one
/// solution of the puzzle: a solver that can be called off passes on the
/// refusal if the flag was raised.
pub fn can_solve_after(reading: Result<(), Cancelled>, grid: &SudokuGrid, constraint: &AnyConstraint, solver: &AnySolver) -> (r: Result<bool, Cancelled>)
    requires
        well_formed(*grid),
    ensures
        r is Err <==> solver.is_cancellable() && reading is Err,
        r is Ok ==> r->Ok_0 == (solver.outcome(
            grid_shape(*grid),
            grid_digits(*grid),
            constraint@,
        ) is Unique),
{
    match solver.solve_after(reading, grid, constraint) {
        Ok(solution) => Ok(is_unique(&solution)),
        Err(cancelled) => Err(cancelled),
    }
}

} // verus!
