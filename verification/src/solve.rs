//! Classifying a puzzle: does it have one solution, several, or none?

use crate::constraint::AnyConstraint;
use crate::constraint::ConstraintModel;
use crate::grid::grid_digits;
use crate::grid::grid_shape;
use crate::grid::well_formed;
use crate::puzzle::Puzzle;
use crate::solver::answers;
use crate::solver::backtrack;
use crate::solver::backtrack_chess;
use crate::solver::backtrack_default;
use crate::solver::backtrack_diagonals;
use crate::solver::backtrack_kings_move;
use crate::solver::backtrack_knights_move;
use crate::solver::backtracking_outcome;
use crate::solver::chess_model;
use crate::solver::classic_with;
use crate::solver::keeps_givens;
use sudoku_variants::solver::Solution;
use sudoku_variants::SudokuGrid;
use vstd::prelude::*;

verus! {

/// The common variants, for which the solver knows the constraint when it is
/// compiled.
#[derive(Clone, Copy, Debug, PartialEq, Eq, Structural)]
pub enum Shape {
    /// The classic rule alone.
    Default,
    /// The classic rule, then the diagonals.
    Diagonals,
    /// The classic rule, then the knight's move.
    KnightsMove,
    /// The classic rule, then the king's move.
    KingsMove,
    /// The classic rule, then the knight's move and the king's move, in
    /// either order.
    Chess,
    /// Anything else.
    Other,
}

/// The common variant that a constraint is, if it is one.
pub open spec fn model_shape(constraint: ConstraintModel) -> Shape {
    match constraint {
        ConstraintModel::Default => Shape::Default,
        ConstraintModel::Composite(members) => if members.len() == 2 && members[0] is Default {
            match members[1] {
                ConstraintModel::Diagonals => Shape::Diagonals,
                ConstraintModel::KnightsMove => Shape::KnightsMove,
                ConstraintModel::KingsMove => Shape::KingsMove,
                _ => Shape::Other,
            }
        } else if members.len() == 3 && members[0] is Default && ((members[1] is KnightsMove
            && members[2] is KingsMove) || (members[1] is KingsMove && members[2] is KnightsMove)) {
            Shape::Chess
        } else {
            Shape::Other
        },
        _ => Shape::Other,
    }
}

/// The constraint that the solver works with: for a common variant its
/// usual form, for anything else the constraint as it is.
pub open spec fn solved_as(constraint: ConstraintModel) -> ConstraintModel {
    match model_shape(constraint) {
        Shape::Default => ConstraintModel::Default,
        Shape::Diagonals => classic_with(ConstraintModel::Diagonals),
        Shape::KnightsMove => classic_with(ConstraintModel::KnightsMove),
        Shape::KingsMove => classic_with(ConstraintModel::KingsMove),
        Shape::Chess => chess_model(),
        Shape::Other => constraint,
    }
}

/// Finds the common variant that a constraint is, if it is one.
pub fn shape_of(constraint: &AnyConstraint) -> (shape: Shape)
    ensures
        shape == model_shape(constraint@),
{
    match constraint {
        AnyConstraint::Default => Shape::Default,
        AnyConstraint::Composite(members) => {
            proof {
                crate::constraint::lemma_composite_view(*members);
            }
            let ghost models = crate::constraint::members_model(members@);
            if members.len() == 2 {
                assert(models[0] == members@[0]@ && models[1] == members@[1]@);
                match (&members[0], &members[1]) {
                    (AnyConstraint::Default, AnyConstraint::Diagonals) => Shape::Diagonals,
                    (AnyConstraint::Default, AnyConstraint::KnightsMove) => Shape::KnightsMove,
                    (AnyConstraint::Default, AnyConstraint::KingsMove) => Shape::KingsMove,
                    _ => Shape::Other,
                }
            } else if members.len() == 3 {
                assert(models[0] == members@[0]@ && models[1] == members@[1]@ && models[2]
                    == members@[2]@);
                match (&members[0], &members[1], &members[2]) {
                    (
                        AnyConstraint::Default,
                        AnyConstraint::KnightsMove,
                        AnyConstraint::KingsMove,
                    ) => Shape::Chess,
                    (
                        AnyConstraint::Default,
                        AnyConstraint::KingsMove,
                        AnyConstraint::KnightsMove,
                    ) => Shape::Chess,
                    _ => Shape::Other,
                }
            } else {
                Shape::Other
            }
        },
        _ => Shape::Other,
    }
}

/// Solves a puzzle with any constraint by deduction and search.
pub fn solve_with_optimal(grid: SudokuGrid, constraint: AnyConstraint) -> (solution: Solution)
    requires
        well_formed(grid),
    ensures
        answers(
            solution,
            backtracking_outcome(grid_shape(grid), grid_digits(grid), constraint@),
            grid,
            constraint@,
        ),
        keeps_givens(solution, grid),
{
    backtrack(grid, constraint)
}

/// Solves the puzzle by deduction and search, and says whether it has one
/// solution, several, or none. A solution that is handed out is a full grid
/// of the puzzle's shape that keeps the digits of the puzzle. A sandwich
/// puzzle is solved like any other: no rule of deduction is special to its
/// clues, which the search meets because the constraint refuses what breaks
/// them. The common variants are solved with their
/// constraint in its usual form, which is faster; the answer is the answer
/// for that form.
pub fn solve(sudoku: Puzzle) -> (solution: Solution)
    requires
        well_formed(sudoku.grid),
    ensures
        answers(
            solution,
            backtracking_outcome(
                grid_shape(sudoku.grid),
                grid_digits(sudoku.grid),
                solved_as(sudoku.constraint@),
            ),
            sudoku.grid,
            solved_as(sudoku.constraint@),
        ),
        keeps_givens(solution, sudoku.grid),
{
    let (grid, constraint) = sudoku.into_raw_parts();
    match shape_of(&constraint) {
        Shape::Default => backtrack_default(grid),
        Shape::Diagonals => backtrack_diagonals(grid),
        Shape::KnightsMove => backtrack_knights_move(grid),
        Shape::KingsMove => backtrack_kings_move(grid),
        Shape::Chess => backtrack_chess(grid),
        Shape::Other => solve_with_optimal(grid, constraint),
    }
}

} // verus!
