//! An engine that generates, checks, fills and classifies Sudoku puzzles and
//! their variants, under rules that can be combined freely.
//!
//! The kinds of puzzle that can be generated are numbered: 0 is the classic
//! Sudoku, 1 adds the diagonals, 2 the knight's move, 3 the king's move, 4
//! both moves of chess, and 5 is the sandwich Sudoku.

pub mod check_response;
pub mod classic;
pub mod constraint;
pub mod fill_response;
pub mod generate;
pub mod grid;
pub mod puzzle;
pub mod random;
pub mod reducer;
pub mod sandwich;
pub mod solve;
pub mod solver;
pub mod sync;

use crate::check_response::CheckResponse;
use crate::check_response::invalid_cells;
use crate::constraint::ConstraintModel;
use crate::fill_response::can_complete;
use crate::fill_response::completes;
use crate::fill_response::FillResponse;
use crate::generate::generator_solves;
use crate::generate::has_difficulty;
use crate::generate::is_sound;
use crate::generate::made_for;
use crate::generate::Transform;
use crate::grid::grid_digits;
use crate::grid::grid_shape;
use crate::grid::is_full;
use crate::grid::same_grid;
use crate::grid::well_formed;
use crate::puzzle::Puzzle;
use crate::solve::solved_as;
use crate::solver::backtracking_outcome;
use crate::solver::chess_model;
use crate::solver::classic_with;
use crate::solver::Outcome;
use crate::solver::outcome_of;
use crate::sync::CancelHandle;
use sudoku_variants::solver::Solution;
use vstd::prelude::*;

verus! {

/// The constraint of each kind of puzzle, before any clues are added.
pub open spec fn kind_model(kind: int) -> ConstraintModel {
    if kind == 1 {
        classic_with(ConstraintModel::Diagonals)
    } else if kind == 2 {
        classic_with(ConstraintModel::KnightsMove)
    } else if kind == 3 {
        classic_with(ConstraintModel::KingsMove)
    } else if kind == 4 {
        chess_model()
    } else {
        ConstraintModel::Default
    }
}

/// What is done to the constraint of each kind of puzzle once a full grid
/// is there: the sandwich Sudoku gets its clues.
pub open spec fn kind_transform(kind: int) -> Transform {
    if kind == 5 {
        Transform::Sandwich
    } else {
        Transform::Identity
    }
}

/// Tries to generate a puzzle of nine by nine cells of the given kind and
/// difficulty, the difficulty on a scale from 1 to 5. The work ends without
/// a puzzle once the handle says so or the attempts are used up.
///
/// A puzzle that comes out is accepted by its constraint and has one
/// solution. The solver of the next lower difficulty fails on it, and the
/// solver of its own difficulty finds its solution. It is a full grid, or
/// one whose solution is still found by the solver that it was reduced
/// with. Without attempts no puzzle comes out.
///
/// The handle is read before every attempt and before every run of a
/// solver of the difficulties 1 to 5. A run that has begun goes on to its
/// end, so the work notices a raised flag between two runs of a solver,
/// not within one.
pub fn gen(constraint: i32, difficulty: i32, handle: &CancelHandle, attempts: usize) -> (found: Option<Puzzle>)
    requires
        0 <= constraint <= 5,
        1 <= difficulty <= 5,
    ensures
        attempts == 0 ==> found is None,
        found is Some ==> is_full(found->0.grid) || generator_solves(difficulty as int, found->0),
        found is Some ==> is_sound(found->0),
        found is Some ==> has_difficulty(found->0, difficulty as int),
        found is Some ==> made_for(
            found->0,
            kind_model(constraint as int),
            kind_transform(constraint as int),
        ),
        found is Some && constraint <= 4 ==> found->0.constraint@ == kind_model(constraint as int),
{
    proof {
        lemma_kinds_are_stateless();
    }
    if constraint == 0 {
        generate::gen_simple(difficulty, &generate::default_constraint(), handle, attempts)
    } else if constraint == 1 {
        generate::gen_simple(difficulty, &generate::diagonals_constraint(), handle, attempts)
    } else if constraint == 2 {
        generate::gen_simple(difficulty, &generate::knights_move_constraint(), handle, attempts)
    } else if constraint == 3 {
        generate::gen_simple(difficulty, &generate::kings_move_constraint(), handle, attempts)
    } else if constraint == 4 {
        generate::gen_simple(difficulty, &generate::chess_constraint(), handle, attempts)
    } else {
        generate::gen_sandwich(difficulty, handle, attempts)
    }
}

/// The constraints of the kinds of puzzle have no state.
proof fn lemma_kinds_are_stateless()
    ensures
        forall|kind: int| #[trigger] kind_model(kind).is_stateless(),
{
    assert forall|kind: int| #[trigger] kind_model(kind).is_stateless() by {
        let model = kind_model(kind);
        if model is Composite {
            let members = model->Composite_0;
            assert forall|i: int| 0 <= i < members.len() implies (
            #[trigger] members[i]).is_stateless() by {}
        }
    }
}

/// Checks whether the constraint of a puzzle accepts its grid, and lists
/// the cells that it does not accept.
pub fn check(sudoku: &Puzzle) -> (response: CheckResponse)
    requires
        well_formed(sudoku.grid),
    ensures
        response is Valid <==> sudoku.constraint@.grid_fits(sudoku.grid),
        response is Invalid ==> response->Invalid_0@ == invalid_cells(
            sudoku.constraint@,
            sudoku.grid,
        ),
        response is Invalid ==> response->Invalid_0@.len() > 0,
{
    CheckResponse::from_sudoku(sudoku)
}

/// Fills the empty cells of a puzzle so that the constraint accepts the
/// full grid, or finds that this cannot be done.
pub fn fill(sudoku: Puzzle) -> (response: FillResponse)
    requires
        well_formed(sudoku.grid),
    ensures
        response is Filled <==> can_complete(sudoku.constraint@, sudoku.grid),
        response is Filled ==> completes(sudoku.constraint@, sudoku.grid, response->Filled_0),
        is_full(sudoku.grid) && sudoku.constraint@.grid_fits(sudoku.grid) ==> response is Filled
            && same_grid(response->Filled_0, sudoku.grid),
{
    FillResponse::from_sudoku(sudoku)
}

/// The number that stands for an outcome: 0 for one solution, 1 for none,
/// 2 for several.
pub open spec fn outcome_code(outcome: Outcome) -> u8 {
    match outcome {
        Outcome::Unique(_) => 0,
        Outcome::Impossible => 1,
        Outcome::Ambiguous => 2,
    }
}

/// The number that stands for a solution: 0 for one solution, 1 for none,
/// 2 for several.
pub fn solution_code(solution: &Solution) -> (code: u8)
    ensures
        code == outcome_code(outcome_of(*solution)),
{
    match solution {
        Solution::Unique(_) => 0,
        Solution::Impossible => 1,
        Solution::Ambiguous => 2,
    }
}

/// Classifies a puzzle by deduction and search: 0 if it has one solution, 1
/// if it has none, 2 if it has several.
pub fn is_solvable(sudoku: Puzzle) -> (code: u8)
    requires
        well_formed(sudoku.grid),
    ensures
        code == outcome_code(
            backtracking_outcome(
                grid_shape(sudoku.grid),
                grid_digits(sudoku.grid),
                solved_as(sudoku.constraint@),
            ),
        ),
{
    solution_code(&solve::solve(sudoku))
}

/// Answers 42, to show that the engine is there.
pub fn test() -> (answer: i32)
    ensures
        answer == 42,
{
    42
}

} // verus!
