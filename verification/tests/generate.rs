use sudoku_engine::check;
use sudoku_engine::check_response::CheckResponse;
use sudoku_engine::constraint::AnyConstraint;
use sudoku_engine::gen;
use sudoku_engine::generate::default_band;
use sudoku_engine::generate::default_difficulty_1;
use sudoku_engine::generate::default_difficulty_2;
use sudoku_engine::generate::default_difficulty_3;
use sudoku_engine::generate::default_difficulty_4;
use sudoku_engine::generate::default_difficulty_5;
use sudoku_engine::generate::difficulty_0;
use sudoku_engine::generate::difficulty_inf;
use sudoku_engine::generate::gen_with_difficulty_thread;
use sudoku_engine::generate::sandwich_band;
use sudoku_engine::generate::sandwich_difficulty_1;
use sudoku_engine::generate::sandwich_difficulty_5;
use sudoku_engine::generate::Transform;
use sudoku_engine::is_solvable;
use sudoku_engine::puzzle::Puzzle;
use sudoku_engine::random::random_order;
use sudoku_engine::reducer::prioritize;
use sudoku_engine::reducer::reduce;
use sudoku_engine::reducer::Reduction;
use sudoku_engine::constraint::AnyReduction;
use sudoku_engine::sandwich::SandwichReduction;
use sudoku_engine::solver::can_solve;
use sudoku_engine::solver::AnySolver;
use sudoku_engine::solver::AnyStrategy;
use sudoku_engine::solver::Probe;
use sudoku_engine::sync::CancelHandle;
use sudoku_engine::sync::CancellableStrategy;
use sudoku_engine::sync::Cancelled;
use sudoku_variants::solver::Solution;
use sudoku_variants::SudokuGrid;

fn grid(code: &str) -> SudokuGrid {
    SudokuGrid::parse(code).unwrap()
}

const CLASSIC_PUZZLE: &str = "3x3;\
     , , , ,8,1, , , ,\
     , ,2, , ,7,8, , ,\
     ,5,3, , , ,1,7, ,\
    3,7, , , , , , , ,\
    6, , , , , , , ,3,\
     , , , , , , ,2,4,\
     ,6,9, , , ,2,3, ,\
     , ,5,9, , ,4, , ,\
     , , ,6,5, , , , ";

const EASY_PUZZLE: &str = "2x2;1,2,3,,3,4,,2,2,,4,3,,3,2,1";

#[test]
fn fresh_handle_is_not_cancelled() {
    let handle = CancelHandle::new();
    assert!(!handle.is_cancelled());
    assert_eq!(handle.assert_not_cancelled(), Ok(()));
}

#[test]
fn cancel_reaches_every_clone() {
    let handle = CancelHandle::new();
    let clone = handle.clone();
    handle.cancel();
    assert!(handle.is_cancelled());
    assert!(clone.is_cancelled());
    assert_eq!(clone.assert_not_cancelled(), Err(Cancelled));
    let other = CancelHandle::new();
    assert!(!other.is_cancelled());
}

#[test]
fn cancellable_strategy_keeps_its_parts() {
    let handle = CancelHandle::new();
    let c = CancellableStrategy::new(7u8, handle.clone());
    assert_eq!(c.strategy, 7);
    handle.cancel();
    assert!(c.handle.is_cancelled());
}

#[test]
fn random_order_holds_every_number_once() {
    for count in [0usize, 1, 2, 9, 81] {
        let mut order = random_order(count);
        assert_eq!(order.len(), count);
        order.sort();
        assert_eq!(order, (0..count).collect::<Vec<usize>>());
    }
}

#[test]
fn clues_go_before_digits() {
    let digit = Reduction::RemoveDigit { column: 1, row: 2 };
    let clue = Reduction::ReduceConstraint {
        reduction: AnyReduction::Sandwich(SandwichReduction::RemoveRow { row: 0 }),
    };
    assert_eq!(prioritize(&digit), 0);
    assert_eq!(prioritize(&clue), 100);
}

#[test]
fn sentinel_solvers_answer_the_same_for_every_puzzle() {
    let handle = CancelHandle::new();
    let g = grid(CLASSIC_PUZZLE);
    let c = AnyConstraint::Default;
    assert_eq!(difficulty_0(handle.clone()).solve(&g, &c), Ok(Solution::Ambiguous));
    assert_eq!(
        difficulty_inf(handle.clone()).solve(&g, &c),
        Ok(Solution::Unique(SudokuGrid::new(1, 1).unwrap()))
    );
    assert_eq!(can_solve(&g, &c, &difficulty_0(handle.clone())), Ok(false));
    assert_eq!(can_solve(&g, &c, &difficulty_inf(handle.clone())), Ok(true));
    let full = grid("2x2;1,2,3,4,3,4,1,2,2,1,4,3,4,3,2,1");
    assert_eq!(can_solve(&full, &c, &difficulty_0(handle)), Ok(false));
}

#[test]
fn difficulties_are_built_from_their_strategies() {
    let handle = CancelHandle::new();
    match default_difficulty_1(handle.clone()) {
        AnySolver::Cancellable(c) => assert!(matches!(c.strategy, AnyStrategy::OnlyCell)),
        _ => panic!("wrong solver"),
    }
    match default_difficulty_2(handle.clone()) {
        AnySolver::Cancellable(c) => match c.strategy {
            AnyStrategy::Probing { probe: Probe { limit: 2, applications: Some(0) } } => {}
            _ => panic!("wrong strategy"),
        },
        _ => panic!("wrong solver"),
    }
    match default_difficulty_3(handle.clone()) {
        AnySolver::Cancellable(c) => match c.strategy {
            AnyStrategy::Pairs {
                outer: Probe { limit: 2, applications: Some(1) },
                inner: Probe { limit: 2, applications: Some(0) },
                tuple: 2,
            } => {}
            _ => panic!("wrong strategy"),
        },
        _ => panic!("wrong solver"),
    }
    match default_difficulty_4(handle.clone()) {
        AnySolver::Cancellable(c) => match c.strategy {
            AnyStrategy::Deep {
                outer: Probe { limit: 2, applications: Some(1) },
                inner: Probe { limit: 2, applications: Some(0) },
                tuple: 3,
                cells: Probe { limit: 2, applications: Some(2) },
                options: Probe { limit: 2, applications: Some(2) },
            } => {}
            _ => panic!("wrong strategy"),
        },
        _ => panic!("wrong solver"),
    }
    assert!(matches!(default_difficulty_5(handle.clone()), AnySolver::CancellableBacktracking(_)));
    match sandwich_difficulty_1(handle.clone()) {
        AnySolver::Cancellable(c) => assert!(matches!(c.strategy, AnyStrategy::OnlyCell)),
        _ => panic!("wrong solver"),
    }
    assert!(matches!(sandwich_difficulty_5(handle), AnySolver::CancellableBacktracking(_)));
}

#[test]
fn bands_lie_between_neighbouring_difficulties() {
    let handle = CancelHandle::new();
    let one = default_band(1, &handle);
    assert!(matches!(one.lower, AnySolver::Not));
    match (one.upper, one.generator) {
        (AnySolver::Cancellable(upper), AnySolver::Cancellable(generator)) => {
            assert!(matches!(upper.strategy, AnyStrategy::OnlyCell));
            assert!(matches!(generator.strategy, AnyStrategy::OnlyCell));
        }
        _ => panic!("wrong solvers"),
    }
    let three = default_band(3, &handle);
    match (three.lower, three.upper) {
        (AnySolver::Cancellable(lower), AnySolver::Cancellable(upper)) => {
            assert!(matches!(lower.strategy, AnyStrategy::Probing { .. }));
            assert!(matches!(upper.strategy, AnyStrategy::Pairs { .. }));
        }
        _ => panic!("wrong bounds"),
    }
    assert!(matches!(three.generator, AnySolver::CancellableBacktracking(_)));
    let five = default_band(5, &handle);
    assert!(matches!(five.upper, AnySolver::DummyPerfect));
    match five.lower {
        AnySolver::Cancellable(lower) => assert!(matches!(lower.strategy, AnyStrategy::Deep { .. })),
        _ => panic!("wrong bound"),
    }
    let sandwich = sandwich_band(4, &handle);
    assert!(matches!(sandwich.generator, AnySolver::CancellableBacktracking(_)));
    let first = sandwich_band(1, &handle);
    assert!(matches!(first.lower, AnySolver::Not));
    assert!(matches!(first.upper, AnySolver::Cancellable(_)));
}

#[test]
fn every_strategy_solves_an_easy_puzzle() {
    let handle = CancelHandle::new();
    let expected = Solution::Unique(grid("2x2;1,2,3,4,3,4,1,2,2,1,4,3,4,3,2,1"));
    let g = grid(EASY_PUZZLE);
    let c = AnyConstraint::Default;
    for solver in [
        default_difficulty_1(handle.clone()),
        default_difficulty_2(handle.clone()),
        default_difficulty_3(handle.clone()),
        default_difficulty_4(handle.clone()),
        default_difficulty_5(handle.clone()),
        sandwich_difficulty_5(handle.clone()),
    ] {
        assert_eq!(solver.solve(&g, &c), Ok(expected.clone()));
        assert_eq!(can_solve(&g, &c, &solver), Ok(true));
    }
}

#[test]
fn deduction_stops_where_the_strategy_ends() {
    let handle = CancelHandle::new();
    let g = SudokuGrid::new(3, 3).unwrap();
    let c = AnyConstraint::Default;
    for solver in [
        default_difficulty_1(handle.clone()),
        default_difficulty_2(handle.clone()),
        default_difficulty_3(handle.clone()),
        default_difficulty_4(handle.clone()),
    ] {
        assert_eq!(solver.solve(&g, &c), Ok(Solution::Ambiguous));
        assert_eq!(can_solve(&g, &c, &solver), Ok(false));
    }
    let broken = grid("2x2;1,,1,,,,,,,,,,,,,");
    assert_eq!(default_difficulty_2(handle).solve(&broken, &c), Ok(Solution::Impossible));
}

#[test]
fn cancelled_solvers_do_not_solve() {
    let handle = CancelHandle::new();
    handle.cancel();
    let g = grid(EASY_PUZZLE);
    let c = AnyConstraint::Default;
    assert_eq!(default_difficulty_2(handle.clone()).solve(&g, &c), Err(Cancelled));
    assert_eq!(sandwich_difficulty_5(handle.clone()).solve(&g, &c), Err(Cancelled));
    assert_eq!(can_solve(&g, &c, &default_difficulty_4(handle.clone())), Err(Cancelled));
    assert_eq!(default_difficulty_1(handle.clone()).solve(&g, &c), Err(Cancelled));
    assert_eq!(default_difficulty_5(handle).solve(&g, &c), Err(Cancelled));
    assert!(AnySolver::Strategic(AnyStrategy::OnlyCell).solve(&g, &c).is_ok());
    assert!(AnySolver::Backtracking.solve(&g, &c).is_ok());
}

#[test]
fn reducing_keeps_the_puzzle_solvable() {
    let full = "2x2;1,2,3,4,3,4,1,2,2,1,4,3,4,3,2,1";
    let solver = AnySolver::Backtracking;
    let mut puzzle = Puzzle::new_with_grid(grid(full), AnyConstraint::Default);
    assert_eq!(reduce(&mut puzzle, &solver), Ok(()));
    assert!(puzzle.grid.is_subset(&grid(full)).unwrap());
    assert!(puzzle.grid.count_clues() < 16);
    assert_eq!(solver.solve(&puzzle.grid, &puzzle.constraint), Ok(Solution::Unique(grid(full))));
}

#[test]
fn reducing_with_the_weakest_solver_takes_nothing() {
    let full = "2x2;1,2,3,4,3,4,1,2,2,1,4,3,4,3,2,1";
    let mut puzzle = Puzzle::new_with_grid(grid(full), AnyConstraint::Default);
    assert_eq!(reduce(&mut puzzle, &AnySolver::Not), Ok(()));
    assert_eq!(puzzle.grid, grid(full));
}

#[test]
fn reducing_takes_clues_as_well() {
    let full = grid("2x2;1,2,3,4,3,4,1,2,2,1,4,3,4,3,2,1");
    let constraint = sudoku_engine::generate::make_sandwich_constraint(AnyConstraint::Default, &full);
    let mut puzzle = Puzzle::new_with_grid(full.clone(), constraint);
    assert_eq!(reduce(&mut puzzle, &AnySolver::DummyPerfect), Ok(()));
    assert_eq!(puzzle.grid.count_clues(), 0);
    match &puzzle.constraint {
        AnyConstraint::Composite(members) => match &members[1] {
            AnyConstraint::Sandwich(clues) => {
                assert_eq!(clues.row_sums(), &vec![None; 4]);
                assert_eq!(clues.column_sums(), &vec![None; 4]);
            }
            _ => panic!("no clues"),
        },
        _ => panic!("no list"),
    }
}

#[test]
fn a_cancelled_reduction_leaves_the_puzzle() {
    let full = "2x2;1,2,3,4,3,4,1,2,2,1,4,3,4,3,2,1";
    let handle = CancelHandle::new();
    handle.cancel();
    let mut puzzle = Puzzle::new_with_grid(grid(full), AnyConstraint::Default);
    assert_eq!(reduce(&mut puzzle, &default_difficulty_2(handle)), Err(Cancelled));
    assert_eq!(puzzle.grid, grid(full));
}

#[test]
fn generated_puzzle_is_valid_unique_and_in_its_band() {
    let handle = CancelHandle::new();
    for difficulty in [1, 2] {
        let puzzle = gen(0, difficulty, &handle, 5);
        if let Some(puzzle) = puzzle {
            assert_eq!(puzzle.grid.size(), 9);
            assert!(matches!(check(&puzzle), CheckResponse::Valid));
            let band = default_band(difficulty, &handle);
            assert_eq!(can_solve(&puzzle.grid, &puzzle.constraint, &band.lower), Ok(false));
            assert_eq!(can_solve(&puzzle.grid, &puzzle.constraint, &band.upper), Ok(true));
            assert_eq!(is_solvable(puzzle), 0);
        }
    }
}

#[test]
fn easiest_puzzle_is_generated_at_once() {
    let handle = CancelHandle::new();
    let puzzle = gen(0, 1, &handle, 1).unwrap();
    assert!(puzzle.grid.count_clues() < 81);
    assert!(matches!(puzzle.constraint, AnyConstraint::Default));
    assert_eq!(is_solvable(puzzle), 0);
}

#[test]
fn generated_sandwich_puzzle_has_clues() {
    let handle = CancelHandle::new();
    if let Some(puzzle) = gen(5, 1, &handle, 3) {
        match &puzzle.constraint {
            AnyConstraint::Composite(members) => {
                assert_eq!(members.len(), 2);
                assert!(matches!(members[0], AnyConstraint::Default));
                assert!(matches!(members[1], AnyConstraint::Sandwich(_)));
            }
            _ => panic!("no list"),
        }
        assert!(matches!(check(&puzzle), CheckResponse::Valid));
    }
}

#[test]
fn cancelled_generation_hands_out_nothing() {
    let handle = CancelHandle::new();
    handle.cancel();
    assert!(gen(0, 1, &handle, 1000).is_none());
    assert!(gen(5, 3, &handle, 1000).is_none());
}

#[test]
fn no_attempts_hand_out_nothing() {
    let handle = CancelHandle::new();
    assert!(gen(4, 5, &handle, 0).is_none());
    assert!(gen(1, 3, &handle, 0).is_none());
    let found = gen_with_difficulty_thread(
        &AnySolver::Not,
        &AnySolver::Not,
        &AnySolver::Not,
        &AnyConstraint::Default,
        Transform::Identity,
        &handle,
        2,
    );
    assert!(found.is_none());
}
