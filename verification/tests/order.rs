use sudoku_engine::constraint::AnyConstraint;
use sudoku_engine::generate::attempt_after;
use sudoku_engine::generate::default_band;
use sudoku_engine::generate::default_difficulty_1;
use sudoku_engine::generate::default_difficulty_5;
use sudoku_engine::generate::default_difficulty_3;
use sudoku_engine::generate::judge_after;
use sudoku_engine::generate::make_in_order;
use sudoku_engine::generate::make_sandwich_constraint;
use sudoku_engine::generate::sandwich_band;
use sudoku_engine::generate::Transform;
use sudoku_engine::puzzle::Puzzle;
use sudoku_engine::reducer::count_reductions;
use sudoku_engine::reducer::reduce_in_order;
use sudoku_engine::solve::solve;
use sudoku_engine::solver::can_solve_after;
use sudoku_engine::solver::AnySolver;
use sudoku_engine::solver::AnyStrategy;
use sudoku_engine::sync::CancelHandle;
use sudoku_engine::sync::Cancelled;
use sudoku_variants::solver::Solution;
use sudoku_variants::SudokuGrid;

const FULL: &str = "2x2;1,2,3,4,3,4,1,2,2,1,4,3,4,3,2,1";

fn grid(code: &str) -> SudokuGrid {
    SudokuGrid::parse(code).unwrap()
}

fn full() -> Puzzle {
    Puzzle::new_with_grid(grid(FULL), AnyConstraint::Default)
}

fn with_clues() -> Puzzle {
    let g = grid(FULL);
    let constraint = make_sandwich_constraint(AnyConstraint::Default, &g);
    Puzzle::new_with_grid(g, constraint)
}

fn clues(puzzle: &Puzzle) -> (Vec<Option<usize>>, Vec<Option<usize>>) {
    match &puzzle.constraint {
        AnyConstraint::Composite(members) => match &members[1] {
            AnyConstraint::Sandwich(clues) => (clues.column_sums().clone(), clues.row_sums().clone()),
            _ => panic!("no clues"),
        },
        _ => panic!("no list"),
    }
}

#[test]
fn reductions_are_counted() {
    assert_eq!(count_reductions(&full()), 16);
    assert_eq!(count_reductions(&with_clues()), 24);
    let empty = Puzzle::new_with_grid(SudokuGrid::new(3, 3).unwrap(), AnyConstraint::Default);
    assert_eq!(count_reductions(&empty), 81);
}

#[test]
fn an_order_names_cells_column_by_column() {
    let mut puzzle = full();
    assert_eq!(reduce_in_order(&mut puzzle, &AnySolver::DummyPerfect, &vec![6]), Ok(()));
    assert_eq!(puzzle.grid, grid("2x2;1,2,3,4,3,4,1,2,2,,4,3,4,3,2,1"));
    assert_eq!(reduce_in_order(&mut puzzle, &AnySolver::DummyPerfect, &vec![6, 3, 12]), Ok(()));
    assert_eq!(puzzle.grid, grid("2x2;1,2,3,,3,4,1,2,2,,4,3,,3,2,1"));
}

#[test]
fn numbers_beyond_the_list_name_nothing() {
    let mut puzzle = full();
    assert_eq!(reduce_in_order(&mut puzzle, &AnySolver::DummyPerfect, &vec![16, 99, usize::MAX]), Ok(()));
    assert_eq!(puzzle.grid, grid(FULL));
    assert_eq!(reduce_in_order(&mut puzzle, &AnySolver::DummyPerfect, &vec![]), Ok(()));
    assert_eq!(puzzle.grid, grid(FULL));
}

#[test]
fn clues_are_tried_before_digits() {
    let mut puzzle = with_clues();
    let picky = AnySolver::Backtracking;
    let order: Vec<usize> = (0..24).collect();
    assert_eq!(reduce_in_order(&mut puzzle, &picky, &order), Ok(()));
    assert_eq!(clues(&puzzle), (vec![None; 4], vec![None; 4]));
    assert!(puzzle.grid.count_clues() < 16);
    let mut one = with_clues();
    assert_eq!(reduce_in_order(&mut one, &AnySolver::DummyPerfect, &vec![0, 17]), Ok(()));
    assert_eq!(clues(&one).0, vec![Some(5), None, Some(0), Some(5)]);
    assert_eq!(one.grid.get_cell(0, 0).unwrap(), None);
    assert_eq!(one.grid.count_clues(), 15);
}

#[test]
fn the_same_order_gives_the_same_puzzle() {
    let order: Vec<usize> = (0..16).rev().collect();
    let mut first = full();
    let mut second = full();
    assert_eq!(reduce_in_order(&mut first, &AnySolver::Backtracking, &order), Ok(()));
    assert_eq!(reduce_in_order(&mut second, &AnySolver::Backtracking, &order), Ok(()));
    assert_eq!(first.grid, second.grid);
    assert!(first.grid.count_clues() < 16);
    let solved = solve(Puzzle::new_with_grid(first.grid.clone(), AnyConstraint::Default));
    assert_eq!(solved, Solution::Unique(grid(FULL)));
    let mut again = Puzzle::new_with_grid(first.grid.clone(), AnyConstraint::Default);
    assert_eq!(reduce_in_order(&mut again, &AnySolver::Backtracking, &order), Ok(()));
    assert_eq!(again.grid, first.grid);
}

#[test]
fn what_no_solver_solves_is_not_taken() {
    let order: Vec<usize> = (0..24).collect();
    let mut puzzle = with_clues();
    let before = clues(&puzzle);
    assert_eq!(reduce_in_order(&mut puzzle, &AnySolver::Not, &order), Ok(()));
    assert_eq!(puzzle.grid, grid(FULL));
    assert_eq!(clues(&puzzle), before);
}

#[test]
fn a_cancelled_solver_stops_the_order() {
    let handle = CancelHandle::new();
    handle.cancel();
    let mut puzzle = full();
    let solver = default_difficulty_3(handle);
    assert_eq!(reduce_in_order(&mut puzzle, &solver, &vec![1, 2]), Err(Cancelled));
    assert_eq!(puzzle.grid, grid(FULL));
    assert_eq!(reduce_in_order(&mut puzzle, &solver, &vec![]), Ok(()));
}

#[test]
fn a_puzzle_is_made_in_order() {
    let order: Vec<usize> = (0..16).collect();
    let easy = AnySolver::Backtracking;
    let made = make_in_order(full(), &order, &AnySolver::Not, &easy, &easy).unwrap();
    let again = make_in_order(full(), &order, &AnySolver::Not, &easy, &easy).unwrap();
    assert_eq!(made.grid, again.grid);
    assert!(made.grid.count_clues() < 16);
    assert!(made.grid.is_subset(&grid(FULL)).unwrap());
    assert_eq!(solve(made), Solution::Unique(grid(FULL)));
}

#[test]
fn nothing_is_made_outside_the_band() {
    let order: Vec<usize> = (0..16).collect();
    let easy = AnySolver::Backtracking;
    assert!(make_in_order(full(), &order, &easy, &easy, &easy).is_none());
    assert!(make_in_order(full(), &order, &AnySolver::Not, &AnySolver::Not, &easy).is_none());
    assert!(make_in_order(full(), &order, &AnySolver::Not, &easy, &AnySolver::DummyPerfect).is_none());
    assert!(make_in_order(full(), &vec![], &AnySolver::Not, &easy, &easy).is_some());
}

#[test]
fn nothing_is_made_of_a_grid_that_is_not_accepted() {
    let order: Vec<usize> = (0..16).collect();
    let easy = AnySolver::Backtracking;
    let broken = Puzzle::new_with_grid(grid("2x2;1,2,3,4,3,4,1,2,2,1,4,3,4,3,1,2"), AnyConstraint::Default);
    assert!(make_in_order(broken, &order, &AnySolver::Not, &easy, &easy).is_none());
    let handle = CancelHandle::new();
    handle.cancel();
    let called_off = default_difficulty_3(handle);
    assert!(make_in_order(full(), &order, &AnySolver::Not, &easy, &called_off).is_none());
    assert!(make_in_order(full(), &order, &called_off, &easy, &easy).is_none());
}

#[test]
fn readings_decide_for_solvers_that_can_be_called_off() {
    let g = grid("2x2;1,2,3,,3,4,,2,2,,4,3,,3,2,1");
    let c = AnyConstraint::Default;
    let solved = Solution::Unique(grid(FULL));
    let handle = CancelHandle::new();
    let deep = default_difficulty_3(handle.clone());
    let search = AnySolver::CancellableBacktracking(handle);
    for solver in [&deep, &search] {
        assert_eq!(solver.solve_after(Ok(()), &g, &c), Ok(solved.clone()));
        assert_eq!(solver.solve_after(Err(Cancelled), &g, &c), Err(Cancelled));
        assert_eq!(can_solve_after(Err(Cancelled), &g, &c, solver), Err(Cancelled));
        assert_eq!(can_solve_after(Ok(()), &g, &c, solver), Ok(true));
        assert_eq!(solver.read(), Ok(()));
    }
    for solver in [AnySolver::Backtracking, AnySolver::Not, AnySolver::DummyPerfect] {
        assert!(solver.solve_after(Err(Cancelled), &g, &c).is_ok());
        assert_eq!(solver.read(), Ok(()));
    }
    assert_eq!(can_solve_after(Err(Cancelled), &g, &c, &AnySolver::Not), Ok(false));
}

#[test]
fn readings_decide_the_judgement() {
    let easy = Puzzle::new_with_grid(grid("2x2;1,2,3,,3,4,,2,2,,4,3,,3,2,1"), AnyConstraint::Default);
    let handle = CancelHandle::new();
    let deep = default_difficulty_3(handle);
    let not = AnySolver::Not;
    assert_eq!(judge_after(Ok(()), Ok(()), &easy, &not, &deep), Ok(true));
    assert_eq!(judge_after(Ok(()), Err(Cancelled), &easy, &not, &deep), Err(Cancelled));
    assert_eq!(judge_after(Err(Cancelled), Ok(()), &easy, &not, &deep), Ok(true));
    assert_eq!(judge_after(Err(Cancelled), Ok(()), &easy, &deep, &deep), Err(Cancelled));
    assert_eq!(judge_after(Ok(()), Err(Cancelled), &easy, &deep, &deep), Ok(false));
}

#[test]
fn the_solvers_of_a_band_heed_its_handle() {
    let handle = CancelHandle::new();
    let bands = [default_band(3, &handle), default_band(4, &handle), sandwich_band(5, &handle)];
    let other = default_band(3, &CancelHandle::new());
    handle.cancel();
    for band in &bands {
        assert_eq!(band.lower.read(), Err(Cancelled));
    }
    assert_eq!(bands[0].upper.read(), Err(Cancelled));
    assert_eq!(bands[2].generator.read(), Err(Cancelled));
    assert_eq!(bands[0].generator.read(), Err(Cancelled));
    assert_eq!(other.lower.read(), Ok(()));
    assert_eq!(other.upper.read(), Ok(()));
    let first = sandwich_band(1, &handle);
    assert_eq!(first.lower.read(), Ok(()));
    assert_eq!(first.upper.read(), Err(Cancelled));
    assert_eq!(first.generator.read(), Err(Cancelled));
    let plain = default_band(1, &handle);
    assert_eq!(plain.upper.read(), Err(Cancelled));
    assert_eq!(plain.generator.read(), Err(Cancelled));
    assert_eq!(plain.lower.read(), Ok(()));
    let last = default_band(5, &handle);
    assert_eq!(last.upper.read(), Ok(()));
    assert_eq!(last.generator.read(), Err(Cancelled));
}

#[test]
fn a_solution_keeps_the_given_digits() {
    let code = "2x2;1,2,3,,3,4,,2,2,,4,3,,3,2,1";
    match solve(Puzzle::new_with_grid(grid(code), AnyConstraint::Default)) {
        Solution::Unique(found) => {
            assert!(grid(code).is_subset(&found).unwrap());
            assert!(found.is_full());
        }
        _ => panic!("the puzzle has one solution"),
    }
}

#[test]
fn a_raised_reading_ends_an_attempt_before_it_begins() {
    let free = AnySolver::Backtracking;
    let made = attempt_after(true, &AnySolver::Not, &free, &free, &AnyConstraint::Default, Transform::Identity);
    assert!(matches!(made, Err(Cancelled)));
    let made = attempt_after(true, &AnySolver::Not, &AnySolver::Not, &AnySolver::Not, &AnyConstraint::Default, Transform::Sandwich);
    assert!(matches!(made, Err(Cancelled)));
}

#[test]
fn a_lowered_reading_lets_an_attempt_run() {
    let weak = AnySolver::Strategic(AnyStrategy::OnlyCell);
    let made = attempt_after(false, &AnySolver::Not, &weak, &weak, &AnyConstraint::Default, Transform::Identity);
    match made {
        Ok(Some(puzzle)) => {
            assert_eq!(puzzle.grid.size(), 9);
            assert!(puzzle.grid.count_clues() < 81);
            assert!(matches!(solve(puzzle), Solution::Unique(_)));
        }
        _ => panic!("the weakest band takes every puzzle"),
    }
    let none = attempt_after(false, &weak, &AnySolver::Not, &weak, &AnyConstraint::Default, Transform::Identity);
    assert!(matches!(none, Ok(None)));
}

#[test]
fn the_hardest_solver_is_called_off_too() {
    let handle = CancelHandle::new();
    let g = grid("2x2;1,2,3,,3,4,,2,2,,4,3,,3,2,1");
    let c = AnyConstraint::Default;
    let solver = default_difficulty_5(handle.clone());
    assert_eq!(solver.solve(&g, &c), Ok(Solution::Unique(grid(FULL))));
    handle.cancel();
    assert_eq!(solver.solve(&g, &c), Err(Cancelled));
    assert_eq!(solver.solve_after(Err(Cancelled), &g, &c), Err(Cancelled));
    let first = default_difficulty_1(handle);
    assert_eq!(first.solve(&g, &c), Err(Cancelled));
}
