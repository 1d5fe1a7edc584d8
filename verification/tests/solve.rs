use sudoku_engine::constraint::AnyConstraint;
use sudoku_engine::generate::chess_constraint;
use sudoku_engine::generate::default_constraint;
use sudoku_engine::generate::diagonals_constraint;
use sudoku_engine::generate::kings_move_constraint;
use sudoku_engine::generate::knights_move_constraint;
use sudoku_engine::generate::make_sandwich_constraint;
use sudoku_engine::is_solvable;
use sudoku_engine::puzzle::Puzzle;
use sudoku_engine::sandwich::SandwichConstraint;
use sudoku_engine::solve::shape_of;
use sudoku_engine::solve::solve;
use sudoku_engine::solve::solve_with_optimal;
use sudoku_engine::solve::Shape;
use sudoku_variants::solver::Solution;
use sudoku_variants::SudokuGrid;

fn grid(code: &str) -> SudokuGrid {
    SudokuGrid::parse(code).unwrap()
}

const CLASSIC_PUZZLE: &str = "3x3;\
     , , , ,8,1, , , ,\
     , ,2, , ,7,8, , ,\
     ,5,3, , , ,1,7, ,\
    3,7, , , , , , , ,\
    6, , , , , , , ,3,\
     , , , , , , ,2,4,\
     ,6,9, , , ,2,3, ,\
     , ,5,9, , ,4, , ,\
     , , ,6,5, , , , ";

const CLASSIC_SOLUTION: &str = "3x3;\
    7,4,6,2,8,1,3,5,9,\
    9,1,2,5,3,7,8,4,6,\
    8,5,3,4,9,6,1,7,2,\
    3,7,4,1,2,5,6,9,8,\
    6,2,8,7,4,9,5,1,3,\
    5,9,1,3,6,8,7,2,4,\
    1,6,9,8,7,4,2,3,5,\
    2,8,5,9,1,3,4,6,7,\
    4,3,7,6,5,2,9,8,1";

const DIAGONALS_PUZZLE: &str = "3x3;\
     ,1,2,3,4,5,6,7, ,\
     , , , , , , , , ,\
     , , , , , , , , ,\
    7, , , , , , , ,5,\
    2, , , , , , , ,1,\
    9, , , , , , , ,3,\
     , , , , , , , , ,\
     , , , , , , , , ,\
     ,3,4,5,6,7,8,9, ";

const DIAGONALS_SOLUTION: &str = "3x3;\
    8,1,2,3,4,5,6,7,9,\
    3,7,5,6,8,9,1,2,4,\
    4,9,6,1,7,2,3,5,8,\
    7,4,1,9,3,6,2,8,5,\
    2,6,3,7,5,8,9,4,1,\
    9,5,8,4,2,1,7,6,3,\
    5,2,7,8,9,3,4,1,6,\
    6,8,9,2,1,4,5,3,7,\
    1,3,4,5,6,7,8,9,2";

#[test]
fn test_answers_42() {
    assert_eq!(sudoku_engine::test(), 42);
}

#[test]
fn classic_puzzle_has_its_solution() {
    let puzzle = Puzzle::new_with_grid(grid(CLASSIC_PUZZLE), AnyConstraint::Default);
    assert_eq!(solve(puzzle), Solution::Unique(grid(CLASSIC_SOLUTION)));
}

#[test]
fn diagonals_puzzle_has_its_solution() {
    let puzzle = Puzzle::new_with_grid(grid(DIAGONALS_PUZZLE), diagonals_constraint());
    assert_eq!(solve(puzzle), Solution::Unique(grid(DIAGONALS_SOLUTION)));
}

#[test]
fn diagonals_puzzle_is_ambiguous_without_the_diagonals() {
    let puzzle = Puzzle::new_with_grid(grid(DIAGONALS_PUZZLE), AnyConstraint::Default);
    assert_eq!(is_solvable(puzzle), 2);
}

#[test]
fn general_and_fast_solvers_agree() {
    let fast = solve(Puzzle::new_with_grid(grid(DIAGONALS_PUZZLE), diagonals_constraint()));
    let general = solve_with_optimal(grid(DIAGONALS_PUZZLE), diagonals_constraint());
    assert_eq!(fast, general);
    let nested = AnyConstraint::Composite(vec![AnyConstraint::Composite(vec![
        AnyConstraint::Default,
        AnyConstraint::Diagonals,
    ])]);
    assert_eq!(shape_of(&nested), Shape::Other);
    assert_eq!(solve(Puzzle::new_with_grid(grid(DIAGONALS_PUZZLE), nested)), fast);
}

#[test]
fn shapes_of_the_common_variants() {
    assert_eq!(shape_of(&default_constraint()), Shape::Default);
    assert_eq!(shape_of(&diagonals_constraint()), Shape::Diagonals);
    assert_eq!(shape_of(&knights_move_constraint()), Shape::KnightsMove);
    assert_eq!(shape_of(&kings_move_constraint()), Shape::KingsMove);
    assert_eq!(shape_of(&chess_constraint()), Shape::Chess);
    let swapped = AnyConstraint::Composite(vec![
        AnyConstraint::Default,
        AnyConstraint::KingsMove,
        AnyConstraint::KnightsMove,
    ]);
    assert_eq!(shape_of(&swapped), Shape::Chess);
    assert_eq!(shape_of(&AnyConstraint::Diagonals), Shape::Other);
    let reversed = AnyConstraint::Composite(vec![AnyConstraint::Diagonals, AnyConstraint::Default]);
    assert_eq!(shape_of(&reversed), Shape::Other);
    assert_eq!(shape_of(&AnyConstraint::Composite(vec![])), Shape::Other);
}

#[test]
fn full_grid_classifies_by_every_variant() {
    let full = "2x2;1,2,3,4,3,4,1,2,2,1,4,3,4,3,2,1";
    assert_eq!(is_solvable(Puzzle::new_with_grid(grid(full), default_constraint())), 0);
    assert_eq!(is_solvable(Puzzle::new_with_grid(grid(full), diagonals_constraint())), 1);
    assert_eq!(is_solvable(Puzzle::new_with_grid(grid(full), knights_move_constraint())), 1);
    assert_eq!(is_solvable(Puzzle::new_with_grid(grid(full), kings_move_constraint())), 1);
    assert_eq!(is_solvable(Puzzle::new_with_grid(grid(full), chess_constraint())), 1);
    let kings = "2x2;1,2,3,4,3,4,1,2,2,1,4,3,4,3,2,1";
    let swapped = AnyConstraint::Composite(vec![
        AnyConstraint::Default,
        AnyConstraint::KingsMove,
        AnyConstraint::KnightsMove,
    ]);
    assert_eq!(is_solvable(Puzzle::new_with_grid(grid(kings), swapped)), 1);
}

#[test]
fn one_given_digit_is_ambiguous() {
    let mut g = SudokuGrid::new(3, 3).unwrap();
    g.set_cell(0, 0, 5).unwrap();
    let puzzle = Puzzle::new_with_grid(g, AnyConstraint::Default);
    assert_eq!(solve(puzzle), Solution::Ambiguous);
}

#[test]
fn empty_grid_is_ambiguous() {
    let g = SudokuGrid::new(3, 3).unwrap();
    assert_eq!(is_solvable(Puzzle::new_with_grid(g, AnyConstraint::Default)), 2);
}

#[test]
fn sandwich_without_clues_classifies_like_default() {
    let with = |g: SudokuGrid| {
        AnyConstraint::Composite(vec![
            AnyConstraint::Default,
            AnyConstraint::Sandwich(SandwichConstraint::new(g.size())),
        ])
    };
    for code in [
        "3x3;,,,,,,,,,,,,,,,,,,,,,,,,,,,,,,,,,,,,,,,,,,,,,,,,,,,,,,,,,,,,,,,,,,,,,,,,,,,,,,,,",
        CLASSIC_PUZZLE,
        "2x2;1,,1,,,,,,,,,,,,,",
        "2x2;1,2,3,4,3,4,1,2,2,1,4,3,4,3,2,1",
    ] {
        let plain = is_solvable(Puzzle::new_with_grid(grid(code), AnyConstraint::Default));
        let sandwich = is_solvable(Puzzle::new_with_grid(grid(code), with(grid(code))));
        assert_eq!(plain, sandwich);
    }
    assert_eq!(is_solvable(Puzzle::new_with_grid(grid(CLASSIC_PUZZLE), with(grid(CLASSIC_PUZZLE)))), 0);
}

#[test]
fn contradiction_is_impossible() {
    let puzzle = Puzzle::new_with_grid(grid("2x2;1,,1,,,,,,,,,,,,,"), AnyConstraint::Default);
    assert_eq!(is_solvable(puzzle), 1);
}

#[test]
fn sandwich_clues_make_a_puzzle_unique() {
    let full = grid("2x2;1,2,3,4,3,4,1,2,2,1,4,3,4,3,2,1");
    let constraint = make_sandwich_constraint(AnyConstraint::Default, &full);
    let given = "2x2;1,2,,,,,,,,,4,3,,,,";
    assert_eq!(is_solvable(Puzzle::new_with_grid(grid(given), AnyConstraint::Default)), 2);
    let solution = solve(Puzzle::new_with_grid(grid(given), constraint));
    match solution {
        Solution::Unique(g) => {
            assert!(AnyConstraint::Default.check(&g));
            assert!(SandwichConstraint::new_full(&full).check(&g));
        }
        Solution::Ambiguous => {}
        Solution::Impossible => panic!("the full grid is a solution"),
    }
}
