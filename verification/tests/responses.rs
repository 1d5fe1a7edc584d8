use sudoku_engine::check;
use sudoku_engine::check_response::CheckResponse;
use sudoku_engine::constraint::AnyConstraint;
use sudoku_engine::fill;
use sudoku_engine::fill_response::FillResponse;
use sudoku_engine::generate::chess_constraint;
use sudoku_engine::generate::diagonals_constraint;
use sudoku_engine::generate::make_sandwich_constraint;
use sudoku_engine::puzzle::Puzzle;
use sudoku_engine::sandwich::SandwichConstraint;
use sudoku_variants::SudokuGrid;

fn grid(code: &str) -> SudokuGrid {
    SudokuGrid::parse(code).unwrap()
}

fn puzzle(code: &str, constraint: AnyConstraint) -> Puzzle {
    Puzzle::new_with_grid(grid(code), constraint)
}

#[test]
fn valid_grid_checks_valid() {
    let p = puzzle("2x2;1,2,3,4,3,4,1,2,2,1,4,3,4,3,2,1", AnyConstraint::Default);
    assert!(matches!(check(&p), CheckResponse::Valid));
    let empty = Puzzle::new_with_grid(SudokuGrid::new(3, 3).unwrap(), chess_constraint());
    assert!(matches!(CheckResponse::from_sudoku(&empty), CheckResponse::Valid));
}

#[test]
fn invalid_cells_are_listed_row_by_row() {
    let p = puzzle("2x2;1,,1,,,2,,,,,,,,2,,3", AnyConstraint::Default);
    match check(&p) {
        CheckResponse::Invalid(cells) => assert_eq!(cells, vec![(0, 0), (2, 0), (1, 1), (1, 3)]),
        CheckResponse::Valid => panic!("two ones in a row"),
    }
}

#[test]
fn invalid_cells_of_every_member_are_listed_once() {
    let p = puzzle("2x2;1,,,,,1,,,,,,,,,,4", diagonals_constraint());
    match check(&p) {
        CheckResponse::Invalid(cells) => assert_eq!(cells, vec![(0, 0), (1, 1)]),
        CheckResponse::Valid => panic!("two ones in a block"),
    }
}

#[test]
fn full_valid_grid_is_filled_as_it_is() {
    let code = "2x2;1,2,3,4,3,4,1,2,2,1,4,3,4,3,2,1";
    match fill(puzzle(code, AnyConstraint::Default)) {
        FillResponse::Filled(g) => assert_eq!(g, grid(code)),
        FillResponse::Unsatisfiable => panic!("the grid is full and valid"),
    }
}

#[test]
fn full_invalid_grid_is_unsatisfiable() {
    let code = "2x2;1,2,3,4,3,4,1,2,2,1,4,3,4,3,2,1";
    assert!(matches!(fill(puzzle(code, diagonals_constraint())), FillResponse::Unsatisfiable));
}

#[test]
fn two_equal_digits_in_a_row_are_unsatisfiable() {
    let mut g = SudokuGrid::new(3, 3).unwrap();
    g.set_cell(0, 0, 5).unwrap();
    g.set_cell(4, 0, 5).unwrap();
    let p = Puzzle::new_with_grid(g, AnyConstraint::Default);
    assert!(matches!(FillResponse::from_sudoku(p), FillResponse::Unsatisfiable));
}

#[test]
fn dead_end_is_unsatisfiable() {
    let code = "2x2;1,2,3,,,,,4,,,,,,,,";
    assert!(matches!(fill(puzzle(code, AnyConstraint::Default)), FillResponse::Unsatisfiable));
}

#[test]
fn empty_grid_is_filled() {
    let p = Puzzle::new_with_grid(SudokuGrid::new(3, 3).unwrap(), AnyConstraint::Default);
    match fill(p) {
        FillResponse::Filled(g) => {
            assert!(g.is_full());
            assert!(AnyConstraint::Default.check(&g));
        }
        FillResponse::Unsatisfiable => panic!("an empty grid can be filled"),
    }
}

#[test]
fn filling_keeps_the_given_digits() {
    let code = "3x3;\
        7,4,6,2,8,1,3,5,9,\
        9,1,2,5,3,7,8,4,6,\
        8,5,3,4,9,6,1,7,2,\
        3,7,4,1,2,5,6,9,8,\
        6,2,8,7,4,9,5,1,3,\
         ,9, ,3, ,8, ,2,4,\
         ,6,9, ,7, ,2,3, ,\
         , ,5,9, , ,4, ,7,\
        4, , ,6,5, , ,8, ";
    let given = grid(code);
    match fill(puzzle(code, AnyConstraint::Default)) {
        FillResponse::Filled(g) => {
            assert!(g.is_full());
            assert!(given.is_subset(&g).unwrap());
            assert!(AnyConstraint::Default.check(&g));
            assert_eq!(g.get_cell(0, 5).unwrap(), Some(5));
            assert_eq!(g.get_cell(8, 8).unwrap(), Some(1));
        }
        FillResponse::Unsatisfiable => panic!("the puzzle has a solution"),
    }
}

#[test]
fn filling_meets_sandwich_clues() {
    let full = grid("2x2;1,2,3,4,3,4,1,2,2,1,4,3,4,3,2,1");
    let constraint = make_sandwich_constraint(AnyConstraint::Default, &full);
    match fill(Puzzle::new_with_grid(SudokuGrid::new(2, 2).unwrap(), constraint)) {
        FillResponse::Filled(g) => {
            assert!(AnyConstraint::Default.check(&g));
            let clues = SandwichConstraint::new_full(&g);
            assert_eq!(clues.row_sums(), &vec![Some(5), Some(0), Some(0), Some(5)]);
            assert_eq!(clues.column_sums(), &vec![Some(5), Some(0), Some(0), Some(5)]);
        }
        FillResponse::Unsatisfiable => panic!("the full grid meets its own clues"),
    }
}

#[test]
fn clues_that_no_grid_meets_are_unsatisfiable() {
    let clues = SandwichConstraint::with_sums(vec![None; 4], vec![Some(6), None, None, None]);
    let constraint = AnyConstraint::Composite(vec![AnyConstraint::Default, AnyConstraint::Sandwich(clues)]);
    let p = Puzzle::new_with_grid(SudokuGrid::new(2, 2).unwrap(), constraint);
    assert!(matches!(fill(p), FillResponse::Unsatisfiable));
}
