use sudoku_engine::sandwich::ReductionError;
use sudoku_engine::sandwich::SandwichConstraint;
use sudoku_engine::sandwich::SandwichReduction;
use sudoku_variants::SudokuGrid;

fn grid(code: &str) -> SudokuGrid {
    SudokuGrid::parse(code).unwrap()
}

#[test]
fn new_has_no_clues() {
    let c = SandwichConstraint::new(4);
    assert_eq!(c.column_sums(), &vec![None; 4]);
    assert_eq!(c.row_sums(), &vec![None; 4]);
    assert!(c.list_reductions(&SudokuGrid::new(2, 2).unwrap()).is_empty());
}

#[test]
fn new_full_sums_between_the_buns() {
    let g = grid("2x2;1,2,3,4,3,4,1,2,2,1,4,3,4,3,2,1");
    let c = SandwichConstraint::new_full(&g);
    assert_eq!(c.row_sums(), &vec![Some(5), Some(0), Some(0), Some(5)]);
    assert_eq!(c.column_sums(), &vec![Some(5), Some(0), Some(0), Some(5)]);
}

#[test]
fn new_full_of_nine_digits() {
    let g = grid(
        "3x3;\
        7,4,6,2,8,1,3,5,9,\
        9,1,2,5,3,7,8,4,6,\
        8,5,3,4,9,6,1,7,2,\
        3,7,4,1,2,5,6,9,8,\
        6,2,8,7,4,9,5,1,3,\
        5,9,1,3,6,8,7,2,4,\
        1,6,9,8,7,4,2,3,5,\
        2,8,5,9,1,3,4,6,7,\
        4,3,7,6,5,2,9,8,1",
    );
    let c = SandwichConstraint::new_full(&g);
    assert_eq!(
        c.row_sums(),
        &vec![Some(8), Some(0), Some(6), Some(13), Some(5), Some(0), Some(6), Some(0), Some(8)]
    );
    assert_eq!(c.column_sums()[0], Some(22));
    assert_eq!(c.column_sums()[8], Some(35));
}

#[test]
fn new_full_leaves_out_lines_that_cannot_be_summed() {
    let g = grid("2x2;1,,3,4,,,,,,,,,4,3,2,1");
    let c = SandwichConstraint::new_full(&g);
    assert_eq!(c.row_sums(), &vec![None, None, None, Some(5)]);
    assert_eq!(c.column_sums(), &vec![None, None, None, None]);
}

#[test]
fn a_clue_is_judged_once_the_line_is_full() {
    let c = SandwichConstraint::with_sums(vec![None; 4], vec![Some(5), None, None, None]);
    let open = grid("2x2;1,,,4,,,,,,,,,,,,");
    assert!(c.check_number(&open, 1, 0, 2));
    assert!(c.check_number(&open, 1, 0, 3));
    let last = grid("2x2;1,2,,4,,,,,,,,,,,,");
    assert!(c.check_number(&last, 2, 0, 3));
    assert!(!c.check_number(&last, 2, 0, 2));
    let wrong = SandwichConstraint::with_sums(vec![None; 4], vec![Some(4), None, None, None]);
    assert!(!wrong.check_number(&last, 2, 0, 3));
    assert!(wrong.check_number(&last, 2, 1, 3));
}

#[test]
fn a_full_line_without_two_buns_misses_its_clue() {
    let c = SandwichConstraint::with_sums(vec![None; 4], vec![Some(0), None, None, None]);
    let g = grid("2x2;2,3,2,,,,,,,,,,,,,");
    assert!(!c.check_number(&g, 3, 0, 3));
    assert!(!c.check_number(&g, 3, 0, 1));
    let buns = grid("2x2;1,4,2,,,,,,,,,,,,,");
    assert!(c.check_number(&buns, 3, 0, 3));
}

#[test]
fn columns_are_judged_like_rows() {
    let c = SandwichConstraint::with_sums(vec![None, Some(3), None, None], vec![None; 4]);
    let g = grid("2x2;,4,,,,3,,,,1,,,,,,");
    assert!(c.check_number(&g, 1, 3, 2));
    let other = grid("2x2;,4,,,,2,,,,1,,,,,,");
    assert!(!other.is_full());
    assert!(!c.check_number(&other, 1, 3, 3));
    assert!(c.check_number(&other, 0, 3, 3));
}

#[test]
fn check_and_check_cell_go_by_the_digits_in_place() {
    let g = grid("2x2;1,2,3,4,3,4,1,2,2,1,4,3,4,3,2,1");
    let right = SandwichConstraint::new_full(&g);
    assert!(right.check(&g));
    let wrong = SandwichConstraint::with_sums(vec![None, None, Some(1), None], vec![None; 4]);
    assert!(!wrong.check(&g));
    assert!(!wrong.check_cell(&g, 2, 0));
    assert!(!wrong.check_cell(&g, 2, 3));
    assert!(wrong.check_cell(&g, 1, 0));
    let partial = grid("2x2;1,2,3,4,3,4,,2,2,1,4,3,4,3,2,1");
    assert!(wrong.check(&partial));
    assert!(right.get_groups(&g).is_empty());
}

#[test]
fn reductions_list_the_given_clues_columns_first() {
    let c = SandwichConstraint::with_sums(vec![None, Some(3), Some(0)], vec![Some(5), None, None]);
    let g = SudokuGrid::new(3, 1).unwrap();
    assert_eq!(
        c.list_reductions(&g),
        vec![
            SandwichReduction::RemoveColumn { column: 1 },
            SandwichReduction::RemoveColumn { column: 2 },
            SandwichReduction::RemoveRow { row: 0 },
        ]
    );
}

#[test]
fn reduce_and_revert_a_clue() {
    let g = SudokuGrid::new(2, 2).unwrap();
    let mut c = SandwichConstraint::with_sums(vec![None, Some(3), None, None], vec![Some(5), None, None, None]);
    let column = SandwichReduction::RemoveColumn { column: 1 };
    let row = SandwichReduction::RemoveRow { row: 0 };
    assert_eq!(c.reduce(&g, &column), Ok(3));
    assert_eq!(c.column_sums(), &vec![None; 4]);
    assert_eq!(c.reduce(&g, &column), Err(ReductionError::InvalidReduction));
    assert_eq!(c.reduce(&g, &row), Ok(5));
    assert_eq!(c.row_sums(), &vec![None; 4]);
    assert_eq!(c.reduce(&g, &SandwichReduction::RemoveRow { row: 7 }), Err(ReductionError::InvalidReduction));
    c.revert(&g, &row, 5);
    c.revert(&g, &column, 3);
    assert_eq!(c.column_sums(), &vec![None, Some(3), None, None]);
    assert_eq!(c.row_sums(), &vec![Some(5), None, None, None]);
}
