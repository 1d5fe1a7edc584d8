use sudoku_engine::constraint::composite_of;
use sudoku_engine::constraint::AnyConstraint;
use sudoku_engine::constraint::AnyReduction;
use sudoku_engine::constraint::AnyRevertInfo;
use sudoku_engine::sandwich::ReductionError;
use sudoku_engine::sandwich::SandwichConstraint;
use sudoku_engine::sandwich::SandwichReduction;
use sudoku_variants::SudokuGrid;

fn grid(code: &str) -> SudokuGrid {
    SudokuGrid::parse(code).unwrap()
}

fn valid_4() -> SudokuGrid {
    grid("2x2;1,2,3,4,3,4,1,2,2,1,4,3,4,3,2,1")
}

#[test]
fn default_accepts_valid_grid() {
    assert!(AnyConstraint::Default.check(&valid_4()));
}

#[test]
fn default_rejects_duplicate_in_row() {
    let g = grid("2x2;1,,1,,,,,,,,,,,,,");
    assert!(!AnyConstraint::Default.check(&g));
    assert!(!AnyConstraint::Default.check_cell(&g, 0, 0));
    assert!(!AnyConstraint::Default.check_cell(&g, 2, 0));
    assert!(AnyConstraint::Default.check_cell(&g, 1, 0));
}

#[test]
fn default_rejects_duplicate_in_column_and_block() {
    let column = grid("2x2;1,,,,,,,,1,,,,,,,");
    assert!(!AnyConstraint::Default.check(&column));
    let block = grid("2x2;1,,,,,1,,,,,,,,,,");
    assert!(!AnyConstraint::Default.check(&block));
    assert!(!AnyConstraint::Default.check_cell(&block, 1, 1));
}

#[test]
fn default_check_number_looks_at_row_column_and_block() {
    let g = grid("2x2;1,,,,,,,,,,,,,,,");
    let c = AnyConstraint::Default;
    assert!(!c.check_number(&g, 3, 0, 1));
    assert!(!c.check_number(&g, 0, 3, 1));
    assert!(!c.check_number(&g, 1, 1, 1));
    assert!(c.check_number(&g, 2, 2, 1));
    assert!(c.check_number(&g, 3, 0, 2));
    assert!(c.check_number(&g, 0, 0, 1));
}

#[test]
fn default_groups_are_rows_columns_and_blocks() {
    let g = SudokuGrid::new(2, 1).unwrap();
    let groups = AnyConstraint::Default.get_groups(&g);
    assert_eq!(
        groups,
        vec![
            vec![(0, 0), (1, 0)],
            vec![(0, 1), (1, 1)],
            vec![(0, 0), (0, 1)],
            vec![(1, 0), (1, 1)],
            vec![(0, 0), (1, 0)],
            vec![(0, 1), (1, 1)],
        ]
    );
}

#[test]
fn default_groups_of_four_by_four_blocks() {
    let g = SudokuGrid::new(2, 2).unwrap();
    let groups = AnyConstraint::Default.get_groups(&g);
    assert_eq!(groups.len(), 12);
    assert_eq!(groups[8], vec![(0, 0), (1, 0), (0, 1), (1, 1)]);
    assert_eq!(groups[9], vec![(2, 0), (3, 0), (2, 1), (3, 1)]);
    assert_eq!(groups[10], vec![(0, 2), (1, 2), (0, 3), (1, 3)]);
    assert_eq!(groups[11], vec![(2, 2), (3, 2), (2, 3), (3, 3)]);
}

#[test]
fn diagonals_check_both_diagonals() {
    let c = AnyConstraint::Diagonals;
    let main = grid("2x2;1,,,,,,,,,,,,,,,1");
    assert!(!c.check(&main));
    assert!(!c.check_cell(&main, 3, 3));
    assert!(!c.check_number(&main, 1, 1, 1));
    assert!(c.check_number(&main, 1, 0, 1));
    let anti = grid("2x2;,,,2,,,,,,,,,2,,,");
    assert!(!c.check(&anti));
    assert!(!c.check_number(&anti, 1, 2, 2));
    assert!(c.check_number(&anti, 1, 1, 2));
    assert!(c.check(&grid("2x2;1,,,2,,,,,,,,,3,,,4")));
}

#[test]
fn diagonals_groups_are_the_two_diagonals() {
    let g = SudokuGrid::new(2, 2).unwrap();
    let groups = AnyConstraint::Diagonals.get_groups(&g);
    assert_eq!(
        groups,
        vec![vec![(0, 0), (1, 1), (2, 2), (3, 3)], vec![(0, 3), (1, 2), (2, 1), (3, 0)]]
    );
}

#[test]
fn knights_move_checks_cells_a_knights_move_away() {
    let c = AnyConstraint::KnightsMove;
    let g = grid("2x2;1,,,,,,,,,,,,,,,");
    assert!(!c.check_number(&g, 1, 2, 1));
    assert!(!c.check_number(&g, 2, 1, 1));
    assert!(c.check_number(&g, 1, 1, 1));
    assert!(c.check_number(&g, 2, 2, 1));
    assert!(c.check(&g));
    let bad = grid("2x2;1,,,,,,1,,,,,,,,,");
    assert!(!c.check(&bad));
    assert!(!c.check_cell(&bad, 2, 1));
    assert!(c.check_cell(&bad, 1, 1));
    assert!(c.get_groups(&g).is_empty());
}

#[test]
fn kings_move_checks_cells_that_touch_at_a_corner() {
    let c = AnyConstraint::KingsMove;
    let g = grid("2x2;,,,,,1,,,,,,,,,,");
    assert!(!c.check_number(&g, 0, 0, 1));
    assert!(!c.check_number(&g, 2, 2, 1));
    assert!(!c.check_number(&g, 2, 0, 1));
    assert!(c.check_number(&g, 1, 0, 1));
    assert!(c.check_number(&g, 3, 3, 1));
    assert!(c.check(&g));
    let bad = grid("2x2;,,,,,1,,,,,1,,,,,");
    assert!(!c.check(&bad));
    assert!(!c.check_cell(&bad, 2, 2));
    assert!(c.check_cell(&bad, 0, 0));
    assert!(c.get_groups(&g).is_empty());
}

#[test]
fn composite_check_is_conjunction_on_nested_trees() {
    let on_diagonal = grid("2x2;1,,,,,,,,,,,,,,,1");
    let in_row = grid("2x2;1,,1,,,,,,,,,,,,,");
    let fine = valid_4();
    let tree = || {
        AnyConstraint::Composite(vec![
            AnyConstraint::KnightsMove,
            AnyConstraint::Composite(vec![
                AnyConstraint::Default,
                AnyConstraint::Composite(vec![
                    AnyConstraint::KingsMove,
                    AnyConstraint::Composite(vec![AnyConstraint::Diagonals]),
                ]),
            ]),
        ])
    };
    assert!(AnyConstraint::Default.check(&fine));
    assert!(!AnyConstraint::KnightsMove.check(&fine));
    for g in [&on_diagonal, &in_row, &fine] {
        let parts = AnyConstraint::KnightsMove.check(g)
            && AnyConstraint::Default.check(g)
            && AnyConstraint::KingsMove.check(g)
            && AnyConstraint::Diagonals.check(g);
        assert_eq!(tree().check(g), parts);
    }
    assert!(!tree().check(&on_diagonal));
    assert!(!tree().check(&in_row));
    assert!(AnyConstraint::Composite(vec![]).check(&in_row));
    let plain = grid("2x2;1,2,,,,,,,,,,,,,,3");
    assert!(tree().check(&plain));
    assert!(!tree().check_cell(&on_diagonal, 3, 3));
    assert!(tree().check_cell(&on_diagonal, 1, 1));
    assert!(!tree().check_number(&on_diagonal, 2, 2, 1));
    assert!(tree().check_number(&on_diagonal, 2, 2, 3));
}

#[test]
fn composite_groups_are_joined_in_order() {
    let g = SudokuGrid::new(2, 1).unwrap();
    let c = AnyConstraint::Composite(vec![
        AnyConstraint::Diagonals,
        AnyConstraint::KingsMove,
        AnyConstraint::Default,
    ]);
    let groups = c.get_groups(&g);
    assert_eq!(groups.len(), 8);
    assert_eq!(groups[0], vec![(0, 0), (1, 1)]);
    assert_eq!(groups[1], vec![(0, 1), (1, 0)]);
    assert_eq!(groups[2], vec![(0, 0), (1, 0)]);
}

#[test]
fn composite_of_flattens_lists() {
    let inner = composite_of(AnyConstraint::KnightsMove, AnyConstraint::KingsMove);
    let all = composite_of(AnyConstraint::Default, inner);
    match all {
        AnyConstraint::Composite(members) => {
            assert_eq!(members.len(), 3);
            assert!(matches!(members[0], AnyConstraint::Default));
            assert!(matches!(members[1], AnyConstraint::KnightsMove));
            assert!(matches!(members[2], AnyConstraint::KingsMove));
        }
        _ => panic!("not a list"),
    }
}

#[test]
fn stateless_constraints_offer_and_take_no_reduction() {
    let g = valid_4();
    let reduction = AnyReduction::Sandwich(SandwichReduction::RemoveRow { row: 0 });
    for mut c in [
        AnyConstraint::Default,
        AnyConstraint::Diagonals,
        AnyConstraint::KnightsMove,
        AnyConstraint::KingsMove,
    ] {
        assert!(c.list_reductions(&g).is_empty());
        assert_eq!(c.reduce(&g, &reduction).err(), Some(ReductionError::InvalidReduction));
    }
}

#[test]
fn composite_reductions_carry_the_index() {
    let g = valid_4();
    let clues = SandwichConstraint::with_sums(vec![None, Some(3), None, None], vec![Some(5), None, None, None]);
    let c = AnyConstraint::Composite(vec![
        AnyConstraint::Default,
        AnyConstraint::Composite(vec![AnyConstraint::Sandwich(clues)]),
    ]);
    let reductions = c.list_reductions(&g);
    assert_eq!(reductions.len(), 2);
    match &reductions[0] {
        AnyReduction::Composite { index: 1, reduction } => match &**reduction {
            AnyReduction::Composite { index: 0, reduction } => match &**reduction {
                AnyReduction::Sandwich(SandwichReduction::RemoveColumn { column: 1 }) => {}
                _ => panic!("wrong removal"),
            },
            _ => panic!("wrong inner index"),
        },
        _ => panic!("wrong outer index"),
    }
    match &reductions[1] {
        AnyReduction::Composite { index: 1, reduction } => match &**reduction {
            AnyReduction::Composite { index: 0, reduction } => match &**reduction {
                AnyReduction::Sandwich(SandwichReduction::RemoveRow { row: 0 }) => {}
                _ => panic!("wrong removal"),
            },
            _ => panic!("wrong inner index"),
        },
        _ => panic!("wrong outer index"),
    }
}

fn sums_of(c: &AnyConstraint) -> (Vec<Option<usize>>, Vec<Option<usize>>) {
    match c {
        AnyConstraint::Composite(members) => match &members[1] {
            AnyConstraint::Sandwich(clues) => (clues.column_sums().clone(), clues.row_sums().clone()),
            _ => panic!("no clues"),
        },
        _ => panic!("no list"),
    }
}

#[test]
fn revert_restores_what_reduce_took() {
    let g = valid_4();
    let clues = SandwichConstraint::with_sums(vec![Some(0), Some(3), None, Some(7)], vec![Some(5), None, Some(0), None]);
    let mut c = AnyConstraint::Composite(vec![AnyConstraint::Default, AnyConstraint::Sandwich(clues)]);
    let before = sums_of(&c);
    let reductions = c.list_reductions(&g);
    assert_eq!(reductions.len(), 5);
    for reduction in &reductions {
        let info = c.reduce(&g, reduction).unwrap();
        assert_ne!(sums_of(&c), before);
        c.revert(&g, reduction, info);
        assert_eq!(sums_of(&c), before);
    }
}

#[test]
fn reduce_hands_back_the_clue() {
    let g = valid_4();
    let clues = SandwichConstraint::with_sums(vec![None, Some(3), None, None], vec![None; 4]);
    let mut c = AnyConstraint::Composite(vec![AnyConstraint::Default, AnyConstraint::Sandwich(clues)]);
    let reduction = AnyReduction::Composite {
        index: 1,
        reduction: Box::new(AnyReduction::Sandwich(SandwichReduction::RemoveColumn { column: 1 })),
    };
    match c.reduce(&g, &reduction) {
        Ok(AnyRevertInfo::Composite { index: 1, revert_info }) => match *revert_info {
            AnyRevertInfo::Sandwich(3) => {}
            _ => panic!("wrong clue"),
        },
        _ => panic!("not reduced"),
    }
    assert_eq!(sums_of(&c).0, vec![None, None, None, None]);
    assert_eq!(c.reduce(&g, &reduction).err(), Some(ReductionError::InvalidReduction));
}

#[test]
fn reduce_refuses_what_does_not_fit() {
    let g = valid_4();
    let clues = SandwichConstraint::with_sums(vec![Some(1); 4], vec![Some(1); 4]);
    let mut c = AnyConstraint::Composite(vec![AnyConstraint::Default, AnyConstraint::Sandwich(clues)]);
    let before = sums_of(&c);
    let beyond = AnyReduction::Composite {
        index: 2,
        reduction: Box::new(AnyReduction::Sandwich(SandwichReduction::RemoveRow { row: 0 })),
    };
    assert_eq!(c.reduce(&g, &beyond).err(), Some(ReductionError::InvalidReduction));
    let stateless = AnyReduction::Composite {
        index: 0,
        reduction: Box::new(AnyReduction::Sandwich(SandwichReduction::RemoveRow { row: 0 })),
    };
    assert_eq!(c.reduce(&g, &stateless).err(), Some(ReductionError::InvalidReduction));
    let kind = AnyReduction::Sandwich(SandwichReduction::RemoveRow { row: 0 });
    assert_eq!(c.reduce(&g, &kind).err(), Some(ReductionError::InvalidReduction));
    let line = AnyReduction::Composite {
        index: 1,
        reduction: Box::new(AnyReduction::Sandwich(SandwichReduction::RemoveRow { row: 4 })),
    };
    assert_eq!(c.reduce(&g, &line).err(), Some(ReductionError::InvalidReduction));
    assert_eq!(sums_of(&c), before);
}

#[test]
fn clone_keeps_the_constraint() {
    let clues = SandwichConstraint::with_sums(vec![Some(2), None], vec![None, Some(0)]);
    let c = AnyConstraint::Composite(vec![AnyConstraint::Default, AnyConstraint::Sandwich(clues)]);
    let copy = c.clone();
    assert_eq!(sums_of(&copy), sums_of(&c));
}
