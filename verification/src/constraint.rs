//! Constraints that can be combined at run time.
//!
//! A constraint is one of the four rules without a state, a set of sandwich
//! clues, or a list of constraints that must all hold. A clue can be given up
//! and put back: a reduction says which one, and what comes back from it
//! says how to undo it. In a list both carry the position of the member they
//! are meant for.

use crate::classic;
use crate::classic::groups_model;
use crate::classic::Classic;
use crate::classic::Group;
use crate::grid::cell_at;
use crate::grid::extends;
use crate::grid::grid_digits;
use crate::grid::in_grid;
use crate::grid::well_formed;
use crate::sandwich::ReductionError;
use crate::sandwich::SandwichConstraint;
use crate::sandwich::SandwichModel;
use crate::sandwich::SandwichReduction;
use sudoku_variants::constraint::Constraint;
use sudoku_variants::SudokuGrid;
use vstd::prelude::*;

verus! {

/// A reduction of an [`AnyConstraint`].
pub enum AnyReduction {
    /// The removal of a sandwich clue.
    Sandwich(SandwichReduction),
    /// A reduction of one member of a list.
    Composite {
        /// The position of the member in the list.
        index: usize,
        /// The reduction of that member.
        reduction: Box<AnyReduction>,
    },
}

/// What undoes a reduction of an [`AnyConstraint`].
pub enum AnyRevertInfo {
    /// The sandwich clue that was removed.
    Sandwich(usize),
    /// What undoes the reduction of one member of a list.
    Composite {
        /// The position of the member in the list.
        index: usize,
        /// What undoes the reduction of that member.
        revert_info: Box<AnyRevertInfo>,
    },
}

impl AnyReduction {
    /// A copy of the reduction.
    pub fn copy(&self) -> (reduction: AnyReduction)
        ensures
            reduction == *self,
        decreases self,
    {
        match self {
            AnyReduction::Sandwich(reduction) => AnyReduction::Sandwich(*reduction),
            AnyReduction::Composite { index, reduction } => AnyReduction::Composite {
                index: *index,
                reduction: Box::new(reduction.copy()),
            },
        }
    }
}

impl Clone for AnyReduction {
    fn clone(&self) -> (reduction: AnyReduction)
        ensures
            reduction == *self,
    {
        self.copy()
    }
}

/// A constraint whose kind is known only at run time.
pub enum AnyConstraint {
    /// No digit twice in a row, a column or a block.
    Default,
    /// No digit twice on either of the two diagonals.
    Diagonals,
    /// No digit twice a knight's move apart.
    KnightsMove,
    /// No digit twice in diagonally adjacent cells.
    KingsMove,
    /// The sums between the buns of rows and columns.
    Sandwich(SandwichConstraint),
    /// All of the listed constraints together.
    Composite(Vec<AnyConstraint>),
}

/// A constraint as a plain value.
pub enum ConstraintModel {
    Default,
    Diagonals,
    KnightsMove,
    KingsMove,
    Sandwich(SandwichModel),
    Composite(Seq<ConstraintModel>),
}

impl View for AnyConstraint {
    type V = ConstraintModel;

    open spec fn view(&self) -> ConstraintModel
        decreases self,
    {
        match self {
            AnyConstraint::Default => ConstraintModel::Default,
            AnyConstraint::Diagonals => ConstraintModel::Diagonals,
            AnyConstraint::KnightsMove => ConstraintModel::KnightsMove,
            AnyConstraint::KingsMove => ConstraintModel::KingsMove,
            AnyConstraint::Sandwich(clues) => ConstraintModel::Sandwich(clues@),
            AnyConstraint::Composite(members) => ConstraintModel::Composite(
                Seq::new(
                    members@.len(),
                    |i: int|
                        if 0 <= i < members@.len() {
                            members@[i]@
                        } else {
                            ConstraintModel::Default
                        },
                ),
            ),
        }
    }
}

/// The members of a list as plain values.
pub open spec fn members_model(members: Seq<AnyConstraint>) -> Seq<ConstraintModel> {
    Seq::new(members.len(), |i: int| members[i]@)
}

/// The view of a list is the list of the views of its members.
pub proof fn lemma_composite_view(members: Vec<AnyConstraint>)
    ensures
        AnyConstraint::Composite(members)@ == ConstraintModel::Composite(members_model(members@)),
{
    assert(AnyConstraint::Composite(members)@->Composite_0 =~= members_model(members@));
}

impl ConstraintModel {
    /// Whether the constraint lets the number stand in the cell. A list lets
    /// it stand if every member does.
    pub open spec fn allows(self, grid: SudokuGrid, column: usize, row: usize, number: usize) -> bool
        decreases self,
    {
        match self {
            ConstraintModel::Default => classic::allows(Classic::Default, grid, column, row, number),
            ConstraintModel::Diagonals => classic::allows(
                Classic::Diagonals,
                grid,
                column,
                row,
                number,
            ),
            ConstraintModel::KnightsMove => classic::allows(
                Classic::KnightsMove,
                grid,
                column,
                row,
                number,
            ),
            ConstraintModel::KingsMove => classic::allows(
                Classic::KingsMove,
                grid,
                column,
                row,
                number,
            ),
            ConstraintModel::Sandwich(clues) => clues.allows(grid, column, row, number),
            ConstraintModel::Composite(members) => forall|i: int|
                0 <= i < members.len() ==> (#[trigger] members[i]).allows(
                    grid,
                    column,
                    row,
                    number,
                ),
        }
    }

    /// Whether the constraint accepts what the cell holds. A list accepts it
    /// if every member does.
    pub open spec fn cell_fits(self, grid: SudokuGrid, column: usize, row: usize) -> bool
        decreases self,
    {
        match self {
            ConstraintModel::Default => classic::cell_fits(Classic::Default, grid, column, row),
            ConstraintModel::Diagonals => classic::cell_fits(Classic::Diagonals, grid, column, row),
            ConstraintModel::KnightsMove => classic::cell_fits(
                Classic::KnightsMove,
                grid,
                column,
                row,
            ),
            ConstraintModel::KingsMove => classic::cell_fits(Classic::KingsMove, grid, column, row),
            ConstraintModel::Sandwich(clues) => clues.cell_fits(grid, column, row),
            ConstraintModel::Composite(members) => forall|i: int|
                0 <= i < members.len() ==> (#[trigger] members[i]).cell_fits(grid, column, row),
        }
    }

    /// Whether the constraint accepts the grid. A list accepts it if every
    /// member does.
    pub open spec fn grid_fits(self, grid: SudokuGrid) -> bool
        decreases self,
    {
        match self {
            ConstraintModel::Default => classic::grid_fits(Classic::Default, grid),
            ConstraintModel::Diagonals => classic::grid_fits(Classic::Diagonals, grid),
            ConstraintModel::KnightsMove => classic::grid_fits(Classic::KnightsMove, grid),
            ConstraintModel::KingsMove => classic::grid_fits(Classic::KingsMove, grid),
            ConstraintModel::Sandwich(clues) => clues.grid_fits(grid),
            ConstraintModel::Composite(members) => forall|i: int|
                0 <= i < members.len() ==> (#[trigger] members[i]).grid_fits(grid),
        }
    }

    /// The reductions that the constraint offers: the removal of each
    /// sandwich clue that is given. A list offers those of all its members,
    /// in the order of the members.
    pub open spec fn reductions(self) -> Seq<AnyReduction>
        decreases self, 0int,
    {
        match self {
            ConstraintModel::Sandwich(clues) => clues.reductions().map_values(
                |reduction: SandwichReduction| AnyReduction::Sandwich(reduction),
            ),
            ConstraintModel::Composite(members) => joined_reductions(members, members.len() as int),
            _ => Seq::empty(),
        }
    }

    /// Whether the constraint can give up what the reduction names.
    pub open spec fn can_reduce(self, reduction: AnyReduction) -> bool
        decreases self,
    {
        match self {
            ConstraintModel::Sandwich(clues) => reduction is Sandwich && clues.can_reduce(
                reduction->Sandwich_0,
            ),
            ConstraintModel::Composite(members) => reduction is Composite && reduction->index
                < members.len() && members[reduction->index as int].can_reduce(
                *reduction->reduction,
            ),
            _ => false,
        }
    }

    /// The constraint after the reduction.
    pub open spec fn reduced(self, reduction: AnyReduction) -> ConstraintModel
        decreases self,
    {
        match self {
            ConstraintModel::Sandwich(clues) => if reduction is Sandwich {
                ConstraintModel::Sandwich(clues.with_clue(reduction->Sandwich_0, None))
            } else {
                self
            },
            ConstraintModel::Composite(members) => if reduction is Composite && reduction->index
                < members.len() {
                ConstraintModel::Composite(
                    members.update(
                        reduction->index as int,
                        members[reduction->index as int].reduced(*reduction->reduction),
                    ),
                )
            } else {
                self
            },
            _ => self,
        }
    }

    /// What undoes the reduction.
    pub open spec fn revert_info(self, reduction: AnyReduction) -> AnyRevertInfo
        decreases self,
    {
        match self {
            ConstraintModel::Sandwich(clues) => if reduction is Sandwich {
                AnyRevertInfo::Sandwich(clues.removed(reduction->Sandwich_0))
            } else {
                AnyRevertInfo::Sandwich(0)
            },
            ConstraintModel::Composite(members) => if reduction is Composite && reduction->index
                < members.len() {
                AnyRevertInfo::Composite {
                    index: reduction->index,
                    revert_info: Box::new(
                        members[reduction->index as int].revert_info(*reduction->reduction),
                    ),
                }
            } else {
                AnyRevertInfo::Sandwich(0)
            },
            _ => AnyRevertInfo::Sandwich(0),
        }
    }

    /// Whether the reduction and what is to undo it belong together and to
    /// the constraint: both are for clues and name a line that the clues
    /// reach, or both are for the same member of a list and belong to it.
    pub open spec fn can_revert(self, reduction: AnyReduction, revert_info: AnyRevertInfo) -> bool
        decreases self,
    {
        match self {
            ConstraintModel::Sandwich(clues) => reduction is Sandwich && revert_info is Sandwich
                && clues.reaches(reduction->Sandwich_0),
            ConstraintModel::Composite(members) => reduction is Composite && revert_info
                is Composite && reduction->index == revert_info->index && reduction->index
                < members.len() && members[reduction->index as int].can_revert(
                *reduction->reduction,
                *revert_info->revert_info,
            ),
            _ => false,
        }
    }

    /// The constraint after the reduction was undone.
    pub open spec fn reverted(self, reduction: AnyReduction, revert_info: AnyRevertInfo) -> ConstraintModel
        decreases self,
    {
        match self {
            ConstraintModel::Sandwich(clues) => if reduction is Sandwich && revert_info is Sandwich {
                ConstraintModel::Sandwich(
                    clues.with_clue(reduction->Sandwich_0, Some(revert_info->Sandwich_0)),
                )
            } else {
                self
            },
            ConstraintModel::Composite(members) => if reduction is Composite && revert_info
                is Composite && reduction->index < members.len() {
                ConstraintModel::Composite(
                    members.update(
                        reduction->index as int,
                        members[reduction->index as int].reverted(
                            *reduction->reduction,
                            *revert_info->revert_info,
                        ),
                    ),
                )
            } else {
                self
            },
            _ => self,
        }
    }

    /// The groups of the constraint: sets of cells that may not hold a digit
    /// twice. A list has the groups of all its members, in the order of the
    /// members.
    pub open spec fn groups(self, grid: SudokuGrid) -> Seq<Seq<(usize, usize)>>
        decreases self, 0int,
    {
        match self {
            ConstraintModel::Default => classic::groups(Classic::Default, grid),
            ConstraintModel::Diagonals => classic::groups(Classic::Diagonals, grid),
            ConstraintModel::KnightsMove => Seq::empty(),
            ConstraintModel::KingsMove => Seq::empty(),
            ConstraintModel::Sandwich(_) => Seq::empty(),
            ConstraintModel::Composite(members) => joined_groups(
                members,
                grid,
                members.len() as int,
            ),
        }
    }
}

/// The reductions of the first `upto` constraints of a list, each with the
/// position of its constraint, one constraint after the other.
pub open spec fn joined_reductions(members: Seq<ConstraintModel>, upto: int) -> Seq<AnyReduction>
    decreases members, upto,
{
    if 0 < upto <= members.len() {
        joined_reductions(members, upto - 1) + members[upto - 1].reductions().map_values(
            |reduction: AnyReduction|
                AnyReduction::Composite { index: (upto - 1) as usize, reduction: Box::new(reduction) },
        )
    } else {
        Seq::empty()
    }
}

/// The groups of the first `upto` constraints of a list, one constraint after
/// the other.
pub open spec fn joined_groups(members: Seq<ConstraintModel>, grid: SudokuGrid, upto: int) -> Seq<Seq<(usize, usize)>>
    decreases members, upto,
{
    if 0 < upto <= members.len() {
        joined_groups(members, grid, upto - 1) + members[upto - 1].groups(grid)
    } else {
        Seq::empty()
    }
}

impl AnyConstraint {
    /// Decides whether the constraint accepts the grid.
    pub fn check(&self, grid: &SudokuGrid) -> (ok: bool)
        requires
            well_formed(*grid),
        ensures
            ok == self@.grid_fits(*grid),
        decreases self,
    {
        match self {
            AnyConstraint::Default => classic::default_check(grid),
            AnyConstraint::Diagonals => classic::diagonals_check(grid),
            AnyConstraint::KnightsMove => classic::knights_move_check(grid),
            AnyConstraint::KingsMove => classic::kings_move_check(grid),
            AnyConstraint::Sandwich(clues) => clues.check(grid),
            AnyConstraint::Composite(members) => {
                proof {
                    lemma_composite_view(*members);
                }
                let mut i: usize = 0;
                while i < members.len()
                    invariant
                        well_formed(*grid),
                        i <= members.len(),
                        *self == AnyConstraint::Composite(*members),
                        self@ == ConstraintModel::Composite(members_model(members@)),
                        forall|j: int| 0 <= j < i ==> (#[trigger] members_model(members@)[j]).grid_fits(*grid),
                    decreases members.len() - i,
                {
                    proof {
                        assert(decreases_to!(*members => members[i as int]));
                    }
                    if !members[i].check(grid) {
                        assert(!members_model(members@)[i as int].grid_fits(*grid));
                        assert(self@->Composite_0 == members_model(members@));
                        return false;
                    }
                    i += 1;
                }
                true
            },
        }
    }

    /// Decides whether the constraint accepts what the cell holds.
    pub fn check_cell(&self, grid: &SudokuGrid, column: usize, row: usize) -> (ok: bool)
        requires
            well_formed(*grid),
            in_grid(*grid, column, row),
        ensures
            ok == self@.cell_fits(*grid, column, row),
        decreases self,
    {
        match self {
            AnyConstraint::Default => classic::default_check_cell(grid, column, row),
            AnyConstraint::Diagonals => classic::diagonals_check_cell(grid, column, row),
            AnyConstraint::KnightsMove => classic::knights_move_check_cell(grid, column, row),
            AnyConstraint::KingsMove => classic::kings_move_check_cell(grid, column, row),
            AnyConstraint::Sandwich(clues) => clues.check_cell(grid, column, row),
            AnyConstraint::Composite(members) => {
                proof {
                    lemma_composite_view(*members);
                }
                let mut i: usize = 0;
                while i < members.len()
                    invariant
                        well_formed(*grid),
                        in_grid(*grid, column, row),
                        i <= members.len(),
                        *self == AnyConstraint::Composite(*members),
                        self@ == ConstraintModel::Composite(members_model(members@)),
                        forall|j: int| 0 <= j < i ==> (#[trigger] members_model(members@)[j]).cell_fits(*grid, column, row),
                    decreases members.len() - i,
                {
                    proof {
                        assert(decreases_to!(*members => members[i as int]));
                    }
                    if !members[i].check_cell(grid, column, row) {
                        assert(!members_model(members@)[i as int].cell_fits(*grid, column, row));
                        assert(self@->Composite_0 == members_model(members@));
                        return false;
                    }
                    i += 1;
                }
                true
            },
        }
    }

    /// Decides whether the constraint lets the number stand in the cell.
    pub fn check_number(&self, grid: &SudokuGrid, column: usize, row: usize, number: usize) -> (ok: bool)
        requires
            well_formed(*grid),
            in_grid(*grid, column, row),
        ensures
            ok == self@.allows(*grid, column, row, number),
        decreases self,
    {
        match self {
            AnyConstraint::Default => classic::default_check_number(grid, column, row, number),
            AnyConstraint::Diagonals => classic::diagonals_check_number(grid, column, row, number),
            AnyConstraint::KnightsMove => classic::knights_move_check_number(
                grid,
                column,
                row,
                number,
            ),
            AnyConstraint::KingsMove => classic::kings_move_check_number(grid, column, row, number),
            AnyConstraint::Sandwich(clues) => clues.check_number(grid, column, row, number),
            AnyConstraint::Composite(members) => {
                proof {
                    lemma_composite_view(*members);
                }
                let mut i: usize = 0;
                while i < members.len()
                    invariant
                        well_formed(*grid),
                        in_grid(*grid, column, row),
                        i <= members.len(),
                        *self == AnyConstraint::Composite(*members),
                        self@ == ConstraintModel::Composite(members_model(members@)),
                        forall|j: int| 0 <= j < i ==> (#[trigger] members_model(members@)[j]).allows(*grid, column, row, number),
                    decreases members.len() - i,
                {
                    proof {
                        assert(decreases_to!(*members => members[i as int]));
                    }
                    if !members[i].check_number(grid, column, row, number) {
                        assert(!members_model(members@)[i as int].allows(*grid, column, row, number));
                        assert(self@->Composite_0 == members_model(members@));
                        return false;
                    }
                    i += 1;
                }
                true
            },
        }
    }

    /// Lists the groups of the constraint.
    pub fn get_groups(&self, grid: &SudokuGrid) -> (groups: Vec<Group>)
        requires
            well_formed(*grid),
        ensures
            groups_model(groups) == self@.groups(*grid),
        decreases self,
    {
        match self {
            AnyConstraint::Default => classic::default_get_groups(grid),
            AnyConstraint::Diagonals => classic::diagonals_get_groups(grid),
            AnyConstraint::KnightsMove => {
                let groups = classic::knights_move_get_groups(grid);
                assert(groups_model(groups) =~= Seq::empty());
                groups
            },
            AnyConstraint::KingsMove => {
                let groups = classic::kings_move_get_groups(grid);
                assert(groups_model(groups) =~= Seq::empty());
                groups
            },
            AnyConstraint::Sandwich(clues) => {
                let groups = clues.get_groups(grid);
                assert(groups_model(groups) =~= Seq::empty());
                groups
            },
            AnyConstraint::Composite(members) => {
                proof {
                    lemma_composite_view(*members);
                }
                let mut groups: Vec<Group> = Vec::new();
                assert(groups_model(groups) =~= Seq::empty());
                let mut i: usize = 0;
                while i < members.len()
                    invariant
                        well_formed(*grid),
                        i <= members.len(),
                        *self == AnyConstraint::Composite(*members),
                        self@ == ConstraintModel::Composite(members_model(members@)),
                        groups_model(groups) == joined_groups(members_model(members@), *grid, i as int),
                    decreases members.len() - i,
                {
                    proof {
                        assert(decreases_to!(*members => members[i as int]));
                    }
                    let mut more = members[i].get_groups(grid);
                    let ghost before = groups_model(groups);
                    let ghost added = groups_model(more);
                    groups.append(&mut more);
                    assert(groups_model(groups) =~= before + added);
                    i += 1;
                }
                groups
            },
        }
    }

    /// Lists the reductions that the constraint offers. The solution is
    /// not read: which clue can go does not depend on it.
    pub fn list_reductions(&self, solution: &SudokuGrid) -> (reductions: Vec<AnyReduction>)
        ensures
            reductions@ == self@.reductions(),
            forall|k: int| 0 <= k < reductions@.len() ==> self@.can_reduce(#[trigger] reductions@[k]),
        decreases self,
    {
        let reductions = match self {
            AnyConstraint::Sandwich(clues) => {
                let found = clues.list_reductions(solution);
                let mut reductions: Vec<AnyReduction> = Vec::new();
                let mut i: usize = 0;
                while i < found.len()
                    invariant
                        i <= found.len(),
                        reductions@ == found@.subrange(0, i as int).map_values(
                            |reduction: SandwichReduction| AnyReduction::Sandwich(reduction),
                        ),
                    decreases found.len() - i,
                {
                    reductions.push(AnyReduction::Sandwich(found[i]));
                    assert(reductions@ =~= found@.subrange(0, i + 1).map_values(
                        |reduction: SandwichReduction| AnyReduction::Sandwich(reduction),
                    ));
                    i += 1;
                }
                assert(found@.subrange(0, found.len() as int) =~= found@);
                reductions
            },
            AnyConstraint::Composite(members) => {
                proof {
                    lemma_composite_view(*members);
                }
                let mut reductions: Vec<AnyReduction> = Vec::new();
                let mut i: usize = 0;
                while i < members.len()
                    invariant
                        i <= members.len(),
                        *self == AnyConstraint::Composite(*members),
                        self@ == ConstraintModel::Composite(members_model(members@)),
                        reductions@ == joined_reductions(members_model(members@), i as int),
                    decreases members.len() - i,
                {
                    proof {
                        assert(self->Composite_0 == *members);
                        assert(decreases_to!(*members => members[i as int]));
                    }
                    let found = members[i].list_reductions(solution);
                    let ghost before = reductions@;
                    let ghost tagged = found@.map_values(
                        |reduction: AnyReduction|
                            AnyReduction::Composite { index: i, reduction: Box::new(reduction) },
                    );
                    let count = found.len();
                    let mut j: usize = 0;
                    while j < count
                        invariant
                            j <= count,
                            count == found@.len(),
                            tagged == found@.map_values(
                                |reduction: AnyReduction|
                                    AnyReduction::Composite {
                                        index: i,
                                        reduction: Box::new(reduction),
                                    },
                            ),
                            reductions@ == before + tagged.subrange(0, j as int),
                        decreases count - j,
                    {
                        reductions.push(
                            AnyReduction::Composite { index: i, reduction: Box::new(found[j].copy()) },
                        );
                        assert(reductions@ =~= before + tagged.subrange(0, j + 1));
                        j += 1;
                    }
                    assert(tagged.subrange(0, count as int) =~= tagged);
                    i += 1;
                }
                reductions
            },
            _ => Vec::new(),
        };
        proof {
            lemma_view_is_bounded(*self);
            assert forall|k: int| 0 <= k < reductions@.len() implies self@.can_reduce(
                #[trigger] reductions@[k],
            ) by {
                lemma_offered_reductions_apply(self@, k);
            }
        }
        reductions
    }

    /// Applies a reduction and hands back what undoes it, or refuses the
    /// reduction and leaves the constraint as it was. A rule without a state
    /// refuses every reduction. Clues refuse what is not the removal of a
    /// clue that is given. A list refuses what is not a reduction for one of
    /// its members, and what that member refuses.
    pub fn reduce(&mut self, solution: &SudokuGrid, reduction: &AnyReduction) -> (r: Result<AnyRevertInfo, ReductionError>)
        ensures
            r is Ok <==> old(self)@.can_reduce(*reduction),
            r is Ok ==> final(self)@ == old(self)@.reduced(*reduction),
            r is Ok ==> r->Ok_0 == old(self)@.revert_info(*reduction),
            r is Err ==> final(self)@ == old(self)@,
        decreases reduction,
    {
        match self {
            AnyConstraint::Sandwich(clues) => {
                match reduction {
                    AnyReduction::Sandwich(reduction) => {
                        match clues.reduce(solution, reduction) {
                            Ok(sum) => Ok(AnyRevertInfo::Sandwich(sum)),
                            Err(error) => Err(error),
                        }
                    },
                    _ => Err(ReductionError::InvalidReduction),
                }
            },
            AnyConstraint::Composite(members) => {
                match reduction {
                    AnyReduction::Composite { index, reduction } => {
                        proof {
                            lemma_composite_view(*members);
                        }
                        if *index >= members.len() {
                            return Err(ReductionError::InvalidReduction);
                        }
                        let ghost before = members@;
                        let member = &mut members[*index];
                        let result = member.reduce(solution, reduction);
                        proof {
                            lemma_composite_view(*members);
                            assert(members_model(members@) =~= members_model(before).update(
                                *index as int,
                                members@[*index as int]@,
                            ));
                        }
                        match result {
                            Ok(revert_info) => Ok(
                                AnyRevertInfo::Composite {
                                    index: *index,
                                    revert_info: Box::new(revert_info),
                                },
                            ),
                            Err(error) => {
                                assert(members_model(members@) =~= members_model(before));
                                Err(error)
                            },
                        }
                    },
                    _ => Err(ReductionError::InvalidReduction),
                }
            },
            _ => Err(ReductionError::InvalidReduction),
        }
    }

    /// Undoes a reduction.
    pub fn revert(&mut self, solution: &SudokuGrid, reduction: &AnyReduction, revert_info: AnyRevertInfo)
        requires
            old(self)@.can_revert(*reduction, revert_info),
        ensures
            final(self)@ == old(self)@.reverted(*reduction, revert_info),
        decreases reduction,
    {
        match self {
            AnyConstraint::Sandwich(clues) => {
                match (reduction, revert_info) {
                    (AnyReduction::Sandwich(reduction), AnyRevertInfo::Sandwich(sum)) => {
                        clues.revert(solution, reduction, sum);
                    },
                    _ => {},
                }
            },
            AnyConstraint::Composite(members) => {
                match (reduction, revert_info) {
                    (
                        AnyReduction::Composite { index, reduction },
                        AnyRevertInfo::Composite { index: revert_index, revert_info },
                    ) => {
                        proof {
                            lemma_composite_view(*members);
                        }
                        let ghost before = members@;
                        let member = &mut members[*index];
                        member.revert(solution, reduction, *revert_info);
                        proof {
                            lemma_composite_view(*members);
                            assert(members_model(members@) =~= members_model(before).update(
                                *index as int,
                                members@[*index as int]@,
                            ));
                        }
                    },
                    _ => {},
                }
            },
            _ => {},
        }
    }

    /// A copy of the constraint.
    pub fn copy(&self) -> (constraint: AnyConstraint)
        ensures
            constraint@ == self@,
        decreases self,
    {
        match self {
            AnyConstraint::Default => AnyConstraint::Default,
            AnyConstraint::Diagonals => AnyConstraint::Diagonals,
            AnyConstraint::KnightsMove => AnyConstraint::KnightsMove,
            AnyConstraint::KingsMove => AnyConstraint::KingsMove,
            AnyConstraint::Sandwich(clues) => AnyConstraint::Sandwich(clues.copy()),
            AnyConstraint::Composite(members) => {
                proof {
                    lemma_composite_view(*members);
                }
                let mut copies: Vec<AnyConstraint> = Vec::new();
                let mut i: usize = 0;
                while i < members.len()
                    invariant
                        i <= members.len(),
                        *self == AnyConstraint::Composite(*members),
                        copies@.len() == i,
                        forall|j: int| 0 <= j < i ==> (#[trigger] copies@[j])@ == members@[j]@,
                    decreases members.len() - i,
                {
                    proof {
                        assert(self->Composite_0 == *members);
                        assert(decreases_to!(*members => members[i as int]));
                    }
                    let member = members[i].copy();
                    copies.push(member);
                    i += 1;
                }
                proof {
                    lemma_composite_view(*members);
                    lemma_composite_view(copies);
                    assert(members_model(copies@) =~= members_model(members@));
                }
                AnyConstraint::Composite(copies)
            },
        }
    }
}

impl Clone for AnyConstraint {
    fn clone(&self) -> (constraint: AnyConstraint)
        ensures
            constraint@ == self@,
    {
        self.copy()
    }
}

/// The solvers and the generator of `sudoku_variants` ask the constraint
/// through this trait. They ask about cells of the grid that they work on,
/// which holds only digits that it admitted.
impl Constraint for AnyConstraint {
    fn check(&self, grid: &SudokuGrid) -> (ok: bool)
        requires
            well_formed(*grid),
        ensures
            ok == self@.grid_fits(*grid),
    {
        AnyConstraint::check(self, grid)
    }

    fn check_cell(&self, grid: &SudokuGrid, column: usize, row: usize) -> (ok: bool)
        requires
            well_formed(*grid),
            in_grid(*grid, column, row),
        ensures
            ok == self@.cell_fits(*grid, column, row),
    {
        AnyConstraint::check_cell(self, grid, column, row)
    }

    fn check_number(&self, grid: &SudokuGrid, column: usize, row: usize, number: usize) -> (ok: bool)
        requires
            well_formed(*grid),
            in_grid(*grid, column, row),
        ensures
            ok == self@.allows(*grid, column, row, number),
    {
        AnyConstraint::check_number(self, grid, column, row, number)
    }

    fn get_groups(&self, grid: &SudokuGrid) -> (groups: Vec<Group>)
        requires
            well_formed(*grid),
        ensures
            groups_model(groups) == self@.groups(*grid),
    {
        AnyConstraint::get_groups(self, grid)
    }
}

/// What a constraint adds to a list: its members if it is a list itself,
/// and otherwise itself.
pub open spec fn flattened(constraint: ConstraintModel) -> Seq<ConstraintModel> {
    match constraint {
        ConstraintModel::Composite(members) => members,
        _ => seq![constraint],
    }
}

/// Adds a constraint to a list. A list is not nested: its members are added
/// one by one.
pub fn add_any_constraints(constraints: &mut Vec<AnyConstraint>, constraint: AnyConstraint)
    ensures
        members_model(final(constraints)@) == members_model(old(constraints)@) + flattened(
            constraint@,
        ),
{
    let ghost before = constraints@;
    match constraint {
        AnyConstraint::Composite(mut members) => {
            proof {
                lemma_composite_view(members);
            }
            let ghost added = members@;
            constraints.append(&mut members);
            assert(members_model(constraints@) =~= members_model(before) + members_model(added));
        },
        other => {
            let ghost model = other@;
            constraints.push(other);
            assert(members_model(constraints@) =~= members_model(before) + seq![model]);
        },
    }
}

/// The list of two constraints, neither of them nested in it.
pub fn composite_of(first: AnyConstraint, second: AnyConstraint) -> (constraint: AnyConstraint)
    ensures
        constraint@ == ConstraintModel::Composite(flattened(first@) + flattened(second@)),
{
    let mut constraints: Vec<AnyConstraint> = Vec::new();
    assert(members_model(constraints@) =~= Seq::empty());
    add_any_constraints(&mut constraints, first);
    add_any_constraints(&mut constraints, second);
    proof {
        lemma_composite_view(constraints);
        assert(members_model(constraints@) =~= flattened(first@) + flattened(second@));
    }
    AnyConstraint::Composite(constraints)
}

/// A list of constraints accepts a grid exactly if each of its members
/// accepts it, however deep the members are nested. The same holds of a
/// single cell and of a number tried in a cell.
pub proof fn lemma_composite_is_conjunction(members: Seq<ConstraintModel>, grid: SudokuGrid, column: usize, row: usize, number: usize)
    ensures
        ConstraintModel::Composite(members).grid_fits(grid) <==> forall|i: int|
            0 <= i < members.len() ==> (#[trigger] members[i]).grid_fits(grid),
        ConstraintModel::Composite(members).cell_fits(grid, column, row) <==> forall|i: int|
            0 <= i < members.len() ==> (#[trigger] members[i]).cell_fits(grid, column, row),
        ConstraintModel::Composite(members).allows(grid, column, row, number) <==> forall|i: int|
            0 <= i < members.len() ==> (#[trigger] members[i]).allows(grid, column, row, number),
{
    assert(ConstraintModel::Composite(members)->Composite_0 == members);
}

/// A list without members accepts every grid, and a list of one member
/// accepts what that member accepts.
pub proof fn lemma_small_composites(member: ConstraintModel, grid: SudokuGrid)
    ensures
        ConstraintModel::Composite(Seq::empty()).grid_fits(grid),
        ConstraintModel::Composite(seq![member]).grid_fits(grid) <==> member.grid_fits(grid),
{
    let single = seq![member];
    assert(single[0] == member);
    assert(ConstraintModel::Composite(single)->Composite_0 == single);
    assert(ConstraintModel::Composite(Seq::empty())->Composite_0 == Seq::<ConstraintModel>::empty());
}

/// Undoing a reduction with what the reduction handed back restores the
/// constraint exactly.
pub proof fn lemma_revert_undoes_reduce(constraint: ConstraintModel, reduction: AnyReduction)
    requires
        constraint.can_reduce(reduction),
    ensures
        constraint.reduced(reduction).can_revert(reduction, constraint.revert_info(reduction)),
        constraint.reduced(reduction).reverted(reduction, constraint.revert_info(reduction))
            == constraint,
    decreases constraint,
{
    match constraint {
        ConstraintModel::Sandwich(clues) => {
            let inner = reduction->Sandwich_0;
            let restored = clues.with_clue(inner, None).with_clue(inner, Some(clues.removed(inner)));
            assert(restored.column_sums =~= clues.column_sums);
            assert(restored.row_sums =~= clues.row_sums);
        },
        ConstraintModel::Composite(members) => {
            let index = reduction->index as int;
            let inner = *reduction->reduction;
            lemma_revert_undoes_reduce(members[index], inner);
            let after = members.update(index, members[index].reduced(inner));
            let restored = after.update(
                index,
                after[index].reverted(inner, members[index].revert_info(inner)),
            );
            assert(restored =~= members);
        },
        _ => {},
    }
}

/// A constraint accepts what a cell holds exactly if the cell is empty or
/// the constraint lets its digit stand there.
pub proof fn lemma_cell_fits_is_allows(constraint: ConstraintModel, grid: SudokuGrid, column: usize, row: usize)
    ensures
        constraint.cell_fits(grid, column, row) <==> (cell_at(grid, column, row) is Some
            ==> constraint.allows(grid, column, row, cell_at(grid, column, row)->0)),
    decreases constraint,
{
    match constraint {
        ConstraintModel::Composite(members) => {
            assert forall|i: int| 0 <= i < members.len() implies ((#[trigger] members[i]).cell_fits(
                grid,
                column,
                row,
            ) <==> (cell_at(grid, column, row) is Some ==> members[i].allows(
                grid,
                column,
                row,
                cell_at(grid, column, row)->0,
            ))) by {
                lemma_cell_fits_is_allows(members[i], grid, column, row);
            }
        },
        _ => {},
    }
}

/// A constraint accepts a grid exactly if it accepts every cell of the
/// grid.
pub proof fn lemma_grid_fits_is_cells(constraint: ConstraintModel, grid: SudokuGrid)
    ensures
        constraint.grid_fits(grid) <==> forall|column: usize, row: usize|
            in_grid(grid, column, row) ==> #[trigger] constraint.cell_fits(grid, column, row),
    decreases constraint,
{
    match constraint {
        ConstraintModel::Composite(members) => {
            assert(constraint->Composite_0 == members);
            if constraint.grid_fits(grid) {
                assert forall|column: usize, row: usize|
                    in_grid(grid, column, row) implies #[trigger] constraint.cell_fits(
                    grid,
                    column,
                    row,
                ) by {
                    assert forall|i: int| 0 <= i < members.len() implies (
                    #[trigger] members[i]).cell_fits(grid, column, row) by {
                        lemma_grid_fits_is_cells(members[i], grid);
                        assert(members[i].grid_fits(grid));
                    }
                }
            }
            if forall|column: usize, row: usize|
                in_grid(grid, column, row) ==> #[trigger] constraint.cell_fits(grid, column, row) {
                assert forall|i: int| 0 <= i < members.len() implies (
                #[trigger] members[i]).grid_fits(grid) by {
                    lemma_grid_fits_is_cells(members[i], grid);
                    assert forall|column: usize, row: usize|
                        in_grid(grid, column, row) implies #[trigger] members[i].cell_fits(
                        grid,
                        column,
                        row,
                    ) by {
                        assert(constraint.cell_fits(grid, column, row));
                    }
                }
            }
        },
        ConstraintModel::Default => {
            if forall|column: usize, row: usize|
                in_grid(grid, column, row) ==> #[trigger] constraint.cell_fits(grid, column, row) {
                assert forall|column: usize, row: usize|
                    in_grid(grid, column, row) implies #[trigger] classic::cell_fits(Classic::Default, grid, column, row) by {
                    assert(constraint.cell_fits(grid, column, row));
                }
            }
        },
        ConstraintModel::Diagonals => {
            if forall|column: usize, row: usize|
                in_grid(grid, column, row) ==> #[trigger] constraint.cell_fits(grid, column, row) {
                assert forall|column: usize, row: usize|
                    in_grid(grid, column, row) implies #[trigger] classic::cell_fits(Classic::Diagonals, grid, column, row) by {
                    assert(constraint.cell_fits(grid, column, row));
                }
            }
        },
        ConstraintModel::KnightsMove => {
            if forall|column: usize, row: usize|
                in_grid(grid, column, row) ==> #[trigger] constraint.cell_fits(grid, column, row) {
                assert forall|column: usize, row: usize|
                    in_grid(grid, column, row) implies #[trigger] classic::cell_fits(Classic::KnightsMove, grid, column, row) by {
                    assert(constraint.cell_fits(grid, column, row));
                }
            }
        },
        ConstraintModel::KingsMove => {
            if forall|column: usize, row: usize|
                in_grid(grid, column, row) ==> #[trigger] constraint.cell_fits(grid, column, row) {
                assert forall|column: usize, row: usize|
                    in_grid(grid, column, row) implies #[trigger] classic::cell_fits(Classic::KingsMove, grid, column, row) by {
                    assert(constraint.cell_fits(grid, column, row));
                }
            }
        },
        ConstraintModel::Sandwich(clues) => {
            if forall|column: usize, row: usize|
                in_grid(grid, column, row) ==> #[trigger] constraint.cell_fits(grid, column, row) {
                assert forall|column: usize, row: usize|
                    in_grid(grid, column, row) implies #[trigger] clues.cell_fits(grid, column, row) by {
                    assert(constraint.cell_fits(grid, column, row));
                }
            }
        },
    }
}

/// What a constraint accepts in a cell of a grid, it lets stand in that
/// cell of every grid of the same shape that holds no digit which the first
/// grid does not hold in the same place. So a digit that is refused stays
/// refused, whatever is filled in later.
pub proof fn lemma_allowed_in_part(constraint: ConstraintModel, part: SudokuGrid, whole: SudokuGrid, column: usize, row: usize)
    requires
        extends(part, whole),
        cell_at(whole, column, row) is Some,
        constraint.cell_fits(whole, column, row),
    ensures
        constraint.allows(part, column, row, cell_at(whole, column, row)->0),
    decreases constraint,
{
    let number = cell_at(whole, column, row)->0;
    match constraint {
        ConstraintModel::Default => {
            classic::lemma_allowed_in_part(Classic::Default, part, whole, column, row);
        },
        ConstraintModel::Diagonals => {
            classic::lemma_allowed_in_part(Classic::Diagonals, part, whole, column, row);
        },
        ConstraintModel::KnightsMove => {
            classic::lemma_allowed_in_part(Classic::KnightsMove, part, whole, column, row);
        },
        ConstraintModel::KingsMove => {
            classic::lemma_allowed_in_part(Classic::KingsMove, part, whole, column, row);
        },
        ConstraintModel::Sandwich(clues) => {
            crate::sandwich::lemma_allowed_in_part(clues, part, whole, column, row);
        },
        ConstraintModel::Composite(members) => {
            assert forall|i: int| 0 <= i < members.len() implies (#[trigger] members[i]).allows(
                part,
                column,
                row,
                number,
            ) by {
                lemma_allowed_in_part(members[i], part, whole, column, row);
            }
        },
    }
}

/// A grid that can be filled up to a grid which the constraint accepts is
/// itself accepted.
pub proof fn lemma_part_fits(constraint: ConstraintModel, part: SudokuGrid, whole: SudokuGrid)
    requires
        extends(part, whole),
        constraint.grid_fits(whole),
    ensures
        constraint.grid_fits(part),
{
    lemma_grid_fits_is_cells(constraint, whole);
    lemma_grid_fits_is_cells(constraint, part);
    assert forall|column: usize, row: usize| in_grid(part, column, row) implies #[trigger] constraint.cell_fits(
        part,
        column,
        row,
    ) by {
        lemma_cell_fits_is_allows(constraint, part, column, row);
        if cell_at(part, column, row) is Some {
            assert(grid_digits(part).contains_key((column, row)));
            assert(grid_digits(whole).contains_key((column, row)));
            assert(constraint.cell_fits(whole, column, row));
            lemma_allowed_in_part(constraint, part, whole, column, row);
        }
    }
}

/// A constraint together with sandwich clues of which none is given lets
/// stand what the constraint alone lets stand, and accepts the cells and
/// the grids that the constraint alone accepts.
pub proof fn lemma_no_clues_change_nothing(constraint: ConstraintModel, size: usize, grid: SudokuGrid, column: usize, row: usize, number: usize)
    ensures
        ({
            let with = ConstraintModel::Composite(
                seq![constraint, ConstraintModel::Sandwich(crate::sandwich::no_clues(size))],
            );
            &&& with.allows(grid, column, row, number) == constraint.allows(
                grid,
                column,
                row,
                number,
            )
            &&& with.cell_fits(grid, column, row) == constraint.cell_fits(grid, column, row)
            &&& with.grid_fits(grid) == constraint.grid_fits(grid)
        }),
{
    let members = seq![constraint, ConstraintModel::Sandwich(crate::sandwich::no_clues(size))];
    let with = ConstraintModel::Composite(members);
    let clues = ConstraintModel::Sandwich(crate::sandwich::no_clues(size));
    crate::sandwich::lemma_no_clues_accept_all(size, grid, column, row, number);
    assert(with->Composite_0 == members);
    assert(members.len() == 2 && members[0] == constraint && members[1] == clues);
    assert(clues.allows(grid, column, row, number));
    assert(clues.cell_fits(grid, column, row));
    assert(clues.grid_fits(grid));
    if constraint.allows(grid, column, row, number) {
        assert forall|i: int| 0 <= i < members.len() implies (#[trigger] members[i]).allows(
            grid,
            column,
            row,
            number,
        ) by {}
    }
    if constraint.cell_fits(grid, column, row) {
        assert forall|i: int| 0 <= i < members.len() implies (#[trigger] members[i]).cell_fits(
            grid,
            column,
            row,
        ) by {}
    }
    if constraint.grid_fits(grid) {
        assert forall|i: int| 0 <= i < members.len() implies (#[trigger] members[i]).grid_fits(
            grid,
        ) by {}
    }
}

impl ConstraintModel {
    /// Whether the constraint has no state: no clues, at any depth.
    pub open spec fn is_stateless(self) -> bool
        decreases self,
    {
        match self {
            ConstraintModel::Sandwich(_) => false,
            ConstraintModel::Composite(members) => forall|i: int|
                0 <= i < members.len() ==> (#[trigger] members[i]).is_stateless(),
            _ => true,
        }
    }
}

/// A constraint without a state offers no reduction, takes none, and is
/// left as it is by every attempt.
pub proof fn lemma_stateless_stays(constraint: ConstraintModel, reduction: AnyReduction)
    requires
        constraint.is_stateless(),
    ensures
        !constraint.can_reduce(reduction),
        constraint.reduced(reduction) == constraint,
    decreases constraint,
{
    match constraint {
        ConstraintModel::Composite(members) => {
            if reduction is Composite && reduction->index < members.len() {
                let index = reduction->index as int;
                lemma_stateless_stays(members[index], *reduction->reduction);
                assert(members.update(index, members[index]) =~= members);
            }
        },
        _ => {},
    }
}

impl ConstraintModel {
    /// Whether every list of the constraint is no longer than a vector can
    /// be, at any depth.
    pub open spec fn is_bounded(self) -> bool
        decreases self,
    {
        match self {
            ConstraintModel::Sandwich(clues) => clues.is_bounded(),
            ConstraintModel::Composite(members) => members.len() <= usize::MAX && forall|i: int|
                0 <= i < members.len() ==> (#[trigger] members[i]).is_bounded(),
            _ => true,
        }
    }
}

/// The lists of a constraint are held by vectors.
pub proof fn lemma_view_is_bounded(constraint: AnyConstraint)
    ensures
        constraint@.is_bounded(),
    decreases constraint,
{
    match constraint {
        AnyConstraint::Sandwich(clues) => {
            crate::sandwich::lemma_view_is_bounded(clues);
        },
        AnyConstraint::Composite(members) => {
            lemma_composite_view(members);
            let models = members_model(members@);
            assert(constraint@->Composite_0 == models);
            assert forall|i: int| 0 <= i < models.len() implies (#[trigger] models[i]).is_bounded() by {
                assert(decreases_to!(members => members[i]));
                lemma_view_is_bounded(members[i]);
            }
        },
        _ => {},
    }
}

/// Every reduction that a constraint offers names something that the
/// constraint can give up.
pub proof fn lemma_offered_reductions_apply(constraint: ConstraintModel, k: int)
    requires
        constraint.is_bounded(),
        0 <= k < constraint.reductions().len(),
    ensures
        constraint.can_reduce(constraint.reductions()[k]),
    decreases constraint, 0int,
{
    match constraint {
        ConstraintModel::Sandwich(clues) => {
            crate::sandwich::lemma_offered_removals_apply(clues, k);
        },
        ConstraintModel::Composite(members) => {
            lemma_joined_reductions_apply(members, members.len() as int, k);
        },
        _ => {},
    }
}

/// Every reduction among those of the first members of a list is for one of
/// these members, which can give up what it names.
proof fn lemma_joined_reductions_apply(members: Seq<ConstraintModel>, upto: int, k: int)
    requires
        members.len() <= usize::MAX,
        forall|i: int| 0 <= i < members.len() ==> (#[trigger] members[i]).is_bounded(),
        0 <= upto <= members.len(),
        0 <= k < joined_reductions(members, upto).len(),
    ensures
        joined_reductions(members, upto)[k] is Composite,
        joined_reductions(members, upto)[k]->index < upto,
        members[joined_reductions(members, upto)[k]->index as int].can_reduce(
            *joined_reductions(members, upto)[k]->reduction,
        ),
    decreases members, upto,
{
    let before = joined_reductions(members, upto - 1);
    if k < before.len() {
        lemma_joined_reductions_apply(members, upto - 1, k);
    } else {
        lemma_offered_reductions_apply(members[upto - 1], k - before.len());
    }
}

/// A reduction takes nothing back: what the constraint let stand before,
/// it lets stand after, and a grid that it accepted, it still accepts.
pub proof fn lemma_reduced_allows_more(constraint: ConstraintModel, reduction: AnyReduction, grid: SudokuGrid, column: usize, row: usize, number: usize)
    requires
        constraint.allows(grid, column, row, number),
    ensures
        constraint.reduced(reduction).allows(grid, column, row, number),
    decreases constraint,
{
    match constraint {
        ConstraintModel::Sandwich(clues) => {
            if reduction is Sandwich {
                crate::sandwich::lemma_fewer_clues_allow_more(
                    clues,
                    reduction->Sandwich_0,
                    grid,
                    column,
                    row,
                    number,
                );
            }
        },
        ConstraintModel::Composite(members) => {
            if reduction is Composite && reduction->index < members.len() {
                let index = reduction->index as int;
                let inner = *reduction->reduction;
                lemma_reduced_allows_more(members[index], inner, grid, column, row, number);
                let after = members.update(index, members[index].reduced(inner));
                assert(constraint.reduced(reduction)->Composite_0 == after);
                assert forall|i: int| 0 <= i < after.len() implies (#[trigger] after[i]).allows(
                    grid,
                    column,
                    row,
                    number,
                ) by {
                    assert(members[i].allows(grid, column, row, number));
                }
            }
        },
        _ => {},
    }
}

/// A grid that a constraint accepts is accepted after every reduction of
/// the constraint.
pub proof fn lemma_reduced_accepts_more(constraint: ConstraintModel, reduction: AnyReduction, grid: SudokuGrid)
    requires
        constraint.grid_fits(grid),
    ensures
        constraint.reduced(reduction).grid_fits(grid),
{
    let after = constraint.reduced(reduction);
    lemma_grid_fits_is_cells(constraint, grid);
    lemma_grid_fits_is_cells(after, grid);
    assert forall|column: usize, row: usize| in_grid(grid, column, row) implies #[trigger] after.cell_fits(
        grid,
        column,
        row,
    ) by {
        lemma_cell_fits_is_allows(constraint, grid, column, row);
        lemma_cell_fits_is_allows(after, grid, column, row);
        assert(constraint.cell_fits(grid, column, row));
        if cell_at(grid, column, row) is Some {
            lemma_reduced_allows_more(
                constraint,
                reduction,
                grid,
                column,
                row,
                cell_at(grid, column, row)->0,
            );
        }
    }
}

/// What a constraint cannot give up, it cannot give up after a reduction
/// either.
pub proof fn lemma_nothing_comes_back(constraint: ConstraintModel, reduction: AnyReduction, other: AnyReduction)
    requires
        constraint.reduced(reduction).can_reduce(other),
    ensures
        constraint.can_reduce(other),
    decreases constraint,
{
    match constraint {
        ConstraintModel::Sandwich(clues) => {
            if reduction is Sandwich {
                crate::sandwich::lemma_removal_gives_nothing(
                    clues,
                    reduction->Sandwich_0,
                    other->Sandwich_0,
                );
            }
        },
        ConstraintModel::Composite(members) => {
            if reduction is Composite && reduction->index < members.len() {
                let index = reduction->index as int;
                let after = members.update(index, members[index].reduced(*reduction->reduction));
                assert(constraint.reduced(reduction)->Composite_0 == after);
                if other->index as int == index {
                    lemma_nothing_comes_back(
                        members[index],
                        *reduction->reduction,
                        *other->reduction,
                    );
                } else {
                    assert(after[other->index as int] == members[other->index as int]);
                }
            }
        },
        _ => {},
    }
}

/// What a constraint gave up, it cannot give up again.
pub proof fn lemma_given_up_is_gone(constraint: ConstraintModel, reduction: AnyReduction)
    requires
        constraint.can_reduce(reduction),
    ensures
        !constraint.reduced(reduction).can_reduce(reduction),
    decreases constraint,
{
    match constraint {
        ConstraintModel::Sandwich(clues) => {
            crate::sandwich::lemma_removal_gives_nothing(
                clues,
                reduction->Sandwich_0,
                reduction->Sandwich_0,
            );
        },
        ConstraintModel::Composite(members) => {
            let index = reduction->index as int;
            lemma_given_up_is_gone(members[index], *reduction->reduction);
            let after = members.update(index, members[index].reduced(*reduction->reduction));
            assert(constraint.reduced(reduction)->Composite_0 == after);
        },
        _ => {},
    }
}

} // verus!
