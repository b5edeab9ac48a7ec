//! The course of a custom scan that answers a query or finds rows to change.

use vstd::prelude::*;

use crate::customscan::predicate_translator::fold::{joined_conditions_hold_together, predicates};
use crate::customscan::predicate_translator::predicate::{Predicate, PredicateView, holds};
use crate::customscan::provider::ScanPurpose;
use crate::customscan::provider_scan_state::{combine_with_and, conjunction, filter_view};
use crate::error::{IcebergError, IcebergResult};

verus! {

/// Names the change that a scan finds rows for.
#[derive(Debug, Clone, Copy, PartialEq, Eq, Structural)]
pub struct ModifyBinding {
    pub id: u64,
}

/// The conditions of a scan, by how long their values last.
#[derive(Debug)]
pub struct ScanFilters {
    /// All of them.
    pub all: Vec<Predicate>,
    /// Those whose values stay when the scan starts over.
    pub rescan_stable: Vec<Predicate>,
    /// Those whose values the plan fixes.
    pub static_values: Vec<Predicate>,
}

/// How to begin a scan.
#[derive(Debug)]
pub struct BeginPlan {
    /// What files are chosen by.
    pub planning_filter: Option<Predicate>,
    /// What rows are filtered by.
    pub row_filter: Option<Predicate>,
    /// Whether to prepare the tasks of a change.
    pub prepare_mutation_tasks: bool,
    /// Whether to open a cursor at once.
    pub open_cursor: bool,
}

/// Which cursor to open.
#[derive(Debug, Clone, Copy, PartialEq, Eq, Structural)]
pub enum CursorKind {
    Query,
    Mutation(ModifyBinding),
}

/// What to do for the next row.
#[derive(Debug, Clone, Copy, PartialEq, Eq, Structural)]
pub enum NextRow {
    /// Emit from the cursor that is open.
    Emit,
    /// Open this cursor, then emit from it.
    OpenThenEmit(CursorKind),
    /// There are no more rows.
    EndOfScan,
}

/// How to start a scan over.
#[derive(Debug)]
pub enum RescanPlan {
    /// The scan was not begun.
    Nothing,
    /// Replace the row filter where one is given, and open the cursor.
    Reopen { row_filter: Option<Option<Predicate>>, cursor: CursorKind },
    /// Replace the row filter where one is given, and fail.
    Refuse { row_filter: Option<Option<Predicate>>, error: IcebergError },
}

/// A custom scan.
#[derive(Debug)]
pub struct IcebergScanState {
    active_scan: bool,
    cursor: bool,
    conflict_filter: Predicate,
    purpose: ScanPurpose,
    modify_binding: Option<ModifyBinding>,
}

/// A custom scan: whether it is active and has a cursor, what other changes it
/// conflicts with, what it is for, and which change it is bound to.
pub struct ScanStateView {
    pub active_scan: bool,
    pub cursor: bool,
    pub conflict_filter: PredicateView,
    pub purpose: ScanPurpose,
    pub modify_binding: Option<ModifyBinding>,
}

impl View for IcebergScanState {
    type V = ScanStateView;

    closed spec fn view(&self) -> ScanStateView {
        ScanStateView {
            active_scan: self.active_scan,
            cursor: self.cursor,
            conflict_filter: self.conflict_filter@,
            purpose: self.purpose,
            modify_binding: self.modify_binding,
        }
    }
}

/// What another change must touch to conflict with a scan: anything, unless
/// the plan fixes conditions on the rows to change.
pub open spec fn conflict_filter_of(purpose: ScanPurpose, static_values: Seq<Predicate>) -> PredicateView {
    if purpose == ScanPurpose::Modify && static_values.len() > 0 {
        conjunction(static_values)->Some_0
    } else {
        PredicateView::AlwaysTrue
    }
}

/// Whether a row filter is replaced where values changed, by the conjunction
/// of all conditions.
pub open spec fn replaces_filter(
    row_filter: Option<Option<Predicate>>,
    filters_changed: bool,
    all: Seq<Predicate>,
) -> bool {
    &&& row_filter is Some <==> filters_changed
    &&& row_filter is Some ==> filter_view(row_filter->Some_0) == conjunction(all)
}

impl ScanStateView {
    /// A scan that was not begun.
    pub open spec fn blank() -> ScanStateView {
        ScanStateView {
            active_scan: false,
            cursor: false,
            conflict_filter: PredicateView::AlwaysTrue,
            purpose: ScanPurpose::Query,
            modify_binding: None,
        }
    }

    /// What the next row takes.
    pub open spec fn next_row(self) -> IcebergResult<NextRow> {
        if self.cursor {
            Ok(NextRow::Emit)
        } else if self.purpose == ScanPurpose::Query {
            Ok(NextRow::EndOfScan)
        } else if self.modify_binding is None {
            Err(IcebergError::InvariantViolated("Modify scan executed before outer binding"))
        } else if !self.active_scan {
            Err(IcebergError::InvariantViolated("Modify scan has no scan specification"))
        } else {
            Ok(NextRow::OpenThenEmit(CursorKind::Mutation(self.modify_binding->Some_0)))
        }
    }
}

impl Default for IcebergScanState {
    fn default() -> (r: Self)
        ensures
            r@ == ScanStateView::blank(),
    {
        IcebergScanState {
            active_scan: false,
            cursor: false,
            conflict_filter: Predicate::AlwaysTrue,
            purpose: ScanPurpose::Query,
            modify_binding: None,
        }
    }
}

impl IcebergScanState {
    /// How to begin a scan. A query opens its cursor at once; a change first
    /// prepares its tasks and opens its cursor when it is bound. The scan is
    /// active only once all that is done.
    pub fn begin(&mut self, purpose: ScanPurpose, filters: ScanFilters) -> (r: BeginPlan)
        ensures
            filter_view(r.planning_filter) == conjunction(filters.rescan_stable@),
            filter_view(r.row_filter) == conjunction(filters.all@),
            r.prepare_mutation_tasks == (purpose == ScanPurpose::Modify),
            r.open_cursor == (purpose == ScanPurpose::Query),
            final(self)@ == (ScanStateView {
                conflict_filter: conflict_filter_of(purpose, filters.static_values@),
                purpose,
                ..old(self)@
            }),
    {
        let row_filter = combine_with_and(filters.all);
        let planning_filter = combine_with_and(filters.rescan_stable);
        let conflict_filter = if purpose.is_modify() {
            match combine_with_and(filters.static_values) {
                Some(filter) => filter,
                None => Predicate::AlwaysTrue,
            }
        } else {
            Predicate::AlwaysTrue
        };
        self.purpose = purpose;
        self.conflict_filter = conflict_filter;
        BeginPlan {
            planning_filter,
            row_filter,
            prepare_mutation_tasks: purpose.is_modify(),
            open_cursor: !purpose.is_modify(),
        }
    }

    /// Takes note that what the plan to begin asked for was done.
    pub fn began(&mut self)
        ensures
            final(self)@ == (ScanStateView {
                active_scan: true,
                cursor: old(self)@.purpose == ScanPurpose::Query,
                modify_binding: None,
                ..old(self)@
            }),
    {
        self.active_scan = true;
        self.cursor = !self.purpose.is_modify();
        self.modify_binding = None;
    }

    /// Takes note that a cursor was opened.
    pub fn cursor_opened(&mut self)
        ensures
            final(self)@ == (ScanStateView { cursor: true, ..old(self)@ }),
    {
        self.cursor = true;
    }

    /// What a change needs of the scan: the conflict filter, once the scan is
    /// active and its tasks are prepared.
    pub fn modify_scan_context(&self, tasks_prepared: bool) -> (r: Option<Predicate>)
        ensures
            r is Some <==> self@.active_scan && tasks_prepared,
            r is Some ==> r->Some_0@ == self@.conflict_filter,
    {
        if self.active_scan && tasks_prepared {
            Some(self.conflict_filter.clone())
        } else {
            None
        }
    }

    /// Binds the scan to a change. It can be bound to one only.
    pub fn bind_modify(&mut self, binding: ModifyBinding) -> (r: IcebergResult<()>)
        ensures
            match r {
                Ok(_) => {
                    &&& old(self)@.modify_binding == Some(binding) || (old(self)@.modify_binding is None
                        && old(self)@.active_scan)
                    &&& final(self)@ == (ScanStateView {
                        modify_binding: Some(binding),
                        ..old(self)@
                    })
                },
                Err(e) => {
                    &&& final(self)@ == old(self)@
                    &&& if old(self)@.modify_binding is Some {
                        old(self)@.modify_binding != Some(binding) && e
                            == IcebergError::InvariantViolated(
                            "Modify scan was bound to two relation states",
                        )
                    } else {
                        !old(self)@.active_scan && e == IcebergError::InvariantViolated(
                            "Modify scan binding has no scan specification",
                        )
                    }
                },
            },
    {
        if let Some(existing) = self.modify_binding {
            if existing == binding {
                return Ok(());
            }
            return Err(
                IcebergError::InvariantViolated("Modify scan was bound to two relation states"),
            );
        }
        if !self.active_scan {
            return Err(
                IcebergError::InvariantViolated("Modify scan binding has no scan specification"),
            );
        }
        self.modify_binding = Some(binding);
        Ok(())
    }

    /// What the next row takes. A cursor that is to be opened and could not be
    /// is asked for again by the next row.
    pub fn next_slot(&self) -> (r: IcebergResult<NextRow>)
        ensures
            r == self@.next_row(),
    {
        if self.cursor {
            return Ok(NextRow::Emit);
        }
        if !self.purpose.is_modify() {
            return Ok(NextRow::EndOfScan);
        }
        match self.modify_binding {
            None => Err(
                IcebergError::InvariantViolated("Modify scan executed before outer binding"),
            ),
            Some(binding) => {
                if !self.active_scan {
                    return Err(
                        IcebergError::InvariantViolated("Modify scan has no scan specification"),
                    );
                }
                Ok(NextRow::OpenThenEmit(CursorKind::Mutation(binding)))
            },
        }
    }

    /// How to start over. The row filter is replaced where values changed; the
    /// files that were chosen stay, and so does the earlier cursor until the
    /// new one is open.
    pub fn rescan(&self, filters_changed: bool, all: Vec<Predicate>) -> (r: RescanPlan)
        ensures
            match r {
                RescanPlan::Nothing => !self@.active_scan,
                RescanPlan::Reopen { row_filter, cursor } => {
                    &&& self@.active_scan
                    &&& replaces_filter(row_filter, filters_changed, all@)
                    &&& self@.purpose == ScanPurpose::Modify ==> self@.modify_binding is Some
                    &&& cursor == if self@.purpose == ScanPurpose::Modify {
                        CursorKind::Mutation(self@.modify_binding->Some_0)
                    } else {
                        CursorKind::Query
                    }
                },
                RescanPlan::Refuse { row_filter, error } => {
                    &&& self@.active_scan
                    &&& replaces_filter(row_filter, filters_changed, all@)
                    &&& self@.purpose == ScanPurpose::Modify && self@.modify_binding is None
                    &&& error == IcebergError::InvariantViolated(
                        "Modify rescan occurred before outer binding",
                    )
                },
            },
    {
        if !self.active_scan {
            return RescanPlan::Nothing;
        }
        let row_filter = if filters_changed {
            Some(combine_with_and(all))
        } else {
            None
        };
        let cursor = if self.purpose.is_modify() {
            match self.modify_binding {
                Some(binding) => CursorKind::Mutation(binding),
                None => {
                    return RescanPlan::Refuse {
                        row_filter,
                        error: IcebergError::InvariantViolated(
                            "Modify rescan occurred before outer binding",
                        ),
                    };
                },
            }
        } else {
            CursorKind::Query
        };
        RescanPlan::Reopen { row_filter, cursor }
    }

    /// Ends the scan.
    pub fn end(&mut self)
        ensures
            final(self)@ == (ScanStateView {
                active_scan: false,
                cursor: false,
                modify_binding: None,
                ..old(self)@
            }),
    {
        self.cursor = false;
        self.active_scan = false;
        self.modify_binding = None;
    }
}

// -- Laws ---------------------------------------------------------------------

/// A scan for a change reads nothing before it is bound to the change, and
/// then reads with that change's cursor only.
pub proof fn changes_read_only_when_bound(state: ScanStateView)
    requires
        state.purpose == ScanPurpose::Modify,
        !state.cursor,
    ensures
        state.next_row() matches Ok(row) ==> state.modify_binding is Some && row
            == NextRow::OpenThenEmit(CursorKind::Mutation(state.modify_binding->Some_0)),
{
}

/// A scan that ended emits nothing more.
pub proof fn an_ended_scan_emits_nothing(state: ScanStateView)
    requires
        !state.active_scan,
        !state.cursor,
        state.modify_binding is None,
    ensures
        state.next_row() matches Ok(row) ==> row == NextRow::EndOfScan,
{
}

/// A cursor that is open emits; a query without one is at its end; and a change
/// that is bound and active opens the cursor of its own change.
pub proof fn open_cursors_emit(state: ScanStateView)
    ensures
        state.cursor ==> state.next_row() == Ok::<NextRow, IcebergError>(NextRow::Emit),
        !state.cursor && state.purpose == ScanPurpose::Query ==> state.next_row() == Ok::<
            NextRow,
            IcebergError,
        >(NextRow::EndOfScan),
        !state.cursor && state.purpose == ScanPurpose::Modify && state.active_scan ==> (
        state.modify_binding matches Some(binding) ==> state.next_row() == Ok::<NextRow, IcebergError>(
            NextRow::OpenThenEmit(CursorKind::Mutation(binding)),
        )),
        state.next_row() is Err <==> !state.cursor && state.purpose == ScanPurpose::Modify && (
        state.modify_binding is None || !state.active_scan),
{
}

/// Another change conflicts with a scan for a change only on rows of which all
/// conditions that the plan fixes hold; it conflicts with every other scan on
/// every row.
pub proof fn conflicts_are_on_rows_of_the_plan(
    purpose: ScanPurpose,
    static_values: Seq<Predicate>,
    leaf: spec_fn(PredicateView) -> bool,
)
    ensures
        holds(conflict_filter_of(purpose, static_values), leaf) <==> purpose == ScanPurpose::Query || (
        forall|i: int| 0 <= i < static_values.len() ==> holds((#[trigger] static_values[i])@, leaf)),
{
    let conditions = predicates(static_values);
    if purpose == ScanPurpose::Modify && static_values.len() > 0 {
        joined_conditions_hold_together(conditions, leaf);
        assert forall|i: int| 0 <= i < static_values.len() implies #[trigger] conditions[i]
            == static_values[i]@ by {}
        if forall|i: int| 0 <= i < conditions.len() ==> holds(#[trigger] conditions[i], leaf) {
            assert forall|i: int| 0 <= i < static_values.len() implies holds(
                (#[trigger] static_values[i])@,
                leaf,
            ) by {
                assert(holds(conditions[i], leaf));
            }
        }
    }
}

/// The filter of a scan keeps a row exactly when all of its conditions hold.
pub proof fn filters_keep_rows_of_which_all_holds(
    items: Seq<Predicate>,
    leaf: spec_fn(PredicateView) -> bool,
)
    ensures
        (match conjunction(items) {
            Some(filter) => holds(filter, leaf),
            None => true,
        }) <==> (forall|i: int| 0 <= i < items.len() ==> holds((#[trigger] items[i])@, leaf)),
{
    let conditions = predicates(items);
    if items.len() > 0 {
        joined_conditions_hold_together(conditions, leaf);
        assert forall|i: int| 0 <= i < items.len() implies #[trigger] conditions[i] == items[i]@ by {}
        if forall|i: int| 0 <= i < conditions.len() ==> holds(#[trigger] conditions[i], leaf) {
            assert forall|i: int| 0 <= i < items.len() implies holds((#[trigger] items[i])@, leaf) by {
                assert(holds(conditions[i], leaf));
            }
        }
    }
}

} // verus!
