//! Ordered changes of one table inside a transaction, and what of them is
//! committed.

use std::sync::Arc;

use vstd::prelude::*;

use crate::catalog::schema_evolution::PreparedSchemaUpdate;
use crate::catalog::snapshot_delta::{
    DataFile, DeleteFileIdentity, DeltaOp, SnapshotDelta, SnapshotDeltaMarker, addable_data,
    addable_delete, cancels_path, creates_path, has_live_data, has_live_delete, refused_as_data,
    refused_as_delete, removes_base_path, truncates, truncation_forgets,
};
use crate::catalog::table_files::{
    FilesView, canceled_creations_are_gone, changes_add_the_files_they_say, parts_follow_each_other,
    truncation_leaves_nothing, uncreated_files_do_not_appear,
};
use crate::catalog::table_metadata::{FormatVersion, TableMetadata, TableSchema};
use crate::catalog::table_properties::{
    PreparedTablePropertyUpdate, version_refused, with_properties,
};
use crate::catalog::vacuum::PreparedVacuum;
use crate::error::{IcebergError, IcebergLiteError, IcebergResult, IcebergVacuumError};
use crate::text::{ascending, insert_all_ascending, texts};

verus! {

/// A conflict check that the commit runs, by the number under which the
/// table-format layer keeps it.
#[derive(Debug, Clone, Copy, PartialEq, Eq, Structural)]
pub struct RowDeltaValidation {
    pub handle: u64,
}

/// File changes between two other changes of the table, and their checks.
#[derive(Debug)]
pub struct TxDataEpoch {
    pub delta: SnapshotDelta,
    pub validations: Vec<RowDeltaValidation>,
}

/// A truncation and the metadata location that it saw.
#[derive(Debug)]
pub struct TxTruncateAction {
    pub expected_metadata_location: String,
}

/// One change of the table.
#[derive(Debug)]
pub enum TxTableAction {
    Schema(Arc<PreparedSchemaUpdate>),
    Properties(Arc<PreparedTablePropertyUpdate>),
    Data(TxDataEpoch),
    Truncate(TxTruncateAction),
    Vacuum(Arc<PreparedVacuum>),
    Drop,
}

/// The operations and checks of an epoch.
pub struct EpochView {
    pub ops: Seq<DeltaOp>,
    pub validations: Seq<RowDeltaValidation>,
}

/// One change of the table.
pub enum ActionView {
    Schema(PreparedSchemaUpdate),
    Properties(PreparedTablePropertyUpdate),
    Data(EpochView),
    Truncate(Seq<char>),
    Vacuum(PreparedVacuum),
    Drop,
}

impl View for TxDataEpoch {
    type V = EpochView;

    open spec fn view(&self) -> EpochView {
        EpochView { ops: self.delta@, validations: self.validations@ }
    }
}

impl View for TxTableAction {
    type V = ActionView;

    open spec fn view(&self) -> ActionView {
        match *self {
            TxTableAction::Schema(update) => ActionView::Schema(*update),
            TxTableAction::Properties(update) => ActionView::Properties(*update),
            TxTableAction::Data(epoch) => ActionView::Data(epoch@),
            TxTableAction::Truncate(truncate) => ActionView::Truncate(truncate.expected_metadata_location@),
            TxTableAction::Vacuum(vacuum) => ActionView::Vacuum(*vacuum),
            TxTableAction::Drop => ActionView::Drop,
        }
    }
}

impl EpochView {
    /// No operations and no checks.
    pub open spec fn empty() -> EpochView {
        EpochView { ops: Seq::empty(), validations: Seq::empty() }
    }

    /// Whether the epoch holds nothing.
    pub open spec fn is_empty(self) -> bool {
        self.ops.len() == 0 && self.validations.len() == 0
    }
}

impl Clone for TxDataEpoch {
    fn clone(&self) -> (r: Self)
        ensures
            r@ == self@,
    {
        let validations = self.validations.clone();
        assert(validations@ =~= self.validations@);
        TxDataEpoch { delta: self.delta.clone(), validations }
    }
}

impl Clone for TxTableAction {
    fn clone(&self) -> (r: Self)
        ensures
            r@ == self@,
    {
        match self {
            TxTableAction::Schema(update) => TxTableAction::Schema(Arc::clone(update)),
            TxTableAction::Properties(update) => TxTableAction::Properties(Arc::clone(update)),
            TxTableAction::Data(epoch) => TxTableAction::Data(epoch.clone()),
            TxTableAction::Truncate(truncate) => TxTableAction::Truncate(
                TxTruncateAction {
                    expected_metadata_location: truncate.expected_metadata_location.clone(),
                },
            ),
            TxTableAction::Vacuum(vacuum) => TxTableAction::Vacuum(Arc::clone(vacuum)),
            TxTableAction::Drop => TxTableAction::Drop,
        }
    }
}

impl TxDataEpoch {
    /// Whether the epoch holds nothing.
    pub fn is_empty(&self) -> (r: bool)
        ensures
            r == self@.is_empty(),
    {
        self.delta.is_empty() && self.validations.is_empty()
    }
}

impl Default for TxDataEpoch {
    fn default() -> (r: Self)
        ensures
            r@ == EpochView::empty(),
    {
        TxDataEpoch { delta: SnapshotDelta::new(), validations: Vec::new() }
    }
}

/// A place in an epoch.
#[derive(Debug, Clone, Copy, PartialEq, Eq, Structural)]
pub struct TxDataEpochMarker {
    pub delta: SnapshotDeltaMarker,
    pub validation_len: usize,
}

/// A place in a log to which the log can be cut back.
#[derive(Debug, Clone, Copy, PartialEq, Eq, Structural)]
pub struct TxTableActionLogMarker {
    pub action_len: usize,
    pub current_data_epoch: Option<TxDataEpochMarker>,
}

/// A change that the commit makes.
#[derive(Debug)]
pub enum EffectiveCommitAction<'a> {
    Schema(&'a PreparedSchemaUpdate),
    Properties(&'a PreparedTablePropertyUpdate),
    Data { epoch: &'a TxDataEpoch, truncate_base: bool },
    TruncateOnly,
}

/// A change that the commit makes.
pub enum EffectiveView {
    Schema(PreparedSchemaUpdate),
    Properties(PreparedTablePropertyUpdate),
    Data { epoch: EpochView, truncate_base: bool },
    TruncateOnly,
}

impl<'a> View for EffectiveCommitAction<'a> {
    type V = EffectiveView;

    open spec fn view(&self) -> EffectiveView {
        match *self {
            EffectiveCommitAction::Schema(update) => EffectiveView::Schema(*update),
            EffectiveCommitAction::Properties(update) => EffectiveView::Properties(*update),
            EffectiveCommitAction::Data { epoch, truncate_base } => EffectiveView::Data {
                epoch: epoch@,
                truncate_base,
            },
            EffectiveCommitAction::TruncateOnly => EffectiveView::TruncateOnly,
        }
    }
}

/// What the commit of a table does.
#[derive(Debug)]
pub struct TxTableCommitPlan<'a> {
    pub actions: Vec<EffectiveCommitAction<'a>>,
    pub vacuum: Option<&'a PreparedVacuum>,
    pub expected_metadata_location: Option<&'a str>,
    pub canceled_created_paths: Vec<String>,
}

/// The views of some effective actions.
pub open spec fn effective_views(actions: Seq<EffectiveCommitAction>) -> Seq<EffectiveView> {
    Seq::new(actions.len(), |i: int| actions[i]@)
}

// -- What a list of actions means --------------------------------------------

/// Whether the list holds a maintenance run.
pub open spec fn has_vacuum_action(actions: Seq<ActionView>) -> bool {
    exists|i: int| 0 <= i < actions.len() && #[trigger] actions[i] is Vacuum
}

/// Whether action `i` is the last truncation.
pub open spec fn is_last_truncate(actions: Seq<ActionView>, i: int) -> bool {
    &&& 0 <= i < actions.len()
    &&& actions[i] is Truncate
    &&& forall|j: int| i < j < actions.len() ==> !(#[trigger] actions[j] is Truncate)
}

/// Whether the list truncates the table.
pub open spec fn has_truncate(actions: Seq<ActionView>) -> bool {
    exists|i: int| 0 <= i < actions.len() && #[trigger] actions[i] is Truncate
}

/// Whether an action stages nothing.
pub open spec fn stages_nothing(action: ActionView) -> bool {
    match action {
        ActionView::Schema(update) => update.changes@.len() == 0,
        ActionView::Data(epoch) => epoch.is_empty(),
        _ => false,
    }
}

/// Whether action `i` is file changes that a later truncation does not undo.
pub open spec fn survives(actions: Seq<ActionView>, i: int) -> bool {
    &&& 0 <= i < actions.len()
    &&& actions[i] is Data
    &&& !actions[i]->Data_0.is_empty()
    &&& forall|j: int| i < j < actions.len() ==> !(#[trigger] actions[j] is Truncate)
}

/// Whether file changes survive among the first `n` actions.
pub open spec fn survivor_before(actions: Seq<ActionView>, n: int) -> bool {
    exists|i: int| 0 <= i < n && #[trigger] survives(actions, i)
}

/// What of the first `n` actions is committed. The first surviving file
/// changes carry the truncation of what the table held.
pub open spec fn effective_before(actions: Seq<ActionView>, n: int) -> Seq<EffectiveView>
    decreases n,
{
    if n <= 0 {
        Seq::empty()
    } else {
        let earlier = effective_before(actions, n - 1);
        match actions[n - 1] {
            ActionView::Schema(update) => earlier.push(EffectiveView::Schema(update)),
            ActionView::Properties(update) => earlier.push(EffectiveView::Properties(update)),
            ActionView::Data(epoch) => if survives(actions, n - 1) {
                earlier.push(
                    EffectiveView::Data {
                        epoch,
                        truncate_base: has_truncate(actions) && !survivor_before(actions, n - 1),
                    },
                )
            } else {
                earlier
            },
            _ => earlier,
        }
    }
}

/// What is committed. A truncation that no surviving file changes carry is
/// committed on its own, at the end.
pub open spec fn effective(actions: Seq<ActionView>) -> Seq<EffectiveView> {
    let body = effective_before(actions, actions.len() as int);
    if has_truncate(actions) && !survivor_before(actions, actions.len() as int) {
        body.push(EffectiveView::TruncateOnly)
    } else {
        body
    }
}

/// Whether the file at `path` is of no use once the list commits: created
/// before the last truncation, or created and removed again after it.
pub open spec fn canceled_by(actions: Seq<ActionView>, i: int, path: Seq<char>) -> bool {
    &&& 0 <= i < actions.len()
    &&& has_truncate(actions)
    &&& actions[i] is Data
    &&& if exists|j: int| i < j < actions.len() && #[trigger] actions[j] is Truncate {
        creates_path(actions[i]->Data_0.ops, path)
    } else {
        cancels_path(actions[i]->Data_0.ops, path)
    }
}

/// Whether some file changes cancel the file at `path`.
pub open spec fn canceled(actions: Seq<ActionView>, path: Seq<char>) -> bool {
    exists|i: int| #[trigger] canceled_by(actions, i, path)
}

/// Whether an action cannot be part of an ordinary commit.
pub open spec fn uncommittable(action: ActionView) -> bool {
    action is Vacuum || action is Drop
}

/// Whether a result is the plan of a list of actions.
pub open spec fn planned(actions: Seq<ActionView>, r: IcebergResult<TxTableCommitPlan>) -> bool {
    if actions.len() > 0 && actions[0] is Vacuum {
        if actions.len() == 1 {
            &&& r is Ok
            &&& r->Ok_0.vacuum == Some(&actions[0]->Vacuum_0)
            &&& r->Ok_0.actions@.len() == 0
            &&& r->Ok_0.expected_metadata_location is None
            &&& r->Ok_0.canceled_created_paths@.len() == 0
        } else {
            r == Err::<TxTableCommitPlan, IcebergError>(
                IcebergError::InvariantViolated("VACUUM action is not exclusive in metadata tracker"),
            )
        }
    } else if exists|i: int| 0 <= i < actions.len() && uncommittable(#[trigger] actions[i]) {
        exists|i: int|
            {
                &&& 0 <= i < actions.len()
                &&& uncommittable(#[trigger] actions[i])
                &&& forall|j: int| 0 <= j < i ==> !uncommittable(#[trigger] actions[j])
                &&& r == Err::<TxTableCommitPlan, IcebergError>(
                    IcebergError::InvariantViolated(
                        if actions[i] is Vacuum {
                            "non-exclusive VACUUM reached commit planning"
                        } else {
                            "dropped table reached Iceberg commit planning"
                        },
                    ),
                )
            }
    } else {
        &&& r is Ok
        &&& r->Ok_0.vacuum is None
        &&& effective_views(r->Ok_0.actions@) == effective(actions)
        &&& r->Ok_0.expected_metadata_location is Some <==> has_truncate(actions)
        &&& forall|i: int| #[trigger]
            is_last_truncate(actions, i) ==> r->Ok_0.expected_metadata_location->Some_0@ == actions[i]->Truncate_0
        &&& ascending(texts(r->Ok_0.canceled_created_paths@))
        &&& forall|path: Seq<char>| #[trigger]
            texts(r->Ok_0.canceled_created_paths@).contains(path) <==> canceled(actions, path)
    }
}

/// The file changes of the first `n` actions as one list of operations.
pub open spec fn combined_ops(actions: Seq<ActionView>, n: int) -> Seq<DeltaOp>
    decreases n,
{
    if n <= 0 {
        Seq::empty()
    } else {
        match actions[n - 1] {
            ActionView::Data(epoch) => combined_ops(actions, n - 1) + epoch.ops,
            ActionView::Truncate(_) => combined_ops(actions, n - 1).push(DeltaOp::TruncateTable),
            _ => combined_ops(actions, n - 1),
        }
    }
}

/// The file changes that a reader of the transaction sees on top of the
/// table: none for a dropped table or during maintenance.
pub open spec fn overlay_ops(actions: Seq<ActionView>) -> Option<Seq<DeltaOp>> {
    if exists|i: int| 0 <= i < actions.len() && uncommittable(#[trigger] actions[i]) {
        None
    } else {
        let ops = combined_ops(actions, actions.len() as int);
        if ops.len() == 0 {
            None
        } else {
            Some(ops)
        }
    }
}

/// Whether a delta is the given list of operations, or absent with it.
pub open spec fn delta_is(delta: Option<Arc<SnapshotDelta>>, ops: Option<Seq<DeltaOp>>) -> bool {
    match delta {
        Some(d) => ops == Some(d@),
        None => ops is None,
    }
}

/// The epoch to which file changes are added next.
pub open spec fn current_epoch(actions: Seq<ActionView>) -> EpochView {
    if actions.len() > 0 && actions.last() is Data {
        actions.last()->Data_0
    } else {
        EpochView::empty()
    }
}

/// The list with its current epoch replaced, or opened.
pub open spec fn with_epoch(actions: Seq<ActionView>, epoch: EpochView) -> Seq<ActionView> {
    if actions.len() > 0 && actions.last() is Data {
        actions.update(actions.len() - 1, ActionView::Data(epoch))
    } else {
        actions.push(ActionView::Data(epoch))
    }
}

/// The list after operations were added to its current epoch.
pub open spec fn with_ops(actions: Seq<ActionView>, ops: Seq<DeltaOp>) -> Seq<ActionView> {
    let epoch = current_epoch(actions);
    with_epoch(actions, EpochView { ops: epoch.ops + ops, ..epoch })
}

/// The operations that add some data files.
pub open spec fn additions(files: Seq<DataFile>) -> Seq<DeltaOp> {
    files.map_values(|f: DataFile| DeltaOp::AddDataFile(f))
}

/// The place at the end of a list.
pub open spec fn marks_end(actions: Seq<ActionView>, marker: TxTableActionLogMarker) -> bool {
    &&& marker.action_len == actions.len()
    &&& if actions.len() > 0 && actions.last() is Data {
        &&& marker.current_data_epoch is Some
        &&& marker.current_data_epoch->Some_0.delta.len == actions.last()->Data_0.ops.len()
        &&& marker.current_data_epoch->Some_0.validation_len == actions.last()->Data_0.validations.len()
    } else {
        marker.current_data_epoch is None
    }
}

/// The first `n` elements, or all of a shorter sequence.
pub open spec fn at_most<A>(s: Seq<A>, n: int) -> Seq<A> {
    if n <= s.len() {
        s.take(n)
    } else {
        s
    }
}

/// The list cut back to a place.
pub open spec fn cut_to(actions: Seq<ActionView>, marker: TxTableActionLogMarker) -> Seq<ActionView> {
    let kept = at_most(actions, marker.action_len as int);
    match marker.current_data_epoch {
        Some(place) => if kept.len() > 0 && kept.last() is Data {
            let epoch = kept.last()->Data_0;
            kept.update(
                kept.len() - 1,
                ActionView::Data(
                    EpochView {
                        ops: at_most(epoch.ops, place.delta.len as int),
                        validations: at_most(epoch.validations, place.validation_len as int),
                    },
                ),
            )
        } else {
            kept
        },
        None => kept,
    }
}

/// Whether `after` is `before` with changes added: more actions, and more
/// file changes or checks in what was the last epoch.
pub open spec fn extends(before: Seq<ActionView>, after: Seq<ActionView>) -> bool {
    &&& before.len() <= after.len()
    &&& forall|i: int| 0 <= i < before.len() - 1 ==> #[trigger] after[i] == before[i]
    &&& before.len() > 0 ==> {
        let last = before.len() - 1;
        match before[last] {
            ActionView::Data(epoch) => after[last] is Data && epoch.ops.is_prefix_of(after[last]->Data_0.ops)
                && epoch.validations.is_prefix_of(after[last]->Data_0.validations),
            _ => after[last] == before[last],
        }
    }
}

// -- The log ------------------------------------------------------------------

/// The changes of one table, oldest first.
#[derive(Debug)]
pub struct TxTableActionLog {
    actions: Vec<TxTableAction>,
    /// The combined file changes, while no change came since they were
    /// computed.
    combined_delta_cache: Option<Option<Arc<SnapshotDelta>>>,
}

spec fn action_views(actions: Seq<TxTableAction>) -> Seq<ActionView> {
    Seq::new(actions.len(), |i: int| actions[i]@)
}

impl View for TxTableActionLog {
    type V = Seq<ActionView>;

    closed spec fn view(&self) -> Seq<ActionView> {
        action_views(self.actions@)
    }
}

impl Clone for TxTableActionLog {
    fn clone(&self) -> (r: Self)
        ensures
            r@ == self@,
            self.wf() ==> r.wf(),
    {
        let mut actions: Vec<TxTableAction> = Vec::new();
        let mut i: usize = 0;
        assert(action_views(actions@) =~= self@.take(0));
        while i < self.actions.len()
            invariant
                i <= self.actions@.len(),
                action_views(actions@) == self@.take(i as int),
            decreases self.actions@.len() - i,
        {
            let ghost before = actions@;
            actions.push(self.actions[i].clone());
            assert(action_views(actions@) =~= action_views(before).push(self@[i as int]));
            assert(self@.take(i + 1) =~= self@.take(i as int).push(self@[i as int]));
            i = i + 1;
        }
        assert(self@.take(self@.len() as int) =~= self@);
        let combined_delta_cache = match &self.combined_delta_cache {
            Some(Some(delta)) => Some(Some(Arc::clone(delta))),
            Some(None) => Some(None),
            None => None,
        };
        TxTableActionLog { actions, combined_delta_cache }
    }
}

impl Default for TxTableActionLog {
    fn default() -> (r: Self)
        ensures
            r.wf(),
            r@ == Seq::<ActionView>::empty(),
    {
        let r = TxTableActionLog { actions: Vec::new(), combined_delta_cache: None };
        assert(r@ =~= Seq::<ActionView>::empty());
        r
    }
}

/// The error of combining maintenance with another change.
pub open spec fn action_conflict() -> IcebergError {
    IcebergError::Vacuum { source: IcebergVacuumError::ActionConflict }
}

impl TxTableActionLog {
    /// Combined file changes that are kept are those of the log.
    pub closed spec fn wf(self) -> bool {
        self.combined_delta_cache matches Some(delta) ==> delta_is(delta, overlay_ops(self@))
    }

    /// Whether the log holds a maintenance run.
    pub fn has_vacuum(&self) -> (r: bool)
        ensures
            r == has_vacuum_action(self@),
    {
        let mut i: usize = 0;
        while i < self.actions.len()
            invariant
                i <= self.actions@.len(),
                forall|k: int| 0 <= k < i ==> !(#[trigger] self@[k] is Vacuum),
            decreases self.actions@.len() - i,
        {
            if let TxTableAction::Vacuum(_) = &self.actions[i] {
                assert(self@[i as int] is Vacuum);
                return true;
            }
            i = i + 1;
        }
        false
    }

    /// The error of a change that follows a maintenance run.
    pub fn exclusive_conflict_error(&self) -> (r: Option<IcebergError>)
        ensures
            has_vacuum_action(self@) ==> r == Some(action_conflict()),
            !has_vacuum_action(self@) ==> r is None,
    {
        if self.has_vacuum() {
            Some(IcebergError::Vacuum { source: IcebergVacuumError::ActionConflict })
        } else {
            None
        }
    }

    /// The last truncation and its place.
    pub fn last_truncate(&self) -> (r: Option<(usize, &TxTruncateAction)>)
        ensures
            r is Some <==> has_truncate(self@),
            r matches Some((index, truncate)) ==> is_last_truncate(self@, index as int)
                && truncate.expected_metadata_location@ == self@[index as int]->Truncate_0,
    {
        let mut i: usize = self.actions.len();
        while i > 0
            invariant
                i <= self.actions@.len(),
                forall|k: int| i <= k < self.actions@.len() ==> !(#[trigger] self@[k] is Truncate),
            decreases i,
        {
            i = i - 1;
            if let TxTableAction::Truncate(truncate) = &self.actions[i] {
                assert(self@[i as int] is Truncate);
                return Some((i, truncate));
            }
        }
        None
    }

    /// Plans the commit of the log.
    pub fn commit_plan(&self) -> (r: IcebergResult<TxTableCommitPlan<'_>>)
        ensures
            planned(self@, r),
    {
        if self.actions.len() > 0 {
            if let TxTableAction::Vacuum(vacuum) = &self.actions[0] {
                assert(self@[0] is Vacuum);
                if self.actions.len() != 1 {
                    return Err(
                        IcebergError::InvariantViolated(
                            "VACUUM action is not exclusive in metadata tracker",
                        ),
                    );
                }
                return Ok(
                    TxTableCommitPlan {
                        actions: Vec::new(),
                        vacuum: Some(&**vacuum),
                        expected_metadata_location: None,
                        canceled_created_paths: Vec::new(),
                    },
                );
            }
            assert(!(self@[0] is Vacuum));
        }
        let ghost log = self@;
        let last_truncate = self.last_truncate();
        let (truncates, truncate_index, expected_metadata_location) = match last_truncate {
            Some((index, truncate)) => (
                true,
                index,
                Some(truncate.expected_metadata_location.as_str()),
            ),
            None => (false, 0usize, None),
        };
        let mut effective_actions: Vec<EffectiveCommitAction<'_>> = Vec::new();
        let mut paths: Vec<String> = Vec::new();
        let mut pending_truncate = truncates;
        let mut index: usize = 0;
        assert(effective_views(effective_actions@) =~= Seq::<EffectiveView>::empty());
        assert(texts(paths@) =~= Seq::<Seq<char>>::empty());
        while index < self.actions.len()
            invariant
                index <= self.actions@.len(),
                log == self@,
                log.len() == self.actions@.len(),
                log.len() > 0 ==> !(log[0] is Vacuum),
                truncates == has_truncate(log),
                truncates ==> is_last_truncate(log, truncate_index as int),
                pending_truncate == (truncates && !survivor_before(log, index as int)),
                forall|k: int| 0 <= k < index ==> !uncommittable(#[trigger] log[k]),
                effective_views(effective_actions@) == effective_before(log, index as int),
                ascending(texts(paths@)),
                forall|path: Seq<char>| #[trigger]
                    texts(paths@).contains(path) <==> exists|i: int|
                        0 <= i < index && #[trigger] canceled_by(log, i, path),
            decreases self.actions@.len() - index,
        {
            let ghost before = effective_actions@;
            let ghost paths_before = texts(paths@);
            let ghost n = index as int;
            match &self.actions[index] {
                TxTableAction::Schema(update) => {
                    effective_actions.push(EffectiveCommitAction::Schema(&**update));
                    assert(effective_views(effective_actions@) =~= effective_views(before).push(
                        EffectiveView::Schema(**update),
                    ));
                },
                TxTableAction::Properties(update) => {
                    effective_actions.push(EffectiveCommitAction::Properties(&**update));
                    assert(effective_views(effective_actions@) =~= effective_views(before).push(
                        EffectiveView::Properties(**update),
                    ));
                },
                TxTableAction::Data(epoch) => {
                    assert(log[n] == ActionView::Data(epoch@));
                    let undone = truncates && index < truncate_index;
                    proof {
                        if truncates {
                            assert((exists|j: int| n < j < log.len() && #[trigger] log[j] is Truncate) == (n
                                < truncate_index)) by {
                                if n < truncate_index {
                                    assert(log[truncate_index as int] is Truncate);
                                }
                            }
                        } else {
                            assert(forall|j: int| n < j < log.len() ==> !(#[trigger] log[j] is Truncate));
                        }
                    }
                    if truncates {
                        let canceled_paths = if undone {
                            epoch.delta.created_file_paths()
                        } else {
                            epoch.delta.canceled_created_file_paths()
                        };
                        let ghost canceled_texts = texts(canceled_paths@);
                        assert(forall|path: Seq<char>| #[trigger]
                            canceled_texts.contains(path) <==> canceled_by(log, n, path));
                        insert_all_ascending(&mut paths, canceled_paths);
                    }
                    if !undone && !epoch.is_empty() {
                        assert(survives(log, n));
                        effective_actions.push(
                            EffectiveCommitAction::Data { epoch, truncate_base: pending_truncate },
                        );
                        assert(effective_views(effective_actions@) =~= effective_views(before).push(
                            (EffectiveView::Data { epoch: epoch@, truncate_base: pending_truncate }),
                        ));
                        pending_truncate = false;
                    } else {
                        assert(!survives(log, n)) by {
                            if undone {
                                assert(log[truncate_index as int] is Truncate);
                            }
                        }
                    }
                },
                TxTableAction::Truncate(_) => {},
                TxTableAction::Vacuum(_) => {
                    assert(uncommittable(log[n]));
                    return Err(
                        IcebergError::InvariantViolated("non-exclusive VACUUM reached commit planning"),
                    );
                },
                TxTableAction::Drop => {
                    assert(uncommittable(log[n]));
                    return Err(
                        IcebergError::InvariantViolated("dropped table reached Iceberg commit planning"),
                    );
                },
            }
            proof {
                assert(survivor_before(log, n + 1) == (survivor_before(log, n) || survives(log, n))) by {
                    if survivor_before(log, n) {
                        let i = choose|i: int| 0 <= i < n && #[trigger] survives(log, i);
                        assert(survives(log, i));
                    }
                }
                assert forall|path: Seq<char>| #[trigger] texts(paths@).contains(path) <==> exists|i: int|
                    0 <= i < n + 1 && #[trigger] canceled_by(log, i, path) by {
                    assert(texts(paths@).contains(path) <==> (paths_before.contains(path) || canceled_by(
                        log,
                        n,
                        path,
                    )));
                    if paths_before.contains(path) {
                        let i = choose|i: int| 0 <= i < n && #[trigger] canceled_by(log, i, path);
                        assert(canceled_by(log, i, path));
                    }
                }
            }
            index = index + 1;
        }
        if pending_truncate {
            let ghost before = effective_actions@;
            effective_actions.push(EffectiveCommitAction::TruncateOnly);
            assert(effective_views(effective_actions@) =~= effective_views(before).push(
                EffectiveView::TruncateOnly,
            ));
        }
        proof {
            assert forall|path: Seq<char>| #[trigger] texts(paths@).contains(path) <==> canceled(log, path) by {}
        }
        Ok(
            TxTableCommitPlan {
                actions: effective_actions,
                vacuum: None,
                expected_metadata_location,
                canceled_created_paths: paths,
            },
        )
    }

    /// The present end of the log.
    pub fn mark(&self) -> (r: TxTableActionLogMarker)
        ensures
            marks_end(self@, r),
    {
        let count: usize = self.actions.len();
        let current_data_epoch = if count > 0 {
            match &self.actions[count - 1] {
                TxTableAction::Data(epoch) => Some(
                    TxDataEpochMarker {
                        delta: epoch.delta.mark(),
                        validation_len: epoch.validations.len(),
                    },
                ),
                _ => None,
            }
        } else {
            None
        };
        assert(count > 0 ==> self@.last() == self.actions@[count - 1]@);
        TxTableActionLogMarker { action_len: count, current_data_epoch }
    }

    /// Drops every change after a mark.
    pub fn truncate(&mut self, marker: TxTableActionLogMarker)
        ensures
            final(self).wf(),
            final(self)@ == cut_to(old(self)@, marker),
    {
        self.combined_delta_cache = None;
        self.actions.truncate(marker.action_len);
        let ghost kept = at_most(old(self)@, marker.action_len as int);
        assert(self@ =~= kept);
        if let Some(place) = marker.current_data_epoch {
            let count: usize = self.actions.len();
            if count > 0 {
                let last: usize = count - 1;
                let ghost before = self.actions@[last as int]@;
                assert(kept.last() == before);
                match &mut self.actions[last] {
                    TxTableAction::Data(epoch) => {
                        epoch.delta.truncate(place.delta);
                        epoch.validations.truncate(place.validation_len);
                    },
                    _ => {},
                }
                proof {
                    if before is Data {
                        let epoch = before->Data_0;
                        let now = self.actions@[last as int]@;
                        assert(now is Data);
                        assert(now->Data_0.ops =~= at_most(epoch.ops, place.delta.len as int));
                        assert(now->Data_0.validations =~= at_most(
                            epoch.validations,
                            place.validation_len as int,
                        ));
                    }
                    assert(self@ =~= cut_to(old(self)@, marker));
                }
            }
        }
    }

    /// Whether the log stages nothing.
    pub fn is_empty(&self) -> (r: bool)
        ensures
            r == forall|i: int| 0 <= i < self@.len() ==> stages_nothing(#[trigger] self@[i]),
    {
        let mut i: usize = 0;
        while i < self.actions.len()
            invariant
                i <= self.actions@.len(),
                forall|k: int| 0 <= k < i ==> stages_nothing(#[trigger] self@[k]),
            decreases self.actions@.len() - i,
        {
            let nothing = match &self.actions[i] {
                TxTableAction::Schema(update) => update.is_empty(),
                TxTableAction::Properties(_) => false,
                TxTableAction::Data(epoch) => epoch.is_empty(),
                TxTableAction::Truncate(_) => false,
                TxTableAction::Vacuum(_) => false,
                TxTableAction::Drop => false,
            };
            assert(nothing == stages_nothing(self@[i as int]));
            if !nothing {
                return false;
            }
            i = i + 1;
        }
        true
    }

    fn push_action(&mut self, action: TxTableAction)
        ensures
            final(self)@ == old(self)@.push(action@),
            final(self).combined_delta_cache == old(self).combined_delta_cache,
    {
        self.actions.push(action);
        assert(self@ =~= old(self)@.push(action@));
    }

    /// Stages a schema change, unless it changes nothing.
    pub fn stage_schema(&mut self, update: PreparedSchemaUpdate)
        requires
            old(self).wf(),
        ensures
            final(self).wf(),
            final(self)@ == if update.changes@.len() == 0 {
                old(self)@
            } else {
                old(self)@.push(ActionView::Schema(update))
            },
    {
        if !update.is_empty() {
            self.push_action(TxTableAction::Schema(Arc::new(update)));
            proof {
                lemma_overlay_unmoved(old(self)@, ActionView::Schema(update));
            }
        }
    }

    /// Stages a property change.
    pub fn stage_properties(&mut self, update: PreparedTablePropertyUpdate)
        requires
            old(self).wf(),
        ensures
            final(self).wf(),
            final(self)@ == old(self)@.push(ActionView::Properties(update)),
    {
        self.push_action(TxTableAction::Properties(Arc::new(update)));
        proof {
            lemma_overlay_unmoved(old(self)@, ActionView::Properties(update));
        }
    }

    /// Stages a maintenance run, which must be the only change.
    pub fn stage_vacuum(&mut self, vacuum: PreparedVacuum) -> (r: IcebergResult<()>)
        requires
            old(self).wf(),
        ensures
            final(self).wf(),
            old(self)@.len() == 0 ==> r == Ok::<(), IcebergError>(()) && final(self)@ == old(self)@.push(
                ActionView::Vacuum(vacuum),
            ),
            old(self)@.len() > 0 ==> r == Err::<(), IcebergError>(action_conflict()) && final(self)@ == old(self)@,
    {
        if !self.actions.is_empty() {
            return Err(IcebergError::Vacuum { source: IcebergVacuumError::ActionConflict });
        }
        self.combined_delta_cache = None;
        self.push_action(TxTableAction::Vacuum(Arc::new(vacuum)));
        Ok(())
    }

    /// Takes the current epoch out of the log, opening one if need be.
    fn take_data_epoch(&mut self) -> (epoch: TxDataEpoch)
        ensures
            epoch@ == current_epoch(old(self)@),
            final(self).combined_delta_cache is None,
            forall|e: EpochView| final(self)@.push(ActionView::Data(e)) == #[trigger] with_epoch(old(self)@, e),
    {
        self.combined_delta_cache = None;
        let count: usize = self.actions.len();
        let open = if count == 0 {
            false
        } else {
            match &self.actions[count - 1] {
                TxTableAction::Data(_) => true,
                _ => false,
            }
        };
        assert(count > 0 ==> self@.last() == self.actions@[count - 1]@);
        if open {
            if let Some(TxTableAction::Data(epoch)) = self.actions.pop() {
                proof {
                    assert(self@ =~= old(self)@.drop_last());
                    assert forall|e: EpochView| self@.push(ActionView::Data(e)) == #[trigger] with_epoch(
                        old(self)@,
                        e,
                    ) by {
                        assert(self@.push(ActionView::Data(e)) =~= with_epoch(old(self)@, e));
                    }
                }
                return epoch;
            }
        }
        TxDataEpoch::default()
    }

    /// Puts the current epoch back into the log.
    fn put_data_epoch(&mut self, epoch: TxDataEpoch)
        requires
            old(self).combined_delta_cache is None,
        ensures
            final(self).wf(),
            final(self)@ == old(self)@.push(ActionView::Data(epoch@)),
    {
        self.push_action(TxTableAction::Data(epoch));
    }

    /// Stages data files in order, up to the first that is refused.
    pub fn record_data_files(&mut self, new_data_files: Vec<DataFile>) -> (r: IcebergResult<()>)
        requires
            old(self).wf(),
        ensures
            final(self).wf(),
            new_data_files@.len() == 0 ==> r is Ok && final(self)@ == old(self)@,
            new_data_files@.len() > 0 && (forall|i: int|
                0 <= i < new_data_files@.len() ==> addable_data(#[trigger] new_data_files@[i])) ==> r is Ok
                && final(self)@ == with_ops(old(self)@, additions(new_data_files@)),
            forall|k: int|
                0 <= k < new_data_files@.len() && !addable_data(#[trigger] new_data_files@[k]) && (forall|i: int|
                    0 <= i < k ==> addable_data(#[trigger] new_data_files@[i])) ==> refused_as_data(r)
                    && final(self)@ == with_ops(old(self)@, additions(new_data_files@.take(k))),
    {
        if new_data_files.is_empty() {
            return Ok(());
        }
        let mut epoch = self.take_data_epoch();
        let ghost all = new_data_files@;
        let ghost start = epoch@;
        let mut refusal: IcebergResult<()> = Ok(());
        assert(start.ops + additions(all.take(0)) =~= start.ops);
        for data_file in it: new_data_files.into_iter()
            invariant
                it.seq() == all,
                epoch@.validations == start.validations,
                match refusal {
                    Ok(()) => epoch@.ops == start.ops + additions(all.take(it.index() as int)) && forall|i: int|
                        0 <= i < it.index() ==> addable_data(#[trigger] all[i]),
                    Err(_) => refused_as_data(refusal) && exists|k: int|
                        0 <= k < it.index() && !addable_data(#[trigger] all[k]) && (forall|i: int|
                            0 <= i < k ==> addable_data(#[trigger] all[i])) && epoch@.ops == start.ops
                            + additions(all.take(k)),
                },
        {
            let ghost n = it.index() as int;
            if refusal.is_ok() {
                let ghost before = epoch@.ops;
                refusal = epoch.delta.add_data_file(data_file);
                proof {
                    if addable_data(data_file) {
                        assert(epoch@.ops =~= start.ops + additions(all.take(n + 1)));
                    } else {
                        assert(!addable_data(all[n]));
                    }
                }
            }
        }
        assert(all.take(all.len() as int) =~= all);
        let ghost done = epoch@;
        self.put_data_epoch(epoch);
        proof {
            if refusal is Ok {
                assert(done == (EpochView { ops: start.ops + additions(all), ..start }));
                assert(self@ == with_ops(old(self)@, additions(all)));
            } else {
                let k = choose|k: int|
                    0 <= k < all.len() && !addable_data(#[trigger] all[k]) && (forall|i: int|
                        0 <= i < k ==> addable_data(#[trigger] all[i])) && done.ops == start.ops + additions(
                        all.take(k),
                    );
                assert(done == (EpochView { ops: start.ops + additions(all.take(k)), ..start }));
                assert(self@ == with_ops(old(self)@, additions(all.take(k))));
            }
            assert forall|k: int|
                0 <= k < all.len() && !addable_data(#[trigger] all[k]) && (forall|i: int|
                    0 <= i < k ==> addable_data(#[trigger] all[i])) implies refused_as_data(refusal)
                && self@ == with_ops(old(self)@, additions(all.take(k))) by {}
        }
        refusal
    }

    /// Stages a position delete file.
    pub fn record_position_delete_file(
        &mut self,
        delete_file: DataFile,
        referenced_data_files: Vec<String>,
    ) -> (r: IcebergResult<()>)
        ensures
            final(self).wf(),
            addable_delete(delete_file) ==> r == Ok::<(), IcebergError>(()) && final(self)@ == with_ops(
                old(self)@,
                seq![
                    DeltaOp::AddPositionDeleteFile {
                        file: delete_file,
                        referenced_data_files: Arc::new(referenced_data_files),
                    },
                ],
            ),
            !addable_delete(delete_file) ==> refused_as_delete(r) && final(self)@ == with_ops(
                old(self)@,
                Seq::empty(),
            ),
    {
        let mut epoch = self.take_data_epoch();
        let ghost start = epoch@;
        let r = epoch.delta.add_position_delete_file(delete_file, referenced_data_files);
        proof {
            if addable_delete(delete_file) {
                let op = DeltaOp::AddPositionDeleteFile {
                    file: delete_file,
                    referenced_data_files: Arc::new(referenced_data_files),
                };
                assert(epoch@.ops =~= start.ops + seq![op]);
            } else {
                assert(epoch@.ops =~= start.ops + Seq::<DeltaOp>::empty());
            }
        }
        self.put_data_epoch(epoch);
        r
    }

    /// Stages the removal of a delete file.
    pub fn record_remove_delete_file(&mut self, identity: DeleteFileIdentity) -> (r: IcebergResult<()>)
        ensures
            final(self).wf(),
            r == Ok::<(), IcebergError>(()),
            final(self)@ == with_ops(old(self)@, seq![DeltaOp::RemoveDeleteFile(identity)]),
    {
        let mut epoch = self.take_data_epoch();
        let ghost start = epoch@;
        epoch.delta.remove_delete_file(identity);
        assert(epoch@.ops =~= start.ops + seq![DeltaOp::RemoveDeleteFile(identity)]);
        self.put_data_epoch(epoch);
        Ok(())
    }

    /// Stages the removal of a data file.
    pub fn record_remove_data_file(&mut self, file_path: String) -> (r: IcebergResult<()>)
        ensures
            final(self).wf(),
            r == Ok::<(), IcebergError>(()),
            final(self)@ == with_ops(old(self)@, seq![DeltaOp::RemoveDataFile(file_path)]),
    {
        let mut epoch = self.take_data_epoch();
        let ghost start = epoch@;
        epoch.delta.remove_data_file(file_path);
        assert(epoch@.ops =~= start.ops + seq![DeltaOp::RemoveDataFile(file_path)]);
        self.put_data_epoch(epoch);
        Ok(())
    }

    /// Stages a conflict check.
    pub fn record_validation(&mut self, validation: RowDeltaValidation)
        ensures
            final(self).wf(),
            final(self)@ == with_epoch(
                old(self)@,
                (EpochView {
                    validations: current_epoch(old(self)@).validations.push(validation),
                    ..current_epoch(old(self)@)
                }),
            ),
    {
        let mut epoch = self.take_data_epoch();
        epoch.validations.push(validation);
        self.put_data_epoch(epoch);
    }

    /// The file changes that a reader of the transaction sees on top of the
    /// table. They are computed once and shared until the next change.
    pub fn combined_delta(&mut self) -> (r: IcebergResult<Option<Arc<SnapshotDelta>>>)
        requires
            old(self).wf(),
        ensures
            final(self).wf(),
            final(self)@ == old(self)@,
            r is Ok,
            delta_is(r->Ok_0, overlay_ops(old(self)@)),
    {
        match &self.combined_delta_cache {
            Some(Some(delta)) => {
                return Ok(Some(Arc::clone(delta)));
            },
            Some(None) => {
                return Ok(None);
            },
            None => {},
        }
        let ghost log = self@;
        let mut combined = SnapshotDelta::new();
        let mut i: usize = 0;
        while i < self.actions.len()
            invariant
                i <= self.actions@.len(),
                *self == *old(self),
                old(self).wf(),
                log == self@,
                log.len() == self.actions@.len(),
                forall|k: int| 0 <= k < i ==> !uncommittable(#[trigger] log[k]),
                combined@ == combined_ops(log, i as int),
            decreases self.actions@.len() - i,
        {
            match &self.actions[i] {
                TxTableAction::Data(epoch) => {
                    assert(log[i as int] == ActionView::Data(epoch@));
                    combined.append_delta(&epoch.delta);
                },
                TxTableAction::Truncate(_) => {
                    combined.truncate_table();
                },
                TxTableAction::Drop => {
                    assert(uncommittable(log[i as int]));
                    return Ok(None);
                },
                TxTableAction::Vacuum(_) => {
                    assert(uncommittable(log[i as int]));
                    return Ok(None);
                },
                TxTableAction::Schema(_) => {},
                TxTableAction::Properties(_) => {},
            }
            i = i + 1;
        }
        if combined.is_empty() {
            self.combined_delta_cache = Some(None);
            assert(self@ =~= log);
            Ok(None)
        } else {
            let delta = Arc::new(combined);
            self.combined_delta_cache = Some(Some(Arc::clone(&delta)));
            assert(self@ =~= log);
            Ok(Some(delta))
        }
    }

    /// Stages a truncation that saw the given metadata location.
    pub fn stage_truncate(&mut self, expected_metadata_location: String)
        ensures
            final(self).wf(),
            final(self)@ == old(self)@.push(ActionView::Truncate(expected_metadata_location@)),
    {
        self.combined_delta_cache = None;
        self.push_action(TxTableAction::Truncate(TxTruncateAction { expected_metadata_location }));
    }

    /// Stages the drop of the table.
    pub fn stage_drop(&mut self)
        ensures
            final(self).wf(),
            final(self)@ == old(self)@.push(ActionView::Drop),
    {
        self.combined_delta_cache = None;
        self.push_action(TxTableAction::Drop);
    }

    /// Whether the last change drops the table.
    pub fn is_dropped(&self) -> (r: bool)
        ensures
            r == (self@.len() > 0 && self@.last() is Drop),
    {
        let count: usize = self.actions.len();
        if count == 0 {
            return false;
        }
        assert(self@.last() == self.actions@[count - 1]@);
        match &self.actions[count - 1] {
            TxTableAction::Drop => true,
            _ => false,
        }
    }
}

/// What the table-format layer made of one staged schema change.
#[derive(Debug)]
pub enum SchemaReplay {
    /// The change does not fit the newer metadata.
    Conflict(IcebergLiteError),
    /// The change fits and could not be applied.
    Failed(IcebergLiteError),
    /// The schema after the change.
    Applied(TableSchema),
}

/// How many schema changes are among the first `n` actions.
pub open spec fn schema_count(actions: Seq<ActionView>, n: int) -> nat
    decreases n,
{
    if n <= 0 {
        0
    } else {
        schema_count(actions, n - 1) + if actions[n - 1] is Schema {
            1nat
        } else {
            0nat
        }
    }
}

/// How many property changes are among the first `n` actions.
pub open spec fn property_count(actions: Seq<ActionView>, n: int) -> nat
    decreases n,
{
    if n <= 0 {
        0
    } else {
        property_count(actions, n - 1) + if actions[n - 1] is Properties {
            1nat
        } else {
            0nat
        }
    }
}

/// What the table-format layer made of the staged schema and property changes.
#[derive(Debug)]
pub struct MetadataReplay {
    /// For each schema change, in order, what came of it.
    pub schemas: Vec<SchemaReplay>,
    /// For each property change, in order, the objection to it, if there is
    /// one.
    pub properties: Vec<Option<IcebergLiteError>>,
}

impl MetadataReplay {
    /// Whether the replay says something of each change of a log.
    pub open spec fn covers(self, actions: Seq<ActionView>) -> bool {
        &&& self.schemas@.len() == schema_count(actions, actions.len() as int)
        &&& self.properties@.len() == property_count(actions, actions.len() as int)
    }
}

/// A staged change of a table's metadata.
#[derive(Debug)]
pub enum MetadataChange<'a> {
    Schema(&'a PreparedSchemaUpdate),
    Properties(&'a PreparedTablePropertyUpdate),
}

/// A staged change of a table's metadata.
pub enum ChangeView {
    Schema(PreparedSchemaUpdate),
    Properties(PreparedTablePropertyUpdate),
}

impl<'a> View for MetadataChange<'a> {
    type V = ChangeView;

    open spec fn view(&self) -> ChangeView {
        match *self {
            MetadataChange::Schema(update) => ChangeView::Schema(*update),
            MetadataChange::Properties(update) => ChangeView::Properties(*update),
        }
    }
}

/// The views of some changes.
pub open spec fn change_views(changes: Seq<MetadataChange>) -> Seq<ChangeView> {
    Seq::new(changes.len(), |i: int| changes[i]@)
}

/// The schema and property changes among the first `n` actions, in order.
pub open spec fn changes_before(actions: Seq<ActionView>, n: int) -> Seq<ChangeView>
    decreases n,
{
    if n <= 0 {
        Seq::empty()
    } else {
        match actions[n - 1] {
            ActionView::Schema(update) => changes_before(actions, n - 1).push(
                ChangeView::Schema(update),
            ),
            ActionView::Properties(update) => changes_before(actions, n - 1).push(
                ChangeView::Properties(update),
            ),
            _ => changes_before(actions, n - 1),
        }
    }
}

/// There is one change of each kind for each that is counted.
pub proof fn metadata_changes_are_counted(actions: Seq<ActionView>, n: int)
    requires
        0 <= n <= actions.len(),
    ensures
        changes_before(actions, n).filter(|c: ChangeView| c is Schema).len() == schema_count(actions, n),
        changes_before(actions, n).filter(|c: ChangeView| c is Properties).len() == property_count(
            actions,
            n,
        ),
        changes_before(actions, n).len() == schema_count(actions, n) + property_count(actions, n),
    decreases n,
{
    reveal(Seq::filter);
    if n > 0 {
        metadata_changes_are_counted(actions, n - 1);
        let changes = changes_before(actions, n);
        let earlier = changes_before(actions, n - 1);
        if actions[n - 1] is Schema || actions[n - 1] is Properties {
            assert(changes.drop_last() =~= earlier);
        }
    }
}

impl TxTableActionLog {
    /// The schema and property changes of the log, in order.
    pub fn metadata_changes(&self) -> (r: Vec<MetadataChange<'_>>)
        ensures
            change_views(r@) == changes_before(self@, self@.len() as int),
    {
        let mut changes: Vec<MetadataChange<'_>> = Vec::new();
        let mut i: usize = 0;
        assert(change_views(changes@) =~= Seq::<ChangeView>::empty());
        while i < self.actions.len()
            invariant
                i <= self.actions@.len(),
                change_views(changes@) == changes_before(self@, i as int),
            decreases self.actions@.len() - i,
        {
            let ghost before = changes@;
            assert(self@[i as int] == self.actions@[i as int]@);
            match &self.actions[i] {
                TxTableAction::Schema(update) => {
                    let change = MetadataChange::Schema(&**update);
                    changes.push(change);
                    assert(change_views(changes@) =~= change_views(before).push(change@));
                },
                TxTableAction::Properties(update) => {
                    let change = MetadataChange::Properties(&**update);
                    changes.push(change);
                    assert(change_views(changes@) =~= change_views(before).push(change@));
                },
                _ => {},
            }
            i = i + 1;
        }
        changes
    }
}

/// Whether replaying action `i` on the metadata of `version` is refused, given
/// what each change came to.
pub open spec fn replay_refused(
    actions: Seq<ActionView>,
    i: int,
    version: FormatVersion,
    replay: MetadataReplay,
) -> bool {
    match actions[i] {
        ActionView::Schema(_) => !(replay.schemas@[schema_count(actions, i) as int] is Applied),
        ActionView::Properties(update) => update.format_version != version
            || replay.properties@[property_count(actions, i) as int] is Some,
        _ => false,
    }
}

/// The error of a refused replay.
pub open spec fn replay_error(
    actions: Seq<ActionView>,
    i: int,
    version: FormatVersion,
    replay: MetadataReplay,
    e: IcebergError,
) -> bool {
    match actions[i] {
        ActionView::Schema(_) => match replay.schemas@[schema_count(actions, i) as int] {
            SchemaReplay::Conflict(inner) => e == IcebergError::SchemaEvolutionConflict(inner),
            SchemaReplay::Failed(inner) => e == IcebergError::IcebergLiteError(inner),
            SchemaReplay::Applied(_) => false,
        },
        ActionView::Properties(update) => if update.format_version != version {
            version_refused(e, version, update.format_version)
        } else {
            replay.properties@[property_count(actions, i) as int] matches Some(inner) && e
                == IcebergError::IcebergLiteError(inner)
        },
        _ => false,
    }
}

/// The schema after the first `n` actions.
pub open spec fn replayed_schema(
    actions: Seq<ActionView>,
    n: int,
    base: TableSchema,
    replay: MetadataReplay,
) -> TableSchema
    decreases n,
{
    if n <= 0 {
        base
    } else if actions[n - 1] is Schema {
        replay.schemas@[schema_count(actions, n - 1) as int]->Applied_0
    } else {
        replayed_schema(actions, n - 1, base, replay)
    }
}

/// The properties after the first `n` actions.
pub open spec fn replayed_properties(
    actions: Seq<ActionView>,
    n: int,
    base: Map<Seq<char>, Seq<char>>,
) -> Map<Seq<char>, Seq<char>>
    decreases n,
{
    if n <= 0 {
        base
    } else {
        match actions[n - 1] {
            ActionView::Properties(update) => with_properties(
                replayed_properties(actions, n - 1, base),
                update.properties@,
            ),
            _ => replayed_properties(actions, n - 1, base),
        }
    }
}

proof fn lemma_counts_grow(actions: Seq<ActionView>, m: int, n: int)
    requires
        0 <= m <= n,
    ensures
        schema_count(actions, m) <= schema_count(actions, n),
        property_count(actions, m) <= property_count(actions, n),
    decreases n - m,
{
    if m < n {
        lemma_counts_grow(actions, m, n - 1);
    }
}

impl TxTableActionLog {
    /// Replays the schema and property changes of the log, in order, on newer
    /// metadata. `replay` says what the table-format layer made of each.
    pub fn overlay_metadata(
        &self,
        metadata: TableMetadata,
        replay: &MetadataReplay,
    ) -> (r: IcebergResult<TableMetadata>)
        requires
            replay.covers(self@),
        ensures
            r matches Ok(overlaid) ==> {
                &&& forall|i: int|
                    0 <= i < self@.len() ==> !replay_refused(self@, i, metadata.format_version, *replay)
                &&& overlaid.schema == replayed_schema(
                    self@,
                    self@.len() as int,
                    metadata.schema,
                    *replay,
                )
                &&& overlaid.properties@ == replayed_properties(
                    self@,
                    self@.len() as int,
                    metadata.properties@,
                )
                &&& overlaid.format_version == metadata.format_version
                &&& overlaid.current_snapshot == metadata.current_snapshot
            },
            r matches Err(e) ==> exists|i: int|
                {
                    &&& 0 <= i < self@.len()
                    &&& #[trigger] replay_refused(self@, i, metadata.format_version, *replay)
                    &&& forall|j: int|
                        0 <= j < i ==> !replay_refused(self@, j, metadata.format_version, *replay)
                    &&& replay_error(self@, i, metadata.format_version, *replay, e)
                },
    {
        let ghost log = self@;
        let ghost base = metadata;
        let ghost outcomes = *replay;
        let mut overlaid = metadata;
        let schemas: usize = replay.schemas.len();
        let properties: usize = replay.properties.len();
        let mut next_schema: usize = 0;
        let mut next_properties: usize = 0;
        let mut i: usize = 0;
        while i < self.actions.len()
            invariant
                i <= self.actions@.len(),
                log == self@,
                log.len() == self.actions@.len(),
                outcomes.covers(log),
                outcomes == *replay,
                schemas == outcomes.schemas@.len(),
                properties == outcomes.properties@.len(),
                base == metadata,
                next_schema == schema_count(log, i as int),
                next_properties == property_count(log, i as int),
                forall|j: int| 0 <= j < i ==> !replay_refused(log, j, base.format_version, outcomes),
                overlaid.schema == replayed_schema(log, i as int, base.schema, outcomes),
                overlaid.properties@ == replayed_properties(log, i as int, base.properties@),
                overlaid.format_version == base.format_version,
                overlaid.current_snapshot == base.current_snapshot,
            decreases self.actions@.len() - i,
        {
            let ghost n = i as int;
            proof {
                lemma_counts_grow(log, n + 1, log.len() as int);
            }
            match &self.actions[i] {
                TxTableAction::Schema(_) => {
                    assert(log[n] is Schema);
                    match &replay.schemas[next_schema] {
                        SchemaReplay::Applied(schema) => {
                            overlaid.schema = *schema;
                        },
                        SchemaReplay::Conflict(e) => {
                            assert(replay_refused(log, n, base.format_version, outcomes));
                            return Err(IcebergError::schema_evolution_conflict(e.clone()));
                        },
                        SchemaReplay::Failed(e) => {
                            assert(replay_refused(log, n, base.format_version, outcomes));
                            return Err(IcebergError::IcebergLiteError(e.clone()));
                        },
                    }
                    next_schema = next_schema + 1;
                },
                TxTableAction::Properties(update) => {
                    assert(log[n] == ActionView::Properties(**update));
                    let refusal = match &replay.properties[next_properties] {
                        Some(e) => Some(e.clone()),
                        None => None,
                    };
                    match update.apply_to_metadata(overlaid, refusal) {
                        Ok(next) => {
                            overlaid = next;
                            next_properties = next_properties + 1;
                        },
                        Err(e) => {
                            assert(replay_refused(log, n, base.format_version, outcomes));
                            return Err(e);
                        },
                    }
                },
                TxTableAction::Data(_) => {},
                TxTableAction::Truncate(_) => {},
                TxTableAction::Vacuum(_) => {},
                TxTableAction::Drop => {},
            }
            i = i + 1;
        }
        Ok(overlaid)
    }
}

impl<'a> TxTableCommitPlan<'a> {
    /// Whether the commit changes the table's files.
    pub fn has_data_change(&self) -> (r: bool)
        ensures
            r == exists|i: int|
                0 <= i < self.actions@.len() && (#[trigger] self.actions@[i] is Data || self.actions@[i] is TruncateOnly),
    {
        let mut i: usize = 0;
        while i < self.actions.len()
            invariant
                i <= self.actions@.len(),
                forall|k: int|
                    0 <= k < i ==> !(#[trigger] self.actions@[k] is Data || self.actions@[k] is TruncateOnly),
            decreases self.actions@.len() - i,
        {
            match &self.actions[i] {
                EffectiveCommitAction::Data { .. } => {
                    assert(self.actions@[i as int] is Data);
                    return true;
                },
                EffectiveCommitAction::TruncateOnly => {
                    assert(self.actions@[i as int] is TruncateOnly);
                    return true;
                },
                _ => {},
            }
            i = i + 1;
        }
        false
    }
}

/// Adding a schema or property change leaves the file changes alone.
proof fn lemma_overlay_unmoved(actions: Seq<ActionView>, action: ActionView)
    requires
        action is Schema || action is Properties,
    ensures
        overlay_ops(actions.push(action)) == overlay_ops(actions),
{
    let after = actions.push(action);
    lemma_combined_prefix(actions, after, actions.len() as int);
    if exists|i: int| 0 <= i < actions.len() && uncommittable(#[trigger] actions[i]) {
        let i = choose|i: int| 0 <= i < actions.len() && uncommittable(#[trigger] actions[i]);
        assert(uncommittable(after[i]));
    }
    if exists|i: int| 0 <= i < after.len() && uncommittable(#[trigger] after[i]) {
        let i = choose|i: int| 0 <= i < after.len() && uncommittable(#[trigger] after[i]);
        assert(uncommittable(actions[i]));
    }
}

/// Lists that agree on their first `n` actions agree on their file changes.
proof fn lemma_combined_prefix(a: Seq<ActionView>, b: Seq<ActionView>, n: int)
    requires
        0 <= n <= a.len(),
        n <= b.len(),
        forall|i: int| 0 <= i < n ==> #[trigger] a[i] == b[i],
    ensures
        combined_ops(a, n) == combined_ops(b, n),
    decreases n,
{
    if n > 0 {
        lemma_combined_prefix(a, b, n - 1);
    }
}

// -- Laws ---------------------------------------------------------------------

/// Cutting a log back to a mark restores it, whatever was added since.
pub proof fn cut_to_mark_restores(
    before: Seq<ActionView>,
    after: Seq<ActionView>,
    marker: TxTableActionLogMarker,
)
    requires
        marks_end(before, marker),
        extends(before, after),
    ensures
        cut_to(after, marker) == before,
{
    let kept = at_most(after, marker.action_len as int);
    assert(kept.len() == before.len());
    if before.len() > 0 {
        let last = before.len() - 1;
        match before[last] {
            ActionView::Data(epoch) => {
                let now = after[last]->Data_0;
                assert(kept.last() == after[last]);
                assert(at_most(now.ops, epoch.ops.len() as int) =~= epoch.ops);
                assert(at_most(now.validations, epoch.validations.len() as int) =~= epoch.validations);
                assert(cut_to(after, marker)[last] == before[last]);
            },
            _ => {},
        }
    }
    assert(cut_to(after, marker) =~= before);
}

/// A log extends itself.
pub proof fn extends_itself(actions: Seq<ActionView>)
    ensures
        extends(actions, actions),
{
}

/// What extends an extension extends the start.
pub proof fn extends_composes(a: Seq<ActionView>, b: Seq<ActionView>, c: Seq<ActionView>)
    requires
        extends(a, b),
        extends(b, c),
    ensures
        extends(a, c),
{
    assert forall|i: int| 0 <= i < a.len() - 1 implies #[trigger] c[i] == a[i] by {
        assert(b[i] == a[i]);
        assert(c[i] == b[i]);
    }
    if a.len() > 0 {
        let last = a.len() - 1;
        if last < b.len() - 1 {
            assert(c[last] == b[last]);
        }
        if a[last] is Data {
            let x = a[last]->Data_0;
            let y = b[last]->Data_0;
            let z = c[last]->Data_0;
            if last == b.len() - 1 {
                assert(x.ops =~= z.ops.subrange(0, x.ops.len() as int));
                assert(x.validations =~= z.validations.subrange(0, x.validations.len() as int));
            }
        }
    }
}

/// A new action extends a log.
pub proof fn push_extends(actions: Seq<ActionView>, action: ActionView)
    ensures
        extends(actions, actions.push(action)),
{
    let after = actions.push(action);
    if actions.len() > 0 {
        let last = actions.len() - 1;
        assert(after[last] == actions[last]);
        if actions[last] is Data {
            let epoch = actions[last]->Data_0;
            assert(epoch.ops =~= epoch.ops.subrange(0, epoch.ops.len() as int));
            assert(epoch.validations =~= epoch.validations.subrange(0, epoch.validations.len() as int));
        }
    }
}

/// More file changes or checks in the current epoch extend a log.
pub proof fn epoch_growth_extends(
    actions: Seq<ActionView>,
    ops: Seq<DeltaOp>,
    validations: Seq<RowDeltaValidation>,
)
    ensures
        extends(
            actions,
            with_epoch(
                actions,
                EpochView {
                    ops: current_epoch(actions).ops + ops,
                    validations: current_epoch(actions).validations + validations,
                },
            ),
        ),
{
    let epoch = current_epoch(actions);
    let grown = EpochView { ops: epoch.ops + ops, validations: epoch.validations + validations };
    if actions.len() > 0 && actions.last() is Data {
        assert(epoch.ops =~= grown.ops.subrange(0, epoch.ops.len() as int));
        assert(epoch.validations =~= grown.validations.subrange(0, epoch.validations.len() as int));
    } else {
        push_extends(actions, ActionView::Data(grown));
    }
}

/// File changes that are staged come after those that readers see already.
pub proof fn staged_changes_come_last(actions: Seq<ActionView>, ops: Seq<DeltaOp>)
    ensures
        combined_ops(with_ops(actions, ops), with_ops(actions, ops).len() as int) == combined_ops(
            actions,
            actions.len() as int,
        ) + ops,
        (forall|i: int| 0 <= i < actions.len() ==> !uncommittable(#[trigger] actions[i])) ==> forall|i: int|
            0 <= i < with_ops(actions, ops).len() ==> !uncommittable(#[trigger] with_ops(actions, ops)[i]),
{
    let after = with_ops(actions, ops);
    let n = actions.len() as int;
    if n > 0 && actions.last() is Data {
        lemma_combined_prefix(actions, after, n - 1);
        assert(after[n - 1] is Data);
    } else {
        lemma_combined_prefix(actions, after, n);
        assert(after[n] is Data);
    }
    assert(combined_ops(after, after.len() as int) =~= combined_ops(actions, n) + ops);
    assert forall|i: int| (forall|k: int| 0 <= k < n ==> !uncommittable(#[trigger] actions[k])) && 0 <= i
        < after.len() implies !uncommittable(#[trigger] after[i]) by {
        if i < n && !(i == n - 1 && actions.last() is Data) {
            assert(after[i] == actions[i]);
        }
    }
}

/// Whether a committed change truncates what the table held.
pub open spec fn carries_truncation(action: EffectiveView) -> bool {
    match action {
        EffectiveView::Data { truncate_base, .. } => truncate_base,
        EffectiveView::TruncateOnly => true,
        _ => false,
    }
}

/// How many of some committed changes truncate what the table held.
pub open spec fn truncation_count(actions: Seq<EffectiveView>) -> nat
    decreases actions.len(),
{
    if actions.len() == 0 {
        0
    } else {
        truncation_count(actions.drop_last()) + if carries_truncation(actions.last()) {
            1nat
        } else {
            0nat
        }
    }
}

proof fn lemma_truncation_count_push(actions: Seq<EffectiveView>, action: EffectiveView)
    ensures
        truncation_count(actions.push(action)) == truncation_count(actions) + if carries_truncation(action) {
            1nat
        } else {
            0nat
        },
{
    assert(actions.push(action).drop_last() =~= actions);
}

proof fn lemma_truncation_count_before(actions: Seq<ActionView>, n: int)
    requires
        0 <= n <= actions.len(),
    ensures
        truncation_count(effective_before(actions, n)) == if has_truncate(actions) && survivor_before(
            actions,
            n,
        ) {
            1nat
        } else {
            0nat
        },
    decreases n,
{
    if n > 0 {
        lemma_truncation_count_before(actions, n - 1);
        let earlier = effective_before(actions, n - 1);
        assert(survivor_before(actions, n) == (survivor_before(actions, n - 1) || survives(actions, n - 1))) by {
            if survivor_before(actions, n - 1) {
                let i = choose|i: int| 0 <= i < n - 1 && #[trigger] survives(actions, i);
                assert(survives(actions, i));
            }
        }
        match actions[n - 1] {
            ActionView::Schema(update) => lemma_truncation_count_push(earlier, EffectiveView::Schema(update)),
            ActionView::Properties(update) => lemma_truncation_count_push(
                earlier,
                EffectiveView::Properties(update),
            ),
            ActionView::Data(epoch) => if survives(actions, n - 1) {
                lemma_truncation_count_push(
                    earlier,
                    EffectiveView::Data {
                        epoch,
                        truncate_base: has_truncate(actions) && !survivor_before(actions, n - 1),
                    },
                );
            },
            _ => {},
        }
    }
}

/// A commit truncates the table once when the log truncates it, however
/// often, and not at all otherwise.
pub proof fn truncation_is_committed_once(actions: Seq<ActionView>)
    ensures
        truncation_count(effective(actions)) == if has_truncate(actions) {
            1nat
        } else {
            0nat
        },
{
    lemma_truncation_count_before(actions, actions.len() as int);
    lemma_truncation_count_push(
        effective_before(actions, actions.len() as int),
        EffectiveView::TruncateOnly,
    );
}

/// File changes that come before a truncation are not committed.
pub proof fn truncated_changes_are_not_committed(actions: Seq<ActionView>, i: int, t: int)
    requires
        0 <= i < t < actions.len(),
        actions[t] is Truncate,
    ensures
        !survives(actions, i),
{
}

proof fn lemma_combined_after_truncate(actions: Seq<ActionView>, t: int, n: int)
    requires
        0 <= t < actions.len(),
        actions[t] is Truncate,
        t + 1 <= n <= actions.len(),
    ensures
        combined_ops(actions, n) == combined_ops(actions, t).push(DeltaOp::TruncateTable) + combined_ops(
            actions.skip(t + 1),
            n - t - 1,
        ),
    decreases n,
{
    let tail = actions.skip(t + 1);
    if n == t + 1 {
        assert(combined_ops(tail, 0) =~= Seq::<DeltaOp>::empty());
    } else {
        lemma_combined_after_truncate(actions, t, n - 1);
        assert(tail[n - t - 2] == actions[n - 1]);
    }
    assert(combined_ops(actions, n) =~= combined_ops(actions, t).push(DeltaOp::TruncateTable) + combined_ops(
        tail,
        n - t - 1,
    ));
}

/// A reader of the transaction sees, of the files it added, those that were
/// added after the last truncation, and the table's own files no more.
pub proof fn readers_see_files_after_truncation(actions: Seq<ActionView>, t: int, path: Seq<char>)
    requires
        0 <= t < actions.len(),
        actions[t] is Truncate,
        overlay_ops(actions) is Some,
    ensures
        truncates(overlay_ops(actions)->Some_0),
        has_live_data(overlay_ops(actions)->Some_0, path) <==> has_live_data(
            combined_ops(actions.skip(t + 1), actions.len() - t - 1),
            path,
        ),
{
    lemma_combined_after_truncate(actions, t, actions.len() as int);
    truncation_forgets(
        combined_ops(actions, t),
        combined_ops(actions.skip(t + 1), actions.len() - t - 1),
        path,
    );
}

/// The file changes that some committed changes make, as one list.
pub open spec fn committed_ops(actions: Seq<EffectiveView>) -> Seq<DeltaOp>
    decreases actions.len(),
{
    if actions.len() == 0 {
        Seq::empty()
    } else {
        committed_ops(actions.drop_last()) + match actions.last() {
            EffectiveView::Data { epoch, truncate_base } => if truncate_base {
                seq![DeltaOp::TruncateTable] + epoch.ops
            } else {
                epoch.ops
            },
            EffectiveView::TruncateOnly => seq![DeltaOp::TruncateTable],
            _ => Seq::empty(),
        }
    }
}

proof fn lemma_committed_push(actions: Seq<EffectiveView>, action: EffectiveView)
    ensures
        committed_ops(actions.push(action)) == committed_ops(actions) + match action {
            EffectiveView::Data { epoch, truncate_base } => if truncate_base {
                seq![DeltaOp::TruncateTable] + epoch.ops
            } else {
                epoch.ops
            },
            EffectiveView::TruncateOnly => seq![DeltaOp::TruncateTable],
            _ => Seq::empty(),
        },
{
    assert(actions.push(action).drop_last() =~= actions);
}

proof fn lemma_survivor_next(actions: Seq<ActionView>, n: int)
    requires
        0 < n <= actions.len(),
    ensures
        survivor_before(actions, n) == (survivor_before(actions, n - 1) || survives(actions, n - 1)),
{
    if survivor_before(actions, n - 1) {
        let i = choose|i: int| 0 <= i < n - 1 && #[trigger] survives(actions, i);
        assert(survives(actions, i));
    }
}

proof fn lemma_committed_untruncated(actions: Seq<ActionView>, n: int)
    requires
        0 <= n <= actions.len(),
        !has_truncate(actions),
    ensures
        committed_ops(effective_before(actions, n)) == combined_ops(actions, n),
    decreases n,
{
    if n > 0 {
        lemma_committed_untruncated(actions, n - 1);
        let earlier = effective_before(actions, n - 1);
        match actions[n - 1] {
            ActionView::Schema(update) => lemma_committed_push(earlier, EffectiveView::Schema(update)),
            ActionView::Properties(update) => lemma_committed_push(
                earlier,
                EffectiveView::Properties(update),
            ),
            ActionView::Data(epoch) => if survives(actions, n - 1) {
                lemma_committed_push(earlier, EffectiveView::Data { epoch, truncate_base: false });
            },
            _ => {},
        }
        assert(committed_ops(effective_before(actions, n)) =~= combined_ops(actions, n));
    } else {
        assert(committed_ops(effective_before(actions, n)) =~= combined_ops(actions, n));
    }
}

proof fn lemma_committed_truncated(actions: Seq<ActionView>, t: int, n: int)
    requires
        0 <= n <= actions.len(),
        is_last_truncate(actions, t),
    ensures
        n <= t + 1 ==> !survivor_before(actions, n) && committed_ops(effective_before(actions, n)).len()
            == 0,
        n > t ==> if survivor_before(actions, n) {
            committed_ops(effective_before(actions, n)) == seq![DeltaOp::TruncateTable] + combined_ops(
                actions.skip(t + 1),
                n - t - 1,
            )
        } else {
            &&& committed_ops(effective_before(actions, n)).len() == 0
            &&& combined_ops(actions.skip(t + 1), n - t - 1).len() == 0
        },
    decreases n,
{
    let tail = actions.skip(t + 1);
    if n > 0 {
        lemma_committed_truncated(actions, t, n - 1);
        lemma_survivor_next(actions, n);
        let earlier = effective_before(actions, n - 1);
        assert(has_truncate(actions));
        if n - 1 <= t {
            assert(!survives(actions, n - 1));
        } else {
            assert(tail[n - t - 2] == actions[n - 1]);
        }
        match actions[n - 1] {
            ActionView::Schema(update) => lemma_committed_push(earlier, EffectiveView::Schema(update)),
            ActionView::Properties(update) => lemma_committed_push(
                earlier,
                EffectiveView::Properties(update),
            ),
            ActionView::Data(epoch) => if survives(actions, n - 1) {
                lemma_committed_push(
                    earlier,
                    EffectiveView::Data {
                        epoch,
                        truncate_base: !survivor_before(actions, n - 1),
                    },
                );
            },
            _ => {},
        }
        if n > t && survivor_before(actions, n) {
            assert(committed_ops(effective_before(actions, n)) =~= seq![DeltaOp::TruncateTable]
                + combined_ops(tail, n - t - 1));
        }
    }
}

proof fn lemma_last_truncate(actions: Seq<ActionView>, n: int) -> (t: int)
    requires
        0 <= n <= actions.len(),
        has_truncate(actions),
        forall|j: int| n <= j < actions.len() ==> !(#[trigger] actions[j] is Truncate),
    ensures
        is_last_truncate(actions, t),
    decreases n,
{
    if n > 0 && actions[n - 1] is Truncate {
        n - 1
    } else {
        if n == 0 {
            let i = choose|i: int| 0 <= i < actions.len() && #[trigger] actions[i] is Truncate;
            assert(false);
        }
        lemma_last_truncate(actions, n - 1)
    }
}

/// A transaction commits what it read: the files that its commit adds, removes
/// or truncates are those that its own readers saw it add, remove or truncate.
pub proof fn commits_what_readers_saw(actions: Seq<ActionView>, path: Seq<char>)
    ensures
        ({
            let committed = committed_ops(effective(actions));
            let seen = combined_ops(actions, actions.len() as int);
            &&& has_live_data(committed, path) <==> has_live_data(seen, path)
            &&& has_live_delete(committed, path) <==> has_live_delete(seen, path)
            &&& removes_base_path(committed, path) <==> removes_base_path(seen, path)
            &&& truncates(committed) <==> truncates(seen)
        }),
{
    let all = actions.len() as int;
    let seen = combined_ops(actions, all);
    let body = effective_before(actions, all);
    if has_truncate(actions) {
        let t = lemma_last_truncate(actions, all);
        let later = combined_ops(actions.skip(t + 1), all - t - 1);
        lemma_committed_truncated(actions, t, all);
        lemma_committed_push(body, EffectiveView::TruncateOnly);
        assert(committed_ops(effective(actions)) =~= Seq::<DeltaOp>::empty().push(DeltaOp::TruncateTable)
            + later);
        truncation_forgets(Seq::empty(), later, path);
        lemma_combined_after_truncate(actions, t, all);
        truncation_forgets(combined_ops(actions, t), later, path);
    } else {
        lemma_committed_untruncated(actions, all);
    }
}

/// The files of a table after the first `n` changes of a log were carried out
/// one after the other.
pub open spec fn files_after(files: FilesView, actions: Seq<ActionView>, n: int) -> FilesView
    decreases n,
{
    if n <= 0 {
        files
    } else {
        match actions[n - 1] {
            ActionView::Data(epoch) => files_after(files, actions, n - 1).after_ops(epoch.ops),
            ActionView::Truncate(_) => FilesView::none(),
            _ => files_after(files, actions, n - 1),
        }
    }
}

/// The conflict checks of the first `n` changes of a log that still matter: a
/// truncation drops those of the file changes before it.
pub open spec fn checks_after(actions: Seq<ActionView>, n: int) -> Seq<RowDeltaValidation>
    decreases n,
{
    if n <= 0 {
        Seq::empty()
    } else {
        match actions[n - 1] {
            ActionView::Data(epoch) => checks_after(actions, n - 1) + epoch.validations,
            ActionView::Truncate(_) => Seq::empty(),
            _ => checks_after(actions, n - 1),
        }
    }
}

/// The overlay of a log on a table is what carrying out its changes one after
/// the other leaves.
pub proof fn readers_see_the_log_carried_out(files: FilesView, actions: Seq<ActionView>, n: int)
    requires
        0 <= n <= actions.len(),
    ensures
        files.after_ops(combined_ops(actions, n)) == files_after(files, actions, n),
    decreases n,
{
    if n > 0 {
        readers_see_the_log_carried_out(files, actions, n - 1);
        let earlier = combined_ops(actions, n - 1);
        match actions[n - 1] {
            ActionView::Data(epoch) => parts_follow_each_other(files, earlier, epoch.ops),
            ActionView::Truncate(_) => {
                assert(earlier.push(DeltaOp::TruncateTable).drop_last() =~= earlier);
            },
            _ => {},
        }
    }
}

/// What is committed has the effect of the log: the table's files are those
/// that carrying out the log's changes one after the other leaves.
pub proof fn commit_has_the_effect_of_the_log(files: FilesView, actions: Seq<ActionView>)
    ensures
        files.after_ops(committed_ops(effective(actions))) == files_after(
            files,
            actions,
            actions.len() as int,
        ),
{
    let all = actions.len() as int;
    let body = effective_before(actions, all);
    readers_see_the_log_carried_out(files, actions, all);
    if has_truncate(actions) {
        let t = lemma_last_truncate(actions, all);
        let later = combined_ops(actions.skip(t + 1), all - t - 1);
        lemma_committed_truncated(actions, t, all);
        lemma_committed_push(body, EffectiveView::TruncateOnly);
        assert(committed_ops(effective(actions)) =~= Seq::<DeltaOp>::empty().push(DeltaOp::TruncateTable)
            + later);
        truncation_leaves_nothing(files, Seq::empty(), later);
        lemma_combined_after_truncate(actions, t, all);
        truncation_leaves_nothing(files, combined_ops(actions, t), later);
    } else {
        lemma_committed_untruncated(actions, all);
    }
}

/// The conflict checks that some committed changes carry, in order.
pub open spec fn committed_checks(actions: Seq<EffectiveView>) -> Seq<RowDeltaValidation>
    decreases actions.len(),
{
    if actions.len() == 0 {
        Seq::empty()
    } else {
        committed_checks(actions.drop_last()) + match actions.last() {
            EffectiveView::Data { epoch, .. } => epoch.validations,
            _ => Seq::empty(),
        }
    }
}

proof fn lemma_checks_push(actions: Seq<EffectiveView>, action: EffectiveView)
    ensures
        committed_checks(actions.push(action)) == committed_checks(actions) + match action {
            EffectiveView::Data { epoch, .. } => epoch.validations,
            _ => Seq::empty(),
        },
{
    assert(actions.push(action).drop_last() =~= actions);
}

proof fn lemma_checks_before(actions: Seq<ActionView>, n: int)
    requires
        0 <= n <= actions.len(),
    ensures
        (exists|j: int| n <= j < actions.len() && #[trigger] actions[j] is Truncate)
            ==> committed_checks(effective_before(actions, n)).len() == 0,
        !(exists|j: int| n <= j < actions.len() && #[trigger] actions[j] is Truncate)
            ==> committed_checks(effective_before(actions, n)) == checks_after(actions, n),
    decreases n,
{
    if n > 0 {
        lemma_checks_before(actions, n - 1);
        let earlier = effective_before(actions, n - 1);
        match actions[n - 1] {
            ActionView::Schema(update) => lemma_checks_push(earlier, EffectiveView::Schema(update)),
            ActionView::Properties(update) => lemma_checks_push(
                earlier,
                EffectiveView::Properties(update),
            ),
            ActionView::Data(epoch) => {
                if survives(actions, n - 1) {
                    lemma_checks_push(
                        earlier,
                        EffectiveView::Data {
                            epoch,
                            truncate_base: has_truncate(actions) && !survivor_before(actions, n - 1),
                        },
                    );
                }
                if exists|j: int| n - 1 <= j < actions.len() && #[trigger] actions[j] is Truncate {
                    let j = choose|j: int|
                        n - 1 <= j < actions.len() && #[trigger] actions[j] is Truncate;
                    assert(n <= j);
                }
            },
            ActionView::Truncate(_) => {
                assert(actions[n - 1] is Truncate);
            },
            _ => {},
        }
        if exists|j: int| n - 1 <= j < actions.len() && #[trigger] actions[j] is Truncate {
            let j = choose|j: int| n - 1 <= j < actions.len() && #[trigger] actions[j] is Truncate;
            if !(actions[n - 1] is Truncate) {
                assert(n <= j);
            }
        }
        assert(committed_checks(effective_before(actions, n)) =~= checks_after(actions, n) || (exists|
            j: int,
        |
            n <= j < actions.len() && #[trigger] actions[j] is Truncate));
    }
}

/// A commit runs the conflict checks of the file changes that it makes: every
/// check of the log, except those that a truncation made pointless, in order.
pub proof fn commit_runs_the_checks_of_the_log(actions: Seq<ActionView>)
    ensures
        committed_checks(effective(actions)) == checks_after(actions, actions.len() as int),
{
    let all = actions.len() as int;
    lemma_checks_before(actions, all);
    lemma_checks_push(effective_before(actions, all), EffectiveView::TruncateOnly);
    assert(committed_checks(effective(actions)) =~= checks_after(actions, all));
}

/// The schema and property changes among some committed changes, in order.
pub open spec fn committed_changes(actions: Seq<EffectiveView>) -> Seq<ChangeView>
    decreases actions.len(),
{
    if actions.len() == 0 {
        Seq::empty()
    } else {
        match actions.last() {
            EffectiveView::Schema(update) => committed_changes(actions.drop_last()).push(
                ChangeView::Schema(update),
            ),
            EffectiveView::Properties(update) => committed_changes(actions.drop_last()).push(
                ChangeView::Properties(update),
            ),
            _ => committed_changes(actions.drop_last()),
        }
    }
}

proof fn lemma_changes_before(actions: Seq<ActionView>, n: int)
    requires
        0 <= n <= actions.len(),
    ensures
        committed_changes(effective_before(actions, n)) == changes_before(actions, n),
    decreases n,
{
    if n > 0 {
        lemma_changes_before(actions, n - 1);
        let earlier = effective_before(actions, n - 1);
        let now = effective_before(actions, n);
        if now.len() > earlier.len() {
            assert(now.drop_last() =~= earlier);
        }
    }
}

/// A commit makes every schema and property change of the log, in order, also
/// those before a truncation.
pub proof fn commit_makes_the_schema_changes_of_the_log(actions: Seq<ActionView>)
    ensures
        committed_changes(effective(actions)) == changes_before(actions, actions.len() as int),
{
    let all = actions.len() as int;
    lemma_changes_before(actions, all);
    let body = effective_before(actions, all);
    assert(body.push(EffectiveView::TruncateOnly).drop_last() =~= body);
}

/// Of the committed changes of files, in order, which truncate what the table
/// held.
pub open spec fn truncation_marks(actions: Seq<EffectiveView>) -> Seq<bool>
    decreases actions.len(),
{
    if actions.len() == 0 {
        Seq::empty()
    } else {
        match actions.last() {
            EffectiveView::Data { truncate_base, .. } => truncation_marks(actions.drop_last()).push(
                truncate_base,
            ),
            EffectiveView::TruncateOnly => truncation_marks(actions.drop_last()).push(true),
            _ => truncation_marks(actions.drop_last()),
        }
    }
}

proof fn lemma_marks_before(actions: Seq<ActionView>, n: int)
    requires
        0 <= n <= actions.len(),
    ensures
        truncation_marks(effective_before(actions, n)).len() > 0 <==> survivor_before(actions, n),
        forall|k: int|
            0 <= k < truncation_marks(effective_before(actions, n)).len() ==> (
            #[trigger] truncation_marks(effective_before(actions, n))[k] <==> k == 0 && has_truncate(
                actions,
            )),
    decreases n,
{
    if n > 0 {
        lemma_marks_before(actions, n - 1);
        lemma_survivor_next(actions, n);
        let earlier = effective_before(actions, n - 1);
        let now = effective_before(actions, n);
        if now.len() > earlier.len() {
            assert(now.drop_last() =~= earlier);
        }
    }
}

/// Where the log truncates the table, the first change of files that is
/// committed truncates what the table held, and no other does; elsewhere none
/// does.
pub proof fn first_file_change_truncates(actions: Seq<ActionView>)
    ensures
        has_truncate(actions) ==> truncation_marks(effective(actions)).len() > 0,
        forall|k: int|
            0 <= k < truncation_marks(effective(actions)).len() ==> (
            #[trigger] truncation_marks(effective(actions))[k] <==> k == 0 && has_truncate(actions)),
{
    let all = actions.len() as int;
    let body = effective_before(actions, all);
    lemma_marks_before(actions, all);
    assert(body.push(EffectiveView::TruncateOnly).drop_last() =~= body);
}

/// Whether the file at `path` is created by at most one of the log's groups of
/// file changes.
pub open spec fn created_in_one_place(actions: Seq<ActionView>, path: Seq<char>) -> bool {
    forall|i: int, j: int|
        #![trigger actions[i], actions[j]]
        0 <= i < j < actions.len() && actions[i] is Data && actions[j] is Data ==> !(creates_path(
            actions[i]->Data_0.ops,
            path,
        ) && creates_path(actions[j]->Data_0.ops, path))
}

proof fn lemma_uncreated_after(files: FilesView, actions: Seq<ActionView>, m: int, n: int, path: Seq<char>)
    requires
        0 <= m <= n <= actions.len(),
        forall|k: int|
            m <= k < n && (#[trigger] actions[k]) is Data ==> !creates_path(actions[k]->Data_0.ops, path),
        !files_after(files, actions, m).data.contains_key(path),
        !files_after(files, actions, m).deletes.contains_key(path),
    ensures
        !files_after(files, actions, n).data.contains_key(path),
        !files_after(files, actions, n).deletes.contains_key(path),
    decreases n - m,
{
    if m < n {
        lemma_uncreated_after(files, actions, m, n - 1, path);
        if actions[n - 1] is Data {
            uncreated_files_do_not_appear(
                files_after(files, actions, n - 1),
                actions[n - 1]->Data_0.ops,
                path,
            );
        }
    }
}

/// A file that the commit deletes as of no use is not one of the table's after
/// the commit: it was not there before, and the transaction created it once.
pub proof fn canceled_files_are_not_live(files: FilesView, actions: Seq<ActionView>, path: Seq<char>)
    requires
        canceled(actions, path),
        created_in_one_place(actions, path),
        !files.data.contains_key(path),
        !files.deletes.contains_key(path),
    ensures
        !files_after(files, actions, actions.len() as int).data.contains_key(path),
        !files_after(files, actions, actions.len() as int).deletes.contains_key(path),
{
    let all = actions.len() as int;
    let i = choose|i: int| #[trigger] canceled_by(actions, i, path);
    assert(creates_path(actions[i]->Data_0.ops, path));
    assert forall|k: int| 0 <= k < all && k != i && (#[trigger] actions[k]) is Data implies !creates_path(
        actions[k]->Data_0.ops,
        path,
    ) by {
        assert(actions[i] is Data);
    }
    if exists|j: int| i < j < actions.len() && #[trigger] actions[j] is Truncate {
        let j = choose|j: int| i < j < actions.len() && #[trigger] actions[j] is Truncate;
        lemma_uncreated_after(files, actions, j + 1, all, path);
    } else {
        lemma_uncreated_after(files, actions, 0, i, path);
        canceled_creations_are_gone(files_after(files, actions, i), actions[i]->Data_0.ops, path);
        lemma_uncreated_after(files, actions, i + 1, all, path);
    }
}

/// A file that a truncation made useless is deleted: the transaction created
/// it before its last truncation.
pub proof fn truncated_creations_are_canceled(actions: Seq<ActionView>, i: int, t: int, path: Seq<char>)
    requires
        0 <= i < t < actions.len(),
        actions[i] is Data,
        actions[t] is Truncate,
        creates_path(actions[i]->Data_0.ops, path),
    ensures
        canceled(actions, path),
{
    assert(canceled_by(actions, i, path));
}

/// Schema and property changes leave the file changes that readers see alone.
pub proof fn schema_changes_keep_file_overlay(actions: Seq<ActionView>, action: ActionView)
    requires
        action is Schema || action is Properties,
    ensures
        overlay_ops(actions.push(action)) == overlay_ops(actions),
{
    lemma_overlay_unmoved(actions, action);
}

/// The properties of a table after some schema and property changes.
pub open spec fn properties_after(
    base: Map<Seq<char>, Seq<char>>,
    changes: Seq<ChangeView>,
) -> Map<Seq<char>, Seq<char>>
    decreases changes.len(),
{
    if changes.len() == 0 {
        base
    } else {
        let earlier = properties_after(base, changes.drop_last());
        match changes.last() {
            ChangeView::Properties(update) => with_properties(earlier, update.properties@),
            ChangeView::Schema(_) => earlier,
        }
    }
}

/// A reader sees the properties that the transaction's property changes lead to,
/// all of them in order: the very changes that the commit makes.
pub proof fn readers_see_every_property_change(
    actions: Seq<ActionView>,
    n: int,
    base: Map<Seq<char>, Seq<char>>,
)
    requires
        0 <= n <= actions.len(),
    ensures
        replayed_properties(actions, n, base) == properties_after(base, changes_before(actions, n)),
    decreases n,
{
    if n > 0 {
        readers_see_every_property_change(actions, n - 1, base);
        let earlier = changes_before(actions, n - 1);
        let now = changes_before(actions, n);
        if now.len() > earlier.len() {
            assert(now.drop_last() =~= earlier);
        }
    }
}

/// A reader sees the schema that the transaction's last schema change led to;
/// without one, that of the committed table.
pub proof fn readers_see_the_last_schema(
    actions: Seq<ActionView>,
    n: int,
    base: TableSchema,
    replay: MetadataReplay,
)
    requires
        0 <= n <= actions.len(),
    ensures
        schema_count(actions, n) == 0 ==> replayed_schema(actions, n, base, replay) == base,
        schema_count(actions, n) > 0 ==> replayed_schema(actions, n, base, replay)
            == replay.schemas@[schema_count(actions, n) - 1]->Applied_0,
    decreases n,
{
    if n > 0 {
        readers_see_the_last_schema(actions, n - 1, base, replay);
    }
}

/// Where the log truncates the table, a file that later changes of one group
/// create and do not leave is deleted as of no use.
pub proof fn abandoned_creations_are_canceled(actions: Seq<ActionView>, i: int, path: Seq<char>)
    requires
        0 <= i < actions.len(),
        actions[i] is Data,
        has_truncate(actions),
        creates_path(actions[i]->Data_0.ops, path),
        !FilesView::none().after_ops(actions[i]->Data_0.ops).data.contains_key(path),
        !FilesView::none().after_ops(actions[i]->Data_0.ops).deletes.contains_key(path),
    ensures
        canceled(actions, path),
{
    changes_add_the_files_they_say(actions[i]->Data_0.ops, path);
    assert(canceled_by(actions, i, path));
}

/// Without a truncation nothing that the transaction created is deleted by its
/// commit.
pub proof fn only_truncations_cancel_files(actions: Seq<ActionView>, path: Seq<char>)
    requires
        canceled(actions, path),
    ensures
        has_truncate(actions),
        exists|i: int|
            0 <= i < actions.len() && (#[trigger] actions[i]) is Data && creates_path(
                actions[i]->Data_0.ops,
                path,
            ),
{
    let i = choose|i: int| #[trigger] canceled_by(actions, i, path);
    assert(actions[i] is Data);
}

/// The commit of a log whose newest truncation saw a location expects the
/// catalog at that location, whatever earlier truncations saw and whatever else
/// was staged since.
pub proof fn the_newest_truncation_decides<'a>(
    earlier: Seq<ActionView>,
    location: Seq<char>,
    later: Seq<ActionView>,
    plan: TxTableCommitPlan<'a>,
)
    requires
        forall|i: int| 0 <= i < later.len() ==> !(#[trigger] later[i] is Truncate),
        planned(
            earlier.push(ActionView::Truncate(location)) + later,
            Ok::<TxTableCommitPlan<'a>, IcebergError>(plan),
        ),
        plan.vacuum is None,
    ensures
        plan.expected_metadata_location is Some,
        plan.expected_metadata_location->Some_0@ == location,
{
    let actions = earlier.push(ActionView::Truncate(location)) + later;
    let t = earlier.len() as int;
    assert(actions[t] == ActionView::Truncate(location));
    assert(actions[t] is Truncate);
    assert forall|j: int| t < j < actions.len() implies !(#[trigger] actions[j] is Truncate) by {
        assert(actions[j] == later[j - t - 1]);
    }
    assert(is_last_truncate(actions, t));
}

} // verus!
