//! Changes of one table inside a transaction, with the savepoints to which
//! they can be rolled back.

use std::sync::Arc;

use vstd::prelude::*;

use crate::catalog::action_log::{
    ActionView, ChangeView, EpochView, RowDeltaValidation, TxTableActionLog, TxTableActionLogMarker,
    action_conflict, additions, changes_before, checks_after, combined_ops, current_epoch,
    cut_to_mark_restores, delta_is, epoch_growth_extends, extends, extends_composes, extends_itself,
    files_after, has_vacuum_action, marks_end, overlay_ops, push_extends, staged_changes_come_last,
    stages_nothing, with_epoch, with_ops,
};
use crate::catalog::row_mutations::{
    RegistryView, RelationRowRegistry, lemma_filter_all, released_rows_survive_sibling_rollback,
    sound_registry_has_single_owners,
};
use crate::catalog::schema_evolution::PreparedSchemaUpdate;
use crate::catalog::snapshot_delta::{
    DataFile, DeleteFileIdentity, DeltaOp, SnapshotDelta, addable_data, addable_delete,
    refused_as_data, refused_as_delete,
};
use crate::catalog::table_files::{FilesView, parts_follow_each_other};
use crate::catalog::table_properties::PreparedTablePropertyUpdate;
use crate::catalog::vacuum::PreparedVacuum;
use crate::error::{IcebergError, IcebergResult, IcebergVacuumError};

verus! {

/// The handle of the storage in memory.
pub const MEMORY_HANDLE: u64 = 0;

/// Names the storage through which a table's files are reached.
#[derive(Debug, Clone, Copy, PartialEq, Eq, Structural)]
pub struct FileIo {
    pub handle: u64,
}

impl FileIo {
    /// The storage in memory.
    pub fn memory() -> (r: Self)
        ensures
            r == (FileIo { handle: MEMORY_HANDLE }),
    {
        FileIo { handle: MEMORY_HANDLE }
    }
}

/// A change of a table that a statement asks for.
#[derive(Debug)]
pub enum TableMutation {
    Schema(PreparedSchemaUpdate),
    Properties(PreparedTablePropertyUpdate),
    DataFiles(Vec<DataFile>),
    Truncate(String),
    Drop,
    PositionDelete { delete_file: DataFile, referenced_data_files: Vec<String> },
    RemoveDelete(DeleteFileIdentity),
    RemoveData(String),
    Validation(RowDeltaValidation),
    Vacuum(PreparedVacuum),
}

/// Whether a change changes nothing.
pub open spec fn is_no_op(mutation: TableMutation) -> bool {
    match mutation {
        TableMutation::Schema(update) => update.changes@.len() == 0,
        TableMutation::DataFiles(files) => files@.len() == 0,
        _ => false,
    }
}

/// Whether a list of actions takes a change.
pub open spec fn accepts(actions: Seq<ActionView>, mutation: TableMutation) -> bool {
    match mutation {
        TableMutation::DataFiles(files) => forall|i: int|
            0 <= i < files@.len() ==> addable_data(#[trigger] files@[i]),
        TableMutation::PositionDelete { delete_file, .. } => addable_delete(delete_file),
        TableMutation::Vacuum(_) => actions.len() == 0,
        _ => true,
    }
}

/// The list of actions after it took a change.
pub open spec fn applied(actions: Seq<ActionView>, mutation: TableMutation) -> Seq<ActionView> {
    match mutation {
        TableMutation::Schema(update) => actions.push(ActionView::Schema(update)),
        TableMutation::Properties(update) => actions.push(ActionView::Properties(update)),
        TableMutation::DataFiles(files) => with_ops(actions, additions(files@)),
        TableMutation::Truncate(location) => actions.push(ActionView::Truncate(location@)),
        TableMutation::Drop => actions.push(ActionView::Drop),
        TableMutation::PositionDelete { delete_file, referenced_data_files } => with_ops(
            actions,
            seq![
                DeltaOp::AddPositionDeleteFile {
                    file: delete_file,
                    referenced_data_files: Arc::new(referenced_data_files),
                },
            ],
        ),
        TableMutation::RemoveDelete(identity) => with_ops(
            actions,
            seq![DeltaOp::RemoveDeleteFile(identity)],
        ),
        TableMutation::RemoveData(path) => with_ops(actions, seq![DeltaOp::RemoveDataFile(path)]),
        TableMutation::Validation(validation) => with_epoch(
            actions,
            EpochView {
                validations: current_epoch(actions).validations.push(validation),
                ..current_epoch(actions)
            },
        ),
        TableMutation::Vacuum(vacuum) => actions.push(ActionView::Vacuum(vacuum)),
    }
}

/// The error of a change that a list of actions does not take.
pub open spec fn refused_with(mutation: TableMutation, r: IcebergResult<()>) -> bool {
    match mutation {
        TableMutation::DataFiles(_) => refused_as_data(r),
        TableMutation::PositionDelete { .. } => refused_as_delete(r),
        TableMutation::Vacuum(_) => r == Err::<(), IcebergError>(action_conflict()),
        _ => false,
    }
}

/// A write inside a savepoint: the level of the savepoint, and the place in
/// the log before the write.
struct HistoryFrame {
    nest_level: i32,
    marker: TxTableActionLogMarker,
    saved: Ghost<Seq<ActionView>>,
}

/// A write inside a savepoint: the level of the savepoint, and the actions
/// before the write.
pub struct FrameView {
    pub nest_level: int,
    pub saved: Seq<ActionView>,
}

/// The changes of a table, the writes that can be rolled back, and the row
/// owners.
pub struct TableView {
    pub file_io: Option<FileIo>,
    pub actions: Seq<ActionView>,
    pub history: Seq<FrameView>,
    pub registry: RegistryView,
}

/// The changes of one table inside a transaction.
pub struct TableState {
    pub file_io: Option<FileIo>,
    actions: TxTableActionLog,
    level_history: Vec<HistoryFrame>,
    row_registry: RelationRowRegistry,
}

/// What a commit needs of a table, apart from the tracker.
#[derive(Debug)]
pub struct TableCommitInput {
    pub actions: TxTableActionLog,
    pub file_io: FileIo,
}

spec fn frame_views(frames: Seq<HistoryFrame>) -> Seq<FrameView> {
    Seq::new(frames.len(), |i: int| frames[i].view())
}

impl HistoryFrame {
    spec fn view(self) -> FrameView {
        FrameView { nest_level: self.nest_level as int, saved: self.saved@ }
    }
}

impl View for TableState {
    type V = TableView;

    closed spec fn view(&self) -> TableView {
        TableView {
            file_io: self.file_io,
            actions: self.actions@,
            history: frame_views(self.level_history@),
            registry: self.row_registry@,
        }
    }
}

/// The writes that stay when the top writes at `level` or deeper go.
pub open spec fn kept_count(history: Seq<FrameView>, level: int) -> nat
    decreases history.len(),
{
    if history.len() > 0 && history.last().nest_level >= level {
        kept_count(history.drop_last(), level)
    } else {
        history.len()
    }
}

impl TableView {
    /// The writes happened one after the other, each inside a savepoint.
    pub open spec fn wf(self) -> bool {
        &&& self.registry.wf()
        &&& forall|i: int, j: int|
            0 <= i < j < self.history.len() ==> extends(
                (#[trigger] self.history[i]).saved,
                (#[trigger] self.history[j]).saved,
            )
        &&& forall|i: int|
            0 <= i < self.history.len() ==> extends((#[trigger] self.history[i]).saved, self.actions)
        &&& forall|i: int| 0 <= i < self.history.len() ==> (#[trigger] self.history[i]).nest_level > 1
    }

    /// This table after a change at a savepoint level.
    pub open spec fn after(self, nest_level: int, mutation: TableMutation) -> TableView {
        TableView {
            actions: applied(self.actions, mutation),
            history: if nest_level > 1 {
                self.history.push(FrameView { nest_level, saved: self.actions })
            } else {
                self.history
            },
            ..self
        }
    }

    /// This table after the writes at `level` or deeper were undone.
    pub open spec fn rolled_back(self, level: int) -> TableView {
        let kept = kept_count(self.history, level) as int;
        TableView {
            actions: if kept < self.history.len() {
                self.history[kept].saved
            } else {
                self.actions
            },
            history: self.history.take(kept),
            registry: self.registry.rolled_back(level),
            ..self
        }
    }

    /// This table after the writes at `level` or deeper were handed to the
    /// enclosing level. What reaches the top level is no longer tracked.
    pub open spec fn promoted(self, level: int) -> TableView {
        TableView {
            history: self.history.map_values(|f: FrameView| f.promoted(level)).filter(
                |f: FrameView| f.nest_level > 1,
            ),
            registry: self.registry.promoted(level),
            ..self
        }
    }
}

impl FrameView {
    /// This write with a level at or below `level` moved to the enclosing one.
    pub open spec fn promoted(self, level: int) -> FrameView {
        if self.nest_level >= level {
            FrameView { nest_level: level - 1, ..self }
        } else {
            self
        }
    }
}

/// What recording a change returns and leaves behind.
pub open spec fn recorded(
    before: TableView,
    nest_level: int,
    mutation: TableMutation,
    after: TableView,
    r: IcebergResult<()>,
) -> bool {
    if is_no_op(mutation) {
        r is Ok && after == before
    } else if has_vacuum_action(before.actions) {
        r == Err::<(), IcebergError>(action_conflict()) && after == before
    } else if !accepts(before.actions, mutation) {
        refused_with(mutation, r) && after == before
    } else {
        r is Ok && after == before.after(nest_level, mutation)
    }
}

/// A change that is taken extends the list of actions.
proof fn lemma_applied_extends(actions: Seq<ActionView>, mutation: TableMutation)
    ensures
        extends(actions, applied(actions, mutation)),
{
    match mutation {
        TableMutation::DataFiles(files) => {
            lemma_ops_extend(actions, additions(files@));
        },
        TableMutation::PositionDelete { delete_file, referenced_data_files } => {
            lemma_ops_extend(
                actions,
                seq![
                    DeltaOp::AddPositionDeleteFile {
                        file: delete_file,
                        referenced_data_files: Arc::new(referenced_data_files),
                    },
                ],
            );
        },
        TableMutation::RemoveDelete(identity) => {
            lemma_ops_extend(actions, seq![DeltaOp::RemoveDeleteFile(identity)]);
        },
        TableMutation::RemoveData(path) => {
            lemma_ops_extend(actions, seq![DeltaOp::RemoveDataFile(path)]);
        },
        TableMutation::Validation(validation) => {
            let epoch = current_epoch(actions);
            epoch_growth_extends(actions, Seq::empty(), seq![validation]);
            assert(epoch.ops + Seq::<DeltaOp>::empty() =~= epoch.ops);
            assert(epoch.validations + seq![validation] =~= epoch.validations.push(validation));
        },
        TableMutation::Schema(update) => push_extends(actions, ActionView::Schema(update)),
        TableMutation::Properties(update) => push_extends(actions, ActionView::Properties(update)),
        TableMutation::Truncate(location) => push_extends(actions, ActionView::Truncate(location@)),
        TableMutation::Drop => push_extends(actions, ActionView::Drop),
        TableMutation::Vacuum(vacuum) => push_extends(actions, ActionView::Vacuum(vacuum)),
    }
}

/// More file changes extend the list of actions.
proof fn lemma_ops_extend(actions: Seq<ActionView>, ops: Seq<DeltaOp>)
    ensures
        extends(actions, with_ops(actions, ops)),
{
    let epoch = current_epoch(actions);
    epoch_growth_extends(actions, ops, Seq::empty());
    assert(epoch.validations + Seq::<RowDeltaValidation>::empty() =~= epoch.validations);
}

/// The writes that stay are no more than there are.
proof fn lemma_kept_count(history: Seq<FrameView>, level: int)
    ensures
        kept_count(history, level) <= history.len(),
        forall|i: int|
            kept_count(history, level) <= i < history.len() ==> (#[trigger] history[i]).nest_level >= level,
    decreases history.len(),
{
    if history.len() > 0 && history.last().nest_level >= level {
        lemma_kept_count(history.drop_last(), level);
        assert forall|i: int| kept_count(history, level) <= i < history.len() implies (
        #[trigger] history[i]).nest_level >= level by {
            if i < history.len() - 1 {
                assert(history.drop_last()[i] == history[i]);
            }
        }
    }
}

/// A sound table stays sound when it takes a change.
proof fn lemma_after_wf(table: TableView, nest_level: int, mutation: TableMutation)
    requires
        table.wf(),
    ensures
        table.after(nest_level, mutation).wf(),
{
    let next = table.after(nest_level, mutation);
    lemma_applied_extends(table.actions, mutation);
    extends_itself(table.actions);
    assert forall|i: int| 0 <= i < next.history.len() implies extends(
        (#[trigger] next.history[i]).saved,
        next.actions,
    ) by {
        if i < table.history.len() {
            assert(next.history[i] == table.history[i]);
            extends_composes(table.history[i].saved, table.actions, next.actions);
        }
    }
    assert forall|i: int, j: int| 0 <= i < j < next.history.len() implies extends(
        (#[trigger] next.history[i]).saved,
        (#[trigger] next.history[j]).saved,
    ) by {
        assert(next.history[i] == table.history[i]);
        if j < table.history.len() {
            assert(next.history[j] == table.history[j]);
        }
    }
}

impl TableState {
    /// The log is sound, and each write's place in the log is the end of what
    /// the log held before the write.
    pub closed spec fn wf(self) -> bool {
        &&& self@.wf()
        &&& self.actions.wf()
        &&& self.row_registry.wf()
        &&& forall|i: int|
            0 <= i < self.level_history@.len() ==> marks_end(
                (#[trigger] self.level_history@[i]).saved@,
                self.level_history@[i].marker,
            )
    }

    /// A table without changes.
    pub fn new() -> (r: Self)
        ensures
            r.wf(),
            r@.file_io is None,
            r@.actions == Seq::<ActionView>::empty(),
            r@.history == Seq::<FrameView>::empty(),
            r@.registry.files.len() == 0,
            r@.registry.next_modify_state_id == 0,
    {
        let r = TableState {
            file_io: None,
            actions: TxTableActionLog::default(),
            level_history: Vec::new(),
            row_registry: RelationRowRegistry::new(),
        };
        assert(r@.history =~= Seq::<FrameView>::empty());
        r
    }

    /// The changes of the table.
    pub fn actions(&self) -> (r: &TxTableActionLog)
        requires
            self.wf(),
        ensures
            r.wf(),
            r@ == self@.actions,
    {
        &self.actions
    }

    /// The row owners of the table.
    pub fn row_registry(&self) -> (r: &RelationRowRegistry)
        requires
            self.wf(),
        ensures
            r.wf(),
            r@ == self@.registry,
    {
        &self.row_registry
    }

    /// Replaces the row owners of the table and returns the earlier ones.
    pub fn replace_row_registry(&mut self, registry: RelationRowRegistry) -> (r: RelationRowRegistry)
        requires
            old(self).wf(),
            registry.wf(),
        ensures
            final(self).wf(),
            r.wf(),
            r@ == old(self)@.registry,
            final(self)@ == (TableView { registry: registry@, ..old(self)@ }),
    {
        let mut other = registry;
        proof {
            sound_registry_has_single_owners(registry);
        }
        std::mem::swap(&mut other, &mut self.row_registry);
        assert(self@.history =~= old(self)@.history);
        other
    }

    /// Remembers the storage of the table, unless one is remembered already.
    pub fn capture_file_io(&mut self, file_io: FileIo)
        requires
            old(self).wf(),
        ensures
            final(self).wf(),
            final(self)@ == (TableView {
                file_io: Some(
                    match old(self)@.file_io {
                        Some(first) => first,
                        None => file_io,
                    },
                ),
                ..old(self)@
            }),
    {
        if self.file_io.is_none() {
            self.file_io = Some(file_io);
        }
        assert(self@.history =~= old(self)@.history);
    }

    /// Combines the table's file changes for a reader.
    pub fn combined_delta(&mut self) -> (r: IcebergResult<Option<Arc<SnapshotDelta>>>)
        requires
            old(self).wf(),
        ensures
            final(self).wf(),
            final(self)@ == old(self)@,
            r is Ok,
            delta_is(r->Ok_0, overlay_ops(old(self)@.actions)),
    {
        let r = self.actions.combined_delta();
        assert(self@.history =~= old(self)@.history);
        r
    }

    fn record_history(&mut self, nest_level: i32) -> (r: (TxTableActionLogMarker, bool))
        requires
            old(self).wf(),
        ensures
            marks_end(old(self)@.actions, r.0),
            r.1 == (nest_level > 1),
            final(self).actions == old(self).actions,
            final(self).row_registry == old(self).row_registry,
            final(self).file_io == old(self).file_io,
            r.1 ==> {
                &&& final(self).level_history@.len() == old(self).level_history@.len() + 1
                &&& final(self).level_history@.drop_last() == old(self).level_history@
                &&& final(self).level_history@.last().nest_level == nest_level
                &&& final(self).level_history@.last().marker == r.0
                &&& final(self).level_history@.last().saved@ == old(self)@.actions
            },
            !r.1 ==> final(self).level_history@ == old(self).level_history@,
    {
        let marker = self.actions.mark();
        let should_record_history = nest_level > 1;
        if should_record_history {
            self.level_history.push(
                HistoryFrame { nest_level, marker, saved: Ghost(self.actions@) },
            );
            assert(self.level_history@.drop_last() =~= old(self).level_history@);
        }
        (marker, should_record_history)
    }

    /// Records a change at a savepoint level. A change that is refused leaves
    /// the table as it was.
    pub fn record_action_mutation(&mut self, nest_level: i32, mutation: TableMutation) -> (r: IcebergResult<()>)
        requires
            old(self).wf(),
        ensures
            final(self).wf(),
            recorded(old(self)@, nest_level as int, mutation, final(self)@, r),
    {
        let ghost asked = mutation;
        let ghost before = self@;
        match &mutation {
            TableMutation::Schema(update) => {
                if update.is_empty() {
                    return Ok(());
                }
            },
            TableMutation::DataFiles(files) => {
                if files.is_empty() {
                    return Ok(());
                }
            },
            _ => {},
        }
        if self.actions.has_vacuum() {
            return Err(IcebergError::Vacuum { source: IcebergVacuumError::ActionConflict });
        }
        let (marker, should_record_history) = self.record_history(nest_level);
        let ghost log = self.actions@;
        let outcome: IcebergResult<()> = match mutation {
            TableMutation::Schema(update) => {
                self.actions.stage_schema(update);
                Ok(())
            },
            TableMutation::Properties(update) => {
                self.actions.stage_properties(update);
                Ok(())
            },
            TableMutation::DataFiles(files) => {
                let ghost all = files@;
                let outcome = self.actions.record_data_files(files);
                proof {
                    if !accepts(log, asked) {
                        let k = lemma_first_refused(all, 0);
                        lemma_ops_extend(log, additions(all.take(k)));
                    }
                }
                outcome
            },
            TableMutation::Truncate(location) => {
                self.actions.stage_truncate(location);
                Ok(())
            },
            TableMutation::Drop => {
                self.actions.stage_drop();
                Ok(())
            },
            TableMutation::PositionDelete { delete_file, referenced_data_files } => {
                proof {
                    lemma_ops_extend(log, Seq::empty());
                }
                self.actions.record_position_delete_file(delete_file, referenced_data_files)
            },
            TableMutation::RemoveDelete(identity) => self.actions.record_remove_delete_file(identity),
            TableMutation::RemoveData(path) => self.actions.record_remove_data_file(path),
            TableMutation::Validation(validation) => {
                self.actions.record_validation(validation);
                Ok(())
            },
            TableMutation::Vacuum(vacuum) => {
                proof {
                    extends_itself(log);
                }
                self.actions.stage_vacuum(vacuum)
            },
        };
        if outcome.is_err() {
            proof {
                assert(extends(log, self.actions@));
                cut_to_mark_restores(log, self.actions@, marker);
            }
            self.actions.truncate(marker);
            if should_record_history {
                let _frame = self.level_history.pop();
                assert(self.level_history@ =~= old(self).level_history@);
            }
            assert(self@.history =~= before.history);
            return outcome;
        }
        proof {
            assert(self.actions@ == applied(before.actions, asked));
            assert(self@.history =~= before.after(nest_level as int, asked).history) by {
                if should_record_history {
                    assert forall|i: int| 0 <= i < old(self).level_history@.len() implies #[trigger] self.level_history@[i]
                        == old(self).level_history@[i] by {
                        assert(self.level_history@.drop_last()[i] == old(self).level_history@[i]);
                    }
                }
            }
            lemma_after_wf(before, nest_level as int, asked);
            assert forall|i: int| 0 <= i < self.level_history@.len() implies marks_end(
                (#[trigger] self.level_history@[i]).saved@,
                self.level_history@[i].marker,
            ) by {
                if i < old(self).level_history@.len() {
                    if should_record_history {
                        assert(self.level_history@.drop_last()[i] == self.level_history@[i]);
                    }
                    assert(self.level_history@[i] == old(self).level_history@[i]);
                }
            }
        }
        Ok(())
    }

    /// Records a conflict check.
    pub fn record_validation(&mut self, nest_level: i32, validation: RowDeltaValidation) -> (r: IcebergResult<()>)
        requires
            old(self).wf(),
        ensures
            final(self).wf(),
            recorded(
                old(self)@,
                nest_level as int,
                TableMutation::Validation(validation),
                final(self)@,
                r,
            ),
    {
        self.record_action_mutation(nest_level, TableMutation::Validation(validation))
    }

    /// Records a schema change.
    pub fn record_schema_update(&mut self, nest_level: i32, update: PreparedSchemaUpdate) -> (r: IcebergResult<()>)
        requires
            old(self).wf(),
        ensures
            final(self).wf(),
            recorded(old(self)@, nest_level as int, TableMutation::Schema(update), final(self)@, r),
    {
        self.record_action_mutation(nest_level, TableMutation::Schema(update))
    }

    /// Records a property change.
    pub fn record_table_property_update(
        &mut self,
        nest_level: i32,
        update: PreparedTablePropertyUpdate,
    ) -> (r: IcebergResult<()>)
        requires
            old(self).wf(),
        ensures
            final(self).wf(),
            recorded(old(self)@, nest_level as int, TableMutation::Properties(update), final(self)@, r),
    {
        self.record_action_mutation(nest_level, TableMutation::Properties(update))
    }

    /// Records data files.
    pub fn record_data_files(&mut self, nest_level: i32, new_data_files: Vec<DataFile>) -> (r: IcebergResult<()>)
        requires
            old(self).wf(),
        ensures
            final(self).wf(),
            recorded(old(self)@, nest_level as int, TableMutation::DataFiles(new_data_files), final(self)@, r),
    {
        self.record_action_mutation(nest_level, TableMutation::DataFiles(new_data_files))
    }

    /// Records a truncation that saw the given metadata location.
    pub fn record_truncate(&mut self, nest_level: i32, expected_metadata_location: String) -> (r: IcebergResult<()>)
        requires
            old(self).wf(),
        ensures
            final(self).wf(),
            recorded(
                old(self)@,
                nest_level as int,
                TableMutation::Truncate(expected_metadata_location),
                final(self)@,
                r,
            ),
    {
        self.record_action_mutation(nest_level, TableMutation::Truncate(expected_metadata_location))
    }

    /// Records the drop of the table.
    pub fn record_drop(&mut self, nest_level: i32) -> (r: IcebergResult<()>)
        requires
            old(self).wf(),
        ensures
            final(self).wf(),
            recorded(old(self)@, nest_level as int, TableMutation::Drop, final(self)@, r),
    {
        self.record_action_mutation(nest_level, TableMutation::Drop)
    }

    /// Records a position delete file.
    pub fn record_position_delete_file(
        &mut self,
        nest_level: i32,
        delete_file: DataFile,
        referenced_data_files: Vec<String>,
    ) -> (r: IcebergResult<()>)
        requires
            old(self).wf(),
        ensures
            final(self).wf(),
            recorded(
                old(self)@,
                nest_level as int,
                (TableMutation::PositionDelete { delete_file, referenced_data_files }),
                final(self)@,
                r,
            ),
    {
        self.record_action_mutation(
            nest_level,
            TableMutation::PositionDelete { delete_file, referenced_data_files },
        )
    }

    /// Records the removal of a delete file.
    pub fn record_remove_delete_file(
        &mut self,
        nest_level: i32,
        identity: DeleteFileIdentity,
    ) -> (r: IcebergResult<()>)
        requires
            old(self).wf(),
        ensures
            final(self).wf(),
            recorded(old(self)@, nest_level as int, TableMutation::RemoveDelete(identity), final(self)@, r),
    {
        self.record_action_mutation(nest_level, TableMutation::RemoveDelete(identity))
    }

    /// Records the removal of a data file.
    pub fn record_remove_data_file(&mut self, nest_level: i32, file_path: String) -> (r: IcebergResult<()>)
        requires
            old(self).wf(),
        ensures
            final(self).wf(),
            recorded(old(self)@, nest_level as int, TableMutation::RemoveData(file_path), final(self)@, r),
    {
        self.record_action_mutation(nest_level, TableMutation::RemoveData(file_path))
    }

    /// Undoes the writes at `target_level` or deeper, newest first.
    pub fn rollback_to_level(&mut self, target_level: i32)
        requires
            old(self).wf(),
        ensures
            final(self).wf(),
            final(self)@ == old(self)@.rolled_back(target_level as int),
    {
        let ghost level = target_level as int;
        let ghost whole = self@.history;
        let ghost start = self@.actions;
        let ghost frames = self.level_history@;
        assert(frames.take(frames.len() as int) =~= frames);
        assert(whole.take(whole.len() as int) =~= whole);
        let mut go = self.level_history.len() > 0;
        while go
            invariant
                level == target_level,
                old(self).wf(),
                whole == old(self)@.history,
                start == old(self)@.actions,
                frames == old(self).level_history@,
                whole.len() == frames.len(),
                self.file_io == old(self).file_io,
                self.row_registry == old(self).row_registry,
                self.actions.wf(),
                self.level_history@.len() <= frames.len(),
                self.level_history@ == frames.take(self.level_history@.len() as int),
                go ==> self.level_history@.len() > 0,
                go ==> kept_count(whole.take(self.level_history@.len() as int), level) == kept_count(whole, level),
                !go ==> kept_count(whole, level) == self.level_history@.len(),
                self.actions@ == if self.level_history@.len() < frames.len() {
                    whole[self.level_history@.len() as int].saved
                } else {
                    start
                },
            decreases self.level_history@.len() + if go { 1int } else { 0int },
        {
            let top: usize = self.level_history.len() - 1;
            let ghost n = self.level_history@.len() as int;
            assert(whole.take(n).last() == frames[n - 1].view());
            if self.level_history[top].nest_level < target_level {
                assert(kept_count(whole.take(n), level) == n);
                go = false;
            } else {
                let marker = self.level_history[top].marker;
                proof {
                    assert(self.level_history@[top as int] == frames[n - 1]);
                    assert(whole[n - 1] == frames[n - 1].view());
                    let saved = whole[n - 1].saved;
                    assert(extends(saved, self.actions@)) by {
                        assert(old(self)@.wf());
                        if n < frames.len() {
                            assert(extends(old(self)@.history[n - 1].saved, old(self)@.history[n].saved));
                        } else {
                            assert(extends(old(self)@.history[n - 1].saved, old(self)@.actions));
                        }
                    }
                    cut_to_mark_restores(saved, self.actions@, marker);
                    assert(whole.take(n).drop_last() =~= whole.take(n - 1));
                }
                let _frame = self.level_history.pop();
                self.actions.truncate(marker);
                assert(self.level_history@ =~= frames.take(n - 1));
                go = self.level_history.len() > 0;
                proof {
                    assert(kept_count(whole.take(n), level) == kept_count(whole.take(n - 1), level));
                    if !go {
                        assert(whole.take(0).len() == 0);
                        assert(kept_count(whole.take(0), level) == 0);
                    }
                }
            }
        }
        self.row_registry.rollback_to_level(target_level);
        proof {
            sound_registry_has_single_owners(self.row_registry);
            let kept = kept_count(whole, level) as int;
            lemma_kept_count(whole, level);
            assert(self@.history =~= whole.take(kept));
            assert(self@ == old(self)@.rolled_back(level));
            assert forall|i: int| 0 <= i < self@.history.len() implies #[trigger] self@.history[i]
                == old(self)@.history[i] by {}
            assert forall|i: int| 0 <= i < self@.history.len() implies extends(
                (#[trigger] self@.history[i]).saved,
                self@.actions,
            ) by {
                assert(self@.history[i] == old(self)@.history[i]);
                if kept < whole.len() {
                    assert(extends(old(self)@.history[i].saved, old(self)@.history[kept].saved));
                }
            }
            assert forall|i: int| 0 <= i < self.level_history@.len() implies marks_end(
                (#[trigger] self.level_history@[i]).saved@,
                self.level_history@[i].marker,
            ) by {
                assert(self.level_history@[i] == old(self).level_history@[i]);
            }
        }
    }

    /// Hands the writes at `from_level` or deeper to the enclosing level.
    /// What reaches the top level is no longer tracked: only the end of the
    /// transaction can undo it.
    pub fn promote_to_level(&mut self, from_level: i32)
        requires
            old(self).wf(),
            from_level > i32::MIN,
        ensures
            final(self).wf(),
            final(self)@ == old(self)@.promoted(from_level as int),
    {
        let ghost level = from_level as int;
        let ghost shift = |f: FrameView| f.promoted(level);
        let ghost keep = |f: FrameView| f.nest_level > 1;
        let ghost all = self@.history.map_values(shift);
        let ghost frames = self.level_history@;
        let mut taken: Vec<HistoryFrame> = Vec::new();
        std::mem::swap(&mut taken, &mut self.level_history);
        let mut kept: Vec<HistoryFrame> = Vec::new();
        proof {
            reveal(Seq::filter);
            assert(all.take(0).filter(keep) =~= Seq::<FrameView>::empty());
            assert(frame_views(kept@) =~= Seq::<FrameView>::empty());
        }
        for frame in it: taken.into_iter()
            invariant
                level == from_level,
                from_level > i32::MIN,
                shift == (|f: FrameView| f.promoted(level)),
                keep == (|f: FrameView| f.nest_level > 1),
                it.seq() == frames,
                all == frame_views(frames).map_values(shift),
                frame_views(kept@) == all.take(it.index() as int).filter(keep),
                forall|i: int| 0 <= i < frames.len() ==> marks_end(
                    (#[trigger] frames[i]).saved@,
                    frames[i].marker,
                ),
                forall|i: int| 0 <= i < kept@.len() ==> marks_end(
                    (#[trigger] kept@[i]).saved@,
                    kept@[i].marker,
                ),
        {
            let ghost n = it.index() as int;
            let nest_level: i32 = if frame.nest_level >= from_level {
                from_level - 1
            } else {
                frame.nest_level
            };
            proof {
                reveal(Seq::filter);
                assert(all.take(n + 1).drop_last() =~= all.take(n));
                assert(frames[n] == frame);
                assert(all[n] == shift(frame.view()));
            }
            if nest_level > 1 {
                let ghost before = kept@;
                let moved = HistoryFrame { nest_level, marker: frame.marker, saved: frame.saved };
                kept.push(moved);
                assert(frame_views(kept@) =~= frame_views(before).push(moved.view()));
            }
        }
        assert(all.take(all.len() as int) =~= all);
        self.level_history = kept;
        self.row_registry.promote_to_level(from_level);
        proof {
            sound_registry_has_single_owners(self.row_registry);
            assert(self@ == old(self)@.promoted(level));
            lemma_promoted_history_wf(old(self)@, level);
        }
    }

    /// What a commit needs of the table: nothing when the table stages
    /// nothing or was dropped.
    pub fn commit_input(&self) -> (r: Option<(TxTableActionLog, Option<FileIo>)>)
        requires
            self.wf(),
        ensures
            r is None <==> staged_nothing(self@) || dropped(self@),
            r matches Some((actions, file_io)) ==> actions.wf() && actions@ == self@.actions && file_io
                == self@.file_io,
    {
        if self.actions.is_empty() {
            return None;
        }
        assert(!staged_nothing(self@)) by {
            let i = choose|i: int| 0 <= i < self.actions@.len() && !stages_nothing(#[trigger] self.actions@[i]);
            assert(!stages_nothing(self@.actions[i]));
        }
        if self.actions.is_dropped() {
            return None;
        }
        Some((self.actions.clone(), self.file_io))
    }
}

/// Whether a table stages nothing.
pub open spec fn staged_nothing(table: TableView) -> bool {
    forall|i: int|
        0 <= i < table.actions.len() ==> stages_nothing(#[trigger] table.actions[i])
}

/// Whether the last change of a table drops it.
pub open spec fn dropped(table: TableView) -> bool {
    table.actions.len() > 0 && table.actions.last() is Drop
}

/// The first file of a list, from `from` on, that is not addable as data.
proof fn lemma_first_refused(files: Seq<DataFile>, from: int) -> (k: int)
    requires
        0 <= from,
        forall|i: int| 0 <= i < from ==> addable_data(#[trigger] files[i]),
        !(forall|i: int| 0 <= i < files.len() ==> addable_data(#[trigger] files[i])),
    ensures
        0 <= k < files.len(),
        !addable_data(files[k]),
        forall|i: int| 0 <= i < k ==> addable_data(#[trigger] files[i]),
    decreases files.len() - from,
{
    if from < files.len() && addable_data(files[from]) {
        lemma_first_refused(files, from + 1)
    } else {
        from
    }
}

/// Keeping some of a sequence keeps it in order.
proof fn lemma_filter_order<A>(s: Seq<A>, keep: spec_fn(A) -> bool) -> (places: Seq<int>)
    ensures
        places.len() == s.filter(keep).len(),
        forall|i: int|
            0 <= i < places.len() ==> 0 <= #[trigger] places[i] < s.len() && s.filter(keep)[i] == s[places[i]]
                && keep(s[places[i]]),
        forall|i: int, j: int| 0 <= i < j < places.len() ==> #[trigger] places[i] < #[trigger] places[j],
    decreases s.len(),
{
    reveal(Seq::filter);
    if s.len() == 0 {
        Seq::empty()
    } else {
        let earlier = lemma_filter_order(s.drop_last(), keep);
        if keep(s.last()) {
            earlier.push(s.len() - 1)
        } else {
            earlier
        }
    }
}

proof fn lemma_promoted_history_wf(table: TableView, level: int)
    requires
        table.wf(),
        table.promoted(level).registry.wf(),
    ensures
        table.promoted(level).wf(),
{
    let shifted = table.history.map_values(|f: FrameView| f.promoted(level));
    let keep = |f: FrameView| f.nest_level > 1;
    let places = lemma_filter_order(shifted, keep);
    let next = table.promoted(level);
    assert forall|i: int| 0 <= i < next.history.len() implies (#[trigger] next.history[i]).saved
        == table.history[places[i]].saved && next.history[i].nest_level > 1 by {
        assert(0 <= places[i] < shifted.len());
        assert(shifted[places[i]].saved == table.history[places[i]].saved);
    }
    assert forall|i: int, j: int| 0 <= i < j < next.history.len() implies extends(
        (#[trigger] next.history[i]).saved,
        (#[trigger] next.history[j]).saved,
    ) by {
        assert(places[i] < places[j]);
        assert(extends(table.history[places[i]].saved, table.history[places[j]].saved));
    }
    assert forall|i: int| 0 <= i < next.history.len() implies extends(
        (#[trigger] next.history[i]).saved,
        next.actions,
    ) by {
        assert(0 <= places[i] < shifted.len());
        assert(extends(table.history[places[i]].saved, table.actions));
    }
}

// -- Laws ---------------------------------------------------------------------

/// Undoing a level right after one write at that level restores the table's
/// actions, history and storage.
pub proof fn rollback_undoes_write(
    before: TableView,
    nest_level: int,
    mutation: TableMutation,
    after: TableView,
    r: IcebergResult<()>,
)
    requires
        nest_level > 1,
        forall|i: int| 0 <= i < before.history.len() ==> (#[trigger] before.history[i]).nest_level < nest_level,
        recorded(before, nest_level, mutation, after, r),
    ensures
        after.rolled_back(nest_level).actions == before.actions,
        after.rolled_back(nest_level).history == before.history,
        after.rolled_back(nest_level).file_io == before.file_io,
{
    let n = before.history.len();
    assert(kept_count(before.history, nest_level) == n);
    assert(before.history.take(n as int) =~= before.history);
    if after != before {
        assert(after.history.drop_last() =~= before.history);
        assert(after.history.take(n as int) =~= before.history);
    }
}

/// What happens to a table inside a transaction.
#[allow(inconsistent_fields)]
pub enum TableEvent {
    /// A change is asked for at a savepoint level, with a result.
    Write { nest_level: int, mutation: TableMutation, result: IcebergResult<()> },
    /// The savepoints at a level or deeper are undone.
    Rollback { level: int },
    /// The savepoints at a level or deeper are released.
    Release { level: int },
}

/// Whether an event takes a table from one state to another.
pub open spec fn takes(before: TableView, event: TableEvent, after: TableView) -> bool {
    match event {
        TableEvent::Write { nest_level, mutation, result } => recorded(
            before,
            nest_level,
            mutation,
            after,
            result,
        ),
        TableEvent::Rollback { level } => after == before.rolled_back(level),
        TableEvent::Release { level } => after == before.promoted(level),
    }
}

/// A table in the course of events: its state before each event and after the
/// last.
pub open spec fn is_table_course(tables: Seq<TableView>, events: Seq<TableEvent>) -> bool {
    &&& tables.len() == events.len() + 1
    &&& forall|i: int|
        0 <= i < events.len() ==> takes(#[trigger] tables[i], events[i], tables[i + 1])
}

/// Whether an event happens inside a savepoint at `level` and leaves it open:
/// it writes there or deeper, or ends a deeper savepoint.
pub open spec fn is_inside(event: TableEvent, level: int) -> bool {
    match event {
        TableEvent::Write { nest_level, .. } => nest_level >= level,
        TableEvent::Rollback { level: ended } => ended > level,
        TableEvent::Release { level: ended } => ended > level,
    }
}

/// Whether a table still holds what it held at the start of a savepoint: the
/// earlier writes, and next to them where to return to.
spec fn holds_start(start: TableView, table: TableView, level: int) -> bool {
    let n = start.history.len();
    &&& table.history.len() >= n
    &&& table.history.take(n as int) == start.history
    &&& forall|i: int| n <= i < table.history.len() ==> (#[trigger] table.history[i]).nest_level >= level
    &&& table.file_io == start.file_io
    &&& start.actions == if table.history.len() > n {
        table.history[n as int].saved
    } else {
        table.actions
    }
}

/// Dropping writes from the top stops at the first write below the level.
proof fn lemma_kept_between(history: Seq<FrameView>, level: int, n: int)
    requires
        0 <= n <= history.len(),
        n > 0 ==> history[n - 1].nest_level < level,
    ensures
        n <= kept_count(history, level) <= history.len(),
        (forall|i: int| n <= i < history.len() ==> (#[trigger] history[i]).nest_level >= level)
            ==> kept_count(history, level) == n,
    decreases history.len(),
{
    if history.len() > n {
        let shorter = history.drop_last();
        assert(forall|i: int| 0 <= i < shorter.len() ==> #[trigger] shorter[i] == history[i]);
        if history.last().nest_level >= level {
            lemma_kept_between(shorter, level, n);
        } else {
            assert(history[history.len() - 1].nest_level < level);
        }
    }
}

/// An event inside a savepoint keeps what was held at its start.
proof fn lemma_inside_holds_start(
    start: TableView,
    before: TableView,
    event: TableEvent,
    after: TableView,
    level: int,
)
    requires
        level > 1,
        forall|i: int| 0 <= i < start.history.len() ==> 1 < (#[trigger] start.history[i]).nest_level < level,
        holds_start(start, before, level),
        takes(before, event, after),
        is_inside(event, level),
    ensures
        holds_start(start, after, level),
{
    let n = start.history.len() as int;
    assert forall|i: int| 0 <= i < n implies #[trigger] before.history[i] == start.history[i] by {
        assert(before.history.take(n)[i] == before.history[i]);
    }
    match event {
        TableEvent::Write { .. } => {
            assert(after.history.take(n) =~= start.history);
        },
        TableEvent::Rollback { level: ended } => {
            lemma_kept_between(before.history, ended, n);
            assert(after.history.take(n) =~= start.history);
        },
        TableEvent::Release { level: ended } => {
            let shifted = before.history.map_values(|f: FrameView| f.promoted(ended));
            let keep = |f: FrameView| f.nest_level > 1;
            assert forall|i: int| 0 <= i < shifted.len() implies keep(#[trigger] shifted[i]) by {
                assert(shifted[i] == before.history[i].promoted(ended));
            }
            lemma_filter_all(shifted, keep);
            assert(after.history == shifted);
            assert(after.history.take(n) =~= start.history);
        },
    }
}

/// Undoing a savepoint restores the table's actions, history and storage as
/// they were when it began, whatever was written in it, and whatever deeper
/// savepoints were opened, undone and released.
pub proof fn rollback_undoes_savepoint(tables: Seq<TableView>, events: Seq<TableEvent>, level: int)
    requires
        level > 1,
        is_table_course(tables, events),
        forall|i: int|
            0 <= i < tables[0].history.len() ==> 1 < (#[trigger] tables[0].history[i]).nest_level < level,
        forall|i: int| 0 <= i < events.len() ==> is_inside(#[trigger] events[i], level),
    ensures
        tables.last().rolled_back(level).actions == tables[0].actions,
        tables.last().rolled_back(level).history == tables[0].history,
        tables.last().rolled_back(level).file_io == tables[0].file_io,
{
    lemma_course_holds_start(tables, events, level, events.len() as int);
    let start = tables[0];
    let last = tables.last();
    let n = start.history.len() as int;
    assert forall|i: int| 0 <= i < n implies #[trigger] last.history[i] == start.history[i] by {
        assert(last.history.take(n)[i] == last.history[i]);
    }
    lemma_kept_between(last.history, level, n);
}

proof fn lemma_course_holds_start(tables: Seq<TableView>, events: Seq<TableEvent>, level: int, k: int)
    requires
        level > 1,
        is_table_course(tables, events),
        forall|i: int|
            0 <= i < tables[0].history.len() ==> 1 < (#[trigger] tables[0].history[i]).nest_level < level,
        forall|i: int| 0 <= i < events.len() ==> is_inside(#[trigger] events[i], level),
        0 <= k <= events.len(),
    ensures
        holds_start(tables[0], tables[k], level),
    decreases k,
{
    if k == 0 {
        let history = tables[0].history;
        assert(history.take(history.len() as int) =~= history);
    } else {
        lemma_course_holds_start(tables, events, level, k - 1);
        assert(takes(tables[k - 1], events[k - 1], tables[k]));
        assert(is_inside(events[k - 1], level));
        lemma_inside_holds_start(tables[0], tables[k - 1], events[k - 1], tables[k], level);
    }
}

/// Of writes at levels that never fall, undoing a level keeps those below it:
/// the actions are those after the last write below the level, the first `kept`
/// writes being below it.
pub proof fn rollback_keeps_lower_writes(
    tables: Seq<TableView>,
    events: Seq<TableEvent>,
    level: int,
    kept: int,
)
    requires
        level > 1,
        is_table_course(tables, events),
        forall|i: int|
            0 <= i < tables[0].history.len() ==> 1 < (#[trigger] tables[0].history[i]).nest_level < level,
        forall|i: int| 0 <= i < events.len() ==> (#[trigger] events[i]) is Write,
        0 <= kept <= events.len(),
        forall|i: int|
            0 <= i < events.len() ==> (i < kept <==> (#[trigger] events[i])->Write_nest_level < level),
    ensures
        tables.last().rolled_back(level).actions == tables[kept].actions,
        tables.last().rolled_back(level).history == tables[kept].history,
        tables.last().rolled_back(level).file_io == tables[kept].file_io,
{
    lemma_lower_history(tables, events, level, kept);
    let later = tables.skip(kept);
    let rest = events.skip(kept);
    assert forall|i: int| 0 <= i < rest.len() implies takes(#[trigger] later[i], rest[i], later[i + 1]) by {
        assert(takes(tables[kept + i], events[kept + i], tables[kept + i + 1]));
    }
    assert forall|i: int| 0 <= i < rest.len() implies is_inside(#[trigger] rest[i], level) by {
        assert(rest[i] == events[kept + i]);
    }
    rollback_undoes_savepoint(later, rest, level);
}

proof fn lemma_lower_history(tables: Seq<TableView>, events: Seq<TableEvent>, level: int, k: int)
    requires
        is_table_course(tables, events),
        forall|i: int|
            0 <= i < tables[0].history.len() ==> 1 < (#[trigger] tables[0].history[i]).nest_level < level,
        0 <= k <= events.len(),
        forall|i: int|
            0 <= i < k ==> (#[trigger] events[i]) is Write && events[i]->Write_nest_level < level,
    ensures
        forall|i: int|
            0 <= i < tables[k].history.len() ==> 1 < (#[trigger] tables[k].history[i]).nest_level < level,
    decreases k,
{
    if k > 0 {
        lemma_lower_history(tables, events, level, k - 1);
        let before = tables[k - 1];
        assert(takes(before, events[k - 1], tables[k]));
        assert forall|i: int| 0 <= i < tables[k].history.len() implies 1 < (
        #[trigger] tables[k].history[i]).nest_level < level by {
            if i < before.history.len() {
                assert(tables[k].history[i] == before.history[i]);
            }
        }
    }
}

/// Writes of a released level survive the undoing of a later level of the
/// same depth.
pub proof fn released_writes_survive_sibling_rollback(table: TableView, level: int)
    ensures
        table.promoted(level).rolled_back(level).actions == table.actions,
        table.promoted(level).rolled_back(level).history == table.promoted(level).history,
        table.promoted(level).rolled_back(level).registry == table.promoted(level).registry,
{
    let released = table.promoted(level);
    let shifted = table.history.map_values(|f: FrameView| f.promoted(level));
    let keep = |f: FrameView| f.nest_level > 1;
    let places = lemma_filter_order(shifted, keep);
    assert forall|i: int| 0 <= i < released.history.len() implies (#[trigger] released.history[i]).nest_level
        < level by {
        assert(0 <= places[i] < shifted.len());
    }
    assert(kept_count(released.history, level) == released.history.len());
    assert(released.history.take(released.history.len() as int) =~= released.history);
    released_rows_survive_sibling_rollback(table.registry, level);
}

/// A change that is refused leaves the table as it was.
pub proof fn refused_change_leaves_table(
    before: TableView,
    nest_level: int,
    mutation: TableMutation,
    after: TableView,
    r: IcebergResult<()>,
)
    requires
        recorded(before, nest_level, mutation, after, r),
        r is Err,
    ensures
        after == before,
{
}

/// A maintenance run is the only change of its table: it is refused after
/// another change, and every later change is refused.
pub proof fn maintenance_is_exclusive(
    before: TableView,
    nest_level: int,
    mutation: TableMutation,
    after: TableView,
    r: IcebergResult<()>,
)
    requires
        recorded(before, nest_level, mutation, after, r),
        has_vacuum_action(before.actions) ==> before.actions.len() == 1,
    ensures
        has_vacuum_action(after.actions) ==> after.actions.len() == 1,
        has_vacuum_action(before.actions) && !is_no_op(mutation) ==> r is Err,
        mutation is Vacuum && before.actions.len() > 0 ==> r is Err,
{
    if after != before && has_vacuum_action(after.actions) {
        let i = choose|i: int| 0 <= i < after.actions.len() && #[trigger] after.actions[i] is Vacuum;
        if i < before.actions.len() && before.actions[i] is Vacuum {
            assert(has_vacuum_action(before.actions));
        }
    }
}

/// Writes below the undone level stay undone-proof: undoing twice is undoing
/// once.
pub proof fn rollback_is_idempotent(table: TableView, level: int)
    ensures
        table.rolled_back(level).rolled_back(level).actions == table.rolled_back(level).actions,
        table.rolled_back(level).rolled_back(level).history == table.rolled_back(level).history,
{
    lemma_kept_count(table.history, level);
    lemma_kept_is_stable(table.history, level);
    let kept = table.rolled_back(level).history;
    assert(kept.take(kept.len() as int) =~= kept);
}

proof fn lemma_kept_is_stable(history: Seq<FrameView>, level: int)
    ensures
        kept_count(history.take(kept_count(history, level) as int), level) == kept_count(history, level),
    decreases history.len(),
{
    lemma_kept_count(history, level);
    if history.len() > 0 && history.last().nest_level >= level {
        lemma_kept_is_stable(history.drop_last(), level);
        let k = kept_count(history, level) as int;
        lemma_kept_count(history.drop_last(), level);
        assert(history.take(k) =~= history.drop_last().take(k));
    } else {
        assert(history.take(history.len() as int) =~= history);
    }
}

/// The files of a table after a statement changed it.
pub open spec fn files_changed(files: FilesView, mutation: TableMutation) -> FilesView {
    match mutation {
        TableMutation::DataFiles(added) => files.with_data_files(added@),
        TableMutation::PositionDelete { delete_file, .. } => FilesView {
            deletes: files.deletes.insert(delete_file.file_path@, delete_file),
            ..files
        },
        TableMutation::RemoveDelete(identity) => FilesView {
            deletes: files.deletes.remove(identity.file_path@),
            ..files
        },
        TableMutation::RemoveData(path) => FilesView { data: files.data.remove(path@), ..files },
        TableMutation::Truncate(_) => FilesView::none(),
        _ => files,
    }
}

proof fn lemma_same_beginning(files: FilesView, a: Seq<ActionView>, b: Seq<ActionView>, n: int)
    requires
        0 <= n <= a.len(),
        n <= b.len(),
        forall|i: int| 0 <= i < n ==> #[trigger] a[i] == b[i],
    ensures
        files_after(files, a, n) == files_after(files, b, n),
        checks_after(a, n) == checks_after(b, n),
        changes_before(a, n) == changes_before(b, n),
    decreases n,
{
    if n > 0 {
        lemma_same_beginning(files, a, b, n - 1);
    }
}

proof fn lemma_additions(files: FilesView, added: Seq<DataFile>)
    ensures
        files.after_ops(additions(added)) == files.with_data_files(added),
    decreases added.len(),
{
    if added.len() > 0 {
        lemma_additions(files, added.drop_last());
        assert(additions(added).drop_last() =~= additions(added.drop_last()));
    }
}

proof fn lemma_with_epoch(
    files: FilesView,
    actions: Seq<ActionView>,
    ops: Seq<DeltaOp>,
    validations: Seq<RowDeltaValidation>,
)
    ensures
        ({
            let n = actions.len() as int;
            let epoch = current_epoch(actions);
            let after = with_epoch(
                actions,
                EpochView { ops: epoch.ops + ops, validations: epoch.validations + validations },
            );
            &&& files_after(files, after, after.len() as int) == files_after(files, actions, n).after_ops(
                ops,
            )
            &&& checks_after(after, after.len() as int) == checks_after(actions, n) + validations
            &&& changes_before(after, after.len() as int) == changes_before(actions, n)
        }),
{
    let n = actions.len() as int;
    let epoch = current_epoch(actions);
    let after = with_epoch(
        actions,
        EpochView { ops: epoch.ops + ops, validations: epoch.validations + validations },
    );
    if n > 0 && actions.last() is Data {
        lemma_same_beginning(files, actions, after, n - 1);
        parts_follow_each_other(files_after(files, actions, n - 1), epoch.ops, ops);
        assert(checks_after(after, n) =~= checks_after(actions, n) + validations);
    } else {
        lemma_same_beginning(files, actions, after, n);
        assert(epoch.ops + ops =~= ops);
        assert(epoch.validations + validations =~= validations);
        assert(checks_after(after, n + 1) =~= checks_after(actions, n) + validations);
    }
}

/// A change that is recorded does to the table's files, after what was recorded
/// before, what the statement asked for; schema and property changes and
/// conflict checks come last in their order.
pub proof fn recorded_changes_do_what_was_asked(
    files: FilesView,
    actions: Seq<ActionView>,
    mutation: TableMutation,
)
    ensures
        ({
            let n = actions.len() as int;
            let after = applied(actions, mutation);
            let m = after.len() as int;
            &&& files_after(files, after, m) == files_changed(files_after(files, actions, n), mutation)
            &&& changes_before(after, m) == match mutation {
                TableMutation::Schema(update) => changes_before(actions, n).push(
                    ChangeView::Schema(update),
                ),
                TableMutation::Properties(update) => changes_before(actions, n).push(
                    ChangeView::Properties(update),
                ),
                _ => changes_before(actions, n),
            }
            &&& checks_after(after, m) == match mutation {
                TableMutation::Validation(check) => checks_after(actions, n).push(check),
                TableMutation::Truncate(_) => Seq::empty(),
                _ => checks_after(actions, n),
            }
        }),
{
    reveal_with_fuel(FilesView::after_ops, 2);
    let n = actions.len() as int;
    let now = files_after(files, actions, n);
    let after = applied(actions, mutation);
    let epoch = current_epoch(actions);
    assert(epoch.validations + Seq::<RowDeltaValidation>::empty() =~= epoch.validations);
    assert(checks_after(actions, n) + Seq::<RowDeltaValidation>::empty() =~= checks_after(actions, n));
    match mutation {
        TableMutation::DataFiles(added) => {
            lemma_with_epoch(files, actions, additions(added@), Seq::empty());
            lemma_additions(now, added@);
        },
        TableMutation::PositionDelete { delete_file, referenced_data_files } => {
            let op = DeltaOp::AddPositionDeleteFile {
                file: delete_file,
                referenced_data_files: Arc::new(referenced_data_files),
            };
            lemma_with_epoch(files, actions, seq![op], Seq::empty());
            assert(seq![op].drop_last() =~= Seq::<DeltaOp>::empty());
        },
        TableMutation::RemoveDelete(identity) => {
            let op = DeltaOp::RemoveDeleteFile(identity);
            lemma_with_epoch(files, actions, seq![op], Seq::empty());
            assert(seq![op].drop_last() =~= Seq::<DeltaOp>::empty());
        },
        TableMutation::RemoveData(path) => {
            let op = DeltaOp::RemoveDataFile(path);
            lemma_with_epoch(files, actions, seq![op], Seq::empty());
            assert(seq![op].drop_last() =~= Seq::<DeltaOp>::empty());
        },
        TableMutation::Validation(check) => {
            lemma_with_epoch(files, actions, Seq::empty(), seq![check]);
            assert(epoch.ops + Seq::<DeltaOp>::empty() =~= epoch.ops);
            assert(epoch.validations + seq![check] =~= epoch.validations.push(check));
            assert(checks_after(actions, n) + seq![check] =~= checks_after(actions, n).push(check));
        },
        _ => {
            lemma_same_beginning(files, actions, after, n);
        },
    }
}

/// A drop is the last change of its table: the table counts as dropped, and
/// with anything recorded after it no longer.
pub proof fn a_drop_ends_the_table(table: TableView, nest_level: int, mutation: TableMutation)
    ensures
        dropped(table.after(nest_level, mutation)) <==> mutation is Drop,
{
    let after = applied(table.actions, mutation);
    assert(after.len() > 0);
}

/// Undoing a savepoint gives the table the files that it had when the savepoint
/// began.
pub proof fn undone_savepoints_restore_the_files(
    files: FilesView,
    tables: Seq<TableView>,
    events: Seq<TableEvent>,
    level: int,
)
    requires
        level > 1,
        is_table_course(tables, events),
        forall|i: int|
            0 <= i < tables[0].history.len() ==> 1 < (#[trigger] tables[0].history[i]).nest_level < level,
        forall|i: int| 0 <= i < events.len() ==> is_inside(#[trigger] events[i], level),
    ensures
        ({
            let undone = tables.last().rolled_back(level).actions;
            files_after(files, undone, undone.len() as int) == files_after(
                files,
                tables[0].actions,
                tables[0].actions.len() as int,
            )
        }),
{
    rollback_undoes_savepoint(tables, events, level);
}

proof fn lemma_nothing_staged(files: FilesView, actions: Seq<ActionView>, n: int)
    requires
        0 <= n <= actions.len(),
        forall|i: int| 0 <= i < n ==> stages_nothing(#[trigger] actions[i]),
    ensures
        files_after(files, actions, n) == files,
        checks_after(actions, n).len() == 0,
        forall|k: int|
            0 <= k < changes_before(actions, n).len() ==> (
            #[trigger] changes_before(actions, n)[k] matches ChangeView::Schema(update)
                && update.changes@.len() == 0),
    decreases n,
{
    if n > 0 {
        lemma_nothing_staged(files, actions, n - 1);
        assert(stages_nothing(actions[n - 1]));
        if let ActionView::Data(epoch) = actions[n - 1] {
            assert(epoch.ops =~= Seq::<DeltaOp>::empty());
        }
    }
}

/// A table that stages nothing can go without a commit: its files stay, nothing
/// is to be checked, and its schema and properties do not change.
pub proof fn tables_that_stage_nothing_do_not_change(files: FilesView, table: TableView)
    requires
        staged_nothing(table),
    ensures
        files_after(files, table.actions, table.actions.len() as int) == files,
        checks_after(table.actions, table.actions.len() as int).len() == 0,
        forall|k: int|
            0 <= k < changes_before(table.actions, table.actions.len() as int).len() ==> (
            #[trigger] changes_before(table.actions, table.actions.len() as int)[k] matches ChangeView::Schema(
                update,
            ) && update.changes@.len() == 0),
{
    lemma_nothing_staged(files, table.actions, table.actions.len() as int);
}

/// A change that is passed over would have changed no files.
pub proof fn changes_that_are_passed_over_change_nothing(files: FilesView, mutation: TableMutation)
    requires
        is_no_op(mutation),
    ensures
        files_changed(files, mutation) == files,
        mutation is Schema || mutation is DataFiles,
{
    if let TableMutation::DataFiles(added) = mutation {
        assert(added@ =~= Seq::<DataFile>::empty());
    }
}

/// A position delete file is recorded with the data files that it refers to, as
/// the newest of the file changes that readers see.
pub proof fn delete_files_keep_what_they_refer_to(
    actions: Seq<ActionView>,
    delete_file: DataFile,
    referenced_data_files: Vec<String>,
)
    ensures
        ({
            let after = applied(
                actions,
                (TableMutation::PositionDelete { delete_file, referenced_data_files }),
            );
            let ops = combined_ops(after, after.len() as int);
            &&& ops.len() > 0
            &&& ops.last() is AddPositionDeleteFile
            &&& ops.last()->file == delete_file
            &&& *ops.last()->referenced_data_files == referenced_data_files
            &&& ops.drop_last() == combined_ops(actions, actions.len() as int)
        }),
{
    let op = DeltaOp::AddPositionDeleteFile {
        file: delete_file,
        referenced_data_files: Arc::new(referenced_data_files),
    };
    staged_changes_come_last(actions, seq![op]);
    let earlier = combined_ops(actions, actions.len() as int);
    assert((earlier + seq![op]).drop_last() =~= earlier);
}

} // verus!
