//! Changes of every table that one transaction touched.

use vstd::prelude::*;

use crate::Oid;
use crate::catalog::action_log::{
    ActionView, ChangeView, MetadataChange, MetadataReplay, RowDeltaValidation, change_views,
    changes_before, delta_is, overlay_ops, replay_error, replay_refused, replayed_properties,
    replayed_schema, stages_nothing,
};
use crate::catalog::loaded_metadata::LoadedTableMetadata;
use crate::catalog::row_mutations::{
    FileView, IcebergFileId, MAX_ICEBERG_FILES, ModifyStateId, RegistryView, RelationRowRegistry,
    RowMutationClaim, claim_outcome,
};
use crate::catalog::schema_evolution::PreparedSchemaUpdate;
use crate::catalog::snapshot_delta::{DataFile, DeleteFileIdentity};
use crate::catalog::table_metadata::TableMetadata;
use crate::catalog::table_properties::PreparedTablePropertyUpdate;
use crate::catalog::table_state::{
    FileIo, TableCommitInput, TableMutation, TableState, TableView, dropped, recorded,
    staged_nothing,
};
use crate::catalog::vacuum::PreparedVacuum;
use crate::error::{IcebergError, IcebergResult, PgError, PgSqlErrorCode};
use crate::text::{decimal, decimal_text};

verus! {

struct TrackedTable {
    relid: Oid,
    state: TableState,
}

/// The tables that a transaction touched and their changes.
pub struct TxMetadata {
    /// In ascending order of `relid`.
    tables: Vec<TrackedTable>,
}

spec fn is_at(tables: Seq<TrackedTable>, i: int, relid: Oid) -> bool {
    0 <= i < tables.len() && tables[i].relid == relid
}

spec fn table_map(tables: Seq<TrackedTable>) -> Map<Oid, TableView> {
    Map::new(
        |relid: Oid| exists|i: int| #[trigger] is_at(tables, i, relid),
        |relid: Oid| tables[choose|i: int| is_at(tables, i, relid)].state@,
    )
}

impl View for TxMetadata {
    type V = Map<Oid, TableView>;

    closed spec fn view(&self) -> Map<Oid, TableView> {
        table_map(self.tables@)
    }
}

spec fn ascending_relids(tables: Seq<TrackedTable>) -> bool {
    forall|i: int, j: int|
        0 <= i < j < tables.len() ==> (#[trigger] tables[i]).relid < (#[trigger] tables[j]).relid
}

/// The map holds each table under its identifier, and no other.
proof fn lemma_table_map(tables: Seq<TrackedTable>)
    requires
        ascending_relids(tables),
    ensures
        forall|i: int|
            0 <= i < tables.len() ==> table_map(tables).contains_key((#[trigger] tables[i]).relid)
                && table_map(tables)[tables[i].relid] == tables[i].state@,
        forall|relid: Oid| #[trigger]
            table_map(tables).contains_key(relid) ==> exists|i: int| #[trigger] is_at(tables, i, relid),
{
    assert forall|i: int| 0 <= i < tables.len() implies table_map(tables).contains_key(
        (#[trigger] tables[i]).relid,
    ) && table_map(tables)[tables[i].relid] == tables[i].state@ by {
        let relid = tables[i].relid;
        assert(is_at(tables, i, relid));
        let k = choose|k: int| is_at(tables, k, relid);
        assert(is_at(tables, k, relid));
        assert(k == i);
    }
}

/// A table that nothing has touched.
pub open spec fn untouched(table: TableView) -> bool {
    &&& table.file_io is None
    &&& table.actions.len() == 0
    &&& table.history.len() == 0
    &&& table.registry.files.len() == 0
    &&& table.registry.next_modify_state_id == 0
}

/// Whether `after` is `before` with the table registered.
pub open spec fn registered(before: Map<Oid, TableView>, relid: Oid, after: Map<Oid, TableView>) -> bool {
    if before.contains_key(relid) {
        after == before
    } else {
        after.contains_key(relid) && untouched(after[relid]) && after == before.insert(relid, after[relid])
    }
}

/// A table that remembers its first storage.
pub open spec fn with_file_io(table: TableView, file_io: FileIo) -> TableView {
    TableView {
        file_io: Some(
            match table.file_io {
                Some(first) => first,
                None => file_io,
            },
        ),
        ..table
    }
}

/// A table with its row owners replaced.
pub open spec fn with_registry(table: TableView, registry: RegistryView) -> TableView {
    TableView { registry, ..table }
}

/// The row owners of a table that nothing has touched.
pub open spec fn no_rows() -> RegistryView {
    RegistryView { files: Seq::empty(), next_modify_state_id: 0 }
}

/// Whether `after` and `r` are what staging a change gives: the table is
/// registered, remembers its storage, and records the change.
pub open spec fn staged(
    before: Map<Oid, TableView>,
    relid: Oid,
    file_io: FileIo,
    nest_level: int,
    mutation: TableMutation,
    after: Map<Oid, TableView>,
    r: IcebergResult<()>,
) -> bool {
    exists|middle: Map<Oid, TableView>|
        {
            &&& #[trigger] registered(before, relid, middle)
            &&& after.contains_key(relid)
            &&& after == middle.insert(relid, after[relid])
            &&& recorded(with_file_io(middle[relid], file_io), nest_level, mutation, after[relid], r)
        }
}

impl TxMetadata {
    /// The tables are in order and each is sound.
    pub closed spec fn wf(self) -> bool {
        &&& ascending_relids(self.tables@)
        &&& forall|i: int| 0 <= i < self.tables@.len() ==> (#[trigger] self.tables@[i]).state.wf()
    }

    /// A transaction that touched no table.
    pub fn new() -> (r: Self)
        ensures
            r.wf(),
            r@ == Map::<Oid, TableView>::empty(),
    {
        let r = TxMetadata { tables: Vec::new() };
        assert(r@ =~= Map::<Oid, TableView>::empty());
        r
    }

    fn position(&self, relid: Oid) -> (r: (usize, bool))
        requires
            self.wf(),
        ensures
            r.0 <= self.tables@.len(),
            r.1 == self@.contains_key(relid),
            r.1 ==> r.0 < self.tables@.len() && self.tables@[r.0 as int].relid == relid
                && self.tables@[r.0 as int].state@ == self@[relid],
            forall|k: int| 0 <= k < r.0 ==> (#[trigger] self.tables@[k]).relid < relid,
            !r.1 ==> forall|k: int| r.0 <= k < self.tables@.len() ==> (#[trigger] self.tables@[k]).relid > relid,
    {
        proof {
            lemma_table_map(self.tables@);
        }
        let mut i: usize = 0;
        while i < self.tables.len() && self.tables[i].relid < relid
            invariant
                self.wf(),
                i <= self.tables@.len(),
                forall|k: int| 0 <= k < i ==> (#[trigger] self.tables@[k]).relid < relid,
            decreases self.tables@.len() - i,
        {
            i = i + 1;
        }
        if i < self.tables.len() && self.tables[i].relid == relid {
            (i, true)
        } else {
            proof {
                if self@.contains_key(relid) {
                    let k = choose|k: int| #[trigger] is_at(self.tables@, k, relid);
                    assert(self.tables@[k].relid == relid);
                    if k > i {
                        assert(self.tables@[i as int].relid < self.tables@[k].relid);
                    }
                }
            }
            (i, false)
        }
    }

    /// Registers a table that the transaction touches; a table that is
    /// registered stays as it is.
    pub fn register_table(&mut self, relid: Oid)
        requires
            old(self).wf(),
        ensures
            final(self).wf(),
            registered(old(self)@, relid, final(self)@),
    {
        let (at, present) = self.position(relid);
        if present {
            return;
        }
        let state = TableState::new();
        let ghost fresh = state@;
        let ghost before = self.tables@;
        self.tables.insert(at, TrackedTable { relid, state });
        proof {
            let added = TrackedTable { relid, state };
            assert(self.tables@ =~= before.insert(at as int, added));
            lemma_inserted(before, at as int, added);
        }
    }

    fn stage_table_mutation(
        &mut self,
        relid: Oid,
        file_io: FileIo,
        nest_level: i32,
        mutation: TableMutation,
    ) -> (r: IcebergResult<()>)
        requires
            old(self).wf(),
        ensures
            final(self).wf(),
            staged(old(self)@, relid, file_io, nest_level as int, mutation, final(self)@, r),
    {
        self.register_table(relid);
        let ghost middle = self@;
        let (at, _present) = self.position(relid);
        let ghost before = self.tables@;
        self.tables[at].state.capture_file_io(file_io);
        let r = self.tables[at].state.record_action_mutation(nest_level, mutation);
        proof {
            lemma_changed(before, self.tables@, at as int);
        }
        assert(registered(old(self)@, relid, middle));
        r
    }

    /// Stages data files.
    pub fn stage_data_files(
        &mut self,
        relid: Oid,
        new_data_files: Vec<DataFile>,
        file_io: FileIo,
        nest_level: i32,
    ) -> (r: IcebergResult<()>)
        requires
            old(self).wf(),
        ensures
            final(self).wf(),
            staged(
                old(self)@,
                relid,
                file_io,
                nest_level as int,
                TableMutation::DataFiles(new_data_files),
                final(self)@,
                r,
            ),
    {
        self.stage_table_mutation(relid, file_io, nest_level, TableMutation::DataFiles(new_data_files))
    }

    /// Stages a position delete file.
    pub fn stage_position_delete_file(
        &mut self,
        relid: Oid,
        delete_file: DataFile,
        referenced_data_files: Vec<String>,
        file_io: FileIo,
        nest_level: i32,
    ) -> (r: IcebergResult<()>)
        requires
            old(self).wf(),
        ensures
            final(self).wf(),
            staged(
                old(self)@,
                relid,
                file_io,
                nest_level as int,
                (TableMutation::PositionDelete { delete_file, referenced_data_files }),
                final(self)@,
                r,
            ),
    {
        self.stage_table_mutation(
            relid,
            file_io,
            nest_level,
            TableMutation::PositionDelete { delete_file, referenced_data_files },
        )
    }

    /// Stages the removal of a delete file.
    pub fn stage_remove_delete_file(
        &mut self,
        relid: Oid,
        identity: DeleteFileIdentity,
        file_io: FileIo,
        nest_level: i32,
    ) -> (r: IcebergResult<()>)
        requires
            old(self).wf(),
        ensures
            final(self).wf(),
            staged(
                old(self)@,
                relid,
                file_io,
                nest_level as int,
                TableMutation::RemoveDelete(identity),
                final(self)@,
                r,
            ),
    {
        self.stage_table_mutation(relid, file_io, nest_level, TableMutation::RemoveDelete(identity))
    }

    /// Stages a conflict check.
    pub fn stage_row_delta_validation(
        &mut self,
        relid: Oid,
        validation: RowDeltaValidation,
        file_io: FileIo,
        nest_level: i32,
    ) -> (r: IcebergResult<()>)
        requires
            old(self).wf(),
        ensures
            final(self).wf(),
            staged(
                old(self)@,
                relid,
                file_io,
                nest_level as int,
                TableMutation::Validation(validation),
                final(self)@,
                r,
            ),
    {
        self.stage_table_mutation(relid, file_io, nest_level, TableMutation::Validation(validation))
    }

    /// Stages the removal of a data file, which must be live for the
    /// transaction; `live` says whether it is. The table is registered and
    /// remembers its storage either way.
    pub fn stage_remove_data_file(
        &mut self,
        relid: Oid,
        file_path: String,
        live: bool,
        file_io: FileIo,
        nest_level: i32,
    ) -> (r: IcebergResult<()>)
        requires
            old(self).wf(),
        ensures
            final(self).wf(),
            live ==> staged(
                old(self)@,
                relid,
                file_io,
                nest_level as int,
                TableMutation::RemoveData(file_path),
                final(self)@,
                r,
            ),
            !live ==> {
                &&& r matches Err(IcebergError::MetadataTracker(m)) && m@
                    == "Cannot remove non-live Iceberg data file from transaction view: "@ + file_path@
                &&& exists|middle: Map<Oid, TableView>|
                    {
                        &&& #[trigger] registered(old(self)@, relid, middle)
                        &&& final(self)@ == middle.insert(relid, with_file_io(middle[relid], file_io))
                    }
            },
    {
        if !live {
            self.register_table(relid);
            let ghost middle = self@;
            let (at, _present) = self.position(relid);
            let ghost before = self.tables@;
            self.tables[at].state.capture_file_io(file_io);
            proof {
                lemma_changed(before, self.tables@, at as int);
                assert(registered(old(self)@, relid, middle));
            }
            let mut message =
                "Cannot remove non-live Iceberg data file from transaction view: ".to_owned();
            message.append(file_path.as_str());
            return Err(IcebergError::MetadataTracker(message));
        }
        self.stage_table_mutation(relid, file_io, nest_level, TableMutation::RemoveData(file_path))
    }

    /// Stages a schema change.
    pub fn stage_schema_update(
        &mut self,
        relid: Oid,
        update: PreparedSchemaUpdate,
        file_io: FileIo,
        nest_level: i32,
    ) -> (r: IcebergResult<()>)
        requires
            old(self).wf(),
        ensures
            final(self).wf(),
            staged(
                old(self)@,
                relid,
                file_io,
                nest_level as int,
                TableMutation::Schema(update),
                final(self)@,
                r,
            ),
    {
        self.stage_table_mutation(relid, file_io, nest_level, TableMutation::Schema(update))
    }

    /// Stages a property change.
    pub fn stage_table_property_update(
        &mut self,
        relid: Oid,
        update: PreparedTablePropertyUpdate,
        file_io: FileIo,
        nest_level: i32,
    ) -> (r: IcebergResult<()>)
        requires
            old(self).wf(),
        ensures
            final(self).wf(),
            staged(
                old(self)@,
                relid,
                file_io,
                nest_level as int,
                TableMutation::Properties(update),
                final(self)@,
                r,
            ),
    {
        self.stage_table_mutation(relid, file_io, nest_level, TableMutation::Properties(update))
    }

    /// Stages a maintenance run, which must be the only change of its table.
    pub fn stage_vacuum(
        &mut self,
        relid: Oid,
        vacuum: PreparedVacuum,
        file_io: FileIo,
        nest_level: i32,
    ) -> (r: IcebergResult<()>)
        requires
            old(self).wf(),
        ensures
            final(self).wf(),
            staged(
                old(self)@,
                relid,
                file_io,
                nest_level as int,
                TableMutation::Vacuum(vacuum),
                final(self)@,
                r,
            ),
    {
        self.stage_table_mutation(relid, file_io, nest_level, TableMutation::Vacuum(vacuum))
    }

    /// Stages a truncation of the table at its present metadata location.
    pub fn stage_truncate(
        &mut self,
        relid: Oid,
        metadata_location: Option<String>,
        file_io: FileIo,
        nest_level: i32,
    ) -> (r: IcebergResult<()>)
        requires
            old(self).wf(),
        ensures
            final(self).wf(),
            match metadata_location {
                None => r == Err::<(), IcebergError>(IcebergError::MetadataLocationNull) && final(self)@
                    == old(self)@,
                Some(location) => staged(
                    old(self)@,
                    relid,
                    file_io,
                    nest_level as int,
                    TableMutation::Truncate(location),
                    final(self)@,
                    r,
                ),
            },
    {
        match metadata_location {
            None => Err(IcebergError::MetadataLocationNull),
            Some(location) => self.stage_table_mutation(
                relid,
                file_io,
                nest_level,
                TableMutation::Truncate(location),
            ),
        }
    }

    /// Stages the drop of a table, whose storage need not be known.
    pub fn stage_drop(&mut self, relid: Oid, nest_level: i32) -> (r: IcebergResult<()>)
        requires
            old(self).wf(),
        ensures
            final(self).wf(),
            exists|middle: Map<Oid, TableView>|
                {
                    &&& #[trigger] registered(old(self)@, relid, middle)
                    &&& final(self)@.contains_key(relid)
                    &&& final(self)@ == middle.insert(relid, final(self)@[relid])
                    &&& recorded(
                        middle[relid],
                        nest_level as int,
                        TableMutation::Drop,
                        final(self)@[relid],
                        r,
                    )
                },
    {
        self.register_table(relid);
        let ghost middle = self@;
        let (at, _present) = self.position(relid);
        let ghost before = self.tables@;
        let r = self.tables[at].state.record_drop(nest_level);
        proof {
            lemma_changed(before, self.tables@, at as int);
        }
        assert(registered(old(self)@, relid, middle));
        r
    }

    /// The actions that a reader of the table replays.
    pub open spec fn replayed(tables: Map<Oid, TableView>, relid: Oid) -> Seq<ActionView> {
        if tables.contains_key(relid) {
            tables[relid].actions
        } else {
            Seq::empty()
        }
    }

    /// The schema and property changes that a reader of the table replays, in
    /// order.
    pub fn staged_metadata_changes(&self, relid: Oid) -> (r: Vec<MetadataChange<'_>>)
        requires
            self.wf(),
        ensures
            change_views(r@) == changes_before(
                TxMetadata::replayed(self@, relid),
                TxMetadata::replayed(self@, relid).len() as int,
            ),
    {
        let (at, present) = self.position(relid);
        if !present {
            let none: Vec<MetadataChange<'_>> = Vec::new();
            assert(change_views(none@) =~= Seq::<ChangeView>::empty());
            return none;
        }
        self.tables[at].state.actions().metadata_changes()
    }

    /// Whether `r` is the table as a statement sees it: the committed
    /// metadata with the transaction's changes replayed on it.
    pub open spec fn seen(
        tables: Map<Oid, TableView>,
        relid: Oid,
        location: Option<String>,
        maintenance_due_at: Option<i64>,
        metadata: TableMetadata,
        replay: MetadataReplay,
        r: IcebergResult<LoadedTableMetadata>,
    ) -> bool {
        match location {
            None => r is Err && r->Err_0 == IcebergError::MetadataLocationNull,
            Some(place) => if !tables.contains_key(relid) {
                &&& r is Ok
                &&& r->Ok_0.location == place
                &&& r->Ok_0.maintenance_due_at == maintenance_due_at
                &&& r->Ok_0.metadata == metadata
                &&& r->Ok_0.delta is None
            } else {
                let actions = tables[relid].actions;
                let version = metadata.format_version;
                match r {
                    Ok(loaded) => {
                        &&& loaded.location == place
                        &&& loaded.maintenance_due_at == maintenance_due_at
                        &&& forall|i: int|
                            0 <= i < actions.len() ==> !replay_refused(actions, i, version, replay)
                        &&& loaded.metadata.schema == replayed_schema(
                            actions,
                            actions.len() as int,
                            metadata.schema,
                            replay,
                        )
                        &&& loaded.metadata.properties@ == replayed_properties(
                            actions,
                            actions.len() as int,
                            metadata.properties@,
                        )
                        &&& loaded.metadata.format_version == version
                        &&& loaded.metadata.current_snapshot == metadata.current_snapshot
                        &&& delta_is(loaded.delta, overlay_ops(actions))
                    },
                    Err(e) => exists|i: int|
                        {
                            &&& 0 <= i < actions.len()
                            &&& #[trigger] replay_refused(actions, i, version, replay)
                            &&& forall|j: int|
                                0 <= j < i ==> !replay_refused(actions, j, version, replay)
                            &&& replay_error(actions, i, version, replay, e)
                        },
                }
            },
        }
    }

    /// The table as a statement sees it, from its catalog entry and committed
    /// metadata. `replay` says what the table-format layer made of each of the
    /// transaction's schema and property changes. A registered table remembers
    /// the storage.
    pub fn current_table_metadata(
        &mut self,
        relid: Oid,
        file_io: FileIo,
        location: Option<String>,
        maintenance_due_at: Option<i64>,
        metadata: TableMetadata,
        replay: &MetadataReplay,
    ) -> (r: IcebergResult<LoadedTableMetadata>)
        requires
            old(self).wf(),
            replay.covers(TxMetadata::replayed(old(self)@, relid)),
        ensures
            final(self).wf(),
            TxMetadata::seen(
                old(self)@,
                relid,
                location,
                maintenance_due_at,
                metadata,
                *replay,
                r,
            ),
            final(self)@ == if old(self)@.contains_key(relid) {
                old(self)@.insert(relid, with_file_io(old(self)@[relid], file_io))
            } else {
                old(self)@
            },
    {
        let (at, present) = self.position(relid);
        let ghost before = self.tables@;
        if present {
            self.tables[at].state.capture_file_io(file_io);
            proof {
                lemma_changed(before, self.tables@, at as int);
            }
        }
        let place = match location {
            None => {
                return Err(IcebergError::MetadataLocationNull);
            },
            Some(place) => place,
        };
        if !present {
            return Ok(
                LoadedTableMetadata { location: place, maintenance_due_at, metadata, delta: None },
            );
        }
        let ghost captured = self@;
        let ghost middle = self.tables@;
        let ghost table = old(self)@[relid];
        let overlaid = match self.tables[at].state.actions().overlay_metadata(metadata, replay) {
            Ok(overlaid) => overlaid,
            Err(e) => {
                return Err(e);
            },
        };
        let delta = self.tables[at].state.combined_delta();
        proof {
            lemma_changed(middle, self.tables@, at as int);
            lemma_table_map(middle);
            assert(self@ =~= captured);
        }
        match delta {
            Ok(delta) => Ok(
                LoadedTableMetadata { location: place, maintenance_due_at, metadata: overlaid, delta },
            ),
            Err(e) => Err(e),
        }
    }

    /// The table as a writing statement sees it: the table is registered
    /// first, so that what is read is tracked.
    pub fn begin_table_modify(
        &mut self,
        relid: Oid,
        file_io: FileIo,
        location: Option<String>,
        maintenance_due_at: Option<i64>,
        metadata: TableMetadata,
        replay: &MetadataReplay,
    ) -> (r: IcebergResult<LoadedTableMetadata>)
        requires
            old(self).wf(),
            replay.covers(TxMetadata::replayed(old(self)@, relid)),
        ensures
            final(self).wf(),
            exists|middle: Map<Oid, TableView>|
                {
                    &&& #[trigger] registered(old(self)@, relid, middle)
                    &&& TxMetadata::seen(
                        middle,
                        relid,
                        location,
                        maintenance_due_at,
                        metadata,
                        *replay,
                        r,
                    )
                    &&& final(self)@ == middle.insert(relid, with_file_io(middle[relid], file_io))
                },
    {
        self.register_table(relid);
        let ghost middle = self@;
        assert(registered(old(self)@, relid, middle));
        self.current_table_metadata(relid, file_io, location, maintenance_due_at, metadata, replay)
    }

    /// The files and row owners of a table, which is registered first.
    pub fn row_registry(&mut self, relid: Oid) -> (r: &RelationRowRegistry)
        requires
            old(self).wf(),
        ensures
            final(self).wf(),
            registered(old(self)@, relid, final(self)@),
            r.wf(),
            r@ == final(self)@[relid].registry,
    {
        self.register_table(relid);
        let (at, _present) = self.position(relid);
        self.tables[at].state.row_registry()
    }

    /// Registers a table and takes its row owners out of the tracker.
    fn take_row_registry(&mut self, relid: Oid) -> (r: (usize, RelationRowRegistry))
        requires
            old(self).wf(),
        ensures
            final(self).wf(),
            r.1.wf(),
            r.0 < final(self).tables@.len(),
            final(self).tables@[r.0 as int].relid == relid,
            exists|middle: Map<Oid, TableView>|
                {
                    &&& #[trigger] registered(old(self)@, relid, middle)
                    &&& r.1@ == middle[relid].registry
                    &&& final(self)@ == middle.insert(relid, with_registry(middle[relid], no_rows()))
                },
    {
        self.register_table(relid);
        let ghost middle = self@;
        let (at, _present) = self.position(relid);
        let ghost before = self.tables@;
        let empty = RelationRowRegistry::new();
        assert(empty@ == no_rows());
        let registry = self.tables[at].state.replace_row_registry(empty);
        proof {
            lemma_changed(before, self.tables@, at as int);
        }
        assert(registered(old(self)@, relid, middle));
        (at, registry)
    }

    /// Puts row owners back in the tracker.
    fn put_row_registry(&mut self, relid: Oid, at: usize, registry: RelationRowRegistry)
        requires
            old(self).wf(),
            registry.wf(),
            at < old(self).tables@.len(),
            old(self).tables@[at as int].relid == relid,
        ensures
            final(self).wf(),
            forall|middle: Map<Oid, TableView>|
                old(self)@ == #[trigger] middle.insert(relid, with_registry(middle[relid], no_rows()))
                    ==> final(self)@ == middle.insert(relid, with_registry(middle[relid], registry@)),
    {
        let ghost before = self.tables@;
        assert(self.tables@[at as int].state.wf());
        let _empty = self.tables[at].state.replace_row_registry(registry);
        proof {
            lemma_changed(before, self.tables@, at as int);
            lemma_table_map(before);
            assert forall|middle: Map<Oid, TableView>|
                old(self)@ == #[trigger] middle.insert(relid, with_registry(middle[relid], no_rows())) implies self@
                == middle.insert(relid, with_registry(middle[relid], registry@)) by {
                assert(self@ =~= middle.insert(relid, with_registry(middle[relid], registry@)));
            }
        }
    }

    /// Gives a data-file path of a table its identifier.
    pub fn register_file(&mut self, relid: Oid, file_path: &str) -> (r: IcebergResult<IcebergFileId>)
        requires
            old(self).wf(),
        ensures
            final(self).wf(),
            exists|middle: Map<Oid, TableView>|
                {
                    &&& #[trigger] registered(old(self)@, relid, middle)
                    &&& final(self)@.contains_key(relid)
                    &&& final(self)@ == middle.insert(
                        relid,
                        with_registry(middle[relid], final(self)@[relid].registry),
                    )
                    &&& file_registered(middle[relid].registry, file_path@, final(self)@[relid].registry, r)
                },
    {
        let (at, registry) = self.take_row_registry(relid);
        let ghost middle = choose|middle: Map<Oid, TableView>|
            {
                &&& #[trigger] registered(old(self)@, relid, middle)
                &&& registry@ == middle[relid].registry
                &&& self@ == middle.insert(relid, with_registry(middle[relid], no_rows()))
            };
        let mut registry = registry;
        let r = registry.register_file(file_path);
        let ghost last = registry@;
        self.put_row_registry(relid, at, registry);
        proof {
            assert(registered(old(self)@, relid, middle));
            assert(self@ == middle.insert(relid, with_registry(middle[relid], last)));
            assert(self@[relid].registry == last);
        }
        r
    }

    /// Allocates the identity of a modify state of a table.
    pub fn begin_modify_state(&mut self, relid: Oid) -> (r: IcebergResult<ModifyStateId>)
        requires
            old(self).wf(),
        ensures
            final(self).wf(),
            exists|middle: Map<Oid, TableView>|
                {
                    &&& #[trigger] registered(old(self)@, relid, middle)
                    &&& final(self)@.contains_key(relid)
                    &&& final(self)@ == middle.insert(
                        relid,
                        with_registry(middle[relid], final(self)@[relid].registry),
                    )
                    &&& modify_state_begun(middle[relid].registry, final(self)@[relid].registry, r)
                },
    {
        let (at, registry) = self.take_row_registry(relid);
        let ghost middle = choose|middle: Map<Oid, TableView>|
            {
                &&& #[trigger] registered(old(self)@, relid, middle)
                &&& registry@ == middle[relid].registry
                &&& self@ == middle.insert(relid, with_registry(middle[relid], no_rows()))
            };
        let mut registry = registry;
        let r = registry.begin_modify_state();
        let ghost last = registry@;
        self.put_row_registry(relid, at, registry);
        proof {
            assert(registered(old(self)@, relid, middle));
            assert(self@ == middle.insert(relid, with_registry(middle[relid], last)));
            assert(self@[relid].registry == last);
        }
        r
    }

    /// Claims a physical row of a table for a modify state.
    pub fn claim_row(
        &mut self,
        relid: Oid,
        modify_state_id: ModifyStateId,
        file_id: IcebergFileId,
        position: u32,
        command_id: u32,
        nest_level: i32,
    ) -> (r: IcebergResult<RowMutationClaim>)
        requires
            old(self).wf(),
        ensures
            final(self).wf(),
            exists|middle: Map<Oid, TableView>|
                {
                    &&& #[trigger] registered(old(self)@, relid, middle)
                    &&& final(self)@.contains_key(relid)
                    &&& final(self)@ == middle.insert(
                        relid,
                        with_registry(middle[relid], final(self)@[relid].registry),
                    )
                    &&& claim_outcome(
                        middle[relid].registry,
                        modify_state_id.0,
                        file_id.0 as int,
                        position,
                        command_id,
                        nest_level as int,
                        final(self)@[relid].registry,
                        r,
                    )
                },
    {
        let (at, registry) = self.take_row_registry(relid);
        let ghost middle = choose|middle: Map<Oid, TableView>|
            {
                &&& #[trigger] registered(old(self)@, relid, middle)
                &&& registry@ == middle[relid].registry
                &&& self@ == middle.insert(relid, with_registry(middle[relid], no_rows()))
            };
        let mut registry = registry;
        let r = registry.claim_at_level(modify_state_id, file_id, position, command_id, nest_level);
        let ghost last = registry@;
        self.put_row_registry(relid, at, registry);
        proof {
            assert(registered(old(self)@, relid, middle));
            assert(self@ == middle.insert(relid, with_registry(middle[relid], last)));
            assert(self@[relid].registry == last);
        }
        r
    }

    /// What a commit needs of one table. A table that stages nothing, was
    /// dropped or was never touched needs no commit.
    pub fn commit_input(&self, relid: Oid) -> (r: IcebergResult<Option<TableCommitInput>>)
        requires
            self.wf(),
        ensures
            !self@.contains_key(relid) || staged_nothing(self@[relid]) || dropped(self@[relid]) ==> r is Ok
                && r->Ok_0 is None,
            self@.contains_key(relid) && !staged_nothing(self@[relid]) && !dropped(self@[relid]) ==> match self@[relid].file_io {
                Some(file_io) => r is Ok && r->Ok_0 is Some && r->Ok_0->Some_0.file_io == file_io
                    && r->Ok_0->Some_0.actions.wf() && r->Ok_0->Some_0.actions@ == self@[relid].actions,
                None => r matches Err(IcebergError::MetadataTracker(m)) && m@ == "table "@ + decimal(
                    relid as nat,
                ) + " has staged Iceberg metadata changes without FileIO"@,
            },
    {
        let (at, present) = self.position(relid);
        if !present {
            return Ok(None);
        }
        match self.tables[at].state.commit_input() {
            None => Ok(None),
            Some((actions, file_io)) => match file_io {
                Some(file_io) => Ok(Some(TableCommitInput { actions, file_io })),
                None => {
                    let mut message = "table ".to_owned();
                    let digits = decimal_text(relid as u64);
                    message.append(digits.as_str());
                    message.append(" has staged Iceberg metadata changes without FileIO");
                    Err(IcebergError::MetadataTracker(message))
                },
            },
        }
    }

    /// The touched tables in the order of their commit: ascending.
    pub fn commit_order(&self) -> (r: Vec<Oid>)
        requires
            self.wf(),
        ensures
            forall|i: int, j: int| 0 <= i < j < r@.len() ==> #[trigger] r@[i] < #[trigger] r@[j],
            forall|relid: Oid| #[trigger] r@.contains(relid) <==> self@.contains_key(relid),
    {
        proof {
            lemma_table_map(self.tables@);
        }
        let mut relids: Vec<Oid> = Vec::new();
        let mut i: usize = 0;
        while i < self.tables.len()
            invariant
                i <= self.tables@.len(),
                relids@.len() == i,
                forall|k: int| 0 <= k < i ==> #[trigger] relids@[k] == self.tables@[k].relid,
            decreases self.tables@.len() - i,
        {
            relids.push(self.tables[i].relid);
            i = i + 1;
        }
        proof {
            assert forall|a: int, b: int| 0 <= a < b < relids@.len() implies #[trigger] relids@[a]
                < #[trigger] relids@[b] by {
                assert(self.tables@[a].relid < self.tables@[b].relid);
            }
            assert forall|relid: Oid| #[trigger] relids@.contains(relid) <==> self@.contains_key(relid) by {
                if relids@.contains(relid) {
                    let k = choose|k: int| 0 <= k < relids@.len() && relids@[k] == relid;
                    assert(self.tables@[k].relid == relid);
                }
                if self@.contains_key(relid) {
                    let k = choose|k: int| #[trigger] is_at(self.tables@, k, relid);
                    assert(relids@[k] == relid);
                }
            }
        }
        relids
    }

    /// Undoes the changes at `target_level` or deeper in every table. The
    /// tables stay registered, so that file identifiers are never reused.
    pub fn rollback_to_level(&mut self, target_level: i32)
        requires
            old(self).wf(),
        ensures
            final(self).wf(),
            final(self)@ == old(self)@.map_values(|t: TableView| t.rolled_back(target_level as int)),
    {
        let ghost before = self.tables@;
        let ghost level = target_level as int;
        let mut i: usize = 0;
        while i < self.tables.len()
            invariant
                i <= self.tables@.len(),
                level == target_level,
                before == old(self).tables@,
                old(self).wf(),
                self.tables@.len() == before.len(),
                forall|k: int| 0 <= k < before.len() ==> (#[trigger] self.tables@[k]).relid == before[k].relid
                    && self.tables@[k].state.wf(),
                forall|k: int|
                    0 <= k < i ==> (#[trigger] self.tables@[k]).state@ == before[k].state@.rolled_back(level),
                forall|k: int| i <= k < before.len() ==> #[trigger] self.tables@[k] == before[k],
            decreases self.tables@.len() - i,
        {
            assert(self.tables@[i as int].state.wf());
            self.tables[i].state.rollback_to_level(target_level);
            i = i + 1;
        }
        proof {
            lemma_mapped(before, self.tables@, |t: TableView| t.rolled_back(level));
        }
    }

    /// Hands the changes at `from_level` or deeper to the enclosing level in
    /// every table.
    pub fn promote_to_level(&mut self, from_level: i32)
        requires
            old(self).wf(),
            from_level > i32::MIN,
        ensures
            final(self).wf(),
            final(self)@ == old(self)@.map_values(|t: TableView| t.promoted(from_level as int)),
    {
        let ghost before = self.tables@;
        let ghost level = from_level as int;
        let mut i: usize = 0;
        while i < self.tables.len()
            invariant
                i <= self.tables@.len(),
                level == from_level,
                from_level > i32::MIN,
                before == old(self).tables@,
                old(self).wf(),
                self.tables@.len() == before.len(),
                forall|k: int| 0 <= k < before.len() ==> (#[trigger] self.tables@[k]).relid == before[k].relid
                    && self.tables@[k].state.wf(),
                forall|k: int|
                    0 <= k < i ==> (#[trigger] self.tables@[k]).state@ == before[k].state@.promoted(level),
                forall|k: int| i <= k < before.len() ==> #[trigger] self.tables@[k] == before[k],
            decreases self.tables@.len() - i,
        {
            assert(self.tables@[i as int].state.wf());
            self.tables[i].state.promote_to_level(from_level);
            i = i + 1;
        }
        proof {
            lemma_mapped(before, self.tables@, |t: TableView| t.promoted(level));
        }
    }

    /// The tracker lives as long as the top-level transaction.
    pub fn nest_level(&self) -> (r: i32)
        ensures
            r == 1,
    {
        1
    }

    /// Refuses to prepare a transaction that stages changes.
    pub fn on_pre_prepare(&self) -> (r: IcebergResult<()>)
        requires
            self.wf(),
        ensures
            (exists|relid: Oid| self@.contains_key(relid) && !staged_nothing(#[trigger] self@[relid])) ==> (
            r matches Err(IcebergError::PgError(e)) && e.code == PgSqlErrorCode::ERRCODE_FEATURE_NOT_SUPPORTED
                && e.message@ == "cannot PREPARE a transaction with staged Iceberg metadata changes"@),
            !(exists|relid: Oid| self@.contains_key(relid) && !staged_nothing(#[trigger] self@[relid])) ==> r is Ok,
    {
        proof {
            lemma_table_map(self.tables@);
        }
        let mut i: usize = 0;
        while i < self.tables.len()
            invariant
                self.wf(),
                i <= self.tables@.len(),
                forall|k: int|
                    0 <= k < self.tables@.len() ==> self@.contains_key((#[trigger] self.tables@[k]).relid)
                        && self@[self.tables@[k].relid] == self.tables@[k].state@,
                forall|k: int| 0 <= k < i ==> staged_nothing((#[trigger] self.tables@[k]).state@),
            decreases self.tables@.len() - i,
        {
            assert(self.tables@[i as int].state.wf());
            let ghost actions = self.tables@[i as int].state@.actions;
            if !self.tables[i].state.actions().is_empty() {
                proof {
                    let relid = self.tables@[i as int].relid;
                    assert(!staged_nothing(self@[relid])) by {
                        let k = choose|k: int|
                            0 <= k < actions.len() && !stages_nothing(
                                #[trigger] actions[k],
                            );
                        assert(!stages_nothing(self@[relid].actions[k]));
                    }
                }
                return Err(
                    IcebergError::PgError(
                        PgError {
                            code: PgSqlErrorCode::ERRCODE_FEATURE_NOT_SUPPORTED,
                            message: "cannot PREPARE a transaction with staged Iceberg metadata changes".to_owned(),
                        },
                    ),
                );
            }
            i = i + 1;
        }
        proof {
            assert forall|relid: Oid| self@.contains_key(relid) implies staged_nothing(
                #[trigger] self@[relid],
            ) by {
                let k = choose|k: int| #[trigger] is_at(self.tables@, k, relid);
                assert(self.tables@[k].relid == relid);
            }
        }
        Ok(())
    }
}

/// What giving a path its identifier returns and leaves behind.
pub open spec fn file_registered(
    before: RegistryView,
    path: Seq<char>,
    after: RegistryView,
    r: IcebergResult<IcebergFileId>,
) -> bool {
    if before.registered(path) {
        &&& after == before
        &&& r is Ok
        &&& r->Ok_0.0 < before.files.len()
        &&& before.files[r->Ok_0.0 as int].path == path
    } else if before.files.len() < MAX_ICEBERG_FILES {
        &&& r is Ok
        &&& r->Ok_0.0 == before.files.len()
        &&& after == RegistryView {
            files: before.files.push(
                FileView { path, owners: Seq::empty(), handed: Seq::empty() },
            ),
            ..before
        }
    } else {
        &&& after == before
        &&& r is Err
        &&& r->Err_0 == IcebergError::FileIdLimitExceeded {
            max_files: MAX_ICEBERG_FILES,
        }
    }
}

/// What allocating a modify state returns and leaves behind.
pub open spec fn modify_state_begun(
    before: RegistryView,
    after: RegistryView,
    r: IcebergResult<ModifyStateId>,
) -> bool {
    if before.next_modify_state_id < u64::MAX {
        &&& r is Ok
        &&& r->Ok_0.0 == before.next_modify_state_id
        &&& after == RegistryView { next_modify_state_id: before.next_modify_state_id + 1, ..before }
    } else {
        &&& after == before
        &&& r matches Err(IcebergError::MetadataTracker(m))
        &&& m@ == "Iceberg ModifyState ID space was exhausted"@
    }
}

/// Changing one table changes its value in the map.
proof fn lemma_changed(before: Seq<TrackedTable>, after: Seq<TrackedTable>, at: int)
    requires
        0 <= at < before.len(),
        after.len() == before.len(),
        ascending_relids(before),
        after[at].relid == before[at].relid,
        forall|k: int| 0 <= k < before.len() && k != at ==> #[trigger] after[k] == before[k],
    ensures
        ascending_relids(after),
        table_map(after) == table_map(before).insert(before[at].relid, after[at].state@),
{
    assert forall|i: int, j: int| 0 <= i < j < after.len() implies (#[trigger] after[i]).relid < (
    #[trigger] after[j]).relid by {
        assert(before[i].relid < before[j].relid);
    }
    lemma_table_map(before);
    lemma_table_map(after);
    let relid = before[at].relid;
    let expected = table_map(before).insert(relid, after[at].state@);
    assert forall|r: Oid| table_map(after).contains_key(r) == #[trigger] expected.contains_key(r) && (
    table_map(after).contains_key(r) ==> table_map(after)[r] == expected[r]) by {
        if table_map(after).contains_key(r) {
            let k = choose|k: int| #[trigger] is_at(after, k, r);
            assert(after[k].relid == r);
            if k != at {
                assert(before[k].relid == r);
                assert(r != relid) by {
                    if k < at {
                        assert(before[k].relid < before[at].relid);
                    } else {
                        assert(before[at].relid < before[k].relid);
                    }
                }
            }
        }
        if expected.contains_key(r) && r != relid {
            let k = choose|k: int| #[trigger] is_at(before, k, r);
            assert(after[k] == before[k]);
            assert(after[k].relid == r);
        }
        if r == relid {
            assert(after[at].relid == r);
        }
    }
    assert(table_map(after) =~= expected);
}

/// Inserting a table in order adds it to the map.
proof fn lemma_inserted(before: Seq<TrackedTable>, at: int, added: TrackedTable)
    requires
        ascending_relids(before),
        0 <= at <= before.len(),
        forall|k: int| 0 <= k < at ==> (#[trigger] before[k]).relid < added.relid,
        forall|k: int| at <= k < before.len() ==> (#[trigger] before[k]).relid > added.relid,
    ensures
        ascending_relids(before.insert(at, added)),
        table_map(before.insert(at, added)) == table_map(before).insert(added.relid, added.state@),
        forall|k: int|
            0 <= k < before.insert(at, added).len() ==> (#[trigger] before.insert(at, added)[k]) == added
                || before.contains(before.insert(at, added)[k]),
{
    let after = before.insert(at, added);
    assert forall|i: int, j: int| 0 <= i < j < after.len() implies (#[trigger] after[i]).relid < (
    #[trigger] after[j]).relid by {
        let x = if i < at { i } else { i - 1 };
        let y = if j < at { j } else { j - 1 };
        if i != at {
            assert(after[i] == before[x]);
        }
        if j != at {
            assert(after[j] == before[y]);
        }
        if i != at && j != at {
            assert(before[x].relid < before[y].relid);
        }
    }
    lemma_table_map(before);
    lemma_table_map(after);
    let expected = table_map(before).insert(added.relid, added.state@);
    assert forall|r: Oid| table_map(after).contains_key(r) == #[trigger] expected.contains_key(r) && (
    table_map(after).contains_key(r) ==> table_map(after)[r] == expected[r]) by {
        if table_map(after).contains_key(r) {
            let k = choose|k: int| #[trigger] is_at(after, k, r);
            assert(after[k].relid == r);
            if k != at {
                let x = if k < at { k } else { k - 1 };
                assert(after[k] == before[x]);
                assert(before[x].relid == r);
            }
        }
        if expected.contains_key(r) && r != added.relid {
            let k = choose|k: int| #[trigger] is_at(before, k, r);
            assert(after[if k < at { k } else { k + 1 }] == before[k]);
            assert(after[if k < at { k } else { k + 1 }].relid == r);
        }
        if r == added.relid {
            assert(after[at].relid == r);
        }
    }
    assert(table_map(after) =~= expected);
    assert forall|k: int| 0 <= k < after.len() implies (#[trigger] after[k]) == added || before.contains(
        after[k],
    ) by {
        if k != at {
            let x = if k < at { k } else { k - 1 };
            assert(after[k] == before[x]);
            assert(before.contains(before[x]));
        }
    }
}

/// Changing every table changes every value of the map.
proof fn lemma_mapped(
    before: Seq<TrackedTable>,
    after: Seq<TrackedTable>,
    change: spec_fn(TableView) -> TableView,
)
    requires
        ascending_relids(before),
        after.len() == before.len(),
        forall|k: int| 0 <= k < before.len() ==> (#[trigger] after[k]).relid == before[k].relid
            && after[k].state@ == change(before[k].state@),
    ensures
        ascending_relids(after),
        table_map(after) == table_map(before).map_values(change),
{
    assert forall|i: int, j: int| 0 <= i < j < after.len() implies (#[trigger] after[i]).relid < (
    #[trigger] after[j]).relid by {
        assert(before[i].relid < before[j].relid);
    }
    lemma_table_map(before);
    lemma_table_map(after);
    let expected = table_map(before).map_values(change);
    assert forall|r: Oid| table_map(after).contains_key(r) == #[trigger] expected.contains_key(r) && (
    table_map(after).contains_key(r) ==> table_map(after)[r] == expected[r]) by {
        if table_map(after).contains_key(r) {
            let k = choose|k: int| #[trigger] is_at(after, k, r);
            assert(after[k].relid == r);
            assert(before[k].relid == r);
        }
        if expected.contains_key(r) {
            let k = choose|k: int| #[trigger] is_at(before, k, r);
            assert(before[k].relid == r);
            assert(after[k].relid == r);
        }
    }
    assert(table_map(after) =~= expected);
}

// -- Laws ---------------------------------------------------------------------

/// Registering a table again changes nothing.
pub proof fn registration_is_idempotent(
    first: Map<Oid, TableView>,
    relid: Oid,
    second: Map<Oid, TableView>,
    third: Map<Oid, TableView>,
)
    requires
        registered(first, relid, second),
        registered(second, relid, third),
    ensures
        third == second,
{
}

/// Staging a change of one table leaves the others alone.
pub proof fn staging_leaves_other_tables(
    before: Map<Oid, TableView>,
    relid: Oid,
    file_io: FileIo,
    nest_level: int,
    mutation: TableMutation,
    after: Map<Oid, TableView>,
    r: IcebergResult<()>,
    other: Oid,
)
    requires
        staged(before, relid, file_io, nest_level, mutation, after, r),
        other != relid,
    ensures
        after.contains_key(other) == before.contains_key(other),
        before.contains_key(other) ==> after[other] == before[other],
{
}

/// The storage of a table is the one that its first change named.
pub proof fn first_storage_is_kept(
    before: Map<Oid, TableView>,
    relid: Oid,
    file_io: FileIo,
    nest_level: int,
    mutation: TableMutation,
    after: Map<Oid, TableView>,
    r: IcebergResult<()>,
)
    requires
        staged(before, relid, file_io, nest_level, mutation, after, r),
    ensures
        after[relid].file_io == if before.contains_key(relid) && before[relid].file_io is Some {
            before[relid].file_io
        } else {
            Some(file_io)
        },
{
}

/// Undoing and releasing levels keeps every table registered, with its file
/// identifiers.
pub proof fn levels_keep_tables_registered(tables: Map<Oid, TableView>, level: int, relid: Oid)
    requires
        tables.contains_key(relid),
    ensures
        tables.map_values(|t: TableView| t.rolled_back(level)).contains_key(relid),
        tables.map_values(|t: TableView| t.promoted(level)).contains_key(relid),
        tables.map_values(|t: TableView| t.rolled_back(level))[relid].registry.files.len()
            == tables[relid].registry.files.len(),
        tables.map_values(|t: TableView| t.promoted(level))[relid].registry.files.len()
            == tables[relid].registry.files.len(),
{
}

/// A path keeps its identifier, and different paths have different ones.
pub proof fn file_identifiers_are_stable(
    first: RegistryView,
    path: Seq<char>,
    second: RegistryView,
    r: IcebergResult<IcebergFileId>,
    other: Seq<char>,
    third: RegistryView,
    s: IcebergResult<IcebergFileId>,
)
    requires
        first.wf(),
        file_registered(first, path, second, r),
        file_registered(second, other, third, s),
        r is Ok,
        s is Ok,
    ensures
        r->Ok_0 == s->Ok_0 <==> path == other,
        third.files[r->Ok_0.0 as int].path == path,
        third.files[s->Ok_0.0 as int].path == other,
        path == other ==> third == second,
{
    let i = r->Ok_0.0 as int;
    assert(second.files[i].path == path);
    if !first.registered(path) {
        assert(second.files[first.files.len() as int].path == path);
    }
    assert(second.registered(path));
    if path == other {
        let j = s->Ok_0.0 as int;
        assert(second.files[j].path == path);
        if first.registered(path) {
            if i < j {
                assert(first.files[i].path != first.files[j].path);
            } else if j < i {
                assert(first.files[j].path != first.files[i].path);
            }
        } else if j < first.files.len() {
            assert(first.files[j].path == path);
        }
    }
}

/// Every modify state of a table has an identity of its own.
pub proof fn modify_states_are_distinct(
    first: RegistryView,
    second: RegistryView,
    r: IcebergResult<ModifyStateId>,
    third: RegistryView,
    s: IcebergResult<ModifyStateId>,
)
    requires
        modify_state_begun(first, second, r),
        modify_state_begun(second, third, s),
        r is Ok,
        s is Ok,
    ensures
        r->Ok_0.0 < s->Ok_0.0,
        third.files == first.files,
{
}

} // verus!
