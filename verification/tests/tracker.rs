use pg_iceberg_am::catalog::action_log::{MetadataChange, MetadataReplay, SchemaReplay};
use pg_iceberg_am::catalog::loaded_metadata::LoadedTableMetadata;
use pg_iceberg_am::catalog::metadata_tracker::TxMetadata;
use pg_iceberg_am::catalog::row_mutations::RowMutationClaim;
use pg_iceberg_am::catalog::schema_evolution::{
    ColumnType, LiveColumn, PreparedSchemaUpdate, RelationColumns, SchemaChange,
    SchemaEvolutionUpdate,
};
use pg_iceberg_am::catalog::schema_mapping::{PrimitiveType, Type};
use pg_iceberg_am::catalog::snapshot_delta::{DataContentType, DataFile, DeleteFileIdentity};
use pg_iceberg_am::catalog::table_metadata::{
    FormatVersion, Manifest, ManifestContentType, ManifestEntry, PropertyMap, SnapshotInfo,
    TableMetadata, TableSchema,
};
use pg_iceberg_am::catalog::table_properties::{PreparedTablePropertyUpdate, TableProperty};
use pg_iceberg_am::catalog::table_state::{FileIo, TableState};
use pg_iceberg_am::catalog::vacuum::{PreparedVacuum, VacuumReport};
use pg_iceberg_am::error::{
    IcebergError, IcebergErrorKind, IcebergLiteError, IcebergVacuumError, PgSqlErrorCode,
};
use pg_iceberg_am::oids::{INT4OID, NUMERICOID};

fn io() -> FileIo {
    FileIo { handle: 1 }
}

fn data_file(path: &str, records: u64, bytes: u64) -> DataFile {
    DataFile {
        content: DataContentType::Data,
        file_path: path.to_owned(),
        record_count: records,
        file_size_in_bytes: bytes,
    }
}

fn delete_file(path: &str) -> DataFile {
    DataFile {
        content: DataContentType::PositionDeletes,
        file_path: path.to_owned(),
        record_count: 1,
        file_size_in_bytes: 7,
    }
}

fn metadata(summary: Option<&[(&str, &str)]>) -> TableMetadata {
    TableMetadata {
        format_version: FormatVersion::V2,
        schema: TableSchema { schema_id: 0, last_column_id: 2 },
        properties: PropertyMap::new(),
        current_snapshot: summary.map(|pairs| {
            let mut summary = PropertyMap::new();
            for (key, value) in pairs {
                summary.set(key.to_string(), value.to_string());
            }
            SnapshotInfo { snapshot_id: 1, summary }
        }),
    }
}

fn nothing_replayed() -> MetadataReplay {
    MetadataReplay { schemas: Vec::new(), properties: Vec::new() }
}

fn loaded(tracker: &mut TxMetadata, summary: Option<&[(&str, &str)]>) -> LoadedTableMetadata {
    tracker
        .current_table_metadata(
            1,
            io(),
            Some("v1".to_owned()),
            Some(5),
            metadata(summary),
            &nothing_replayed(),
        )
        .ok()
        .unwrap()
}

fn manifest(entries: Vec<ManifestEntry>) -> Manifest {
    Manifest { content: ManifestContentType::Data, entries }
}

fn entry(path: &str, alive: bool, records: u64, bytes: u64) -> ManifestEntry {
    ManifestEntry {
        alive,
        content: DataContentType::Data,
        file_path: path.to_owned(),
        record_count: records,
        file_size_in_bytes: bytes,
    }
}

const SUMMARY: &[(&str, &str)] = &[
    ("total-records", "100"),
    ("total-files-size", "1000"),
    ("total-delete-files", "0"),
];

#[test]
fn a_reader_sees_the_committed_table_and_its_own_changes() {
    let mut tracker = TxMetadata::new();
    let seen = loaded(&mut tracker, Some(SUMMARY));
    assert_eq!(seen.location, "v1");
    assert_eq!(seen.maintenance_due_at, Some(5));
    assert!(seen.delta.is_none());
    assert_eq!(seen.relation_stats(&Vec::new()), (100, 1000));
    assert!(!seen.may_have_row_deletes());

    tracker.stage_data_files(1, vec![data_file("n.parquet", 10, 50)], io(), 1).unwrap();
    let seen = loaded(&mut tracker, Some(SUMMARY));
    assert_eq!(seen.relation_stats(&Vec::new()), (110, 1050));
    assert!(!seen.stats_need_manifests());
    assert_eq!(seen.live_data_file_without_manifests("n.parquet"), Some(true));
    assert_eq!(seen.live_data_file_without_manifests("old.parquet"), None);
    assert_eq!(seen.live_data_file_without_manifests(""), Some(false));

    tracker.stage_remove_data_file(1, "old.parquet".to_owned(), true, io(), 1).unwrap();
    let seen = loaded(&mut tracker, Some(SUMMARY));
    assert!(seen.stats_need_manifests());
    let manifests = vec![manifest(vec![
        entry("old.parquet", true, 40, 400),
        entry("other.parquet", true, 60, 600),
        entry("dead.parquet", false, 1, 1),
    ])];
    assert_eq!(seen.relation_stats(&manifests), (70, 650));
    assert!(!seen.has_live_data_file_path(&manifests, "old.parquet"));
    assert!(seen.has_live_data_file_path(&manifests, "other.parquet"));
    assert!(!seen.has_live_data_file_path(&manifests, "dead.parquet"));
    assert!(seen.has_live_data_file_path(&manifests, "n.parquet"));
}

#[test]
fn deletes_are_seen_where_they_may_be() {
    let mut tracker = TxMetadata::new();
    assert!(!loaded(&mut tracker, None).may_have_row_deletes());
    assert!(loaded(&mut tracker, Some(&[])).may_have_row_deletes());
    assert!(loaded(&mut tracker, Some(&[("total-delete-files", "x")])).may_have_row_deletes());
    assert!(loaded(&mut tracker, Some(&[("total-delete-files", "2")])).may_have_row_deletes());
    tracker
        .stage_position_delete_file(1, delete_file("d"), vec!["a".to_owned()], io(), 1)
        .unwrap();
    assert!(loaded(&mut tracker, Some(SUMMARY)).may_have_row_deletes());
    tracker
        .stage_remove_delete_file(1, DeleteFileIdentity { file_path: "d".to_owned() }, io(), 1)
        .unwrap();
    assert!(!loaded(&mut tracker, Some(SUMMARY)).may_have_row_deletes());
}

#[test]
fn a_truncated_table_starts_over() {
    let mut tracker = TxMetadata::new();
    tracker.stage_truncate(1, Some("v1".to_owned()), io(), 1).unwrap();
    tracker.stage_data_files(1, vec![data_file("n", 3, 30)], io(), 1).unwrap();
    let seen = loaded(&mut tracker, Some(SUMMARY));
    assert_eq!(seen.relation_stats(&Vec::new()), (3, 30));
    assert_eq!(seen.live_data_file_without_manifests("old"), Some(false));
    assert_eq!(
        tracker.stage_truncate(2, None, io(), 1).unwrap_err(),
        IcebergError::MetadataLocationNull
    );
}

#[test]
fn a_table_without_a_location_cannot_be_read() {
    let mut tracker = TxMetadata::new();
    let error = tracker
        .current_table_metadata(1, io(), None, None, metadata(None), &nothing_replayed())
        .err()
        .unwrap();
    assert_eq!(error, IcebergError::MetadataLocationNull);
}

#[test]
fn only_live_files_are_removed() {
    let mut tracker = TxMetadata::new();
    assert_eq!(
        tracker.stage_remove_data_file(1, "x".to_owned(), false, io(), 1).unwrap_err(),
        IcebergError::MetadataTracker(
            "Cannot remove non-live Iceberg data file from transaction view: x".to_owned()
        )
    );
    // The table is registered, and there is nothing to commit.
    assert_eq!(tracker.commit_order(), vec![1]);
    assert!(tracker.commit_input(1).unwrap().is_none());
}

#[test]
fn touched_tables_commit_in_order() {
    let mut tracker = TxMetadata::new();
    for relid in [30, 10, 20] {
        tracker.register_table(relid);
    }
    tracker.stage_data_files(20, vec![data_file("a", 1, 1)], io(), 1).unwrap();
    assert_eq!(tracker.commit_order(), vec![10, 20, 30]);
    assert!(tracker.commit_input(10).unwrap().is_none());
    assert!(tracker.commit_input(99).unwrap().is_none());
    assert_eq!(tracker.commit_input(20).unwrap().unwrap().file_io, io());
    tracker.stage_drop(20, 1).unwrap();
    assert!(tracker.commit_input(20).unwrap().is_none());
    assert_eq!(tracker.nest_level(), 1);
}

#[test]
fn savepoints_undo_their_own_changes() {
    let mut tracker = TxMetadata::new();
    tracker.stage_data_files(1, vec![data_file("top", 1, 1)], io(), 1).unwrap();
    tracker.stage_data_files(1, vec![data_file("inner", 2, 2)], io(), 2).unwrap();
    tracker.stage_data_files(1, vec![data_file("innermost", 4, 4)], io(), 3).unwrap();
    let rows = |tracker: &mut TxMetadata| loaded(tracker, None).relation_stats(&Vec::new()).0;
    assert_eq!(rows(&mut tracker), 7);
    tracker.promote_to_level(3);
    assert_eq!(rows(&mut tracker), 7);
    tracker.rollback_to_level(2);
    assert_eq!(rows(&mut tracker), 1);

    tracker.stage_data_files(1, vec![data_file("kept", 8, 8)], io(), 2).unwrap();
    tracker.promote_to_level(2);
    tracker.rollback_to_level(2);
    assert_eq!(rows(&mut tracker), 9);
}

#[test]
fn nested_savepoints_are_undone_from_the_inside_out() {
    let mut tracker = TxMetadata::new();
    let rows = |tracker: &mut TxMetadata| loaded(tracker, None).relation_stats(&Vec::new()).0;
    tracker.stage_data_files(1, vec![data_file("top", 1, 1)], io(), 1).unwrap();
    tracker.stage_data_files(1, vec![data_file("a", 2, 2)], io(), 2).unwrap();
    tracker.stage_data_files(1, vec![data_file("b", 4, 4)], io(), 3).unwrap();
    tracker.stage_data_files(1, vec![data_file("c", 8, 8)], io(), 3).unwrap();
    tracker.stage_data_files(1, vec![data_file("d", 16, 16)], io(), 4).unwrap();
    tracker.rollback_to_level(4);
    assert_eq!(rows(&mut tracker), 15);
    tracker.rollback_to_level(3);
    assert_eq!(rows(&mut tracker), 3);
    // A deeper savepoint is opened and released before the outer one is undone.
    tracker.stage_data_files(1, vec![data_file("e", 32, 32)], io(), 3).unwrap();
    tracker.promote_to_level(3);
    tracker.stage_data_files(1, vec![data_file("f", 64, 64)], io(), 2).unwrap();
    assert_eq!(rows(&mut tracker), 99);
    tracker.rollback_to_level(2);
    assert_eq!(rows(&mut tracker), 1);
}

#[test]
fn rows_are_claimed_once() {
    let mut tracker = TxMetadata::new();
    let file = tracker.register_file(1, "a.parquet").unwrap();
    assert_eq!(tracker.register_file(1, "a.parquet").unwrap(), file);
    let first = tracker.begin_modify_state(1).unwrap();
    let second = tracker.begin_modify_state(1).unwrap();
    assert!(matches!(
        tracker.claim_row(1, first, file, 5, 10, 2).unwrap(),
        RowMutationClaim::FirstTouch { .. }
    ));
    assert!(matches!(
        tracker.claim_row(1, second, file, 5, 11, 2).unwrap(),
        RowMutationClaim::PreviouslyModified { modifying_command_id: 10 }
    ));
    tracker.rollback_to_level(2);
    assert!(matches!(
        tracker.claim_row(1, second, file, 5, 12, 1).unwrap(),
        RowMutationClaim::FirstTouch { .. }
    ));
    assert_eq!(tracker.row_registry(1).file_path(file).unwrap(), "a.parquet");
    assert_eq!(tracker.row_registry(7).registered_file_count(), 0);
    assert_eq!(tracker.commit_order(), vec![1, 7]);
}

#[test]
fn staged_changes_refuse_to_be_prepared() {
    let mut tracker = TxMetadata::new();
    tracker.register_table(1);
    tracker.on_pre_prepare().unwrap();
    tracker.stage_drop(1, 1).unwrap();
    match tracker.on_pre_prepare().unwrap_err() {
        IcebergError::PgError(e) => {
            assert_eq!(e.code, PgSqlErrorCode::ERRCODE_FEATURE_NOT_SUPPORTED);
            assert_eq!(
                e.message,
                "cannot PREPARE a transaction with staged Iceberg metadata changes"
            );
        }
        other => panic!("unexpected {other:?}"),
    }
}

fn vacuum() -> PreparedVacuum {
    PreparedVacuum {
        rewrite: None,
        manifest_rewrite: None,
        expire_as_of_ms: 0,
        orphan_older_than_ms: None,
        owned_table_root: "root".to_owned(),
        report: VacuumReport::new(),
    }
}

#[test]
fn maintenance_stands_alone() {
    let conflict = IcebergError::Vacuum { source: IcebergVacuumError::ActionConflict };
    let mut tracker = TxMetadata::new();
    tracker.stage_vacuum(1, vacuum(), io(), 1).unwrap();
    assert_eq!(
        tracker.stage_data_files(1, vec![data_file("a", 1, 1)], io(), 1).unwrap_err(),
        conflict
    );
    tracker.stage_data_files(1, vec![], io(), 1).unwrap();

    let mut other = TxMetadata::new();
    other.stage_data_files(1, vec![data_file("a", 1, 1)], io(), 1).unwrap();
    assert!(other.stage_vacuum(1, vacuum(), io(), 1).is_err());
    assert!(other.commit_input(1).unwrap().is_some());
}

#[test]
fn a_refused_change_leaves_the_table() {
    let mut state = TableState::new();
    state.record_data_files(2, vec![data_file("a", 1, 1)]).unwrap();
    let refused =
        state.record_data_files(2, vec![data_file("b", 1, 1), delete_file("d")]).unwrap_err();
    assert_ne!(refused, IcebergError::MetadataLocationNull);
    let delta = state.combined_delta().unwrap().unwrap();
    let paths: Vec<String> =
        delta.added_data_files().iter().map(|f| f.file_path.clone()).collect();
    assert_eq!(paths, vec!["a".to_owned()]);
    state.rollback_to_level(2);
    assert!(state.actions().is_empty());
    assert!(state.commit_input().is_none());
}

fn drops(column: &str) -> PreparedSchemaUpdate {
    PreparedSchemaUpdate {
        changes: vec![SchemaChange::DeleteColumn { column: column.to_owned() }],
    }
}

#[test]
fn schema_and_property_changes_are_replayed() {
    let mut tracker = TxMetadata::new();
    tracker.stage_schema_update(1, drops("a"), io(), 1).unwrap();
    tracker
        .stage_table_property_update(
            1,
            PreparedTablePropertyUpdate::from_options(
                FormatVersion::V2,
                vec![TableProperty { key: "k".to_owned(), value: "v".to_owned() }],
            ),
            io(),
            1,
        )
        .unwrap();
    let read = |tracker: &mut TxMetadata, schema, objection| {
        tracker.current_table_metadata(
            1,
            io(),
            Some("v1".to_owned()),
            None,
            metadata(None),
            &MetadataReplay { schemas: vec![schema], properties: vec![objection] },
        )
    };
    {
        let changes = tracker.staged_metadata_changes(1);
        let [MetadataChange::Schema(schema), MetadataChange::Properties(properties)] =
            changes.as_slice()
        else {
            panic!("unexpected {changes:?}");
        };
        assert_eq!(**schema, drops("a"));
        assert_eq!(properties.properties[0].key, "k");
    }
    assert!(tracker.staged_metadata_changes(2).is_empty());
    let after = TableSchema { schema_id: 1, last_column_id: 2 };
    let seen = read(&mut tracker, SchemaReplay::Applied(after), None).ok().unwrap();
    assert_eq!(seen.metadata.schema, after);
    assert_eq!(seen.metadata.properties.get("k").map(|v| v.as_str()), Some("v"));

    let refusal = || IcebergLiteError {
        kind: IcebergErrorKind::DataInvalid,
        message: "no column".to_owned(),
    };
    let failed = read(&mut tracker, SchemaReplay::Failed(refusal()), None).err().unwrap();
    assert_eq!(failed, IcebergError::IcebergLiteError(refusal()));
    let conflict = read(&mut tracker, SchemaReplay::Conflict(refusal()), None).err().unwrap();
    assert_eq!(conflict, IcebergError::SchemaEvolutionConflict(refusal()));
    // The first change that is refused decides.
    let objection =
        || IcebergLiteError { kind: IcebergErrorKind::DataInvalid, message: "reserved".to_owned() };
    let refused =
        read(&mut tracker, SchemaReplay::Applied(after), Some(objection())).err().unwrap();
    assert_eq!(refused, IcebergError::IcebergLiteError(objection()));
    let first =
        read(&mut tracker, SchemaReplay::Conflict(refusal()), Some(objection())).err().unwrap();
    assert_eq!(first, IcebergError::SchemaEvolutionConflict(refusal()));
}

#[test]
fn properties_keep_the_format_version() {
    let update = PreparedTablePropertyUpdate::from_options(
        FormatVersion::V3,
        vec![TableProperty { key: "k".to_owned(), value: "v".to_owned() }],
    );
    match update.validate_base_metadata(&metadata(None)).unwrap_err() {
        IcebergError::IcebergLiteError(e) => {
            assert_eq!(e.kind, IcebergErrorKind::FeatureUnsupported);
            assert_eq!(
                e.message,
                format!(
                    "ALTER TABLE cannot change Iceberg format version from {} to {}",
                    FormatVersion::V2.as_str(),
                    FormatVersion::V3.as_str()
                )
            );
        }
        other => panic!("unexpected {other:?}"),
    }
    let same = PreparedTablePropertyUpdate::from_options(FormatVersion::V2, update.properties);
    let updated = same.apply_to_metadata(metadata(None), None).ok().unwrap();
    assert_eq!(updated.properties.get("k").map(|v| v.as_str()), Some("v"));
    let refusal =
        IcebergLiteError { kind: IcebergErrorKind::DataInvalid, message: "bad".to_owned() };
    let refused = same.apply_to_metadata(metadata(None), Some(refusal)).err().unwrap();
    assert!(matches!(refused, IcebergError::IcebergLiteError(e) if e.message == "bad"));
}

fn column(oid: u32) -> ColumnType {
    ColumnType { oid, typmod: -1, element_chain: vec![] }
}

fn live(attno: i16, name: &str) -> LiveColumn {
    LiveColumn { attno, name: name.to_owned() }
}

#[test]
fn schema_changes_are_staged_in_order() {
    let mut update = SchemaEvolutionUpdate::new();
    assert!(update.is_empty());
    assert!(update.preflight_existing_schema().is_none());
    update.add_nullable_column("n".to_owned());
    assert!(update.has_add_column());
    assert!(!update.has_existing_schema_op());
    update.drop_column("a".to_owned());
    update.rename_column("b".to_owned(), "c".to_owned());
    update.drop_not_null("c".to_owned());
    assert_eq!(
        update.preflight_existing_schema().unwrap(),
        vec![
            SchemaChange::DeleteColumn { column: "a".to_owned() },
            SchemaChange::RenameColumn { column: "b".to_owned(), new_name: "c".to_owned() },
            SchemaChange::MakeColumnOptional { column: "c".to_owned() },
        ]
    );

    let columns = RelationColumns::capture(
        &vec![live(1, "c"), live(2, "n"), live(9, "beyond")],
        &vec![column(INT4OID), column(NUMERICOID)],
    );
    let staged = update.stage_changes(&columns);
    let prepared = staged.result.unwrap();
    assert_eq!(prepared.changes.len(), 4);
    assert!(matches!(
        &prepared.changes[0],
        SchemaChange::AddOptionalColumn {
            column,
            column_type: Type::Primitive(PrimitiveType::Decimal { .. }),
        } if column == "n"
    ));
    assert_eq!(staged.warnings.len(), 1);

    let mut missing = SchemaEvolutionUpdate::new();
    missing.add_nullable_column("n".to_owned());
    missing.add_nullable_column("beyond".to_owned());
    missing.add_nullable_column("n".to_owned());
    let refused = missing.stage_changes(&columns);
    assert_eq!(
        refused.result.unwrap_err(),
        IcebergError::ColumnNotFound("beyond".to_owned())
    );
    // The column before the refused one is warned about all the same.
    assert_eq!(refused.warnings, staged.warnings);
}
