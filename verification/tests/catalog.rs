use pg_iceberg_am::catalog::catalog_row::{CatalogCell, CatalogRow, TupleReplacement};
use pg_iceberg_am::catalog::iceberg_catalog::{
    CatalogTable, DEFAULT_CATALOG_NAME, IcebergCatalog, NamespaceIdent, TableCreation, TableIdent,
    hierarchical_namespace, validate_namespace,
};
use pg_iceberg_am::catalog::iceberg_metadata;
use pg_iceberg_am::catalog::metadata_table::{
    CasUpdate, CatalogUpdateResult, IcebergMetadata, MAINTENANCE_DUE_AT, METADATA_LOCATION,
    MaintenanceCandidate, MaintenanceCompletionToken, MaintenanceScheduleUpdate,
    PREVIOUS_METADATA_LOCATION, RELID,
};
use pg_iceberg_am::catalog::table_drop::{DropStep, IcebergTableDrop, ObjectTreeTarget};
use pg_iceberg_am::catalog::table_lifecycle::{
    DEFAULTTABLESPACE_OID, GLOBALTABLESPACE_OID, TableLocator, compute_table_location,
    distributed_table_key, initial_metadata_location, tablespace_version_directory,
};
use pg_iceberg_am::catalog::table_state::FileIo;
use pg_iceberg_am::error::{IcebergError, IcebergErrorKind};

fn memory() -> FileIo {
    FileIo::memory()
}

fn namespace(levels: &[&str]) -> NamespaceIdent {
    NamespaceIdent { levels: levels.iter().map(|l| l.to_string()).collect() }
}

fn ident(levels: &[&str], name: &str) -> TableIdent {
    TableIdent { namespace: namespace(levels), name: name.to_owned() }
}

#[test]
fn test_iceberg_catalog_new() {
    let catalog = IcebergCatalog::new("test_catalog".to_owned(), memory());

    assert_eq!(catalog.name(), "test_catalog");
}

#[test]
fn test_iceberg_catalog_with_properties() {
    let mut props = std::collections::HashMap::new();
    props.insert("key1".to_string(), "value1".to_string());
    props.insert("key2".to_string(), "value2".to_string());

    let catalog = IcebergCatalog::new("test_catalog".to_owned(), memory());

    assert_eq!(catalog.name(), "test_catalog");
}

#[test]
fn unsupported_catalog_methods_return_feature_unsupported() {
    let catalog = IcebergCatalog::default();
    let namespace = namespace(&["public"]);

    let error = catalog.list_tables(&namespace).unwrap_err();

    assert_eq!(error.kind, IcebergErrorKind::FeatureUnsupported);
}

#[test]
fn the_default_catalog_is_empty_and_in_memory() {
    let catalog = IcebergCatalog::default();
    assert_eq!(catalog.name(), "PostgreSQL");
    assert_eq!(catalog.file_io(), FileIo::memory());
    assert!(!catalog.table_exists(&ident(&["public"], "t")));
}

#[test]
fn every_other_catalog_method_is_unsupported() {
    let catalog = IcebergCatalog::new_pg(memory());
    assert_eq!(catalog.name(), DEFAULT_CATALOG_NAME);
    assert_eq!(catalog.name(), "PostgreSQL");
    let ns = namespace(&["public"]);
    let t = ident(&["public"], "t");
    let errors = vec![
        ("list_namespaces", catalog.list_namespaces(None).unwrap_err()),
        ("create_namespace", catalog.create_namespace(&ns).unwrap_err()),
        ("get_namespace", catalog.get_namespace(&ns).unwrap_err()),
        ("namespace_exists", catalog.namespace_exists(&ns).unwrap_err()),
        ("update_namespace", catalog.update_namespace(&ns).unwrap_err()),
        ("drop_namespace", catalog.drop_namespace(&ns).unwrap_err()),
        ("list_tables", catalog.list_tables(&ns).unwrap_err()),
        ("drop_table", catalog.drop_table(&t).unwrap_err()),
        ("rename_table", catalog.rename_table(&t, &t).unwrap_err()),
        ("register_table", catalog.register_table(&t, "m").unwrap_err()),
    ];
    for (method, error) in errors {
        assert_eq!(error.kind, IcebergErrorKind::FeatureUnsupported);
        assert_eq!(
            error.message,
            format!("PostgreSQL Iceberg catalog method `{method}` is not implemented yet")
        );
    }
}

#[test]
fn namespaces_have_one_level() {
    assert_eq!(validate_namespace(&namespace(&["public"])).unwrap(), "public");
    let nested = validate_namespace(&namespace(&["a", "b\"c"])).unwrap_err();
    assert_eq!(nested.kind, IcebergErrorKind::DataInvalid);
    assert_eq!(
        nested.message,
        "Invalid namespaces name: NamespaceIdent([\"a\", \"b\\\"c\"]), hierarchical namespaces are not supported"
    );
    assert_eq!(
        hierarchical_namespace("[]").message,
        "Invalid namespaces name: NamespaceIdent([]), hierarchical namespaces are not supported"
    );
    let empty = validate_namespace(&namespace(&[""])).unwrap_err();
    assert_eq!(empty.message, "Invalid namespaces, provided namespace is empty.");
}

#[test]
fn tables_are_created_with_a_location() {
    let catalog = IcebergCatalog::new_pg(memory());
    let creation = TableCreation { name: "t".to_owned(), location: Some("base/1".to_owned()) };
    let planned = catalog.create_table(&namespace(&["public"]), creation).unwrap();
    assert_eq!(planned.identifier, ident(&["public"], "t"));
    assert_eq!(planned.location, "base/1");
    let creation = TableCreation { name: "t".to_owned(), location: None };
    let error = catalog.create_table(&namespace(&["public"]), creation).unwrap_err();
    assert_eq!(
        error.message,
        "Table location is required. Please specify a storage location for the table."
    );
}

#[test]
fn the_catalog_holds_one_table() {
    let empty = IcebergCatalog::new_pg(memory());
    let t = ident(&["public"], "t");
    assert!(!empty.table_exists(&t));
    let missing = empty.load_table(&t).unwrap_err();
    assert_eq!(missing.message, "Table public.t not found in catalog");
    assert_eq!(
        empty.update_table(&ident(&["a", "b"], "c")).unwrap_err().message,
        "Table a.b.c not found in catalog"
    );

    let table = CatalogTable { identifier: ident(&["public"], "t"), metadata_handle: 9 };
    let catalog = IcebergCatalog::with_table_pg(memory(), table);
    assert_eq!(catalog.load_table(&t).unwrap().metadata_handle, 9);
    assert_eq!(catalog.update_table(&t).unwrap().metadata_handle, 9);
    assert!(catalog.table_exists(&t));
    assert!(!catalog.table_exists(&ident(&["public"], "u")));
    assert!(!catalog.table_exists(&ident(&["other"], "t")));
    assert!(!catalog.table_exists(&ident(&["public", "x"], "t")));
}

#[test]
fn maintenance_candidate_matches_location_and_due_token() {
    let candidate = MaintenanceCandidate {
        relid: 42,
        metadata_location: Some("metadata/v1.json".to_owned()),
        due_at: 100,
    };

    assert!(candidate.matches(&MaintenanceCompletionToken {
        metadata_location: "metadata/v1.json".to_owned(),
        maintenance_due_at: Some(100),
    }));
    assert!(!candidate.matches(&MaintenanceCompletionToken {
        metadata_location: "metadata/v2.json".to_owned(),
        maintenance_due_at: Some(100),
    }));
    assert!(!candidate.matches(&MaintenanceCompletionToken {
        metadata_location: "metadata/v1.json".to_owned(),
        maintenance_due_at: Some(101),
    }));
}

fn row(relid: u32, location: &str, due: Option<i64>) -> CatalogRow {
    let mut metadata = IcebergMetadata::new(relid).with_metadata_location(location.to_owned());
    metadata.maintenance_due_at = due;
    metadata.insert(5)
}

fn without_relid() -> CatalogRow {
    CatalogRow { cells: vec![None, None, None, None, None] }
}

#[test]
fn a_metadata_row_reads_back() {
    let mut written = IcebergMetadata::new(42)
        .with_metadata_location("v2".to_owned())
        .with_previous_metadata_location("v1".to_owned())
        .with_default_spec_id(3);
    written.maintenance_due_at = Some(77);
    let tuple = written.insert(5);
    let read = IcebergMetadata::get(42, Some(&tuple)).unwrap();
    assert_eq!(read.relid, 42);
    assert_eq!(read.metadata_location.as_deref(), Some("v2"));
    assert_eq!(read.previous_metadata_location.as_deref(), Some("v1"));
    assert_eq!(read.default_spec_id, Some(3));
    assert_eq!(read.maintenance_due_at, Some(77));
    assert!(IcebergMetadata::row_exists(Some(&tuple)).unwrap());
    assert!(!IcebergMetadata::row_exists(None).unwrap());
    assert!(IcebergMetadata::find_by_relid(None).unwrap().is_none());
    assert_eq!(
        IcebergMetadata::get(7, None).err().unwrap(),
        IcebergError::MetadataCatalogNotFound(7)
    );
    assert_eq!(
        IcebergMetadata::get(7, Some(&without_relid())).err().unwrap(),
        IcebergError::MetadataCatalogInvalidRecord(
            "relid (attno 1) is null or undecodable".to_owned()
        )
    );
}

fn cas<'a>(new: &'a str, old: &'a str, schedule: MaintenanceScheduleUpdate) -> CasUpdate<'a> {
    CasUpdate {
        metadata_location: Some(new),
        previous_metadata_location: Some(old),
        maintenance_schedule: schedule,
    }
}

fn applied(replacement: TupleReplacement, tuple: CatalogRow) -> IcebergMetadata {
    IcebergMetadata::from_tuple(&replacement.apply(tuple)).unwrap()
}

#[test]
fn one_of_two_moves_wins() {
    let tuple = row(42, "v1", Some(50));
    let plan = IcebergMetadata::cas_update(
        42,
        Some("v1"),
        cas("v2", "v1", MaintenanceScheduleUpdate::Preserve),
        Some(&tuple),
    )
    .unwrap();
    assert!(!plan.maintenance_deadline_advanced);
    assert!(plan.replacement.replaced(RELID).is_none());
    assert!(plan.replacement.replaced(MAINTENANCE_DUE_AT).is_none());
    assert!(matches!(
        plan.replacement.replaced(METADATA_LOCATION),
        Some(Some(CatalogCell::Text(t))) if t == "v2"
    ));
    assert!(plan.replacement.replaced(PREVIOUS_METADATA_LOCATION).is_some());
    let moved = plan.replacement.apply(tuple);
    let read = IcebergMetadata::from_tuple(&moved).unwrap();
    assert_eq!(read.metadata_location.as_deref(), Some("v2"));
    assert_eq!(read.previous_metadata_location.as_deref(), Some("v1"));
    assert_eq!(read.maintenance_due_at, Some(50));

    let lost = IcebergMetadata::cas_update(
        42,
        Some("v1"),
        cas("v3", "v1", MaintenanceScheduleUpdate::Preserve),
        Some(&moved),
    );
    assert_eq!(lost.err().unwrap(), IcebergError::MetadataCatalogConflict);
    let gone = IcebergMetadata::cas_update(
        42,
        Some("v1"),
        cas("v3", "v1", MaintenanceScheduleUpdate::Preserve),
        None,
    );
    assert_eq!(gone.err().unwrap(), IcebergError::MetadataCatalogNotFound(42));
    assert!(IcebergMetadata::cas_updated(CatalogUpdateResult::Success, true).unwrap());
    assert_eq!(
        IcebergMetadata::cas_updated(CatalogUpdateResult::Conflict, true).unwrap_err(),
        IcebergError::MetadataCatalogConflict
    );
}

#[test]
fn schedules_only_come_closer() {
    let cases = [
        (None, MaintenanceScheduleUpdate::ScheduleNoLaterThan(10), Some(10), true),
        (Some(20), MaintenanceScheduleUpdate::ScheduleNoLaterThan(10), Some(10), true),
        (Some(10), MaintenanceScheduleUpdate::ScheduleNoLaterThan(10), Some(10), false),
        (Some(5), MaintenanceScheduleUpdate::ScheduleNoLaterThan(10), Some(5), false),
        (Some(5), MaintenanceScheduleUpdate::CompleteIfDueMatches(Some(5)), None, false),
        (Some(5), MaintenanceScheduleUpdate::CompleteIfDueMatches(Some(6)), Some(5), false),
        (None, MaintenanceScheduleUpdate::CompleteIfDueMatches(None), None, false),
        (Some(5), MaintenanceScheduleUpdate::default(), Some(5), false),
    ];
    for (before, schedule, after, advanced) in cases {
        let tuple = row(1, "v1", before);
        let plan =
            IcebergMetadata::cas_update(1, Some("v1"), cas("v2", "v1", schedule), Some(&tuple))
                .unwrap();
        assert_eq!(plan.maintenance_deadline_advanced, advanced);
        assert_eq!(applied(plan.replacement, tuple).maintenance_due_at, after);
    }
}

#[test]
fn maintenance_is_finished_where_nothing_moved() {
    let finish = |schedule, tuple: Option<&CatalogRow>| {
        IcebergMetadata::finish_maintenance(1, "v1", schedule, tuple)
    };
    let tuple = row(1, "v1", Some(5));
    let done =
        finish(MaintenanceScheduleUpdate::CompleteIfDueMatches(Some(5)), Some(&tuple)).unwrap();
    assert_eq!(applied(done, row(1, "v1", Some(5))).maintenance_due_at, None);
    let newer =
        finish(MaintenanceScheduleUpdate::CompleteIfDueMatches(Some(4)), Some(&tuple)).unwrap();
    assert_eq!(applied(newer, row(1, "v1", Some(5))).maintenance_due_at, Some(5));
    let kept = finish(MaintenanceScheduleUpdate::Preserve, Some(&tuple)).unwrap();
    assert_eq!(applied(kept, row(1, "v1", Some(5))).maintenance_due_at, Some(5));
    assert_eq!(
        finish(MaintenanceScheduleUpdate::ScheduleNoLaterThan(1), Some(&tuple)).err().unwrap(),
        IcebergError::InvariantViolated(
            "maintenance completion cannot schedule new maintenance work"
        )
    );
    assert_eq!(
        finish(MaintenanceScheduleUpdate::Preserve, None).err().unwrap(),
        IcebergError::MetadataCatalogNotFound(1)
    );
    assert_eq!(
        finish(MaintenanceScheduleUpdate::Preserve, Some(&row(1, "v2", None))).err().unwrap(),
        IcebergError::MetadataCatalogConflict
    );
    IcebergMetadata::finished(CatalogUpdateResult::Success).unwrap();
    assert_eq!(
        IcebergMetadata::finished(CatalogUpdateResult::Conflict).unwrap_err(),
        IcebergError::MetadataCatalogConflict
    );
}

#[test]
fn candidates_are_deferred_where_they_are_unchanged() {
    let rows = vec![row(1, "a", Some(5)), row(2, "b", Some(6)), row(3, "c", Some(7))];
    let found = IcebergMetadata::maintenance_candidates(2, &rows).unwrap();
    let got: Vec<(u32, i64)> = found.iter().map(|c| (c.relid, c.due_at)).collect();
    assert_eq!(got, vec![(1, 5), (2, 6)]);
    assert_eq!(IcebergMetadata::next_maintenance_due_at(rows.first()), Some(5));
    assert_eq!(IcebergMetadata::next_maintenance_due_at(None), None);

    let candidate = &found[0];
    let change = IcebergMetadata::defer_maintenance(candidate, 99, Some(&rows[0])).unwrap();
    assert_eq!(applied(change, row(1, "a", Some(5))).maintenance_due_at, Some(99));
    assert!(IcebergMetadata::defer_maintenance(candidate, 99, None).is_none());
    assert!(
        IcebergMetadata::defer_maintenance(candidate, 99, Some(&row(1, "z", Some(5)))).is_none()
    );
    assert!(
        IcebergMetadata::defer_maintenance(candidate, 99, Some(&row(1, "a", Some(4)))).is_none()
    );
    assert!(IcebergMetadata::deferred(Some(CatalogUpdateResult::Success)));
    assert!(!IcebergMetadata::deferred(Some(CatalogUpdateResult::Conflict)));
    assert!(!IcebergMetadata::deferred(None));

    let broken = vec![row(1, "a", Some(5)), row(2, "b", None)];
    assert_eq!(
        IcebergMetadata::maintenance_candidates(9, &broken).err().unwrap(),
        IcebergError::MetadataCatalogInvalidRecord(
            "maintenance_due_at (attno 5) is null or undecodable".to_owned()
        )
    );
}

#[test]
fn rows_are_deleted_where_they_are() {
    assert!(IcebergMetadata::delete(1, true).unwrap());
    assert_eq!(
        IcebergMetadata::delete(1, false).unwrap_err(),
        IcebergError::MetadataCatalogNotFound(1)
    );
    assert!(IcebergMetadata::delete_if_exists(1, true).unwrap());
    assert!(!IcebergMetadata::delete_if_exists(1, false).unwrap());
}

#[test]
fn a_location_row_is_updated_at_its_location() {
    let old = iceberg_metadata::IcebergMetadata::new(5)
        .with_metadata_location("v1".to_owned())
        .with_default_spec_id(1)
        .insert();
    let new = iceberg_metadata::IcebergMetadata::new(5)
        .with_metadata_location("v2".to_owned())
        .with_previous_metadata_location("v1".to_owned());
    let change = new.update(Some("v1"), Some(&old)).unwrap();
    let read = iceberg_metadata::IcebergMetadata::from_tuple(&change.apply(old)).unwrap();
    assert_eq!(read.relid, 5);
    assert_eq!(read.metadata_location.as_deref(), Some("v2"));
    assert_eq!(read.previous_metadata_location.as_deref(), Some("v1"));
    assert_eq!(read.default_spec_id, None);

    let moved = new.insert();
    assert_eq!(
        new.update(Some("v1"), Some(&moved)).err().unwrap(),
        IcebergError::MetadataCatalogConflict
    );
    assert_eq!(
        new.update(Some("v1"), None).err().unwrap(),
        IcebergError::MetadataCatalogNotFound(5)
    );
    assert!(iceberg_metadata::IcebergMetadata::row_exists(Some(&moved)).unwrap());
    assert_eq!(
        iceberg_metadata::IcebergMetadata::get(6, None).err().unwrap(),
        IcebergError::MetadataCatalogNotFound(6)
    );
    iceberg_metadata::IcebergMetadata::delete(6, true).unwrap();
    assert!(iceberg_metadata::IcebergMetadata::delete(6, false).is_err());
    iceberg_metadata::IcebergMetadata::updated(CatalogUpdateResult::Success).unwrap();
    assert!(iceberg_metadata::IcebergMetadata::updated(CatalogUpdateResult::Conflict).is_err());
}

fn locator(spc_oid: u32) -> TableLocator {
    TableLocator { spc_oid, db_oid: 5, rel_number: 16384 }
}

#[test]
fn tables_have_their_places() {
    let version = tablespace_version_directory("17", 202406281);
    assert_eq!(version, "PG_17_202406281");
    let place = |spc, base: &str, distributed| {
        compute_table_location(locator(spc), base, distributed, &version)
    };
    assert_eq!(place(DEFAULTTABLESPACE_OID, "ignored", false), "base/5/16384_iceberg");
    assert_eq!(place(GLOBALTABLESPACE_OID, "", false), "global/16384_iceberg");
    assert_eq!(
        place(17000, "", false),
        "pg_tblspc/17000/PG_17_202406281/5/16384_iceberg"
    );
    assert_eq!(distributed_table_key(locator(17000)), "17000/5/16384_iceberg");
    assert_eq!(place(17000, "s3://bucket/base//", true), "s3://bucket/base/17000/5/16384_iceberg");
    assert_eq!(place(17000, "s3://bucket", true), "s3://bucket/17000/5/16384_iceberg");
    assert_eq!(initial_metadata_location(Some("m".to_owned())).unwrap(), "m");
    assert_eq!(
        initial_metadata_location(None).unwrap_err(),
        IcebergError::MetadataLocationNull
    );
}

#[test]
fn a_drop_has_four_steps() {
    let local = IcebergTableDrop::for_relation(
        42,
        "t".to_owned(),
        locator(DEFAULTTABLESPACE_OID),
        None,
        "PG_17_1",
    )
    .stage();
    assert!(matches!(local[0], DropStep::StageDrop { relid: 42 }));
    assert!(matches!(
        &local[1],
        DropStep::RemoveLocalRoot { location } if location == "base/5/16384_iceberg"
    ));
    assert!(matches!(local[2], DropStep::DeleteMetadataRow { relid: 42 }));
    assert!(matches!(local[3], DropStep::DeleteTableOptions { relid: 42 }));
    assert_eq!(local.len(), 4);

    let target = ObjectTreeTarget {
        store_id: "s3".to_owned(),
        object_namespace: "bucket".to_owned(),
        object_path: "base/17000/5/16384_iceberg".to_owned(),
    };
    let remote =
        IcebergTableDrop::for_relation(42, "t".to_owned(), locator(17000), Some(target), "")
            .stage();
    assert!(matches!(
        &remote[1],
        DropStep::EnqueueDeleteTree { target, producer: "iceberg-drop", source_relid: 42, source_name }
            if target.object_path == "base/17000/5/16384_iceberg" && source_name == "t"
    ));
}
