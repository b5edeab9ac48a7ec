use pg_iceberg_am::config::{DEFAULT_MUTATION_BUFFER_FLUSH_MB, mutation_buffer_flush_bytes};
use pg_iceberg_am::customscan::predicate_translator::predicate::{
    Datum, Predicate, PredicateOperator, Reference,
};
use pg_iceberg_am::customscan::provider::{
    CustomScanError, IcebergCustomScanProvider, RELKIND_PARTITIONED_TABLE, RELKIND_TOASTVALUE,
    ScanPurpose,
};
use pg_iceberg_am::customscan::provider_private_data::{
    IcebergPrivateData, PrivateDataError, PrivateDataReader, PrivateDataWriter,
};
use pg_iceberg_am::customscan::provider_projection::{
    NamedProjection, NeededColumns, ProjectionError, ProjectionPolicy, ResolvedColumn,
};
use pg_iceberg_am::customscan::provider_scan_state::{self, combine_with_and};
use pg_iceberg_am::customscan::scan_state::{
    CursorKind, IcebergScanState, ModifyBinding, NextRow, RescanPlan, ScanFilters,
};
use pg_iceberg_am::engine::projection::{ProjectedField, Projection};
use pg_iceberg_am::engine::query_cursor::{CursorAction, CursorEvent, IcebergQueryCursor};
use pg_iceberg_am::engine::scan_tasks::{FileScanTask, PlannedMutationTasks};
use pg_iceberg_am::error::{IcebergError, PgSqlErrorCode};

struct FixtureRelation {
    columns: Vec<(i16, Option<&'static str>)>,
    destinations: Vec<(i16, usize)>,
}

impl FixtureRelation {
    fn resolve_name(&self, attno: i16) -> Option<String> {
        self.columns.iter().find_map(|(a, name)| {
            if *a == attno { name.map(|n| n.to_string()) } else { None }
        })
    }

    fn resolved(&self, attno: i16) -> ResolvedColumn {
        ResolvedColumn {
            destination: self
                .destinations
                .iter()
                .find_map(|(source, dest)| (*source == attno).then_some(*dest)),
            name: self.resolve_name(attno),
        }
    }

    fn run(&self, needed: NeededColumns<'_>) -> Result<Option<NamedProjection>, ProjectionError> {
        let columns: Vec<ResolvedColumn> = match needed {
            NeededColumns::All => Vec::new(),
            NeededColumns::Subset(attnos) => attnos.iter().map(|a| self.resolved(*a)).collect(),
        };
        ProjectionPolicy.resolve(needed, &columns)
    }
}

fn pairs(proj: &NamedProjection) -> Vec<(i16, usize, String)> {
    proj.columns().iter().map(|c| (c.attno, c.destination, c.name.clone())).collect()
}

fn rel_no_dropped() -> FixtureRelation {
    FixtureRelation {
        columns: vec![(1, Some("a")), (2, Some("b")), (3, Some("c"))],
        destinations: vec![(1, 0), (2, 1), (3, 2)],
    }
}

fn rel_with_dropped() -> FixtureRelation {
    FixtureRelation {
        columns: vec![(1, None), (2, Some("b")), (3, Some("c"))],
        destinations: vec![(2, 0), (3, 1)],
    }
}

fn rel_zero_live() -> FixtureRelation {
    FixtureRelation { columns: vec![(1, None), (2, None)], destinations: Vec::new() }
}

#[test]
fn policy_all_maps_to_none_select_all() {
    for rel in [rel_no_dropped(), rel_with_dropped(), rel_zero_live()] {
        let got = rel.run(NeededColumns::All).expect("All never errors");
        assert!(got.is_none(), "All must map to None (select-all)");
    }
}

#[test]
fn policy_nonempty_subset_uses_source_order_and_preserves_destination() {
    let rel = rel_no_dropped();
    let proj = rel
        .run(NeededColumns::Subset(&vec![3, 1]))
        .expect("all attnos resolve")
        .expect("non-empty subset is Some");
    assert_eq!(pairs(&proj), vec![(1, 0, "a".to_string()), (3, 2, "c".to_string())]);
    let names: Vec<&str> = proj.names();
    assert_eq!(names, vec!["a", "c"]);

    let rel = rel_with_dropped();
    let proj = rel
        .run(NeededColumns::Subset(&vec![2, 3]))
        .expect("live attnos resolve")
        .expect("non-empty subset is Some");
    assert_eq!(pairs(&proj), vec![(2, 0, "b".to_string()), (3, 1, "c".to_string())]);
}

#[test]
fn policy_empty_subset_is_contract_error() {
    let rel = rel_no_dropped();
    assert!(matches!(
        rel.run(NeededColumns::Subset(&vec![])),
        Err(ProjectionError::EmptyProjectedLayout)
    ));
}

#[test]
fn policy_unresolved_attno_in_subset_is_error() {
    let rel = rel_with_dropped();
    let err = rel
        .run(NeededColumns::Subset(&vec![1, 2]))
        .expect_err("dropped attno must not resolve");
    assert!(matches!(err, ProjectionError::UnmappedAttno(1)));
}

#[test]
fn a_mapped_column_without_a_name_is_unresolved() {
    let rel = FixtureRelation { columns: vec![(1, None)], destinations: vec![(1, 0)] };
    let err = rel.run(NeededColumns::Subset(&vec![1])).expect_err("column has no name");
    assert_eq!(err, ProjectionError::UnresolvedAttno(1));
    assert_eq!(
        err.message(),
        "projected attno 1 could not be resolved to a live column name (stale plan or dropped attribute)"
    );
    assert_eq!(
        ProjectionError::UnmappedAttno(-7).message(),
        "projected attno -7 has no destination in the scan tuple layout"
    );
    assert_eq!(
        ProjectionError::EmptyProjectedLayout.message(),
        "projected scan tuple layout contains no source columns"
    );
}

fn equal_to(name: &str, value: i32) -> Predicate {
    Reference::new(name.to_owned()).compared(PredicateOperator::Eq, Datum::Int(value))
}

#[test]
fn combine_with_and_empty_is_none() {
    assert_eq!(combine_with_and(vec![]), None);
}

#[test]
fn combine_with_and_single_is_unchanged() {
    let p = equal_to("a", 1);
    let combined = combine_with_and(vec![p.clone()]);
    assert_eq!(combined, Some(p));
}

#[test]
fn combine_with_and_many_is_left_assoc_conjunction() {
    let a = equal_to("a", 1);
    let b = equal_to("b", 2);
    let c = equal_to("c", 3);
    let combined = combine_with_and(vec![a.clone(), b.clone(), c.clone()]);
    let expected = a.and(b).and(c);
    assert_eq!(combined, Some(expected));
}

#[test]
fn a_query_scan_runs_its_course() {
    let mut state = provider_scan_state::IcebergScanState::new();
    assert!(!state.next_slot());
    let plan = state.rescan(true, vec![equal_to("a", 1)]);
    assert!(!plan.open_cursor);
    assert!(plan.filter.is_none());

    assert_eq!(state.begin(vec![equal_to("a", 1)]), Some(equal_to("a", 1)));
    // Nothing is emitted while the cursor is not open.
    assert!(!state.next_slot());
    state.began();
    assert!(state.next_slot());
    let plan = state.rescan(true, vec![]);
    assert!(plan.open_cursor);
    assert_eq!(plan.filter, Some(None));
    let plan = state.rescan(false, vec![equal_to("a", 2)]);
    assert!(plan.open_cursor);
    assert_eq!(plan.filter, None);
    state.cursor_opened();
    assert!(state.next_slot());
    state.end();
    assert!(!state.next_slot());
}

fn filters() -> ScanFilters {
    ScanFilters {
        all: vec![equal_to("a", 1), equal_to("b", 2)],
        rescan_stable: vec![equal_to("a", 1)],
        static_values: vec![equal_to("b", 2)],
    }
}

#[test]
fn a_query_opens_its_cursor_at_once() {
    let mut state = IcebergScanState::default();
    let plan = state.begin(ScanPurpose::Query, filters());
    assert_eq!(plan.row_filter, Some(equal_to("a", 1).and(equal_to("b", 2))));
    assert_eq!(plan.planning_filter, Some(equal_to("a", 1)));
    assert!(plan.open_cursor);
    assert!(!plan.prepare_mutation_tasks);
    state.began();
    assert_eq!(state.next_slot().unwrap(), NextRow::Emit);
    assert_eq!(state.modify_scan_context(true), Some(Predicate::AlwaysTrue));
    assert!(matches!(
        state.rescan(true, vec![equal_to("a", 3)]),
        RescanPlan::Reopen { row_filter: Some(Some(_)), cursor: CursorKind::Query }
    ));
    state.end();
    assert_eq!(state.next_slot().unwrap(), NextRow::EndOfScan);
    assert!(matches!(state.rescan(false, vec![]), RescanPlan::Nothing));
}

#[test]
fn a_scan_that_could_not_begin_is_not_active() {
    let mut state = IcebergScanState::default();
    state.begin(ScanPurpose::Query, filters());
    assert_eq!(state.next_slot().unwrap(), NextRow::EndOfScan);
    assert_eq!(state.modify_scan_context(true), None);
    assert!(matches!(state.rescan(true, vec![]), RescanPlan::Nothing));

    let mut state = IcebergScanState::default();
    state.begin(ScanPurpose::Modify, filters());
    assert_eq!(
        state.bind_modify(ModifyBinding { id: 1 }).unwrap_err(),
        IcebergError::InvariantViolated("Modify scan binding has no scan specification")
    );
    assert!(matches!(state.rescan(true, vec![]), RescanPlan::Nothing));
}

#[test]
fn a_change_reads_once_it_is_bound() {
    let mut state = IcebergScanState::default();
    let first = ModifyBinding { id: 1 };
    assert_eq!(
        state.bind_modify(first).unwrap_err(),
        IcebergError::InvariantViolated("Modify scan binding has no scan specification")
    );
    let plan = state.begin(ScanPurpose::Modify, filters());
    assert!(plan.prepare_mutation_tasks);
    assert!(!plan.open_cursor);
    state.began();
    assert_eq!(state.modify_scan_context(false), None);
    assert_eq!(state.modify_scan_context(true), Some(equal_to("b", 2)));
    assert_eq!(
        state.next_slot().unwrap_err(),
        IcebergError::InvariantViolated("Modify scan executed before outer binding")
    );
    let RescanPlan::Refuse { row_filter, error } = state.rescan(true, vec![equal_to("a", 4)])
    else {
        panic!("an unbound change does not start over");
    };
    assert_eq!(row_filter, Some(Some(equal_to("a", 4))));
    assert_eq!(
        error,
        IcebergError::InvariantViolated("Modify rescan occurred before outer binding")
    );
    assert!(matches!(
        state.rescan(false, vec![]),
        RescanPlan::Refuse { row_filter: None, .. }
    ));
    state.bind_modify(first).unwrap();
    state.bind_modify(first).unwrap();
    assert_eq!(
        state.bind_modify(ModifyBinding { id: 2 }).unwrap_err(),
        IcebergError::InvariantViolated("Modify scan was bound to two relation states")
    );
    // A cursor that could not be opened is asked for again.
    for _ in 0..2 {
        assert_eq!(
            state.next_slot().unwrap(),
            NextRow::OpenThenEmit(CursorKind::Mutation(first))
        );
    }
    state.cursor_opened();
    assert_eq!(state.next_slot().unwrap(), NextRow::Emit);
    assert!(matches!(
        state.rescan(false, vec![]),
        RescanPlan::Reopen { row_filter: None, cursor: CursorKind::Mutation(_) }
    ));
}

#[test]
fn the_scan_serves_relations_of_its_access_method() {
    let relation = b'r';
    let matview = b'm';
    let view = b'v';
    let supports = IcebergCustomScanProvider::supports_relation;
    for kind in [relation, matview, RELKIND_TOASTVALUE] {
        assert!(supports(true, kind, 7, Some(7)));
    }
    assert!(!supports(true, view, 7, Some(7)));
    assert!(!supports(true, RELKIND_PARTITIONED_TABLE, 7, Some(7)));
    assert!(!supports(false, relation, 7, Some(7)));
    assert!(!supports(true, relation, 7, Some(8)));
    assert!(!supports(true, relation, 7, None));
    let modifies = IcebergCustomScanProvider::supports_modify_target;
    assert!(modifies(true, relation, 7, Some(7)));
    assert!(modifies(true, RELKIND_PARTITIONED_TABLE, 7, Some(7)));
    assert!(!modifies(true, matview, 7, Some(7)));
    assert!(!modifies(true, relation, 7, None));
    assert!(IcebergCustomScanProvider::offers_path(ScanPurpose::Modify, false));
    assert!(IcebergCustomScanProvider::offers_path(ScanPurpose::Query, true));
    assert!(!IcebergCustomScanProvider::offers_path(ScanPurpose::Query, false));
    assert_eq!(
        CustomScanError::Internal("x".to_owned()).sql_error_code(),
        PgSqlErrorCode::ERRCODE_INTERNAL_ERROR
    );
}

#[test]
fn private_data_reads_back() {
    for oid in [0u32, 1, 1663, 0x7fff_ffff, 0x8000_0000, u32::MAX] {
        let mut writer = PrivateDataWriter::new();
        IcebergPrivateData { tablespace_oid: oid }.encode(&mut writer);
        let cells = writer.into_cells();
        assert_eq!(cells.len(), 1);
        assert_eq!(cells[0], oid as i32);
        let mut reader = PrivateDataReader::new(&cells);
        assert_eq!(IcebergPrivateData::decode(&mut reader).unwrap().tablespace_oid, oid);
        reader.finish().unwrap();
    }
}

#[test]
fn malformed_private_data_is_refused() {
    let empty: Vec<i32> = Vec::new();
    let mut reader = PrivateDataReader::new(&empty);
    assert_eq!(
        IcebergPrivateData::decode(&mut reader).err().unwrap(),
        PrivateDataError::ReadPastEnd { position: 0, len: 0 }
    );
    let long: Vec<i32> = vec![1, 2];
    let mut reader = PrivateDataReader::new(&long);
    IcebergPrivateData::decode(&mut reader).unwrap();
    assert_eq!(
        reader.finish().unwrap_err(),
        PrivateDataError::UnexpectedTrailingCells { read: 1, len: 2 }
    );
}

/// Calls for the next row once. `fetches` are the answers to fetches; the rows
/// that are emitted go to `rows`, unless emission fails.
fn call(
    cursor: &mut IcebergQueryCursor,
    fetches: &mut Vec<Result<Option<usize>, &'static str>>,
    rows: &mut Vec<usize>,
    emission: Result<(), &'static str>,
) -> Result<bool, &'static str> {
    let mut event = CursorEvent::Called;
    loop {
        event = match cursor.next_with(event) {
            CursorAction::Emit { row } => {
                if emission.is_ok() {
                    rows.push(row);
                }
                CursorEvent::Emitted(emission)
            }
            CursorAction::Fetch => CursorEvent::Fetched(fetches.remove(0)),
            CursorAction::Return(result) => return result,
        };
    }
}

#[test]
fn a_cursor_emits_each_row_once() {
    let mut cursor = IcebergQueryCursor::new();
    let mut fetches = vec![Ok(Some(2)), Ok(Some(0)), Ok(Some(0)), Ok(Some(1)), Ok(None), Ok(None)];
    let mut rows = Vec::new();
    for _ in 0..3 {
        assert_eq!(call(&mut cursor, &mut fetches, &mut rows, Ok(())), Ok(true));
    }
    assert_eq!(rows, vec![0, 1, 0]);
    assert_eq!(call(&mut cursor, &mut fetches, &mut rows, Ok(())), Ok(false));
    assert_eq!(call(&mut cursor, &mut fetches, &mut rows, Ok(())), Ok(false));
    assert_eq!(rows, vec![0, 1, 0]);
    assert!(fetches.is_empty());
}

#[test]
fn a_cursor_hands_failures_on_and_tries_again() {
    let mut cursor = IcebergQueryCursor::new();
    let mut fetches = vec![Err("fetch"), Ok(Some(2)), Ok(None)];
    let mut rows = Vec::new();
    assert_eq!(call(&mut cursor, &mut fetches, &mut rows, Ok(())), Err("fetch"));
    assert_eq!(call(&mut cursor, &mut fetches, &mut rows, Ok(())), Ok(true));
    assert_eq!(call(&mut cursor, &mut fetches, &mut rows, Err("emit")), Err("emit"));
    assert_eq!(rows, vec![0]);
    assert_eq!(call(&mut cursor, &mut fetches, &mut rows, Ok(())), Ok(true));
    assert_eq!(rows, vec![0, 1]);
    assert_eq!(call(&mut cursor, &mut fetches, &mut rows, Ok(())), Ok(false));
}

fn task(path: &str, handle: u64) -> FileScanTask {
    FileScanTask { data_file_path: path.to_owned(), handle }
}

#[test]
fn tasks_are_found_by_their_data_file() {
    let tasks =
        PlannedMutationTasks::new(vec![task("a", 1), task("b", 2), task("a", 3), task("c", 4)]);
    assert_eq!(tasks.shared_tasks().len(), 4);
    let of = |path: &str| -> Vec<u64> {
        tasks.tasks_for_path(path).unwrap().iter().map(|t| t.handle).collect()
    };
    assert_eq!(of("a"), vec![1, 3]);
    assert_eq!(of("b"), vec![2]);
    assert_eq!(
        tasks.tasks_for_path("d").unwrap_err(),
        IcebergError::MetadataTracker(
            "cannot find Iceberg scan task metadata for deletion target d".to_owned()
        )
    );
}

#[test]
fn a_projection_keeps_its_fields() {
    let projection =
        Projection::new(vec![ProjectedField::new(3, 0), ProjectedField::new(1, 1)]);
    let got: Vec<(i16, usize)> =
        projection.columns().iter().map(|f| (f.attno, f.destination)).collect();
    assert_eq!(got, vec![(3, 0), (1, 1)]);
}

#[test]
fn the_buffer_setting_is_in_mebibytes() {
    assert_eq!(DEFAULT_MUTATION_BUFFER_FLUSH_MB, 64);
    assert_eq!(mutation_buffer_flush_bytes(DEFAULT_MUTATION_BUFFER_FLUSH_MB), 67_108_864);
    assert_eq!(mutation_buffer_flush_bytes(1), 1_048_576);
}
