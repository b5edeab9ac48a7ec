use pg_iceberg_am::catalog::automatic_maintenance::{
    AutomaticMaintenanceCatalog, AutomaticMaintenanceOutcome, BoundedErrorText, CandidateSet,
    ClassRow, CONSECUTIVE_FAILURES, LAST_ERROR, LAST_OUTCOME, LAST_SUCCESS_AT, MAX_ERROR_BYTES,
    NEXT_ATTEMPT_AT, RELKIND_MATVIEW, RELKIND_RELATION, SchedulingCandidate, StateChange,
    StateRecord, fairness_key,
};
use pg_iceberg_am::catalog::catalog_row::CatalogRow;
use pg_iceberg_am::error::IcebergError;

#[test]
fn candidate_set_retains_only_the_lowest_ordered_items() {
    let mut candidates = CandidateSet::new(2);
    for (last_attempt_at, fairness_key, relid) in
        [(Some(30), 0, 3), (None, 20, 2), (Some(10), 0, 4), (None, 10, 1)]
    {
        candidates.consider(SchedulingCandidate { last_attempt_at, fairness_key, relid });
    }

    assert_eq!(candidates.into_relations(), vec![1, 2]);
}

#[test]
fn bounded_error_preserves_utf8_boundaries() {
    let error = "界".repeat(MAX_ERROR_BYTES);
    let bounded = BoundedErrorText::new(&error);

    assert!(bounded.as_str().len() <= MAX_ERROR_BYTES);
    assert!(error.starts_with(bounded.as_str()));
}

#[test]
fn bounded_error_keeps_as_much_as_fits() {
    let error = "界".repeat(MAX_ERROR_BYTES);
    // Three bytes each: 682 characters take 2046 of the 2048 bytes.
    assert_eq!(BoundedErrorText::new(&error).as_str().len(), 2046);
    let short = "disk full";
    assert_eq!(BoundedErrorText::new(short).as_str(), short);
    let exact = "x".repeat(MAX_ERROR_BYTES);
    assert_eq!(BoundedErrorText::new(&exact).as_str(), exact);
    let longer = "x".repeat(MAX_ERROR_BYTES + 1);
    assert_eq!(BoundedErrorText::new(&longer).as_str(), exact);
}

#[test]
fn candidate_set_without_room_keeps_nothing() {
    let mut candidates = CandidateSet::new(0);
    candidates.consider(SchedulingCandidate { last_attempt_at: None, fairness_key: 1, relid: 1 });
    assert!(candidates.into_relations().is_empty());
}

#[test]
fn candidates_are_ordered_by_attempt_then_key_then_table() {
    let mut candidates = CandidateSet::new(10);
    for (last_attempt_at, fairness_key, relid) in [
        (Some(5), 1, 9),
        (Some(5), 1, 8),
        (Some(-5), 9, 7),
        (None, 2, 6),
        (None, 1, 5),
    ] {
        candidates.consider(SchedulingCandidate { last_attempt_at, fairness_key, relid });
    }
    assert_eq!(candidates.into_relations(), vec![5, 6, 7, 8, 9]);
}

#[test]
fn fairness_key_mixes_relation_and_seed() {
    let value = 42u64 ^ 7;
    let expected = value
        .wrapping_add(0x9e37_79b9_7f4a_7c15)
        .wrapping_mul(0xbf58_476d_1ce4_e5b9)
        ^ value.rotate_left(23);
    assert_eq!(fairness_key(42, 7), expected);
    assert_ne!(fairness_key(42, 7), fairness_key(42, 8));
}

#[test]
fn outcomes_are_labelled() {
    assert_eq!(AutomaticMaintenanceOutcome::LockSkipped.label(), "lock-skipped");
    assert_eq!(AutomaticMaintenanceOutcome::NoWork.label(), "not-eligible");
    assert_eq!(AutomaticMaintenanceOutcome::Maintained.label(), "maintained");
    assert!(!AutomaticMaintenanceOutcome::LockSkipped.completed());
    assert!(AutomaticMaintenanceOutcome::NoWork.completed());
    assert!(AutomaticMaintenanceOutcome::Maintained.completed());
}

fn table(oid: u32) -> ClassRow {
    ClassRow { oid, relam: 9000, relkind: RELKIND_RELATION }
}

fn state(relid: u32, next_attempt_at: i64, last_attempt_at: i64) -> CatalogRow {
    StateRecord {
        relid,
        consecutive_failures: 0,
        next_attempt_at,
        last_attempt_at,
        last_success_at: None,
        last_outcome: "maintained",
        last_error: None,
    }
    .encode(7)
    .unwrap()
}

#[test]
fn the_order_of_arrival_does_not_matter() {
    let candidate = |last_attempt_at: Option<i64>, fairness_key: u64, relid: u32| {
        SchedulingCandidate { last_attempt_at, fairness_key, relid }
    };
    let offered = [
        candidate(Some(5), 1, 10),
        candidate(None, 9, 11),
        candidate(Some(5), 0, 12),
        candidate(Some(1), 7, 13),
        candidate(None, 9, 11),
    ];
    for limit in 0..7usize {
        let mut forward = CandidateSet::new(limit);
        let mut backward = CandidateSet::new(limit);
        for i in 0..offered.len() {
            forward.consider(offered[i]);
            backward.consider(offered[offered.len() - 1 - i]);
        }
        let forward = forward.into_relations();
        assert_eq!(forward, [11, 11, 13, 12, 10][..limit.min(5)].to_vec());
        assert_eq!(forward, backward.into_relations());
    }
}

#[test]
fn eligible_relations_orders_and_sweeps() {
    let classes = vec![
        table(1),
        table(2),
        table(3),
        table(4),
        ClassRow { oid: 5, relam: 2, relkind: RELKIND_RELATION },
        ClassRow { oid: 6, relam: 9000, relkind: RELKIND_MATVIEW },
    ];
    let rows = vec![state(2, 100, 50), state(3, 101, 10), state(99, 0, 0), state(4, 100, 20)];
    let found =
        AutomaticMaintenanceCatalog::eligible_relations(Some(9000), &classes, &rows, 10, 100, 1);
    // Never tried first, then longest ago; table 3 has to wait.
    assert_eq!(found.relations.unwrap(), vec![1, 4, 2]);
    assert_eq!(found.stale_rows, vec![2]);

    let limited =
        AutomaticMaintenanceCatalog::eligible_relations(Some(9000), &classes, &rows, 2, 100, 1);
    assert_eq!(limited.relations.unwrap(), vec![1, 4]);

    let none = AutomaticMaintenanceCatalog::eligible_relations(None, &classes, &rows, 2, 100, 1);
    assert!(none.relations.unwrap().is_empty() && none.stale_rows.is_empty());
}

#[test]
fn eligible_relations_rejects_broken_rows() {
    let classes = vec![table(1)];
    let mut broken = state(1, 1, 1);
    broken.cells[(NEXT_ATTEMPT_AT - 1) as usize] = None;
    let refused = AutomaticMaintenanceCatalog::eligible_relations(
        Some(9000),
        &classes,
        &vec![state(99, 0, 0), broken, state(98, 0, 0)],
        1,
        0,
        0,
    );
    // The stale row before the broken one is swept, the one after it is not.
    assert_eq!(refused.stale_rows, vec![0]);
    assert_eq!(
        refused.relations.unwrap_err(),
        IcebergError::AutomaticMaintenanceCatalogInvalidRecord(
            "next_attempt_at is null or undecodable".to_owned()
        ),
    );

    let mut unnamed = state(1, 1, 1);
    unnamed.cells[0] = None;
    let error = AutomaticMaintenanceCatalog::eligible_relations(
        Some(9000),
        &classes,
        &vec![unnamed],
        1,
        0,
        0,
    )
    .relations
    .unwrap_err();
    assert_eq!(
        error,
        IcebergError::AutomaticMaintenanceCatalogInvalidRecord(
            "relid is null or undecodable".to_owned()
        ),
    );
}

#[test]
fn records_keep_the_last_success() {
    let succeeded = AutomaticMaintenanceCatalog::record_success(
        1,
        AutomaticMaintenanceOutcome::Maintained,
        40,
        90,
        None,
    );
    assert_eq!(succeeded.last_success_at, Some(40));
    let row = succeeded.encode(7).unwrap();

    let skipped = AutomaticMaintenanceCatalog::record_success(
        1,
        AutomaticMaintenanceOutcome::LockSkipped,
        50,
        100,
        Some(&row),
    );
    assert_eq!(skipped.last_success_at, Some(40));
    assert_eq!(skipped.consecutive_failures, 0);

    let failed =
        AutomaticMaintenanceCatalog::record_failure(1, u32::MAX, "disk full", 60, 70, Some(&row));
    assert_eq!(failed.last_success_at, Some(40));
    assert_eq!(failed.consecutive_failures, i32::MAX);
    let row = failed.encode(7).unwrap();
    assert_eq!(row.int4(CONSECUTIVE_FAILURES), Some(i32::MAX));
    assert_eq!(row.timestamptz(LAST_SUCCESS_AT), Some(40));
    assert_eq!(row.text(LAST_OUTCOME), Some("failed".to_owned()));
    assert_eq!(row.text(LAST_ERROR), Some("disk full".to_owned()));
    assert_eq!(
        AutomaticMaintenanceCatalog::consecutive_failures(Some(&row)).unwrap(),
        i32::MAX as u32
    );
    assert_eq!(AutomaticMaintenanceCatalog::consecutive_failures(None).unwrap(), 0);
}

#[test]
fn rows_of_lost_tables_are_deleted() {
    let record = AutomaticMaintenanceCatalog::record_success(
        1,
        AutomaticMaintenanceOutcome::NoWork,
        1,
        2,
        None,
    );
    assert!(matches!(
        AutomaticMaintenanceCatalog::upsert(&record, false, true, 7),
        Ok(StateChange::Delete)
    ));
    assert!(matches!(
        AutomaticMaintenanceCatalog::upsert(&record, false, false, 7),
        Ok(StateChange::Nothing)
    ));
    assert!(matches!(
        AutomaticMaintenanceCatalog::upsert(&record, true, true, 7),
        Ok(StateChange::Update(_))
    ));
    assert!(matches!(
        AutomaticMaintenanceCatalog::upsert(&record, true, false, 7),
        Ok(StateChange::Insert(_))
    ));
    assert_eq!(
        AutomaticMaintenanceCatalog::upsert(&record, true, false, 6).unwrap_err(),
        IcebergError::AutomaticMaintenanceCatalogInvalidRecord(
            "expected 7 columns, found 6".to_owned()
        ),
    );
    assert!(AutomaticMaintenanceCatalog::is_live_iceberg_relation(b'm', 9000, Some(9000)));
    assert!(!AutomaticMaintenanceCatalog::is_live_iceberg_relation(b'i', 9000, Some(9000)));
    assert!(!AutomaticMaintenanceCatalog::is_live_iceberg_relation(b'r', 9000, None));
}

#[test]
fn state_table_must_be_complete() {
    assert!(AutomaticMaintenanceCatalog::locate(1, 2, 0).is_none());
    let located = AutomaticMaintenanceCatalog::locate(1, 2, 3);
    assert!(AutomaticMaintenanceCatalog::open(located, 7).is_ok());
    assert_eq!(
        AutomaticMaintenanceCatalog::open(located, 8).unwrap_err(),
        IcebergError::AutomaticMaintenanceCatalogInvalidRecord(
            "expected 7 columns, found 8".to_owned()
        ),
    );
    assert_eq!(
        AutomaticMaintenanceCatalog::open(None, 7).unwrap_err(),
        IcebergError::AutomaticMaintenanceCatalogInvalidRecord(
            "automatic maintenance catalog is unavailable".to_owned()
        ),
    );
}
