use pg_iceberg_am::catalog::action_log::{RowDeltaValidation, TxTableActionLog};
use pg_iceberg_am::catalog::commit::{
    CasOutcome, CleanupCandidates, CommitEvent, CommitStep, LockOutcome, MaterializedTable,
    NextAction, TableCommitCoordinator, TransactionStep, step_failure, table_move,
};
use pg_iceberg_am::catalog::metadata_table::{IcebergMetadata, MaintenanceScheduleUpdate};
use pg_iceberg_am::catalog::schema_evolution::{PreparedSchemaUpdate, SchemaChange};
use pg_iceberg_am::catalog::snapshot_delta::{DataContentType, DataFile};
use pg_iceberg_am::catalog::vacuum::{
    ManifestRewrite, PreparedVacuum, VacuumMetric, VacuumMetricName, VacuumReport,
};
use pg_iceberg_am::error::{IcebergError, IcebergErrorKind, IcebergLiteError};

fn data_file(path: &str) -> DataFile {
    DataFile {
        content: DataContentType::Data,
        file_path: path.to_owned(),
        record_count: 1,
        file_size_in_bytes: 100,
    }
}

fn writes() -> TxTableActionLog {
    let mut log = TxTableActionLog::default();
    log.record_data_files(vec![data_file("a.parquet")]).unwrap();
    log
}

fn vacuum(orphan_older_than_ms: Option<i64>, merge: bool) -> TxTableActionLog {
    let mut log = TxTableActionLog::default();
    log.stage_vacuum(PreparedVacuum {
        rewrite: None,
        manifest_rewrite: if merge {
            Some(ManifestRewrite { min_count_to_merge: 2, target_size_bytes: 10 })
        } else {
            None
        },
        expire_as_of_ms: 5,
        orphan_older_than_ms,
        owned_table_root: "base/5/16384_iceberg".to_owned(),
        report: VacuumReport::new(),
    })
    .unwrap();
    log
}

fn built(location: &str) -> CommitEvent {
    CommitEvent::Materialized(MaterializedTable {
        metadata_location: Some(location.to_owned()),
        base_snapshot_ids: vec![1, 2, 3],
        snapshot_ids: vec![3, 4],
        base_refs: vec!["main".to_owned(), "old".to_owned()],
        refs: vec!["main".to_owned()],
        current_snapshot_id: Some(4),
    })
}

fn at(location: &str) -> CommitEvent {
    CommitEvent::Location(Some(location.to_owned()))
}

fn is_plain(step: &CommitStep) -> bool {
    !step.discard_attempt && !step.promote_attempt && !step.notify_rebase
}

#[test]
fn a_write_commits_in_one_attempt() {
    let log = writes();
    let mut commit = TableCommitCoordinator::new(42, log.commit_plan().unwrap(), 3);
    let step = commit.advance(CommitEvent::Begin);
    assert!(is_plain(&step));
    assert!(matches!(step.next, NextAction::LoadLocation));
    let step = commit.advance(at("v1"));
    assert!(matches!(step.next, NextAction::Materialize { location } if location == "v1"));
    let step = commit.advance(built("v2"));
    assert!(matches!(
        step.next,
        NextAction::CasUpdate { expected, new_location } if expected == "v1" && new_location == "v2"
    ));
    let step = commit.advance(CommitEvent::Cas(CasOutcome::Updated { schedule_advanced: true }));
    assert!(step.promote_attempt);
    assert!(!step.discard_attempt);
    assert!(matches!(
        step.next,
        NextAction::Finish { report: None, schedule_advanced: true, .. }
    ));
    let step = commit.advance(CommitEvent::Begin);
    assert!(matches!(
        step.next,
        NextAction::Fail(IcebergError::InvariantViolated(
            "table commit received an event out of order"
        ))
    ));
}

#[test]
fn a_moved_entry_remembers_where_it_was() {
    let update = table_move("v1", "v2", MaintenanceScheduleUpdate::ScheduleNoLaterThan(9));
    let row = IcebergMetadata::new(42).with_metadata_location("v1".to_owned()).insert(5);
    let plan = IcebergMetadata::cas_update(42, Some("v1"), update, Some(&row)).unwrap();
    assert!(plan.maintenance_deadline_advanced);
    let moved = IcebergMetadata::from_tuple(&plan.replacement.apply(row)).unwrap();
    assert_eq!(moved.metadata_location.as_deref(), Some("v2"));
    assert_eq!(moved.previous_metadata_location.as_deref(), Some("v1"));
    assert_eq!(moved.maintenance_due_at, Some(9));
}

#[test]
fn lost_races_are_retried_up_to_the_limit() {
    let log = writes();
    let mut commit = TableCommitCoordinator::new(42, log.commit_plan().unwrap(), 2);
    let mut attempts = 0;
    let mut step = commit.advance(CommitEvent::Begin);
    loop {
        match step.next {
            NextAction::LoadLocation => {
                attempts += 1;
                step = commit.advance(at("v1"));
            }
            NextAction::Materialize { location } => {
                // Every attempt commits the plan that was handed in.
                let steps = commit.plan().attempt_steps(&location);
                let [TransactionStep::SnapshotDelta { delta: Some(delta), truncate_base: false }] =
                    steps.as_slice()
                else {
                    panic!("unexpected {steps:?}");
                };
                assert_eq!(delta.created_file_paths(), vec!["a.parquet"]);
                assert_eq!(commit.plan().expected_metadata_location, None);
                step = commit.advance(built("v2"));
            }
            NextAction::CasUpdate { .. } => {
                step = commit.advance(CommitEvent::Cas(CasOutcome::Conflict));
                assert!(step.discard_attempt);
                assert!(step.notify_rebase);
            }
            NextAction::Fail(error) => {
                assert_eq!(
                    error,
                    IcebergError::MetadataCommitConflict { relid: 42, max_retries: 2 }
                );
                break;
            }
            other => panic!("unexpected {other:?}"),
        }
    }
    assert_eq!(attempts, 3);
}

#[test]
fn a_truncation_needs_the_location_it_saw() {
    let mut log = TxTableActionLog::default();
    log.record_data_files(vec![data_file("gone.parquet")]).unwrap();
    log.stage_truncate("v1".to_owned());
    let mut commit = TableCommitCoordinator::new(42, log.commit_plan().unwrap(), 3);
    commit.advance(CommitEvent::Begin);
    let step = commit.advance(at("v2"));
    assert!(matches!(
        step.next,
        NextAction::Fail(IcebergError::TruncateCommitConflict { relid: 42 })
    ));

    let mut commit = TableCommitCoordinator::new(42, log.commit_plan().unwrap(), 3);
    commit.advance(CommitEvent::Begin);
    commit.advance(at("v1"));
    commit.advance(built("v2"));
    let step = commit.advance(CommitEvent::Cas(CasOutcome::Updated { schedule_advanced: false }));
    match step.next {
        NextAction::Finish { canceled_paths, .. } => {
            assert_eq!(canceled_paths, vec!["gone.parquet".to_owned()]);
        }
        other => panic!("unexpected {other:?}"),
    }
}

#[test]
fn a_table_without_a_location_cannot_commit() {
    let log = writes();
    let mut commit = TableCommitCoordinator::new(42, log.commit_plan().unwrap(), 0);
    commit.advance(CommitEvent::Begin);
    let step = commit.advance(CommitEvent::Location(None));
    assert!(matches!(step.next, NextAction::Fail(IcebergError::MetadataLocationNull)));
}

#[test]
fn failures_of_the_catalog_end_the_commit() {
    let log = writes();
    let mut commit = TableCommitCoordinator::new(42, log.commit_plan().unwrap(), 3);
    commit.advance(CommitEvent::Begin);
    commit.advance(at("v1"));
    commit.advance(built("v2"));
    let step = commit.advance(CommitEvent::Cas(CasOutcome::Failed(
        IcebergError::MetadataCatalogNotFound(42),
    )));
    assert!(matches!(
        step.next,
        NextAction::Fail(IcebergError::MetadataCatalogNotFound(42))
    ));
}

#[test]
fn an_unmoved_table_is_left_alone() {
    let log = writes();
    let mut commit = TableCommitCoordinator::new(42, log.commit_plan().unwrap(), 3);
    commit.advance(CommitEvent::Begin);
    commit.advance(at("v1"));
    let step = commit.advance(built("v1"));
    assert!(step.discard_attempt);
    assert!(!step.promote_attempt);
    assert!(matches!(
        step.next,
        NextAction::Finish { report: None, schedule_advanced: false, .. }
    ));
}

fn found(expired: &[&str], orphans: &[&str]) -> CommitEvent {
    CommitEvent::CleanupPlanned(CleanupCandidates {
        expired_paths: expired.iter().map(|p| p.to_string()).collect(),
        data: 1,
        delete: 2,
        manifest: 3,
        manifest_list: 4,
        statistics: 5,
        metadata: 6,
        orphan_paths: orphans.iter().map(|p| p.to_string()).collect(),
        planning_ms: 7,
    })
}

fn value(report: &VacuumReport, name: VacuumMetricName) -> Option<u64> {
    report.metrics.iter().find(|m| m.name == name).map(|m| m.value)
}

#[test]
fn a_maintenance_run_reports_what_it_did() {
    let log = vacuum(Some(9), true);
    let mut commit = TableCommitCoordinator::new(42, log.commit_plan().unwrap(), 3);
    commit.advance(CommitEvent::Begin);
    commit.advance(at("v1"));
    let step = commit.advance(built("v2"));
    assert!(matches!(step.next, NextAction::LoadManifests));
    let step = commit.advance(CommitEvent::Manifests(vec![4, 3, 4]));
    assert!(matches!(
        step.next,
        NextAction::PlanCleanup { scan: true, orphan_older_than_ms: Some(9) }
    ));
    let step = commit.advance(found(&["b", "a", "a"], &["c", "b"]));
    assert!(matches!(step.next, NextAction::CasUpdate { .. }));
    let step = commit.advance(CommitEvent::Cas(CasOutcome::Updated { schedule_advanced: false }));
    assert!(step.promote_attempt);
    match step.next {
        NextAction::RegisterCleanup { paths } => assert_eq!(paths, vec!["a", "b", "c"]),
        other => panic!("unexpected {other:?}"),
    }
    let step = commit.advance(CommitEvent::CleanupRegistered(vec![VacuumMetric {
        name: VacuumMetricName::CleanupRegistered,
        value: 3,
    }]));
    assert!(matches!(step.next, NextAction::ReadClock));
    let step = commit.advance(CommitEvent::Elapsed(11));
    let report = match step.next {
        NextAction::Finish { report: Some(report), .. } => report,
        other => panic!("unexpected {other:?}"),
    };
    assert_eq!(report.snapshots_expired, 2);
    assert_eq!(report.manifests_rewritten, 2);
    assert_eq!(report.cas_retries, 0);
    assert_eq!(report.objects_scheduled_for_deletion, 3);
    assert_eq!(value(&report, VacuumMetricName::ExpiredRefs), Some(1));
    assert_eq!(value(&report, VacuumMetricName::ExpirationUnreachableObjects), Some(2));
    assert_eq!(value(&report, VacuumMetricName::UnreachableStatistics), Some(5));
    assert_eq!(value(&report, VacuumMetricName::OrphanCandidates), Some(2));
    assert_eq!(value(&report, VacuumMetricName::CleanupPlanningMs), Some(7));
    assert_eq!(value(&report, VacuumMetricName::CleanupRegistered), Some(3));
    assert_eq!(value(&report, VacuumMetricName::CommitMs), Some(11));
    assert_eq!(VacuumMetricName::CommitMs.as_str(), "commit_ms");
}

#[test]
fn orphans_of_an_unmoved_table_are_deleted_under_a_lock() {
    let log = vacuum(Some(9), false);
    let mut commit = TableCommitCoordinator::new(42, log.commit_plan().unwrap(), 3);
    commit.advance(CommitEvent::Begin);
    commit.advance(at("v1"));
    commit.advance(built("v1"));
    let step = commit.advance(found(&[], &["o"]));
    assert!(step.discard_attempt);
    assert!(matches!(step.next, NextAction::LockAndValidate { location } if location == "v1"));
    let step = commit.advance(CommitEvent::Lock(LockOutcome::Conflict));
    assert!(step.notify_rebase);
    assert!(matches!(step.next, NextAction::LoadLocation));
    assert_eq!(commit.retries(), 2);

    commit.advance(at("v3"));
    commit.advance(built("v3"));
    commit.advance(found(&[], &["o"]));
    let step = commit.advance(CommitEvent::Lock(LockOutcome::Locked));
    assert!(matches!(step.next, NextAction::RegisterCleanup { paths } if paths == vec!["o"]));
    commit.advance(CommitEvent::CleanupRegistered(vec![]));
    match commit.advance(CommitEvent::Elapsed(1)).next {
        NextAction::Finish { report: Some(report), .. } => {
            assert_eq!(report.cas_retries, 1);
            assert_eq!(report.objects_scheduled_for_deletion, 1);
            assert_eq!(value(&report, VacuumMetricName::ValidationConflicts), Some(1));
        }
        other => panic!("unexpected {other:?}"),
    }
}

#[test]
fn an_unmoved_table_without_orphan_cleanup_is_not_searched() {
    let log = vacuum(None, false);
    let mut commit = TableCommitCoordinator::new(42, log.commit_plan().unwrap(), 3);
    commit.advance(CommitEvent::Begin);
    commit.advance(at("v1"));
    let step = commit.advance(built("v1"));
    assert!(matches!(
        step.next,
        NextAction::PlanCleanup { scan: false, orphan_older_than_ms: None }
    ));
    // What a search that was not asked for brings is left out.
    let step = commit.advance(found(&["x"], &["y"]));
    assert!(step.discard_attempt);
    assert!(matches!(step.next, NextAction::ReadClock));
    match commit.advance(CommitEvent::Elapsed(2)).next {
        NextAction::Finish { report: Some(report), .. } => {
            assert_eq!(value(&report, VacuumMetricName::UnreachableDataFiles), Some(0));
            assert_eq!(value(&report, VacuumMetricName::OrphanCandidates), None);
            assert_eq!(value(&report, VacuumMetricName::CleanupPlanningMs), Some(7));
            assert_eq!(report.objects_scheduled_for_deletion, 0);
        }
        other => panic!("unexpected {other:?}"),
    }
}

#[test]
fn merged_manifests_need_a_current_snapshot() {
    let log = vacuum(None, true);
    let mut commit = TableCommitCoordinator::new(42, log.commit_plan().unwrap(), 3);
    commit.advance(CommitEvent::Begin);
    commit.advance(at("v1"));
    let step = commit.advance(CommitEvent::Materialized(MaterializedTable {
        metadata_location: Some("v2".to_owned()),
        base_snapshot_ids: vec![1],
        snapshot_ids: vec![1, 2],
        base_refs: vec![],
        refs: vec![],
        current_snapshot_id: None,
    }));
    assert!(matches!(
        step.next,
        NextAction::Fail(IcebergError::InvariantViolated(
            "manifest rewrite committed without a current snapshot"
        ))
    ));
}

fn schema_change() -> PreparedSchemaUpdate {
    PreparedSchemaUpdate { changes: vec![SchemaChange::DeleteColumn { column: "a".to_owned() }] }
}

#[test]
fn actions_become_steps_in_order() {
    let mut log = TxTableActionLog::default();
    log.record_data_files(vec![data_file("a.parquet")]).unwrap();
    log.stage_schema(schema_change());
    log.record_validation(RowDeltaValidation { handle: 3 });
    log.record_data_files(vec![data_file("b.parquet")]).unwrap();
    let plan = log.commit_plan().unwrap();
    let steps = plan.attempt_steps("loc/metadata.json");
    let names: Vec<&str> = steps
        .iter()
        .map(|step| match step {
            TransactionStep::EnsureTableRoot => "root",
            TransactionStep::EnsurePath(_) => "path",
            TransactionStep::ValidateSchema(_) => "validate-schema",
            TransactionStep::AdvanceSchema(_) => "advance-schema",
            TransactionStep::ApplySchema(_) => "apply-schema",
            TransactionStep::SnapshotDelta { truncate_base: false, .. } => "delta",
            TransactionStep::RowDelta { validations, .. } if validations.len() == 1 => "row-delta",
            _ => "other",
        })
        .collect();
    let deltas: Vec<&&str> =
        names.iter().filter(|n| **n == "delta" || **n == "row-delta").collect();
    assert_eq!(deltas, vec![&"delta", &"row-delta"]);
    assert!(names.contains(&"validate-schema"));
    assert!(names.contains(&"apply-schema"));
    assert!(!names.contains(&"other"));
    assert!(plan.closing_steps("loc/v2.json").is_empty());

    let log = vacuum(None, false);
    let plan = log.commit_plan().unwrap();
    assert!(matches!(
        plan.closing_steps("loc/v2.json").as_slice(),
        [TransactionStep::EnsureTableRoot, TransactionStep::EnsurePath("loc/v2.json")]
    ));
    assert!(matches!(
        plan.attempt_steps("loc/v1.json").as_slice(),
        [
            TransactionStep::EnsureTableRoot,
            TransactionStep::EnsurePath("loc/v1.json"),
            TransactionStep::ExpireSnapshots { as_of_ms: 5 },
        ]
    ));
}

#[test]
fn refused_steps_keep_their_meaning() {
    let update = schema_change();
    let refusal = || IcebergLiteError {
        kind: IcebergErrorKind::DataInvalid,
        message: "no such column".to_owned(),
    };
    let validating = step_failure(&TransactionStep::ValidateSchema(&update), refusal());
    let applying = step_failure(&TransactionStep::ApplySchema(&update), refusal());
    assert_ne!(validating, applying);
    assert_eq!(applying, IcebergError::IcebergLiteError(refusal()));
}
