use std::rc::Rc;
use std::sync::Arc;

use pg_iceberg_am::catalog::action_log::{EffectiveCommitAction, RowDeltaValidation, TxTableActionLog};
use pg_iceberg_am::catalog::snapshot_delta::{
    DataContentType, DataFile, DeleteFileIdentity, SnapshotDelta,
};
use pg_iceberg_am::error::{IcebergError, IcebergErrorKind};

fn data_file(path: &str) -> DataFile {
    DataFile {
        content: DataContentType::Data,
        file_path: path.to_owned(),
        record_count: 1,
        file_size_in_bytes: 100,
    }
}

fn delete_file(path: &str) -> DataFile {
    DataFile {
        content: DataContentType::PositionDeletes,
        file_path: path.to_owned(),
        record_count: 1,
        file_size_in_bytes: 10,
    }
}

#[test]
fn combined_delta_keeps_only_data_after_last_truncate() {
    let mut actions = TxTableActionLog::default();
    actions.record_data_files(vec![data_file("before.parquet")]).unwrap();
    actions.stage_truncate("metadata-v1.json".to_owned());
    actions.record_data_files(vec![data_file("after.parquet")]).unwrap();

    let delta = actions.combined_delta().unwrap().unwrap();
    assert!(delta.truncates_base());
    assert_eq!(
        delta
            .added_data_files()
            .iter()
            .map(|file| file.file_path.as_str())
            .collect::<Vec<_>>(),
        vec!["after.parquet"]
    );
    assert_eq!(
        actions.commit_plan().unwrap().canceled_created_paths,
        vec!["before.parquet".to_owned()]
    );
    let plan = actions.commit_plan().unwrap();
    assert!(matches!(
        plan.actions.as_slice(),
        [EffectiveCommitAction::Data { truncate_base: true, .. }]
    ));
}

#[test]
fn commit_plan_preserves_data_only_epochs_without_truncate() {
    let mut actions = TxTableActionLog::default();
    actions.record_data_files(vec![data_file("data.parquet")]).unwrap();

    let plan = actions.commit_plan().unwrap();
    assert!(plan.expected_metadata_location.is_none());
    assert!(plan.canceled_created_paths.is_empty());
    assert!(matches!(
        plan.actions.as_slice(),
        [EffectiveCommitAction::Data { truncate_base: false, .. }]
    ));
}

#[test]
fn commit_plan_replaces_pre_truncate_data_with_truncate_only() {
    let mut actions = TxTableActionLog::default();
    actions.record_data_files(vec![data_file("discarded.parquet")]).unwrap();
    actions.stage_truncate("metadata-v1.json".to_owned());

    let plan = actions.commit_plan().unwrap();
    assert_eq!(plan.expected_metadata_location, Some("metadata-v1.json"));
    assert_eq!(plan.canceled_created_paths, vec!["discarded.parquet".to_owned()]);
    assert!(matches!(plan.actions.as_slice(), [EffectiveCommitAction::TruncateOnly]));
}

#[test]
fn combined_delta_is_shared_until_the_action_log_changes() {
    let mut actions = TxTableActionLog::default();
    actions.record_data_files(vec![data_file("first.parquet")]).unwrap();

    let first = actions.combined_delta().unwrap().unwrap();
    let cached = actions.combined_delta().unwrap().unwrap();
    assert!(Arc::ptr_eq(&first, &cached));

    actions.record_data_files(vec![data_file("second.parquet")]).unwrap();
    let rebuilt = actions.combined_delta().unwrap().unwrap();
    assert!(!Arc::ptr_eq(&first, &rebuilt));
    assert!(rebuilt.has_live_added_data_file_path("second.parquet"));
}

#[test]
fn populated_combined_delta_cache_is_invalidated_by_savepoint_rollback() {
    let mut actions = TxTableActionLog::default();
    actions.record_data_files(vec![data_file("before.parquet")]).unwrap();
    let marker = actions.mark();
    let before = actions.combined_delta().unwrap().unwrap();

    actions.stage_truncate("metadata-v1.json".to_owned());
    let truncated = actions.combined_delta().unwrap().unwrap();
    assert!(truncated.truncates_base());
    assert!(!Arc::ptr_eq(&before, &truncated));

    actions.truncate(marker);
    let restored = actions.combined_delta().unwrap().unwrap();
    assert!(!restored.truncates_base());
    assert!(restored.has_live_added_data_file_path("before.parquet"));
    assert!(!Arc::ptr_eq(&truncated, &restored));
}

#[test]
fn shared_action_log_snapshot_is_copy_on_write() {
    let mut current = Rc::new(TxTableActionLog::default());
    Rc::make_mut(&mut current)
        .record_data_files(vec![data_file("before.parquet")])
        .unwrap();
    let mut commit_snapshot = Rc::clone(&current);

    Rc::make_mut(&mut current)
        .record_data_files(vec![data_file("after.parquet")])
        .unwrap();

    let snapshotted_delta =
        Rc::make_mut(&mut commit_snapshot).combined_delta().unwrap().unwrap();
    assert!(snapshotted_delta.has_live_added_data_file_path("before.parquet"));
    assert!(!snapshotted_delta.has_live_added_data_file_path("after.parquet"));
    let current_delta = Rc::make_mut(&mut current).combined_delta().unwrap().unwrap();
    assert!(current_delta.has_live_added_data_file_path("after.parquet"));
}

#[test]
fn last_truncate_controls_baseline_and_canceled_regions() {
    let mut actions = TxTableActionLog::default();
    actions.stage_truncate("metadata-v1.json".to_owned());
    actions.record_data_files(vec![data_file("middle.parquet")]).unwrap();
    actions.stage_truncate("metadata-v2.json".to_owned());
    actions.record_data_files(vec![data_file("after.parquet")]).unwrap();

    let (index, truncate) = actions.last_truncate().unwrap();
    assert_eq!(index, 2);
    assert_eq!(truncate.expected_metadata_location, "metadata-v2.json");
    assert_eq!(
        actions.commit_plan().unwrap().canceled_created_paths,
        vec!["middle.parquet".to_owned()]
    );
}

#[test]
fn action_log_marker_rolls_back_truncate_and_later_data() {
    let mut actions = TxTableActionLog::default();
    actions.record_data_files(vec![data_file("before.parquet")]).unwrap();
    let marker = actions.mark();
    actions.stage_truncate("metadata-v1.json".to_owned());
    actions.record_data_files(vec![data_file("after.parquet")]).unwrap();

    actions.truncate(marker);

    assert!(actions.last_truncate().is_none());
    let delta = actions.combined_delta().unwrap().unwrap();
    assert!(!delta.truncates_base());
    assert!(delta.has_live_added_data_file_path("before.parquet"));
    assert!(!delta.has_live_added_data_file_path("after.parquet"));
}

#[test]
fn canceled_paths_include_local_removes_after_truncate() {
    let mut actions = TxTableActionLog::default();
    actions.stage_truncate("metadata-v1.json".to_owned());
    actions.record_data_files(vec![data_file("after.parquet")]).unwrap();
    actions.record_remove_data_file("after.parquet".to_owned()).unwrap();

    assert_eq!(
        actions.commit_plan().unwrap().canceled_created_paths,
        vec!["after.parquet".to_owned()]
    );
}

#[test]
fn drop_suppresses_commit_but_marker_can_restore_actions() {
    let mut actions = TxTableActionLog::default();
    actions.stage_truncate("metadata-v1.json".to_owned());
    let marker = actions.mark();
    actions.stage_drop();

    assert!(actions.is_dropped());
    assert!(actions.combined_delta().unwrap().is_none());

    actions.truncate(marker);
    assert!(!actions.is_dropped());
    assert!(actions.combined_delta().unwrap().unwrap().truncates_base());
}

#[test]
fn an_empty_log_stages_nothing() {
    let mut actions = TxTableActionLog::default();
    assert!(actions.is_empty());
    assert!(actions.combined_delta().unwrap().is_none());
    actions.record_data_files(vec![]).unwrap();
    assert!(actions.is_empty());
    actions.record_validation(RowDeltaValidation { handle: 3 });
    assert!(!actions.is_empty());
}

#[test]
fn delete_files_are_not_data_files() {
    let mut actions = TxTableActionLog::default();
    let error = actions.record_data_files(vec![delete_file("d.parquet")]).unwrap_err();
    assert!(matches!(
        error,
        IcebergError::IcebergLiteError(source) if source.kind == IcebergErrorKind::DataInvalid
    ));
}

#[test]
fn delta_statistics_count_live_files() {
    let mut delta = SnapshotDelta::new();
    delta.add_data_file(data_file("a.parquet")).unwrap();
    delta.add_data_file(data_file("b.parquet")).unwrap();
    delta.remove_data_file("a.parquet".to_owned());
    delta.remove_data_file("base.parquet".to_owned());
    delta.add_position_delete_file(delete_file("d.parquet"), vec!["b.parquet".to_owned()]).unwrap();
    let stats = delta.stats();
    assert!(!stats.truncates_base);
    assert_eq!(stats.added_data_records, 1);
    assert_eq!(stats.added_data_file_bytes, 100);
    assert_eq!(stats.added_delete_file_bytes, 10);
    assert!(delta.has_removed_data_path("base.parquet"));
    assert!(delta.has_live_added_data_file_path("b.parquet"));
    assert!(!delta.has_live_added_data_file_path("a.parquet"));

    delta.truncate_table();
    delta.remove_delete_file(DeleteFileIdentity { file_path: "x.parquet".to_owned() });
    assert!(delta.truncates_base());
    assert!(delta.added_data_files().is_empty());
}

#[test]
fn cutting_a_delta_back_restores_it() {
    let mut delta = SnapshotDelta::new();
    delta.add_data_file(data_file("a.parquet")).unwrap();
    let before = delta.clone();
    let marker = delta.mark();
    delta.truncate_table();
    delta.add_data_file(data_file("b.parquet")).unwrap();
    delta.truncate(marker);
    assert_eq!(delta, before);
}
