//! A prepared maintenance run of one table and its report.

use vstd::prelude::*;

use crate::catalog::snapshot_delta::{DataFile, DeleteFileIdentity};

verus! {

/// Data files that a run replaces, and the files that replace them.
#[derive(Debug, PartialEq, Eq)]
pub struct VacuumRewrite {
    pub starting_snapshot_id: i64,
    pub starting_sequence_number: i64,
    pub input_files: Vec<DataFile>,
    pub output_files: Vec<DataFile>,
    pub materialized_delete_identities: Vec<DeleteFileIdentity>,
}

/// When a run merges manifests, and to which size.
#[derive(Debug, Clone, Copy, PartialEq, Eq, Structural)]
pub struct ManifestRewrite {
    pub min_count_to_merge: u32,
    pub target_size_bytes: u64,
}

/// A figure that a run reports.
#[derive(Debug, Clone, Copy, PartialEq, Eq, Structural)]
pub enum VacuumMetricName {
    ExpiredRefs,
    ValidationConflicts,
    ExpirationUnreachableObjects,
    UnreachableDataFiles,
    UnreachableDeleteFiles,
    UnreachableManifests,
    UnreachableManifestLists,
    UnreachableStatistics,
    UnreachableMetadataFiles,
    OrphanCandidates,
    CleanupPlanningMs,
    CleanupRegistered,
    CommitMs,
}

impl VacuumMetricName {
    /// The name under which the figure is reported.
    pub open spec fn label(self) -> Seq<char> {
        match self {
            VacuumMetricName::ExpiredRefs => "expired_refs"@,
            VacuumMetricName::ValidationConflicts => "validation_conflicts"@,
            VacuumMetricName::ExpirationUnreachableObjects => "expiration_unreachable_objects"@,
            VacuumMetricName::UnreachableDataFiles => "unreachable_data_files"@,
            VacuumMetricName::UnreachableDeleteFiles => "unreachable_delete_files"@,
            VacuumMetricName::UnreachableManifests => "unreachable_manifests"@,
            VacuumMetricName::UnreachableManifestLists => "unreachable_manifest_lists"@,
            VacuumMetricName::UnreachableStatistics => "unreachable_statistics"@,
            VacuumMetricName::UnreachableMetadataFiles => "unreachable_metadata_files"@,
            VacuumMetricName::OrphanCandidates => "orphan_candidates"@,
            VacuumMetricName::CleanupPlanningMs => "cleanup_planning_ms"@,
            VacuumMetricName::CleanupRegistered => "cleanup_registered"@,
            VacuumMetricName::CommitMs => "commit_ms"@,
        }
    }

    /// The name under which the figure is reported.
    pub fn as_str(&self) -> (r: &'static str)
        ensures
            r@ == self.label(),
    {
        match self {
            VacuumMetricName::ExpiredRefs => "expired_refs",
            VacuumMetricName::ValidationConflicts => "validation_conflicts",
            VacuumMetricName::ExpirationUnreachableObjects => "expiration_unreachable_objects",
            VacuumMetricName::UnreachableDataFiles => "unreachable_data_files",
            VacuumMetricName::UnreachableDeleteFiles => "unreachable_delete_files",
            VacuumMetricName::UnreachableManifests => "unreachable_manifests",
            VacuumMetricName::UnreachableManifestLists => "unreachable_manifest_lists",
            VacuumMetricName::UnreachableStatistics => "unreachable_statistics",
            VacuumMetricName::UnreachableMetadataFiles => "unreachable_metadata_files",
            VacuumMetricName::OrphanCandidates => "orphan_candidates",
            VacuumMetricName::CleanupPlanningMs => "cleanup_planning_ms",
            VacuumMetricName::CleanupRegistered => "cleanup_registered",
            VacuumMetricName::CommitMs => "commit_ms",
        }
    }
}

/// A figure and its value.
#[derive(Debug, Clone, Copy, PartialEq, Eq, Structural)]
pub struct VacuumMetric {
    pub name: VacuumMetricName,
    pub value: u64,
}

/// The report of a run.
#[derive(Debug, PartialEq, Eq)]
pub struct VacuumReport {
    pub snapshots_expired: u64,
    pub manifests_rewritten: u64,
    pub cas_retries: u64,
    pub objects_scheduled_for_deletion: u64,
    pub metrics: Vec<VacuumMetric>,
}

/// The counts and figures of a report.
pub struct ReportView {
    pub snapshots_expired: u64,
    pub manifests_rewritten: u64,
    pub cas_retries: u64,
    pub objects_scheduled_for_deletion: u64,
    pub metrics: Seq<VacuumMetric>,
}

impl View for VacuumReport {
    type V = ReportView;

    open spec fn view(&self) -> ReportView {
        ReportView {
            snapshots_expired: self.snapshots_expired,
            manifests_rewritten: self.manifests_rewritten,
            cas_retries: self.cas_retries,
            objects_scheduled_for_deletion: self.objects_scheduled_for_deletion,
            metrics: self.metrics@,
        }
    }
}

impl Clone for VacuumReport {
    fn clone(&self) -> (r: Self)
        ensures
            r@ == self@,
    {
        let metrics = self.metrics.clone();
        assert(metrics@ =~= self.metrics@);
        VacuumReport {
            snapshots_expired: self.snapshots_expired,
            manifests_rewritten: self.manifests_rewritten,
            cas_retries: self.cas_retries,
            objects_scheduled_for_deletion: self.objects_scheduled_for_deletion,
            metrics,
        }
    }
}

impl VacuumReport {
    /// A report without figures.
    pub fn new() -> (r: Self)
        ensures
            r@ == (ReportView {
                snapshots_expired: 0,
                manifests_rewritten: 0,
                cas_retries: 0,
                objects_scheduled_for_deletion: 0,
                metrics: Seq::empty(),
            }),
    {
        VacuumReport {
            snapshots_expired: 0,
            manifests_rewritten: 0,
            cas_retries: 0,
            objects_scheduled_for_deletion: 0,
            metrics: Vec::new(),
        }
    }

    /// Adds a figure.
    pub fn record_metric(&mut self, name: VacuumMetricName, value: u64)
        ensures
            final(self)@ == (ReportView {
                metrics: old(self)@.metrics.push((VacuumMetric { name, value })),
                ..old(self)@
            }),
    {
        self.metrics.push(VacuumMetric { name, value });
    }
}

/// A maintenance run that was prepared and not yet committed.
#[derive(Debug, PartialEq, Eq)]
pub struct PreparedVacuum {
    pub rewrite: Option<VacuumRewrite>,
    pub manifest_rewrite: Option<ManifestRewrite>,
    /// Snapshots are expired as of this time.
    pub expire_as_of_ms: i64,
    /// Orphaned objects older than this time are cleaned up.
    pub orphan_older_than_ms: Option<i64>,
    pub owned_table_root: String,
    pub report: VacuumReport,
}

} // verus!
