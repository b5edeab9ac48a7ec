//! Optimistic commit of one table.
//!
//! A coordinator decides what happens next; its driver performs that and
//! hands back what came of it. Every attempt starts from the table's newest
//! metadata, so nothing of a failed attempt survives it.

use vstd::prelude::*;

use crate::Oid;
use crate::catalog::action_log::{
    ActionView, ChangeView, EffectiveCommitAction, EffectiveView, RowDeltaValidation,
    TxTableCommitPlan, changes_before, checks_after, commit_has_the_effect_of_the_log,
    commit_makes_the_schema_changes_of_the_log, commit_runs_the_checks_of_the_log,
    committed_changes, committed_checks, committed_ops, effective, effective_views, files_after,
    first_file_change_truncates, has_truncate, planned, truncation_marks, uncommittable,
};
use crate::catalog::table_files::{FilesView, parts_follow_each_other};
use crate::catalog::catalog_row::{RowView, str_view, text_of};
use crate::catalog::metadata_table::{
    COLUMN_COUNT, CasUpdate, METADATA_LOCATION, MaintenanceScheduleUpdate, MetadataView, cas_change,
    cas_moves_only_the_table, rescheduled,
};
use crate::catalog::schema_evolution::PreparedSchemaUpdate;
use crate::catalog::snapshot_delta::{DataFile, DeleteFileIdentity, DeltaOp, SnapshotDelta};
use crate::catalog::table_properties::PreparedTablePropertyUpdate;
use crate::catalog::vacuum::{
    ManifestRewrite, PreparedVacuum, ReportView, VacuumMetric, VacuumMetricName, VacuumReport,
    VacuumRewrite,
};
use crate::error::{IcebergError, IcebergLiteError};
use crate::text::{
    ascending_has_no_duplicates, ascending_set, ascending_sets_exist, contains_text, has_text,
    insert_all_ascending, lemma_ascending_set, lemma_texts_push, texts,
};

verus! {

// -- Steps of one attempt -----------------------------------------------------

/// One step that builds an attempt's table transaction.
#[allow(inconsistent_fields)]
#[derive(Debug)]
pub enum TransactionStep<'a> {
    /// The table must lie under the root that maintenance owns.
    EnsureTableRoot,
    /// The metadata file must lie under the root that maintenance owns.
    EnsurePath(&'a str),
    RewriteFiles(&'a VacuumRewrite),
    RewriteManifests(ManifestRewrite),
    ExpireSnapshots { as_of_ms: i64 },
    /// The schema change must fit the metadata reached so far.
    ValidateSchema(&'a PreparedSchemaUpdate),
    AdvanceSchema(&'a PreparedSchemaUpdate),
    ApplySchema(&'a PreparedSchemaUpdate),
    ValidateProperties(&'a PreparedTablePropertyUpdate),
    AdvanceProperties(&'a PreparedTablePropertyUpdate),
    ApplyProperties(&'a PreparedTablePropertyUpdate),
    /// File changes without checks; none for a bare truncation.
    SnapshotDelta { delta: Option<&'a SnapshotDelta>, truncate_base: bool },
    /// File changes with conflict checks.
    RowDelta { delta: &'a SnapshotDelta, validations: &'a Vec<RowDeltaValidation>, truncate_base: bool },
}

/// One step that builds an attempt's table transaction.
pub enum StepView {
    EnsureTableRoot,
    EnsurePath(Seq<char>),
    RewriteFiles(VacuumRewrite),
    RewriteManifests(ManifestRewrite),
    ExpireSnapshots { as_of_ms: i64 },
    ValidateSchema(PreparedSchemaUpdate),
    AdvanceSchema(PreparedSchemaUpdate),
    ApplySchema(PreparedSchemaUpdate),
    ValidateProperties(PreparedTablePropertyUpdate),
    AdvanceProperties(PreparedTablePropertyUpdate),
    ApplyProperties(PreparedTablePropertyUpdate),
    SnapshotDelta { ops: Seq<DeltaOp>, truncate_base: bool },
    RowDelta { ops: Seq<DeltaOp>, validations: Seq<RowDeltaValidation>, truncate_base: bool },
}

impl<'a> View for TransactionStep<'a> {
    type V = StepView;

    open spec fn view(&self) -> StepView {
        match *self {
            TransactionStep::EnsureTableRoot => StepView::EnsureTableRoot,
            TransactionStep::EnsurePath(path) => StepView::EnsurePath(path@),
            TransactionStep::RewriteFiles(rewrite) => StepView::RewriteFiles(*rewrite),
            TransactionStep::RewriteManifests(rewrite) => StepView::RewriteManifests(rewrite),
            TransactionStep::ExpireSnapshots { as_of_ms } => StepView::ExpireSnapshots { as_of_ms },
            TransactionStep::ValidateSchema(update) => StepView::ValidateSchema(*update),
            TransactionStep::AdvanceSchema(update) => StepView::AdvanceSchema(*update),
            TransactionStep::ApplySchema(update) => StepView::ApplySchema(*update),
            TransactionStep::ValidateProperties(update) => StepView::ValidateProperties(*update),
            TransactionStep::AdvanceProperties(update) => StepView::AdvanceProperties(*update),
            TransactionStep::ApplyProperties(update) => StepView::ApplyProperties(*update),
            TransactionStep::SnapshotDelta { delta, truncate_base } => StepView::SnapshotDelta {
                ops: match delta {
                    Some(d) => d@,
                    None => Seq::empty(),
                },
                truncate_base,
            },
            TransactionStep::RowDelta { delta, validations, truncate_base } => StepView::RowDelta {
                ops: delta@,
                validations: validations@,
                truncate_base,
            },
        }
    }
}

/// The views of some steps.
pub open spec fn step_views(steps: Seq<TransactionStep>) -> Seq<StepView> {
    Seq::new(steps.len(), |i: int| steps[i]@)
}

/// The steps of a maintenance run on the table at `location`.
pub open spec fn vacuum_steps(vacuum: PreparedVacuum, location: Seq<char>) -> Seq<StepView> {
    seq![StepView::EnsureTableRoot, StepView::EnsurePath(location)] + (match vacuum.rewrite {
        Some(rewrite) => seq![StepView::RewriteFiles(rewrite)],
        None => Seq::empty(),
    }) + (match vacuum.manifest_rewrite {
        Some(rewrite) => seq![StepView::RewriteManifests(rewrite)],
        None => Seq::empty(),
    }) + seq![StepView::ExpireSnapshots { as_of_ms: vacuum.expire_as_of_ms }]
}

/// The steps of one committed change. File changes with checks are a row
/// delta, those without are a snapshot delta.
pub open spec fn action_steps(action: EffectiveView) -> Seq<StepView> {
    match action {
        EffectiveView::Schema(update) => seq![
            StepView::ValidateSchema(update),
            StepView::AdvanceSchema(update),
            StepView::ApplySchema(update),
        ],
        EffectiveView::Properties(update) => seq![
            StepView::ValidateProperties(update),
            StepView::AdvanceProperties(update),
            StepView::ApplyProperties(update),
        ],
        EffectiveView::Data { epoch, truncate_base } => if epoch.validations.len() == 0 {
            seq![StepView::SnapshotDelta { ops: epoch.ops, truncate_base }]
        } else {
            seq![StepView::RowDelta { ops: epoch.ops, validations: epoch.validations, truncate_base }]
        },
        EffectiveView::TruncateOnly => seq![
            StepView::SnapshotDelta { ops: Seq::empty(), truncate_base: true },
        ],
    }
}

/// The steps of the first `n` committed changes, in order.
pub open spec fn actions_steps(actions: Seq<EffectiveView>, n: int) -> Seq<StepView>
    decreases n,
{
    if n <= 0 {
        Seq::empty()
    } else {
        actions_steps(actions, n - 1) + action_steps(actions[n - 1])
    }
}

/// The steps of an attempt on the table at `location`: those of a maintenance
/// run, where there is one, and those of the committed changes.
pub open spec fn attempted(
    vacuum: Option<&PreparedVacuum>,
    actions: Seq<EffectiveView>,
    location: Seq<char>,
) -> Seq<StepView> {
    (match vacuum {
        Some(run) => vacuum_steps(*run, location),
        None => Seq::empty(),
    }) + actions_steps(actions, actions.len() as int)
}

fn push_action_steps<'a>(steps: &mut Vec<TransactionStep<'a>>, action: &EffectiveCommitAction<'a>)
    ensures
        step_views(final(steps)@) == step_views(old(steps)@) + action_steps(action@),
{
    match action {
        EffectiveCommitAction::Schema(update) => {
            steps.push(TransactionStep::ValidateSchema(*update));
            steps.push(TransactionStep::AdvanceSchema(*update));
            steps.push(TransactionStep::ApplySchema(*update));
        },
        EffectiveCommitAction::Properties(update) => {
            steps.push(TransactionStep::ValidateProperties(*update));
            steps.push(TransactionStep::AdvanceProperties(*update));
            steps.push(TransactionStep::ApplyProperties(*update));
        },
        EffectiveCommitAction::Data { epoch, truncate_base } => {
            let delta: &'a SnapshotDelta = &epoch.delta;
            let validations: &'a Vec<RowDeltaValidation> = &epoch.validations;
            if validations.is_empty() {
                steps.push(
                    TransactionStep::SnapshotDelta { delta: Some(delta), truncate_base: *truncate_base },
                );
            } else {
                steps.push(
                    TransactionStep::RowDelta { delta, validations, truncate_base: *truncate_base },
                );
            }
        },
        EffectiveCommitAction::TruncateOnly => {
            steps.push(TransactionStep::SnapshotDelta { delta: None, truncate_base: true });
        },
    }
    assert(step_views(steps@) =~= step_views(old(steps)@) + action_steps(action@));
}

impl<'a> TxTableCommitPlan<'a> {
    /// The steps that carry the plan's changes over to a table transaction.
    pub fn apply_to_transaction(&self) -> (r: Vec<TransactionStep<'a>>)
        ensures
            step_views(r@) == actions_steps(effective_views(self.actions@), self.actions@.len() as int),
    {
        let mut steps: Vec<TransactionStep<'a>> = Vec::new();
        let ghost actions = effective_views(self.actions@);
        let mut i: usize = 0;
        assert(step_views(steps@) =~= Seq::<StepView>::empty());
        while i < self.actions.len()
            invariant
                i <= self.actions@.len(),
                actions == effective_views(self.actions@),
                step_views(steps@) == actions_steps(actions, i as int),
            decreases self.actions@.len() - i,
        {
            push_action_steps(&mut steps, &self.actions[i]);
            i = i + 1;
        }
        steps
    }

    /// The steps of one attempt on the table at `location`.
    pub fn attempt_steps(&self, location: &'a str) -> (r: Vec<TransactionStep<'a>>)
        ensures
            step_views(r@) == attempted(self.vacuum, effective_views(self.actions@), location@),
    {
        let mut steps: Vec<TransactionStep<'a>> = Vec::new();
        let ghost actions = effective_views(self.actions@);
        if let Some(vacuum) = self.vacuum {
            let vacuum: &'a PreparedVacuum = vacuum;
            steps.push(TransactionStep::EnsureTableRoot);
            steps.push(TransactionStep::EnsurePath(location));
            if let Some(rewrite) = &vacuum.rewrite {
                steps.push(TransactionStep::RewriteFiles(rewrite));
            }
            if let Some(manifests) = &vacuum.manifest_rewrite {
                steps.push(TransactionStep::RewriteManifests(*manifests));
            }
            steps.push(TransactionStep::ExpireSnapshots { as_of_ms: vacuum.expire_as_of_ms });
            assert(step_views(steps@) =~= vacuum_steps(*vacuum, location@));
        } else {
            assert(step_views(steps@) =~= Seq::<StepView>::empty());
        }
        let ghost prefix = step_views(steps@);
        let mut i: usize = 0;
        assert(step_views(steps@) =~= prefix + actions_steps(actions, 0));
        while i < self.actions.len()
            invariant
                i <= self.actions@.len(),
                actions == effective_views(self.actions@),
                step_views(steps@) == prefix + actions_steps(actions, i as int),
            decreases self.actions@.len() - i,
        {
            push_action_steps(&mut steps, &self.actions[i]);
            assert(step_views(steps@) =~= prefix + actions_steps(actions, i + 1));
            i = i + 1;
        }
        steps
    }
}

/// The steps that follow once an attempt on the table wrote its metadata at
/// `new_location`: a maintenance run must not have left the table's root.
pub open spec fn steps_after(vacuum: Option<&PreparedVacuum>, new_location: Seq<char>) -> Seq<StepView> {
    if vacuum is Some {
        seq![StepView::EnsureTableRoot, StepView::EnsurePath(new_location)]
    } else {
        Seq::empty()
    }
}

impl<'a> TxTableCommitPlan<'a> {
    /// The steps that follow once an attempt wrote its metadata.
    pub fn closing_steps<'b>(&self, new_location: &'b str) -> (r: Vec<TransactionStep<'b>>)
        ensures
            step_views(r@) == steps_after(self.vacuum, new_location@),
    {
        let mut steps: Vec<TransactionStep<'b>> = Vec::new();
        if self.vacuum.is_some() {
            steps.push(TransactionStep::EnsureTableRoot);
            steps.push(TransactionStep::EnsurePath(new_location));
        }
        assert(step_views(steps@) =~= steps_after(self.vacuum, new_location@));
        steps
    }
}

/// The failure of an attempt when the table-format layer refuses a step. A
/// schema change that does not fit newer metadata is a conflict.
pub fn step_failure(step: &TransactionStep<'_>, error: IcebergLiteError) -> (r: IcebergError)
    ensures
        r == if step@ is ValidateSchema {
            IcebergError::SchemaEvolutionConflict(error)
        } else {
            IcebergError::IcebergLiteError(error)
        },
{
    match step {
        TransactionStep::ValidateSchema(_) => IcebergError::schema_evolution_conflict(error),
        _ => IcebergError::IcebergLiteError(error),
    }
}

/// How the catalog entry of a table changes when a commit moves it from
/// `expected` to `new_location`: it remembers where it was.
pub fn table_move<'b>(
    expected: &'b str,
    new_location: &'b str,
    maintenance_schedule: MaintenanceScheduleUpdate,
) -> (r: CasUpdate<'b>)
    ensures
        moves_table(r, expected@, new_location@),
        r.maintenance_schedule == maintenance_schedule,
{
    CasUpdate {
        metadata_location: Some(new_location),
        previous_metadata_location: Some(expected),
        maintenance_schedule,
    }
}

/// Whether a change of a catalog entry moves its table from one location to
/// another.
pub open spec fn moves_table(
    update: CasUpdate<'_>,
    expected: Seq<char>,
    new_location: Seq<char>,
) -> bool {
    &&& str_view(update.metadata_location) == Some(new_location)
    &&& str_view(update.previous_metadata_location) == Some(expected)
}

// -- The coordinator ----------------------------------------------------------

/// The table that an attempt built, next to the one it started from.
#[derive(Debug)]
pub struct MaterializedTable {
    pub metadata_location: Option<String>,
    pub base_snapshot_ids: Vec<i64>,
    pub snapshot_ids: Vec<i64>,
    pub base_refs: Vec<String>,
    pub refs: Vec<String>,
    pub current_snapshot_id: Option<i64>,
}

/// Objects that a maintenance run leaves unreachable, and how long it took to
/// find them.
#[derive(Debug)]
pub struct CleanupCandidates {
    pub expired_paths: Vec<String>,
    pub data: u64,
    pub delete: u64,
    pub manifest: u64,
    pub manifest_list: u64,
    pub statistics: u64,
    pub metadata: u64,
    pub orphan_paths: Vec<String>,
    pub planning_ms: u64,
}

/// Outcome of locking a catalog entry at a location.
#[derive(Debug)]
pub enum LockOutcome {
    Locked,
    Conflict,
    Failed(IcebergError),
}

/// Outcome of moving a catalog entry to a new location.
#[derive(Debug)]
pub enum CasOutcome {
    /// The entry moved; whether the next maintenance came closer.
    Updated { schedule_advanced: bool },
    Conflict,
    Failed(IcebergError),
}

/// What came of the last thing that the coordinator asked for.
#[derive(Debug)]
pub enum CommitEvent {
    Begin,
    Location(Option<String>),
    Materialized(MaterializedTable),
    /// For each manifest of the current snapshot, the snapshot that added it.
    Manifests(Vec<i64>),
    CleanupPlanned(CleanupCandidates),
    Lock(LockOutcome),
    Cas(CasOutcome),
    CleanupRegistered(Vec<VacuumMetric>),
    /// Milliseconds since the commit began.
    Elapsed(u64),
}

/// What to do next.
#[derive(Debug)]
pub enum NextAction {
    /// Read the table's metadata location from the catalog.
    LoadLocation,
    /// Build the attempt's table from the metadata at the location.
    Materialize { location: String },
    /// Read the manifest list of the new current snapshot.
    LoadManifests,
    /// Find the objects that the run leaves unreachable, where `scan` says so.
    PlanCleanup { scan: bool, orphan_older_than_ms: Option<i64> },
    /// Lock the catalog entry, provided that it is at the location.
    LockAndValidate { location: String },
    /// Move the catalog entry from one location to another.
    CasUpdate { expected: String, new_location: String },
    /// Schedule the objects for deletion.
    RegisterCleanup { paths: Vec<String> },
    /// Read the clock.
    ReadClock,
    /// The table is committed: report the run and delete canceled files.
    Finish { report: Option<VacuumReport>, canceled_paths: Vec<String>, schedule_advanced: bool },
    /// The commit failed.
    Fail(IcebergError),
}

/// What to do about the attempt, and what to do then.
#[derive(Debug)]
pub struct CommitStep {
    /// Discard the metadata files that the attempt wrote.
    pub discard_attempt: bool,
    /// Keep the metadata files that the attempt wrote.
    pub promote_attempt: bool,
    /// Tell the client that the commit starts over.
    pub notify_rebase: bool,
    pub next: NextAction,
}

/// What to do next.
pub enum NextView {
    LoadLocation,
    Materialize { location: Seq<char> },
    LoadManifests,
    PlanCleanup { scan: bool, orphan_older_than_ms: Option<i64> },
    LockAndValidate { location: Seq<char> },
    CasUpdate { expected: Seq<char>, new_location: Seq<char> },
    RegisterCleanup { paths: Seq<Seq<char>> },
    ReadClock,
    Finish { report: Option<ReportView>, canceled_paths: Seq<Seq<char>>, schedule_advanced: bool },
    Fail(IcebergError),
}

/// What to do about the attempt, and what to do then.
pub struct CommitStepView {
    pub discard_attempt: bool,
    pub promote_attempt: bool,
    pub notify_rebase: bool,
    pub next: NextView,
}

impl View for NextAction {
    type V = NextView;

    open spec fn view(&self) -> NextView {
        match *self {
            NextAction::LoadLocation => NextView::LoadLocation,
            NextAction::Materialize { location } => NextView::Materialize { location: location@ },
            NextAction::LoadManifests => NextView::LoadManifests,
            NextAction::PlanCleanup { scan, orphan_older_than_ms } => NextView::PlanCleanup {
                scan,
                orphan_older_than_ms,
            },
            NextAction::LockAndValidate { location } => NextView::LockAndValidate { location: location@ },
            NextAction::CasUpdate { expected, new_location } => NextView::CasUpdate {
                expected: expected@,
                new_location: new_location@,
            },
            NextAction::RegisterCleanup { paths } => NextView::RegisterCleanup { paths: texts(paths@) },
            NextAction::ReadClock => NextView::ReadClock,
            NextAction::Finish { report, canceled_paths, schedule_advanced } => NextView::Finish {
                report: report_view(report),
                canceled_paths: texts(canceled_paths@),
                schedule_advanced,
            },
            NextAction::Fail(e) => NextView::Fail(e),
        }
    }
}

impl View for CommitStep {
    type V = CommitStepView;

    open spec fn view(&self) -> CommitStepView {
        CommitStepView {
            discard_attempt: self.discard_attempt,
            promote_attempt: self.promote_attempt,
            notify_rebase: self.notify_rebase,
            next: self.next@,
        }
    }
}

/// The view of a report that may be absent.
pub open spec fn report_view(report: Option<VacuumReport>) -> Option<ReportView> {
    match report {
        Some(r) => Some(r@),
        None => None,
    }
}

/// How far the current attempt is.
#[allow(inconsistent_fields)]
#[derive(Debug)]
enum CommitPhase {
    Idle,
    AwaitLocation,
    AwaitMaterialized { location: String },
    AwaitManifests { location: String, new_location: String, report: VacuumReport, current: i64 },
    AwaitCleanup { location: String, new_location: String, report: VacuumReport },
    AwaitLock { report: VacuumReport, paths: Vec<String> },
    AwaitCas { report: Option<VacuumReport>, paths: Vec<String> },
    AwaitRegistration { report: VacuumReport, schedule_advanced: bool },
    AwaitClock { report: VacuumReport, schedule_advanced: bool },
    Ended,
}

/// How far the current attempt is.
#[allow(inconsistent_fields)]
pub enum PhaseView {
    Idle,
    AwaitLocation,
    AwaitMaterialized { location: Seq<char> },
    AwaitManifests { location: Seq<char>, new_location: Seq<char>, report: ReportView, current: i64 },
    AwaitCleanup { location: Seq<char>, new_location: Seq<char>, report: ReportView },
    AwaitLock { report: ReportView, paths: Seq<Seq<char>> },
    AwaitCas { report: Option<ReportView>, paths: Seq<Seq<char>> },
    AwaitRegistration { report: ReportView, schedule_advanced: bool },
    AwaitClock { report: ReportView, schedule_advanced: bool },
    Ended,
}

/// A commit: what it is to do, how often it has started, and how far it is.
pub struct CommitView {
    pub relid: Oid,
    pub actions: Seq<EffectiveView>,
    pub vacuum: Option<PreparedVacuum>,
    pub expected_location: Option<Seq<char>>,
    pub canceled_paths: Seq<Seq<char>>,
    pub max_retries: int,
    pub retries: int,
    pub phase: PhaseView,
}

impl CommitPhase {
    spec fn view(self) -> PhaseView {
        match self {
            CommitPhase::Idle => PhaseView::Idle,
            CommitPhase::AwaitLocation => PhaseView::AwaitLocation,
            CommitPhase::AwaitMaterialized { location } => PhaseView::AwaitMaterialized {
                location: location@,
            },
            CommitPhase::AwaitManifests { location, new_location, report, current } => PhaseView::AwaitManifests {
                location: location@,
                new_location: new_location@,
                report: report@,
                current,
            },
            CommitPhase::AwaitCleanup { location, new_location, report } => PhaseView::AwaitCleanup {
                location: location@,
                new_location: new_location@,
                report: report@,
            },
            CommitPhase::AwaitLock { report, paths } => PhaseView::AwaitLock {
                report: report@,
                paths: texts(paths@),
            },
            CommitPhase::AwaitCas { report, paths } => PhaseView::AwaitCas {
                report: report_view(report),
                paths: texts(paths@),
            },
            CommitPhase::AwaitRegistration { report, schedule_advanced } => PhaseView::AwaitRegistration {
                report: report@,
                schedule_advanced,
            },
            CommitPhase::AwaitClock { report, schedule_advanced } => PhaseView::AwaitClock {
                report: report@,
                schedule_advanced,
            },
            CommitPhase::Ended => PhaseView::Ended,
        }
    }
}

/// Commits one table.
pub struct TableCommitCoordinator<'a> {
    relid: Oid,
    plan: TxTableCommitPlan<'a>,
    max_retries: i32,
    retries: i32,
    phase: CommitPhase,
}

impl<'a> View for TableCommitCoordinator<'a> {
    type V = CommitView;

    closed spec fn view(&self) -> CommitView {
        CommitView {
            relid: self.relid,
            actions: effective_views(self.plan.actions@),
            vacuum: match self.plan.vacuum {
                Some(vacuum) => Some(*vacuum),
                None => None,
            },
            expected_location: match self.plan.expected_metadata_location {
                Some(location) => Some(location@),
                None => None,
            },
            canceled_paths: texts(self.plan.canceled_created_paths@),
            max_retries: self.max_retries as int,
            retries: self.retries as int,
            phase: self.phase.view(),
        }
    }
}

// -- What each event leads to -------------------------------------------------

/// A step that leaves the attempt's files alone.
pub open spec fn plain(next: NextView) -> CommitStepView {
    CommitStepView { discard_attempt: false, promote_attempt: false, notify_rebase: false, next }
}

/// How many numbers of `ids` are not among `others`.
pub open spec fn missing_count(ids: Seq<i64>, others: Seq<i64>) -> nat {
    ids.filter(|id: i64| !others.contains(id)).len()
}

/// How many strings are not among others.
pub open spec fn missing_texts(names: Seq<String>, others: Seq<String>) -> nat {
    names.filter(|name: String| !has_text(others, name@)).len()
}

/// How many numbers equal `wanted`.
pub open spec fn equal_count(ids: Seq<i64>, wanted: i64) -> nat {
    ids.filter(|id: i64| id == wanted).len()
}

/// Objects that a run leaves unreachable.
pub struct FoundView {
    pub expired_paths: Seq<Seq<char>>,
    pub data: u64,
    pub delete: u64,
    pub manifest: u64,
    pub manifest_list: u64,
    pub statistics: u64,
    pub metadata: u64,
    pub orphan_paths: Seq<Seq<char>>,
    pub planning_ms: u64,
}

/// What a search found; nothing where no search was made.
pub open spec fn found_by(scan: bool, found: CleanupCandidates) -> FoundView {
    if scan {
        FoundView {
            expired_paths: ascending_set(texts(found.expired_paths@)),
            data: found.data,
            delete: found.delete,
            manifest: found.manifest,
            manifest_list: found.manifest_list,
            statistics: found.statistics,
            metadata: found.metadata,
            orphan_paths: ascending_set(texts(found.orphan_paths@)),
            planning_ms: found.planning_ms,
        }
    } else {
        FoundView {
            expired_paths: Seq::empty(),
            data: 0,
            delete: 0,
            manifest: 0,
            manifest_list: 0,
            statistics: 0,
            metadata: 0,
            orphan_paths: Seq::empty(),
            planning_ms: found.planning_ms,
        }
    }
}

impl ReportView {
    /// This report with a figure added.
    pub open spec fn with(self, name: VacuumMetricName, value: nat) -> ReportView {
        ReportView { metrics: self.metrics.push(VacuumMetric { name, value: value as u64 }), ..self }
    }
}

impl CommitView {
    /// This commit at another point of its attempt.
    pub open spec fn at(self, phase: PhaseView) -> CommitView {
        CommitView { phase, ..self }
    }

    /// A new attempt, if the limit allows one.
    pub open spec fn begun(self) -> (CommitView, NextView) {
        if self.retries > self.max_retries {
            (
                self.at(PhaseView::Ended),
                NextView::Fail(
                    IcebergError::MetadataCommitConflict {
                        relid: self.relid,
                        max_retries: self.max_retries as i32,
                    },
                ),
            )
        } else {
            (
                CommitView { retries: self.retries + 1, phase: PhaseView::AwaitLocation, ..self },
                NextView::LoadLocation,
            )
        }
    }

    /// The end of the commit in failure.
    pub open spec fn failed(self, e: IcebergError) -> (CommitView, NextView) {
        (self.at(PhaseView::Ended), NextView::Fail(e))
    }

    /// What the catalog's location leads to: a truncation commits only where
    /// it saw that location.
    pub open spec fn located(self, location: Option<Seq<char>>) -> (CommitView, NextView) {
        match location {
            None => self.failed(IcebergError::MetadataLocationNull),
            Some(place) => if self.expected_location is Some && self.expected_location->Some_0 != place {
                self.failed(IcebergError::TruncateCommitConflict { relid: self.relid })
            } else {
                (
                    self.at(PhaseView::AwaitMaterialized { location: place }),
                    NextView::Materialize { location: place },
                )
            },
        }
    }

    /// The report of a run after its table was built.
    pub open spec fn materialized_report(self, table: MaterializedTable) -> ReportView {
        ReportView {
            snapshots_expired: missing_count(table.base_snapshot_ids@, table.snapshot_ids@) as u64,
            ..self.vacuum->Some_0.report@
        }.with(VacuumMetricName::ExpiredRefs, missing_texts(table.base_refs@, table.refs@))
    }

    /// Whether a run merged manifests: it was to merge them, and it made a
    /// snapshot beside the one for rewritten files.
    pub open spec fn merged_manifests(self, table: MaterializedTable) -> bool {
        self.vacuum->Some_0.manifest_rewrite is Some && missing_count(
            table.snapshot_ids@,
            table.base_snapshot_ids@,
        ) > if self.vacuum->Some_0.rewrite is Some {
            1nat
        } else {
            0nat
        }
    }

    /// The search for unreachable objects that follows the counting.
    pub open spec fn counted(
        self,
        location: Seq<char>,
        new_location: Seq<char>,
        report: ReportView,
    ) -> (CommitView, NextView) {
        let retries = (self.retries - 1) as u64;
        let complete = ReportView { cas_retries: retries, ..report }.with(
            VacuumMetricName::ValidationConflicts,
            retries as nat,
        );
        let orphan_older_than_ms = self.vacuum->Some_0.orphan_older_than_ms;
        (
            self.at(PhaseView::AwaitCleanup { location, new_location, report: complete }),
            NextView::PlanCleanup {
                scan: new_location != location || orphan_older_than_ms is Some,
                orphan_older_than_ms,
            },
        )
    }

    /// What a built table leads to.
    pub open spec fn materialized(
        self,
        location: Seq<char>,
        table: MaterializedTable,
    ) -> (CommitView, CommitStepView) {
        match table.metadata_location {
            None => {
                let (next, action) = self.failed(IcebergError::MetadataLocationNull);
                (next, plain(action))
            },
            Some(new_location) => match self.vacuum {
                None => self.decided(location, new_location@, None, Seq::empty()),
                Some(_) => {
                    let report = self.materialized_report(table);
                    let (next, action) = if self.merged_manifests(table) {
                        match table.current_snapshot_id {
                            None => self.failed(
                                IcebergError::InvariantViolated(
                                    "manifest rewrite committed without a current snapshot",
                                ),
                            ),
                            Some(current) => (
                                self.at(
                                    PhaseView::AwaitManifests {
                                        location,
                                        new_location: new_location@,
                                        report,
                                        current,
                                    },
                                ),
                                NextView::LoadManifests,
                            ),
                        }
                    } else {
                        self.counted(location, new_location@, report)
                    };
                    (next, plain(action))
                },
            },
        }
    }

    /// What the attempt's outcome leads to. A table that did not move needs no
    /// catalog change; its run may still leave objects to delete.
    pub open spec fn decided(
        self,
        location: Seq<char>,
        new_location: Seq<char>,
        report: Option<ReportView>,
        paths: Seq<Seq<char>>,
    ) -> (CommitView, CommitStepView) {
        if new_location == location {
            let (next, action) = if report is Some && paths.len() > 0 {
                (
                    self.at(
                        PhaseView::AwaitLock {
                            report: ReportView {
                                objects_scheduled_for_deletion: paths.len() as u64,
                                ..report->Some_0
                            },
                            paths,
                        },
                    ),
                    NextView::LockAndValidate { location },
                )
            } else {
                self.finished(report, false)
            };
            (next, CommitStepView { discard_attempt: true, ..plain(action) })
        } else {
            (
                self.at(PhaseView::AwaitCas { report, paths }),
                plain(NextView::CasUpdate { expected: location, new_location }),
            )
        }
    }

    /// The end of the commit in success; a run reports how long it took.
    pub open spec fn finished(
        self,
        report: Option<ReportView>,
        schedule_advanced: bool,
    ) -> (CommitView, NextView) {
        match report {
            Some(figures) => (
                self.at(PhaseView::AwaitClock { report: figures, schedule_advanced }),
                NextView::ReadClock,
            ),
            None => (
                self.at(PhaseView::Ended),
                NextView::Finish { report: None, canceled_paths: self.canceled_paths, schedule_advanced },
            ),
        }
    }

    /// The report of a run after the search for unreachable objects.
    pub open spec fn cleanup_report(self, report: ReportView, found: FoundView) -> ReportView {
        let counted = report.with(
            VacuumMetricName::ExpirationUnreachableObjects,
            found.expired_paths.len(),
        ).with(VacuumMetricName::UnreachableDataFiles, found.data as nat).with(
            VacuumMetricName::UnreachableDeleteFiles,
            found.delete as nat,
        ).with(VacuumMetricName::UnreachableManifests, found.manifest as nat).with(
            VacuumMetricName::UnreachableManifestLists,
            found.manifest_list as nat,
        ).with(VacuumMetricName::UnreachableStatistics, found.statistics as nat).with(
            VacuumMetricName::UnreachableMetadataFiles,
            found.metadata as nat,
        );
        let complete = if self.vacuum->Some_0.orphan_older_than_ms is Some {
            counted.with(VacuumMetricName::OrphanCandidates, found.orphan_paths.len())
        } else {
            counted
        };
        complete.with(VacuumMetricName::CleanupPlanningMs, found.planning_ms as nat)
    }

    /// The objects to delete, ascending: those that expiration left
    /// unreachable, and orphans where the run cleans them up.
    pub open spec fn cleanup_paths(self, found: FoundView) -> Seq<Seq<char>> {
        if self.vacuum->Some_0.orphan_older_than_ms is Some {
            ascending_set(found.expired_paths + found.orphan_paths)
        } else {
            found.expired_paths
        }
    }

    /// What the unreachable objects lead to.
    pub open spec fn cleaned(
        self,
        location: Seq<char>,
        new_location: Seq<char>,
        report: ReportView,
        candidates: CleanupCandidates,
    ) -> (CommitView, CommitStepView) {
        let found = found_by(
            new_location != location || self.vacuum->Some_0.orphan_older_than_ms is Some,
            candidates,
        );
        self.decided(
            location,
            new_location,
            Some(self.cleanup_report(report, found)),
            self.cleanup_paths(found),
        )
    }

    /// What an event leads to at this point.
    pub open spec fn leads_to(self, event: CommitEvent, after: CommitView, step: CommitStepView) -> bool {
        match (self.phase, event) {
            (PhaseView::Idle, CommitEvent::Begin) => (after, step) == (self.begun().0, plain(
                self.begun().1,
            )),
            (PhaseView::AwaitLocation, CommitEvent::Location(location)) => {
                let place = match location {
                    Some(l) => Some(l@),
                    None => None,
                };
                (after, step) == (self.located(place).0, plain(self.located(place).1))
            },
            (PhaseView::AwaitMaterialized { location }, CommitEvent::Materialized(table)) => (after, step)
                == self.materialized(location, table),
            (
                PhaseView::AwaitManifests { location, new_location, report, current },
                CommitEvent::Manifests(added),
            ) => {
                let merged = ReportView {
                    manifests_rewritten: equal_count(added@, current) as u64,
                    ..report
                };
                (after, step) == (
                    self.counted(location, new_location, merged).0,
                    plain(self.counted(location, new_location, merged).1),
                )
            },
            (
                PhaseView::AwaitCleanup { location, new_location, report },
                CommitEvent::CleanupPlanned(found),
            ) => (after, step) == self.cleaned(location, new_location, report, found),
            (PhaseView::AwaitLock { report, paths }, CommitEvent::Lock(outcome)) => match outcome {
                LockOutcome::Locked => (after, step) == (
                    self.at(PhaseView::AwaitRegistration { report, schedule_advanced: false }),
                    plain(NextView::RegisterCleanup { paths }),
                ),
                LockOutcome::Conflict => (after, step) == (
                    self.begun().0,
                    CommitStepView { notify_rebase: true, ..plain(self.begun().1) },
                ),
                LockOutcome::Failed(e) => (after, step) == (self.failed(e).0, plain(self.failed(e).1)),
            },
            (PhaseView::AwaitCas { report, paths }, CommitEvent::Cas(outcome)) => match outcome {
                CasOutcome::Updated { schedule_advanced } => match report {
                    Some(figures) => (after, step) == (
                        self.at(
                            PhaseView::AwaitRegistration {
                                report: ReportView {
                                    objects_scheduled_for_deletion: paths.len() as u64,
                                    ..figures
                                },
                                schedule_advanced,
                            },
                        ),
                        CommitStepView {
                            promote_attempt: true,
                            ..plain(NextView::RegisterCleanup { paths })
                        },
                    ),
                    None => (after, step) == (
                        self.finished(None, schedule_advanced).0,
                        CommitStepView {
                            promote_attempt: true,
                            ..plain(self.finished(None, schedule_advanced).1)
                        },
                    ),
                },
                CasOutcome::Conflict => (after, step) == (
                    self.begun().0,
                    CommitStepView {
                        discard_attempt: true,
                        notify_rebase: true,
                        ..plain(self.begun().1)
                    },
                ),
                CasOutcome::Failed(e) => (after, step) == (self.failed(e).0, plain(self.failed(e).1)),
            },
            (
                PhaseView::AwaitRegistration { report, schedule_advanced },
                CommitEvent::CleanupRegistered(metrics),
            ) => (after, step) == (
                self.at(
                    PhaseView::AwaitClock {
                        report: ReportView { metrics: report.metrics + metrics@, ..report },
                        schedule_advanced,
                    },
                ),
                plain(NextView::ReadClock),
            ),
            (PhaseView::AwaitClock { report, schedule_advanced }, CommitEvent::Elapsed(ms)) => (after, step)
                == (
                self.at(PhaseView::Ended),
                plain(
                    NextView::Finish {
                        report: Some(report.with(VacuumMetricName::CommitMs, ms as nat)),
                        canceled_paths: self.canceled_paths,
                        schedule_advanced,
                    },
                ),
            ),
            _ => (after, step) == (
                self.at(PhaseView::Ended),
                plain(
                    NextView::Fail(
                        IcebergError::InvariantViolated("table commit received an event out of order"),
                    ),
                ),
            ),
        }
    }

    /// A run exists exactly where a report is carried, and an attempt has
    /// begun exactly when one is under way.
    pub open spec fn wf(self) -> bool {
        &&& self.max_retries < i32::MAX
        &&& 0 <= self.retries
        &&& self.retries <= self.max_retries + 1 || self.retries == 0
        &&& match self.phase {
            PhaseView::Idle | PhaseView::Ended => true,
            PhaseView::AwaitLocation | PhaseView::AwaitMaterialized { .. } => self.retries >= 1,
            PhaseView::AwaitCas { report, .. } => self.retries >= 1 && (report is Some <==> self.vacuum is Some),
            _ => self.retries >= 1 && self.vacuum is Some,
        }
    }
}

// -- Counting -----------------------------------------------------------------

fn contains_id(ids: &Vec<i64>, id: i64) -> (r: bool)
    ensures
        r == ids@.contains(id),
{
    let mut i: usize = 0;
    while i < ids.len()
        invariant
            i <= ids@.len(),
            forall|k: int| 0 <= k < i ==> ids@[k] != id,
        decreases ids@.len() - i,
    {
        if ids[i] == id {
            assert(ids@[i as int] == id);
            return true;
        }
        i = i + 1;
    }
    false
}

fn count_missing(ids: &Vec<i64>, others: &Vec<i64>) -> (r: usize)
    ensures
        r == missing_count(ids@, others@),
{
    let ghost keep = |id: i64| !others@.contains(id);
    let mut count: usize = 0;
    let mut i: usize = 0;
    proof {
        reveal(Seq::filter);
        assert(ids@.take(0).filter(keep).len() == 0);
    }
    while i < ids.len()
        invariant
            i <= ids@.len(),
            count <= i,
            keep == (|id: i64| !others@.contains(id)),
            count == ids@.take(i as int).filter(keep).len(),
        decreases ids@.len() - i,
    {
        proof {
            reveal(Seq::filter);
            assert(ids@.take(i + 1).drop_last() =~= ids@.take(i as int));
        }
        if !contains_id(others, ids[i]) {
            count = count + 1;
        }
        i = i + 1;
    }
    assert(ids@.take(ids@.len() as int) =~= ids@);
    count
}

fn count_missing_texts(names: &Vec<String>, others: &Vec<String>) -> (r: usize)
    ensures
        r == missing_texts(names@, others@),
{
    let ghost keep = |name: String| !has_text(others@, name@);
    let mut count: usize = 0;
    let mut i: usize = 0;
    proof {
        reveal(Seq::filter);
        assert(names@.take(0).filter(keep).len() == 0);
    }
    while i < names.len()
        invariant
            i <= names@.len(),
            count <= i,
            keep == (|name: String| !has_text(others@, name@)),
            count == names@.take(i as int).filter(keep).len(),
        decreases names@.len() - i,
    {
        proof {
            reveal(Seq::filter);
            assert(names@.take(i + 1).drop_last() =~= names@.take(i as int));
        }
        if !contains_text(others, names[i].as_str()) {
            count = count + 1;
        }
        i = i + 1;
    }
    assert(names@.take(names@.len() as int) =~= names@);
    count
}

fn count_equal(ids: &Vec<i64>, wanted: i64) -> (r: usize)
    ensures
        r == equal_count(ids@, wanted),
{
    let mut count: usize = 0;
    let mut i: usize = 0;
    proof {
        reveal(Seq::filter);
        assert(equal_count(ids@.take(0), wanted) == 0);
    }
    while i < ids.len()
        invariant
            i <= ids@.len(),
            count <= i,
            count == equal_count(ids@.take(i as int), wanted),
        decreases ids@.len() - i,
    {
        proof {
            reveal(Seq::filter);
            assert(ids@.take(i + 1).drop_last() =~= ids@.take(i as int));
        }
        if ids[i] == wanted {
            count = count + 1;
        }
        i = i + 1;
    }
    assert(ids@.take(ids@.len() as int) =~= ids@);
    count
}

fn plain_step(next: NextAction) -> (r: CommitStep)
    ensures
        r@ == plain(next@),
{
    CommitStep { discard_attempt: false, promote_attempt: false, notify_rebase: false, next }
}

fn ascending_texts(list: Vec<String>) -> (r: Vec<String>)
    ensures
        texts(r@) == ascending_set(texts(list@)),
{
    let mut set: Vec<String> = Vec::new();
    assert(texts(set@) =~= Seq::<Seq<char>>::empty());
    insert_all_ascending(&mut set, list);
    proof {
        lemma_ascending_set(texts(set@), texts(list@));
    }
    set
}

fn clone_texts(list: &Vec<String>) -> (r: Vec<String>)
    ensures
        texts(r@) == texts(list@),
{
    let mut copy: Vec<String> = Vec::new();
    let mut i: usize = 0;
    assert(texts(copy@) =~= texts(list@).take(0));
    while i < list.len()
        invariant
            i <= list@.len(),
            texts(copy@) == texts(list@).take(i as int),
        decreases list@.len() - i,
    {
        let name = list[i].clone();
        proof {
            lemma_texts_push(copy@, name);
        }
        copy.push(name);
        assert(texts(copy@) =~= texts(list@).take(i + 1));
        i = i + 1;
    }
    assert(texts(list@).take(list@.len() as int) =~= texts(list@));
    copy
}

// -- The coordinator's work ---------------------------------------------------

impl<'a> TableCommitCoordinator<'a> {
    /// Whether the coordinator's bookkeeping is sound.
    pub closed spec fn wf(self) -> bool {
        self@.wf()
    }

    /// A commit that has not begun. After `max_retries` restarts it gives up.
    pub fn new(relid: Oid, plan: TxTableCommitPlan<'a>, max_retries: i32) -> (r: Self)
        requires
            max_retries < i32::MAX,
        ensures
            r.wf(),
            r@.relid == relid,
            r@.actions == effective_views(plan.actions@),
            r@.vacuum == (match plan.vacuum {
                Some(vacuum) => Some(*vacuum),
                None => None,
            }),
            r@.expected_location == (match plan.expected_metadata_location {
                Some(location) => Some(location@),
                None => None,
            }),
            r@.canceled_paths == texts(plan.canceled_created_paths@),
            r@.max_retries == max_retries,
            r@.retries == 0,
            r@.phase is Idle,
    {
        TableCommitCoordinator { relid, plan, max_retries, retries: 0, phase: CommitPhase::Idle }
    }

    /// What is to be committed.
    pub fn plan(&self) -> (r: &TxTableCommitPlan<'a>)
        ensures
            effective_views(r.actions@) == self@.actions,
            r.vacuum is Some <==> self@.vacuum is Some,
            r.vacuum matches Some(vacuum) ==> self@.vacuum == Some(*vacuum),
            self@.expected_location == (match r.expected_metadata_location {
                Some(location) => Some(location@),
                None => None,
            }),
            texts(r.canceled_created_paths@) == self@.canceled_paths,
    {
        &self.plan
    }

    /// How often an attempt has begun.
    pub fn retries(&self) -> (r: i32)
        ensures
            r == self@.retries,
    {
        self.retries
    }

    fn begin(&mut self) -> (r: NextAction)
        requires
            old(self)@.max_retries < i32::MAX,
            0 <= old(self)@.retries,
            old(self)@.retries <= old(self)@.max_retries + 1 || old(self)@.retries == 0,
        ensures
            final(self)@.wf(),
            (final(self)@, r@) == old(self)@.begun(),
    {
        if self.retries > self.max_retries {
            self.phase = CommitPhase::Ended;
            return NextAction::Fail(
                IcebergError::MetadataCommitConflict {
                    relid: self.relid,
                    max_retries: self.max_retries,
                },
            );
        }
        self.retries = self.retries + 1;
        self.phase = CommitPhase::AwaitLocation;
        NextAction::LoadLocation
    }

    fn fail(&mut self, e: IcebergError) -> (r: NextAction)
        ensures
            (final(self)@, r@) == old(self)@.failed(e),
    {
        self.phase = CommitPhase::Ended;
        NextAction::Fail(e)
    }

    fn locate(&mut self, location: Option<String>) -> (r: NextAction)
        ensures
            (final(self)@, r@) == old(self)@.located(
                match location {
                    Some(l) => Some(l@),
                    None => None,
                },
            ),
    {
        let place = match location {
            None => {
                return self.fail(IcebergError::MetadataLocationNull);
            },
            Some(place) => place,
        };
        if let Some(expected) = self.plan.expected_metadata_location {
            if expected.to_owned() != place {
                let relid = self.relid;
                return self.fail(IcebergError::TruncateCommitConflict { relid });
            }
        }
        let next = NextAction::Materialize { location: place.clone() };
        self.phase = CommitPhase::AwaitMaterialized { location: place };
        next
    }

    fn finish(&mut self, report: Option<VacuumReport>, schedule_advanced: bool) -> (r: NextAction)
        ensures
            (final(self)@, r@) == old(self)@.finished(report_view(report), schedule_advanced),
    {
        match report {
            Some(report) => {
                self.phase = CommitPhase::AwaitClock { report, schedule_advanced };
                NextAction::ReadClock
            },
            None => {
                self.phase = CommitPhase::Ended;
                NextAction::Finish {
                    report: None,
                    canceled_paths: clone_texts(&self.plan.canceled_created_paths),
                    schedule_advanced,
                }
            },
        }
    }

    fn decide(
        &mut self,
        location: String,
        new_location: String,
        report: Option<VacuumReport>,
        paths: Vec<String>,
    ) -> (r: CommitStep)
        ensures
            (final(self)@, r@) == old(self)@.decided(
                location@,
                new_location@,
                report_view(report),
                texts(paths@),
            ),
    {
        if new_location == location {
            let scheduled: usize = paths.len();
            assert(texts(paths@).len() == scheduled);
            match report {
                Some(mut report) => {
                    if scheduled > 0 {
                        report.objects_scheduled_for_deletion = scheduled as u64;
                        self.phase = CommitPhase::AwaitLock { report, paths };
                        return CommitStep {
                            discard_attempt: true,
                            promote_attempt: false,
                            notify_rebase: false,
                            next: NextAction::LockAndValidate { location },
                        };
                    }
                    let next = self.finish(Some(report), false);
                    CommitStep { discard_attempt: true, promote_attempt: false, notify_rebase: false, next }
                },
                None => {
                    let next = self.finish(None, false);
                    CommitStep { discard_attempt: true, promote_attempt: false, notify_rebase: false, next }
                },
            }
        } else {
            self.phase = CommitPhase::AwaitCas { report, paths };
            plain_step(NextAction::CasUpdate { expected: location, new_location })
        }
    }

    fn count(&mut self, location: String, new_location: String, report: VacuumReport) -> (r: NextAction)
        requires
            old(self)@.vacuum is Some,
            old(self)@.retries >= 1,
        ensures
            (final(self)@, r@) == old(self)@.counted(location@, new_location@, report@),
    {
        let mut report = report;
        let cas_retries: u64 = (self.retries - 1) as u64;
        report.cas_retries = cas_retries;
        report.record_metric(VacuumMetricName::ValidationConflicts, cas_retries);
        let orphan_older_than_ms = match self.plan.vacuum {
            Some(vacuum) => vacuum.orphan_older_than_ms,
            None => None,
        };
        let scan = new_location != location || orphan_older_than_ms.is_some();
        self.phase = CommitPhase::AwaitCleanup { location, new_location, report };
        NextAction::PlanCleanup { scan, orphan_older_than_ms }
    }

    fn materialize(&mut self, location: String, table: MaterializedTable) -> (r: CommitStep)
        requires
            old(self)@.retries >= 1,
        ensures
            (final(self)@, r@) == old(self)@.materialized(location@, table),
    {
        let ghost built = table;
        let new_location = match table.metadata_location {
            None => {
                let next = self.fail(IcebergError::MetadataLocationNull);
                return plain_step(next);
            },
            Some(new_location) => new_location,
        };
        let vacuum = match self.plan.vacuum {
            None => {
                let paths: Vec<String> = Vec::new();
                assert(texts(paths@) =~= Seq::<Seq<char>>::empty());
                return self.decide(location, new_location, None, paths);
            },
            Some(vacuum) => vacuum,
        };
        let mut report = vacuum.report.clone();
        report.snapshots_expired = count_missing(&table.base_snapshot_ids, &table.snapshot_ids) as u64;
        report.record_metric(
            VacuumMetricName::ExpiredRefs,
            count_missing_texts(&table.base_refs, &table.refs) as u64,
        );
        assert(report@ == self@.materialized_report(built));
        let created: usize = count_missing(&table.snapshot_ids, &table.base_snapshot_ids);
        let rewrites: usize = if vacuum.rewrite.is_some() {
            1
        } else {
            0
        };
        if vacuum.manifest_rewrite.is_some() && created > rewrites {
            match table.current_snapshot_id {
                None => {
                    let next = self.fail(
                        IcebergError::InvariantViolated(
                            "manifest rewrite committed without a current snapshot",
                        ),
                    );
                    plain_step(next)
                },
                Some(current) => {
                    self.phase =
                    CommitPhase::AwaitManifests { location, new_location, report, current };
                    plain_step(NextAction::LoadManifests)
                },
            }
        } else {
            let next = self.count(location, new_location, report);
            plain_step(next)
        }
    }

    fn clean_up(
        &mut self,
        location: String,
        new_location: String,
        report: VacuumReport,
        candidates: CleanupCandidates,
    ) -> (r: CommitStep)
        requires
            old(self)@.vacuum is Some,
        ensures
            (final(self)@, r@) == old(self)@.cleaned(location@, new_location@, report@, candidates),
    {
        let ghost start = report@;
        let mut report = report;
        let orphan_cutoff = match self.plan.vacuum {
            Some(vacuum) => vacuum.orphan_older_than_ms,
            None => None,
        };
        let scan = new_location != location || orphan_cutoff.is_some();
        let ghost found = found_by(scan, candidates);
        let (expired, orphans, data, delete, manifest, manifest_list, statistics, metadata) = if scan {
            (
                ascending_texts(candidates.expired_paths),
                ascending_texts(candidates.orphan_paths),
                candidates.data,
                candidates.delete,
                candidates.manifest,
                candidates.manifest_list,
                candidates.statistics,
                candidates.metadata,
            )
        } else {
            let none: Vec<String> = Vec::new();
            let nothing: Vec<String> = Vec::new();
            assert(texts(none@) =~= Seq::<Seq<char>>::empty());
            assert(texts(nothing@) =~= Seq::<Seq<char>>::empty());
            (none, nothing, 0u64, 0u64, 0u64, 0u64, 0u64, 0u64)
        };
        assert(texts(expired@) == found.expired_paths && texts(expired@).len() == expired@.len());
        assert(texts(orphans@) == found.orphan_paths && texts(orphans@).len() == orphans@.len());
        report.record_metric(VacuumMetricName::ExpirationUnreachableObjects, expired.len() as u64);
        report.record_metric(VacuumMetricName::UnreachableDataFiles, data);
        report.record_metric(VacuumMetricName::UnreachableDeleteFiles, delete);
        report.record_metric(VacuumMetricName::UnreachableManifests, manifest);
        report.record_metric(VacuumMetricName::UnreachableManifestLists, manifest_list);
        report.record_metric(VacuumMetricName::UnreachableStatistics, statistics);
        report.record_metric(VacuumMetricName::UnreachableMetadataFiles, metadata);
        let paths = if orphan_cutoff.is_some() {
            report.record_metric(VacuumMetricName::OrphanCandidates, orphans.len() as u64);
            union_texts(expired, orphans)
        } else {
            expired
        };
        report.record_metric(VacuumMetricName::CleanupPlanningMs, candidates.planning_ms);
        assert(report@ == self@.cleanup_report(start, found));
        assert(texts(paths@) == self@.cleanup_paths(found));
        self.decide(location, new_location, Some(report), paths)
    }

    /// Takes what came of the last request and says what to do next.
    pub fn advance(&mut self, event: CommitEvent) -> (r: CommitStep)
        requires
            old(self).wf(),
        ensures
            final(self).wf(),
            old(self)@.leads_to(event, final(self)@, r@),
    {
        let ghost before = self@;
        let mut phase = CommitPhase::Ended;
        std::mem::swap(&mut phase, &mut self.phase);
        assert(self@ == before.at(PhaseView::Ended));
        match (phase, event) {
            (CommitPhase::Idle, CommitEvent::Begin) => {
                let next = self.begin();
                plain_step(next)
            },
            (CommitPhase::AwaitLocation, CommitEvent::Location(location)) => {
                let next = self.locate(location);
                plain_step(next)
            },
            (CommitPhase::AwaitMaterialized { location }, CommitEvent::Materialized(table)) => {
                self.materialize(location, table)
            },
            (
                CommitPhase::AwaitManifests { location, new_location, report, current },
                CommitEvent::Manifests(added),
            ) => {
                let mut report = report;
                report.manifests_rewritten = count_equal(&added, current) as u64;
                let next = self.count(location, new_location, report);
                plain_step(next)
            },
            (
                CommitPhase::AwaitCleanup { location, new_location, report },
                CommitEvent::CleanupPlanned(candidates),
            ) => self.clean_up(location, new_location, report, candidates),
            (CommitPhase::AwaitLock { report, paths }, CommitEvent::Lock(outcome)) => match outcome {
                LockOutcome::Locked => {
                    self.phase = CommitPhase::AwaitRegistration { report, schedule_advanced: false };
                    plain_step(NextAction::RegisterCleanup { paths })
                },
                LockOutcome::Conflict => {
                    let next = self.begin();
                    CommitStep { discard_attempt: false, promote_attempt: false, notify_rebase: true, next }
                },
                LockOutcome::Failed(e) => {
                    let next = self.fail(e);
                    plain_step(next)
                },
            },
            (CommitPhase::AwaitCas { report, paths }, CommitEvent::Cas(outcome)) => match outcome {
                CasOutcome::Updated { schedule_advanced } => match report {
                    Some(mut report) => {
                        assert(texts(paths@).len() == paths@.len());
                        report.objects_scheduled_for_deletion = paths.len() as u64;
                        self.phase = CommitPhase::AwaitRegistration { report, schedule_advanced };
                        CommitStep {
                            discard_attempt: false,
                            promote_attempt: true,
                            notify_rebase: false,
                            next: NextAction::RegisterCleanup { paths },
                        }
                    },
                    None => {
                        let next = self.finish(None, schedule_advanced);
                        CommitStep {
                            discard_attempt: false,
                            promote_attempt: true,
                            notify_rebase: false,
                            next,
                        }
                    },
                },
                CasOutcome::Conflict => {
                    let next = self.begin();
                    CommitStep { discard_attempt: true, promote_attempt: false, notify_rebase: true, next }
                },
                CasOutcome::Failed(e) => {
                    let next = self.fail(e);
                    plain_step(next)
                },
            },
            (
                CommitPhase::AwaitRegistration { report, schedule_advanced },
                CommitEvent::CleanupRegistered(metrics),
            ) => {
                let mut report = report;
                let mut metrics = metrics;
                report.metrics.append(&mut metrics);
                self.phase = CommitPhase::AwaitClock { report, schedule_advanced };
                plain_step(NextAction::ReadClock)
            },
            (CommitPhase::AwaitClock { report, schedule_advanced }, CommitEvent::Elapsed(ms)) => {
                let mut report = report;
                report.record_metric(VacuumMetricName::CommitMs, ms);
                plain_step(
                    NextAction::Finish {
                        report: Some(report),
                        canceled_paths: clone_texts(&self.plan.canceled_created_paths),
                        schedule_advanced,
                    },
                )
            },
            _ => {
                let next = self.fail(
                    IcebergError::InvariantViolated("table commit received an event out of order"),
                );
                plain_step(next)
            },
        }
    }
}

fn union_texts(a: Vec<String>, b: Vec<String>) -> (r: Vec<String>)
    ensures
        texts(r@) == ascending_set(texts(a@) + texts(b@)),
{
    let ghost both = texts(a@) + texts(b@);
    let mut set: Vec<String> = Vec::new();
    assert(texts(set@) =~= Seq::<Seq<char>>::empty());
    insert_all_ascending(&mut set, a);
    insert_all_ascending(&mut set, b);
    proof {
        assert forall|t: Seq<char>| #[trigger] texts(set@).contains(t) <==> both.contains(t) by {
            lemma_contains_concat(texts(a@), texts(b@), t);
        }
        lemma_ascending_set(texts(set@), both);
    }
    set
}

proof fn lemma_contains_concat(a: Seq<Seq<char>>, b: Seq<Seq<char>>, t: Seq<char>)
    ensures
        (a + b).contains(t) <==> (a.contains(t) || b.contains(t)),
{
    let both = a + b;
    if a.contains(t) {
        let k = choose|k: int| 0 <= k < a.len() && a[k] == t;
        assert(both[k] == t);
    }
    if b.contains(t) {
        let k = choose|k: int| 0 <= k < b.len() && b[k] == t;
        assert(both[a.len() + k] == t);
    }
    if both.contains(t) {
        let k = choose|k: int| 0 <= k < both.len() && both[k] == t;
        if k < a.len() {
            assert(a[k] == t);
        } else {
            assert(b[k - a.len()] == t);
        }
    }
}

// -- Laws ---------------------------------------------------------------------

impl FilesView {
    /// These files after a maintenance run replaced some data files and the
    /// deletes that it worked into them.
    pub open spec fn rewritten(self, rewrite: VacuumRewrite) -> FilesView {
        FilesView {
            data: self.data.remove_keys(file_paths(rewrite.input_files@)).union_prefer_right(
                files_by_path(rewrite.output_files@),
            ),
            deletes: self.deletes.remove_keys(
                rewrite.materialized_delete_identities@.map_values(
                    |identity: DeleteFileIdentity| identity.file_path@,
                ).to_set(),
            ),
        }
    }

    /// These files after a step of a table transaction was carried out. A step
    /// that truncates the base starts from no files; steps that change no files
    /// leave them.
    pub open spec fn after_step(self, step: StepView) -> FilesView {
        match step {
            StepView::SnapshotDelta { ops, truncate_base } => (if truncate_base {
                FilesView::none()
            } else {
                self
            }).after_ops(ops),
            StepView::RowDelta { ops, truncate_base, .. } => (if truncate_base {
                FilesView::none()
            } else {
                self
            }).after_ops(ops),
            StepView::RewriteFiles(rewrite) => self.rewritten(rewrite),
            _ => self,
        }
    }

    /// These files after some steps were carried out one after the other.
    pub open spec fn after_steps(self, steps: Seq<StepView>) -> FilesView
        decreases steps.len(),
    {
        if steps.len() == 0 {
            self
        } else {
            self.after_steps(steps.drop_last()).after_step(steps.last())
        }
    }
}

/// The paths of some files.
pub open spec fn file_paths(files: Seq<DataFile>) -> Set<Seq<char>> {
    files.map_values(|file: DataFile| file.file_path@).to_set()
}

/// Some files by path.
pub open spec fn files_by_path(files: Seq<DataFile>) -> Map<Seq<char>, DataFile>
    decreases files.len(),
{
    if files.len() == 0 {
        Map::empty()
    } else {
        files_by_path(files.drop_last()).insert(files.last().file_path@, files.last())
    }
}

proof fn lemma_steps_in_parts(files: FilesView, a: Seq<StepView>, b: Seq<StepView>)
    ensures
        files.after_steps(a + b) == files.after_steps(a).after_steps(b),
    decreases b.len(),
{
    if b.len() == 0 {
        assert(a + b =~= a);
    } else {
        lemma_steps_in_parts(files, a, b.drop_last());
        assert((a + b).drop_last() =~= a + b.drop_last());
    }
}

proof fn lemma_one_step(files: FilesView, step: StepView)
    ensures
        files.after_steps(seq![step]) == files.after_step(step),
{
    reveal_with_fuel(FilesView::after_steps, 2);
    assert(seq![step].drop_last() =~= Seq::<StepView>::empty());
}

proof fn lemma_steps_have_committed_effect(files: FilesView, actions: Seq<EffectiveView>, n: int)
    requires
        0 <= n <= actions.len(),
    ensures
        files.after_steps(actions_steps(actions, n)) == files.after_ops(committed_ops(actions.take(n))),
    decreases n,
{
    if n == 0 {
        assert(actions.take(0) =~= Seq::<EffectiveView>::empty());
    } else {
        lemma_steps_have_committed_effect(files, actions, n - 1);
        let earlier = files.after_steps(actions_steps(actions, n - 1));
        let steps = action_steps(actions[n - 1]);
        lemma_steps_in_parts(files, actions_steps(actions, n - 1), steps);
        assert(actions.take(n).drop_last() =~= actions.take(n - 1));
        let ops = committed_ops(actions.take(n - 1));
        match actions[n - 1] {
            EffectiveView::Data { epoch, truncate_base } => {
                lemma_one_step(earlier, steps[0]);
                assert(steps =~= seq![steps[0]]);
                if truncate_base {
                    let both = seq![DeltaOp::TruncateTable] + epoch.ops;
                    parts_follow_each_other(files, ops, both);
                    parts_follow_each_other(earlier, seq![DeltaOp::TruncateTable], epoch.ops);
                    lemma_one_op(earlier, DeltaOp::TruncateTable);
                } else {
                    parts_follow_each_other(files, ops, epoch.ops);
                }
            },
            EffectiveView::TruncateOnly => {
                lemma_one_step(earlier, steps[0]);
                assert(steps =~= seq![steps[0]]);
                parts_follow_each_other(files, ops, seq![DeltaOp::TruncateTable]);
                lemma_one_op(earlier, DeltaOp::TruncateTable);
            },
            _ => {
                lemma_plain_steps(earlier, steps);
                parts_follow_each_other(files, ops, Seq::empty());
            },
        }
    }
}

proof fn lemma_one_op(files: FilesView, op: DeltaOp)
    ensures
        files.after_ops(seq![op]) == files.after_op(op),
{
    reveal_with_fuel(FilesView::after_ops, 2);
    assert(seq![op].drop_last() =~= Seq::<DeltaOp>::empty());
}

proof fn lemma_plain_steps(files: FilesView, steps: Seq<StepView>)
    requires
        forall|i: int|
            0 <= i < steps.len() ==> !((#[trigger] steps[i]) is SnapshotDelta) && !(steps[i] is RowDelta)
                && !(steps[i] is RewriteFiles),
    ensures
        files.after_steps(steps) == files,
    decreases steps.len(),
{
    if steps.len() > 0 {
        assert(steps[steps.len() - 1] == steps.last());
        lemma_plain_steps(files, steps.drop_last());
    }
}

/// The schema and property changes that some steps apply, in order.
pub open spec fn applied_changes(steps: Seq<StepView>) -> Seq<ChangeView>
    decreases steps.len(),
{
    if steps.len() == 0 {
        Seq::empty()
    } else {
        match steps.last() {
            StepView::ApplySchema(update) => applied_changes(steps.drop_last()).push(
                ChangeView::Schema(update),
            ),
            StepView::ApplyProperties(update) => applied_changes(steps.drop_last()).push(
                ChangeView::Properties(update),
            ),
            _ => applied_changes(steps.drop_last()),
        }
    }
}

/// The conflict checks that some steps run, in order.
pub open spec fn run_checks(steps: Seq<StepView>) -> Seq<RowDeltaValidation>
    decreases steps.len(),
{
    if steps.len() == 0 {
        Seq::empty()
    } else {
        match steps.last() {
            StepView::RowDelta { validations, .. } => run_checks(steps.drop_last()) + validations,
            _ => run_checks(steps.drop_last()),
        }
    }
}

/// Of the steps that change files, in order, which truncate the base.
pub open spec fn step_marks(steps: Seq<StepView>) -> Seq<bool>
    decreases steps.len(),
{
    if steps.len() == 0 {
        Seq::empty()
    } else {
        match steps.last() {
            StepView::SnapshotDelta { truncate_base, .. } => step_marks(steps.drop_last()).push(
                truncate_base,
            ),
            StepView::RowDelta { truncate_base, .. } => step_marks(steps.drop_last()).push(truncate_base),
            _ => step_marks(steps.drop_last()),
        }
    }
}

proof fn lemma_step_lists_in_parts(a: Seq<StepView>, b: Seq<StepView>)
    ensures
        applied_changes(a + b) == applied_changes(a) + applied_changes(b),
        run_checks(a + b) == run_checks(a) + run_checks(b),
        step_marks(a + b) == step_marks(a) + step_marks(b),
    decreases b.len(),
{
    if b.len() == 0 {
        assert(a + b =~= a);
    } else {
        lemma_step_lists_in_parts(a, b.drop_last());
        assert((a + b).drop_last() =~= a + b.drop_last());
    }
    assert(applied_changes(a + b) =~= applied_changes(a) + applied_changes(b));
    assert(run_checks(a + b) =~= run_checks(a) + run_checks(b));
    assert(step_marks(a + b) =~= step_marks(a) + step_marks(b));
}

proof fn lemma_action_step_lists(action: EffectiveView)
    ensures
        applied_changes(action_steps(action)) == (match action {
            EffectiveView::Schema(update) => seq![ChangeView::Schema(update)],
            EffectiveView::Properties(update) => seq![ChangeView::Properties(update)],
            _ => Seq::empty(),
        }),
        run_checks(action_steps(action)) == (match action {
            EffectiveView::Data { epoch, .. } => epoch.validations,
            _ => Seq::empty(),
        }),
        step_marks(action_steps(action)) == (match action {
            EffectiveView::Data { truncate_base, .. } => seq![truncate_base],
            EffectiveView::TruncateOnly => seq![true],
            _ => Seq::empty(),
        }),
{
    reveal_with_fuel(applied_changes, 4);
    reveal_with_fuel(run_checks, 4);
    reveal_with_fuel(step_marks, 4);
    let steps = action_steps(action);
    assert(applied_changes(steps) =~= (match action {
        EffectiveView::Schema(update) => seq![ChangeView::Schema(update)],
        EffectiveView::Properties(update) => seq![ChangeView::Properties(update)],
        _ => Seq::empty(),
    }));
    assert(run_checks(steps) =~= (match action {
        EffectiveView::Data { epoch, .. } => epoch.validations,
        _ => Seq::empty(),
    }));
    assert(step_marks(steps) =~= (match action {
        EffectiveView::Data { truncate_base, .. } => seq![truncate_base],
        EffectiveView::TruncateOnly => seq![true],
        _ => Seq::empty(),
    }));
}

proof fn lemma_step_lists(actions: Seq<EffectiveView>, n: int)
    requires
        0 <= n <= actions.len(),
    ensures
        applied_changes(actions_steps(actions, n)) == committed_changes(actions.take(n)),
        run_checks(actions_steps(actions, n)) == committed_checks(actions.take(n)),
        step_marks(actions_steps(actions, n)) == truncation_marks(actions.take(n)),
    decreases n,
{
    if n == 0 {
        assert(actions.take(0) =~= Seq::<EffectiveView>::empty());
    } else {
        lemma_step_lists(actions, n - 1);
        lemma_step_lists_in_parts(actions_steps(actions, n - 1), action_steps(actions[n - 1]));
        lemma_action_step_lists(actions[n - 1]);
        assert(actions.take(n).drop_last() =~= actions.take(n - 1));
        assert(applied_changes(actions_steps(actions, n)) =~= committed_changes(actions.take(n)));
        assert(run_checks(actions_steps(actions, n)) =~= committed_checks(actions.take(n)));
        assert(step_marks(actions_steps(actions, n)) =~= truncation_marks(actions.take(n)));
    }
}

/// Whether a log can be committed: it neither drops the table nor maintains it.
pub open spec fn is_ordinary(actions: Seq<ActionView>) -> bool {
    forall|i: int| 0 <= i < actions.len() ==> !(#[trigger] actions[i] is Drop) && !(actions[i] is Vacuum)
}

proof fn lemma_planned_steps<'a>(
    actions: Seq<ActionView>,
    plan: TxTableCommitPlan<'a>,
    location: Seq<char>,
)
    requires
        is_ordinary(actions),
        planned(actions, Ok::<TxTableCommitPlan<'a>, IcebergError>(plan)),
    ensures
        plan.vacuum is None,
        effective_views(plan.actions@) == effective(actions),
        attempted(plan.vacuum, effective_views(plan.actions@), location) == actions_steps(
            effective(actions),
            effective(actions).len() as int,
        ),
{
    assert(forall|i: int| 0 <= i < actions.len() ==> !uncommittable(#[trigger] actions[i]));
    let steps = attempted(plan.vacuum, effective_views(plan.actions@), location);
    assert(steps =~= actions_steps(
        effective_views(plan.actions@),
        effective_views(plan.actions@).len() as int,
    ));
}

/// Carrying out the steps of an attempt does to the table's files what the
/// transaction asked for, change after change. Where it truncated the table, no
/// file that the table had is left.
pub proof fn attempts_do_what_the_transaction_asked<'a>(
    files: FilesView,
    actions: Seq<ActionView>,
    plan: TxTableCommitPlan<'a>,
    location: Seq<char>,
)
    requires
        is_ordinary(actions),
        planned(actions, Ok::<TxTableCommitPlan<'a>, IcebergError>(plan)),
    ensures
        ({
            let steps = attempted(plan.vacuum, effective_views(plan.actions@), location);
            &&& files.after_steps(steps) == files_after(files, actions, actions.len() as int)
            &&& has_truncate(actions) ==> files.after_steps(steps) == FilesView::none().after_steps(steps)
        }),
{
    let effects = effective(actions);
    lemma_planned_steps(actions, plan, location);
    assert(effects.take(effects.len() as int) =~= effects);
    lemma_steps_have_committed_effect(files, effects, effects.len() as int);
    lemma_steps_have_committed_effect(FilesView::none(), effects, effects.len() as int);
    commit_has_the_effect_of_the_log(files, actions);
    commit_has_the_effect_of_the_log(FilesView::none(), actions);
    if has_truncate(actions) {
        let t = choose|i: int| 0 <= i < actions.len() && #[trigger] actions[i] is Truncate;
        lemma_truncated_start(files, actions, t, actions.len() as int);
    }
}

proof fn lemma_truncated_start(files: FilesView, actions: Seq<ActionView>, t: int, n: int)
    requires
        0 <= t < n <= actions.len(),
        actions[t] is Truncate,
    ensures
        files_after(files, actions, n) == files_after(FilesView::none(), actions, n),
    decreases n,
{
    if t < n - 1 {
        lemma_truncated_start(files, actions, t, n - 1);
    }
}

/// Of the steps of an attempt that change files, the first truncates the base
/// where the transaction truncated the table, and no other does.
pub proof fn attempts_truncate_once<'a>(
    actions: Seq<ActionView>,
    plan: TxTableCommitPlan<'a>,
    location: Seq<char>,
)
    requires
        is_ordinary(actions),
        planned(actions, Ok::<TxTableCommitPlan<'a>, IcebergError>(plan)),
    ensures
        ({
            let marks = step_marks(attempted(plan.vacuum, effective_views(plan.actions@), location));
            &&& has_truncate(actions) ==> marks.len() > 0
            &&& forall|k: int|
                0 <= k < marks.len() ==> (#[trigger] marks[k] <==> k == 0 && has_truncate(actions))
        }),
{
    let effects = effective(actions);
    lemma_planned_steps(actions, plan, location);
    assert(effects.take(effects.len() as int) =~= effects);
    lemma_step_lists(effects, effects.len() as int);
    first_file_change_truncates(actions);
}

/// An attempt applies the transaction's schema and property changes, all and in
/// order, and runs the conflict checks of the file changes that it makes.
pub proof fn attempts_apply_and_check_everything<'a>(
    actions: Seq<ActionView>,
    plan: TxTableCommitPlan<'a>,
    location: Seq<char>,
)
    requires
        is_ordinary(actions),
        planned(actions, Ok::<TxTableCommitPlan<'a>, IcebergError>(plan)),
    ensures
        ({
            let steps = attempted(plan.vacuum, effective_views(plan.actions@), location);
            &&& applied_changes(steps) == changes_before(actions, actions.len() as int)
            &&& run_checks(steps) == checks_after(actions, actions.len() as int)
        }),
{
    let effects = effective(actions);
    lemma_planned_steps(actions, plan, location);
    assert(effects.take(effects.len() as int) =~= effects);
    lemma_step_lists(effects, effects.len() as int);
    commit_makes_the_schema_changes_of_the_log(actions);
    commit_runs_the_checks_of_the_log(actions);
}

/// Whether step `i` applies a change that the two steps before it held against
/// the metadata reached so far and carried that metadata on to.
pub open spec fn is_prepared(steps: Seq<StepView>, i: int) -> bool {
    match steps[i] {
        StepView::ApplySchema(update) => i >= 2 && steps[i - 1] == StepView::AdvanceSchema(update)
            && steps[i - 2] == StepView::ValidateSchema(update),
        StepView::ApplyProperties(update) => i >= 2 && steps[i - 1] == StepView::AdvanceProperties(
            update,
        ) && steps[i - 2] == StepView::ValidateProperties(update),
        _ => true,
    }
}

proof fn lemma_prepared(actions: Seq<EffectiveView>, n: int)
    requires
        0 <= n <= actions.len(),
    ensures
        forall|i: int|
            0 <= i < actions_steps(actions, n).len() ==> #[trigger] is_prepared(
                actions_steps(actions, n),
                i,
            ),
    decreases n,
{
    if n > 0 {
        lemma_prepared(actions, n - 1);
        let earlier = actions_steps(actions, n - 1);
        let own = action_steps(actions[n - 1]);
        let steps = actions_steps(actions, n);
        assert forall|i: int| 0 <= i < steps.len() implies #[trigger] is_prepared(steps, i) by {
            if i < earlier.len() {
                assert(is_prepared(earlier, i));
                assert(steps[i] == earlier[i]);
                if i >= 2 {
                    assert(steps[i - 1] == earlier[i - 1]);
                    assert(steps[i - 2] == earlier[i - 2]);
                }
            } else {
                let k = i - earlier.len();
                assert(steps[i] == own[k]);
                if k >= 2 {
                    assert(steps[i - 1] == own[k - 1]);
                    assert(steps[i - 2] == own[k - 2]);
                }
            }
        }
    }
}

/// Every schema and property change is held against the metadata that the
/// changes before it lead to, before it is applied.
pub proof fn changes_are_validated_first(actions: Seq<EffectiveView>, i: int)
    requires
        0 <= i < actions_steps(actions, actions.len() as int).len(),
    ensures
        is_prepared(actions_steps(actions, actions.len() as int), i),
{
    lemma_prepared(actions, actions.len() as int);
}

/// A maintenance run first makes sure that it owns the table, replaces the
/// files that it rewrote and no others, and merges manifests and expires
/// snapshots as it was told.
pub proof fn maintenance_does_what_was_prepared(
    files: FilesView,
    vacuum: PreparedVacuum,
    location: Seq<char>,
)
    ensures
        ({
            let steps = vacuum_steps(vacuum, location);
            &&& steps.len() >= 2
            &&& steps[0] is EnsureTableRoot
            &&& steps[1] == StepView::EnsurePath(location)
            &&& files.after_steps(steps) == match vacuum.rewrite {
                Some(rewrite) => files.rewritten(rewrite),
                None => files,
            }
            &&& forall|m: ManifestRewrite| #[trigger]
                steps.contains(StepView::RewriteManifests(m)) <==> vacuum.manifest_rewrite == Some(m)
            &&& forall|t: i64| #[trigger]
                steps.contains(StepView::ExpireSnapshots { as_of_ms: t }) <==> vacuum.expire_as_of_ms == t
            &&& applied_changes(steps).len() == 0
        }),
{
    reveal_with_fuel(applied_changes, 6);
    reveal_with_fuel(FilesView::after_steps, 6);
    let steps = vacuum_steps(vacuum, location);
    assert forall|m: ManifestRewrite| #[trigger] steps.contains(StepView::RewriteManifests(m))
        <==> vacuum.manifest_rewrite == Some(m) by {
        if vacuum.manifest_rewrite == Some(m) {
            let at = if vacuum.rewrite is Some {
                3int
            } else {
                2int
            };
            assert(steps[at] == StepView::RewriteManifests(m));
        }
    }
    assert forall|t: i64| #[trigger] steps.contains(StepView::ExpireSnapshots { as_of_ms: t })
        <==> vacuum.expire_as_of_ms == t by {
        assert(steps[steps.len() - 1] == StepView::ExpireSnapshots { as_of_ms: vacuum.expire_as_of_ms });
    }
}

/// A commit in the course of events: the state before each event and after the
/// last, and the step that each event led to.
pub open spec fn is_course(
    states: Seq<CommitView>,
    events: Seq<CommitEvent>,
    steps: Seq<CommitStepView>,
) -> bool {
    &&& states.len() == events.len() + 1
    &&& steps.len() == events.len()
    &&& forall|i: int|
        0 <= i < events.len() ==> (#[trigger] states[i]).leads_to(events[i], states[i + 1], steps[i])
}

/// How often some steps begin an attempt.
pub open spec fn attempts(steps: Seq<CommitStepView>) -> nat {
    steps.filter(|step: CommitStepView| step.next is LoadLocation).len()
}

/// What a commit is to do never changes, and its bookkeeping stays sound.
pub proof fn step_keeps_the_task(
    before: CommitView,
    event: CommitEvent,
    after: CommitView,
    step: CommitStepView,
)
    requires
        before.wf(),
        before.leads_to(event, after, step),
    ensures
        after.wf(),
        after.relid == before.relid,
        after.actions == before.actions,
        after.vacuum == before.vacuum,
        after.expected_location == before.expected_location,
        after.canceled_paths == before.canceled_paths,
        after.max_retries == before.max_retries,
        after.retries == before.retries + if step.next is LoadLocation {
            1int
        } else {
            0int
        },
{
}

/// Every attempt commits the same plan: whatever happened before it, what is to
/// be committed is what the commit began with.
pub proof fn every_attempt_commits_one_plan(
    states: Seq<CommitView>,
    events: Seq<CommitEvent>,
    steps: Seq<CommitStepView>,
    i: int,
)
    requires
        is_course(states, events, steps),
        states[0].wf(),
        0 <= i < states.len(),
    ensures
        states[i].wf(),
        states[i].relid == states[0].relid,
        states[i].actions == states[0].actions,
        states[i].vacuum == states[0].vacuum,
        states[i].expected_location == states[0].expected_location,
        states[i].canceled_paths == states[0].canceled_paths,
    decreases i,
{
    if i > 0 {
        every_attempt_commits_one_plan(states, events, steps, i - 1);
        assert(states[i - 1].leads_to(events[i - 1], states[i], steps[i - 1]));
        step_keeps_the_task(states[i - 1], events[i - 1], states[i], steps[i - 1]);
    }
}

/// A commit begins at most one attempt more than its retry limit, whatever
/// happens to it.
pub proof fn attempts_are_bounded(
    states: Seq<CommitView>,
    events: Seq<CommitEvent>,
    steps: Seq<CommitStepView>,
)
    requires
        is_course(states, events, steps),
        states[0].wf(),
        states[0].retries == 0,
        states[0].max_retries >= 0,
    ensures
        attempts(steps) <= states[0].max_retries + 1,
{
    lemma_attempts_counted(states, events, steps);
}

proof fn lemma_attempts_counted(
    states: Seq<CommitView>,
    events: Seq<CommitEvent>,
    steps: Seq<CommitStepView>,
)
    requires
        is_course(states, events, steps),
        states[0].wf(),
        states[0].retries == 0,
        states[0].max_retries >= 0,
    ensures
        states.last().wf(),
        states.last().max_retries == states[0].max_retries,
        states.last().retries == attempts(steps),
    decreases events.len(),
{
    reveal(Seq::filter);
    if events.len() > 0 {
        let earlier = states.drop_last();
        let n = events.len() - 1;
        assert(is_course(earlier, events.drop_last(), steps.drop_last())) by {
            assert forall|i: int| 0 <= i < n implies (#[trigger] earlier[i]).leads_to(
                events.drop_last()[i],
                earlier[i + 1],
                steps.drop_last()[i],
            ) by {
                assert(states[i].leads_to(events[i], states[i + 1], steps[i]));
            }
        }
        lemma_attempts_counted(earlier, events.drop_last(), steps.drop_last());
        assert(states[n].leads_to(events[n], states[n + 1], steps[n]));
        step_keeps_the_task(states[n], events[n], states[n + 1], steps[n]);
    }
}

/// Metadata files that an attempt wrote are kept only once the catalog points
/// at them, and never both kept and discarded.
pub proof fn files_are_kept_only_after_the_catalog_moved(
    before: CommitView,
    event: CommitEvent,
    after: CommitView,
    step: CommitStepView,
)
    requires
        before.wf(),
        before.leads_to(event, after, step),
    ensures
        step.promote_attempt <==> (before.phase is AwaitCas && event matches CommitEvent::Cas(
            CasOutcome::Updated { .. },
        )),
        !(step.promote_attempt && step.discard_attempt),
{
}

/// When another transaction moved the table first, the attempt's files are
/// discarded, the client is told, and the commit starts over from the catalog
/// or gives up.
pub proof fn a_lost_race_starts_over(
    before: CommitView,
    event: CommitEvent,
    after: CommitView,
    step: CommitStepView,
)
    requires
        before.wf(),
        before.leads_to(event, after, step),
        before.phase is AwaitCas,
        event matches CommitEvent::Cas(CasOutcome::Conflict),
    ensures
        step.discard_attempt && step.notify_rebase,
        before.retries <= before.max_retries ==> step.next is LoadLocation,
        before.retries > before.max_retries ==> step.next == NextView::Fail(
            IcebergError::MetadataCommitConflict {
                relid: before.relid,
                max_retries: before.max_retries as i32,
            },
        ),
{
}

/// Objects are scheduled for deletion only while the catalog entry is locked
/// or after it moved, and the report counts them.
pub proof fn deletion_waits_for_the_catalog(
    before: CommitView,
    event: CommitEvent,
    after: CommitView,
    step: CommitStepView,
)
    requires
        before.leads_to(event, after, step),
        step.next is RegisterCleanup,
        before.phase matches PhaseView::AwaitLock { report, paths } ==> report.objects_scheduled_for_deletion
            == paths.len() as u64,
    ensures
        event matches CommitEvent::Lock(LockOutcome::Locked) || event matches CommitEvent::Cas(
            CasOutcome::Updated { .. },
        ),
        after.phase is AwaitRegistration,
        after.phase->AwaitRegistration_report.objects_scheduled_for_deletion
            == step.next->RegisterCleanup_paths.len() as u64,
{
}

/// Whether the location that an attempt works on is the one that a truncation
/// saw, where there is a truncation.
pub open spec fn works_on_expected(commit: CommitView) -> bool {
    commit.expected_location is Some ==> match commit.phase {
        PhaseView::AwaitMaterialized { location } => location == commit.expected_location->Some_0,
        PhaseView::AwaitManifests { location, .. } => location == commit.expected_location->Some_0,
        PhaseView::AwaitCleanup { location, .. } => location == commit.expected_location->Some_0,
        _ => true,
    }
}

/// A commit with a truncation only ever replaces the metadata that the
/// truncation saw.
pub proof fn truncation_replaces_what_it_saw(
    before: CommitView,
    event: CommitEvent,
    after: CommitView,
    step: CommitStepView,
)
    requires
        before.wf(),
        before.leads_to(event, after, step),
        works_on_expected(before),
    ensures
        works_on_expected(after),
        before.expected_location is Some && step.next is CasUpdate ==> step.next->expected
            == before.expected_location->Some_0,
{
}

/// When the catalog moves an entry as a commit asks, the entry goes from where
/// the attempt found the table to where the attempt wrote it, and remembers
/// where it was. Nothing but the table's place and its maintenance changes.
pub proof fn a_moved_entry_remembers_where_it_was(
    before: CommitView,
    event: CommitEvent,
    after: CommitView,
    step: CommitStepView,
    update: CasUpdate<'_>,
    row: RowView,
)
    requires
        before.wf(),
        before.leads_to(event, after, step),
        step.next is CasUpdate,
        moves_table(update, step.next->expected, step.next->new_location),
        row.len() >= COLUMN_COUNT,
        MetadataView::of_row(row) is Some,
        text_of(row, METADATA_LOCATION) == Some(step.next->expected),
    ensures
        ({
            let found = MetadataView::of_row(row)->Some_0;
            let left = MetadataView::of_row(cas_change(update, row).applied(row))->Some_0;
            &&& MetadataView::of_row(cas_change(update, row).applied(row)) is Some
            &&& left.metadata_location == Some(step.next->new_location)
            &&& left.previous_metadata_location == found.metadata_location
            &&& left.metadata_location != left.previous_metadata_location
            &&& left.relid == found.relid
            &&& left.default_spec_id == found.default_spec_id
            &&& left.maintenance_due_at == rescheduled(
                update.maintenance_schedule,
                found.maintenance_due_at,
            ).0
        }),
{
    an_unmoved_table_is_left_alone(before, event, after, step);
    cas_moves_only_the_table(update, row);
}

/// The catalog is asked to move an entry only to metadata at another place.
pub proof fn an_unmoved_table_is_left_alone(
    before: CommitView,
    event: CommitEvent,
    after: CommitView,
    step: CommitStepView,
)
    requires
        before.wf(),
        before.leads_to(event, after, step),
        step.next is CasUpdate,
    ensures
        step.next->expected != step.next->new_location,
{
}

/// A commit that ended answers every further event with a failure.
pub proof fn an_ended_commit_stays_ended(
    before: CommitView,
    event: CommitEvent,
    after: CommitView,
    step: CommitStepView,
)
    requires
        before.leads_to(event, after, step),
        before.phase is Ended,
    ensures
        after == before,
        step.next is Fail,
        !step.discard_attempt && !step.promote_attempt && !step.notify_rebase,
{
}

/// A truncation is refused where the catalog is not at the location that it
/// saw; where there is none, or the catalog is there, the attempt goes on from
/// that location. A table without a location cannot be committed.
pub proof fn truncations_of_a_moved_table_are_refused(
    before: CommitView,
    location: Option<String>,
    after: CommitView,
    step: CommitStepView,
)
    requires
        before.phase is AwaitLocation,
        before.leads_to(CommitEvent::Location(location), after, step),
    ensures
        location is None ==> step.next == NextView::Fail(IcebergError::MetadataLocationNull),
        location matches Some(place) ==> if before.expected_location is Some
            && before.expected_location->Some_0 != place@ {
            after.phase is Ended && step.next == NextView::Fail(
                IcebergError::TruncateCommitConflict { relid: before.relid },
            )
        } else {
            step.next == (NextView::Materialize { location: place@ })
        },
{
}

/// Whether the catalog has moved, or the table was left alone, and only the
/// report is still to be made.
pub open spec fn is_past_the_catalog(phase: PhaseView) -> bool {
    phase is AwaitRegistration || phase is AwaitClock || phase is Ended
}

/// Once a commit is past the catalog it stays there: it begins no attempt and
/// asks for no other move, whatever happens.
pub proof fn committed_tables_stay_committed(
    before: CommitView,
    event: CommitEvent,
    after: CommitView,
    step: CommitStepView,
)
    requires
        before.leads_to(event, after, step),
        is_past_the_catalog(before.phase) || event matches CommitEvent::Cas(CasOutcome::Updated { .. }),
    ensures
        is_past_the_catalog(after.phase),
        !(step.next is LoadLocation) && !(step.next is Materialize) && !(step.next is CasUpdate),
        !step.notify_rebase,
{
}

/// A commit that finishes hands over the files that are of no use, all of
/// them, and reports exactly where it was a maintenance run. It finishes after
/// the catalog moved, or when the table needed no move.
pub proof fn finished_commits_hand_everything_over(
    before: CommitView,
    event: CommitEvent,
    after: CommitView,
    step: CommitStepView,
)
    requires
        before.wf(),
        before.leads_to(event, after, step),
        step.next is Finish,
    ensures
        after.phase is Ended,
        step.next->canceled_paths == before.canceled_paths,
        step.next->Finish_report is Some <==> before.vacuum is Some,
        before.phase is AwaitClock || before.phase is AwaitCas || before.phase is AwaitMaterialized,
        before.phase is AwaitCas ==> event matches CommitEvent::Cas(CasOutcome::Updated { .. }),
        before.phase matches PhaseView::AwaitMaterialized { location } ==> event matches CommitEvent::Materialized(
            table,
        ) && table.metadata_location is Some && table.metadata_location->Some_0@ == location,
{
}

/// Whether maintenance came closer is reported as the catalog said it.
pub proof fn schedule_changes_are_handed_on(
    before: CommitView,
    schedule_advanced: bool,
    after: CommitView,
    step: CommitStepView,
)
    requires
        before.wf(),
        before.phase is AwaitCas,
        before.leads_to(CommitEvent::Cas(CasOutcome::Updated { schedule_advanced }), after, step),
    ensures
        match after.phase {
            PhaseView::AwaitRegistration { schedule_advanced: kept, .. } => kept == schedule_advanced,
            _ => step.next is Finish && step.next->Finish_schedule_advanced == schedule_advanced,
        },
{
}

/// A maintenance run reports as many lost races as it began attempts before
/// the one that it reports on.
pub proof fn lost_races_are_reported(
    before: CommitView,
    event: CommitEvent,
    after: CommitView,
    step: CommitStepView,
)
    requires
        before.wf(),
        before.leads_to(event, after, step),
        after.phase is AwaitCleanup,
    ensures
        after.phase->AwaitCleanup_report.cas_retries + 1 == after.retries,
        after.retries == before.retries,
        after.phase->AwaitCleanup_report.metrics.contains(
            VacuumMetric {
                name: VacuumMetricName::ValidationConflicts,
                value: (after.retries - 1) as u64,
            },
        ),
{
    let metrics = after.phase->AwaitCleanup_report.metrics;
    assert(metrics[metrics.len() - 1] == metrics.last());
}

proof fn lemma_split_by<A>(s: Seq<A>, keep: spec_fn(A) -> bool, rest: spec_fn(A) -> bool)
    requires
        forall|a: A| #[trigger] keep(a) != rest(a),
    ensures
        s.filter(keep).len() + s.filter(rest).len() == s.len(),
    decreases s.len(),
{
    reveal(Seq::filter);
    if s.len() > 0 {
        lemma_split_by(s.drop_last(), keep, rest);
        assert(keep(s.last()) != rest(s.last()));
    }
}

/// A maintenance run reports the snapshots that the table had and has no more:
/// with those that it kept they are all that it had.
pub proof fn expired_snapshots_are_reported(commit: CommitView, table: MaterializedTable)
    requires
        commit.vacuum is Some,
        table.base_snapshot_ids@.len() <= u64::MAX,
    ensures
        commit.materialized_report(table).snapshots_expired + table.base_snapshot_ids@.filter(
            |id: i64| table.snapshot_ids@.contains(id),
        ).len() == table.base_snapshot_ids@.len(),
{
    let gone = |id: i64| !table.snapshot_ids@.contains(id);
    let kept = |id: i64| table.snapshot_ids@.contains(id);
    lemma_split_by(table.base_snapshot_ids@, gone, kept);
}

/// A maintenance run reports, of the manifests of its snapshot, those that the
/// snapshot added: with the others they are all of them.
pub proof fn rewritten_manifests_are_counted(added: Seq<i64>, current: i64)
    ensures
        equal_count(added, current) + added.filter(|id: i64| id != current).len() == added.len(),
    decreases added.len(),
{
    reveal(Seq::filter);
    if added.len() > 0 {
        rewritten_manifests_are_counted(added.drop_last(), current);
    }
}

/// The figures that a maintenance run reports of unreachable objects are those
/// that were found, each under its own name.
pub proof fn reported_figures_are_those_found(commit: CommitView, report: ReportView, found: FoundView)
    requires
        found.expired_paths.len() <= u64::MAX,
        found.orphan_paths.len() <= u64::MAX,
    ensures
        ({
            let metrics = commit.cleanup_report(report, found).metrics;
            &&& report.metrics.is_prefix_of(metrics)
            &&& metrics.contains(
                VacuumMetric {
                    name: VacuumMetricName::ExpirationUnreachableObjects,
                    value: found.expired_paths.len() as u64,
                },
            )
            &&& metrics.contains(
                VacuumMetric { name: VacuumMetricName::UnreachableDataFiles, value: found.data },
            )
            &&& metrics.contains(
                VacuumMetric { name: VacuumMetricName::UnreachableDeleteFiles, value: found.delete },
            )
            &&& metrics.contains(
                VacuumMetric { name: VacuumMetricName::UnreachableManifests, value: found.manifest },
            )
            &&& metrics.contains(
                VacuumMetric {
                    name: VacuumMetricName::UnreachableManifestLists,
                    value: found.manifest_list,
                },
            )
            &&& metrics.contains(
                VacuumMetric { name: VacuumMetricName::UnreachableStatistics, value: found.statistics },
            )
            &&& metrics.contains(
                VacuumMetric { name: VacuumMetricName::UnreachableMetadataFiles, value: found.metadata },
            )
            &&& commit.vacuum->Some_0.orphan_older_than_ms is Some ==> metrics.contains(
                VacuumMetric {
                    name: VacuumMetricName::OrphanCandidates,
                    value: found.orphan_paths.len() as u64,
                },
            )
            &&& metrics.contains(
                VacuumMetric { name: VacuumMetricName::CleanupPlanningMs, value: found.planning_ms },
            )
        }),
{
    let metrics = commit.cleanup_report(report, found).metrics;
    let n = report.metrics.len() as int;
    assert(report.metrics.is_prefix_of(metrics)) by {
        assert(metrics.take(n) =~= report.metrics);
    }
    assert(metrics[n].name == VacuumMetricName::ExpirationUnreachableObjects);
    assert(metrics[n + 1] == VacuumMetric {
        name: VacuumMetricName::UnreachableDataFiles,
        value: found.data,
    });
    assert(metrics[n + 2] == VacuumMetric {
        name: VacuumMetricName::UnreachableDeleteFiles,
        value: found.delete,
    });
    assert(metrics[n + 3] == VacuumMetric {
        name: VacuumMetricName::UnreachableManifests,
        value: found.manifest,
    });
    assert(metrics[n + 4] == VacuumMetric {
        name: VacuumMetricName::UnreachableManifestLists,
        value: found.manifest_list,
    });
    assert(metrics[n + 5] == VacuumMetric {
        name: VacuumMetricName::UnreachableStatistics,
        value: found.statistics,
    });
    assert(metrics[n + 6] == VacuumMetric {
        name: VacuumMetricName::UnreachableMetadataFiles,
        value: found.metadata,
    });
    if commit.vacuum->Some_0.orphan_older_than_ms is Some {
        assert(metrics[n + 7].name == VacuumMetricName::OrphanCandidates);
    }
    assert(metrics[metrics.len() - 1] == VacuumMetric {
        name: VacuumMetricName::CleanupPlanningMs,
        value: found.planning_ms,
    });
}

/// The objects that are scheduled for deletion are those that expiration left
/// unreachable, and, where the run cleans orphans up, the orphans; each once.
/// Where no search was made there are none.
pub proof fn unreachable_objects_are_scheduled(
    commit: CommitView,
    scan: bool,
    candidates: CleanupCandidates,
    path: Seq<char>,
)
    ensures
        commit.cleanup_paths(found_by(scan, candidates)).contains(path) <==> scan && (texts(
            candidates.expired_paths@,
        ).contains(path) || (commit.vacuum->Some_0.orphan_older_than_ms is Some && texts(
            candidates.orphan_paths@,
        ).contains(path))),
        commit.cleanup_paths(found_by(scan, candidates)).no_duplicates(),
{
    let found = found_by(scan, candidates);
    let paths = commit.cleanup_paths(found);
    ascending_sets_exist(texts(candidates.expired_paths@));
    ascending_sets_exist(texts(candidates.orphan_paths@));
    ascending_sets_exist(found.expired_paths + found.orphan_paths);
    lemma_contains_concat(found.expired_paths, found.orphan_paths, path);
    if scan || commit.vacuum->Some_0.orphan_older_than_ms is Some {
        ascending_has_no_duplicates(paths);
    }
}

/// A maintenance run ends with the time that it took.
pub proof fn elapsed_time_is_reported(
    before: CommitView,
    ms: u64,
    after: CommitView,
    step: CommitStepView,
)
    requires
        before.phase is AwaitClock,
        before.leads_to(CommitEvent::Elapsed(ms), after, step),
    ensures
        step.next is Finish,
        step.next->Finish_report is Some,
        ({
            let told = step.next->Finish_report->Some_0;
            let earlier = before.phase->AwaitClock_report;
            &&& told.metrics.drop_last() == earlier.metrics
            &&& told.metrics.last() == (VacuumMetric { name: VacuumMetricName::CommitMs, value: ms })
            &&& told.snapshots_expired == earlier.snapshots_expired
            &&& told.manifests_rewritten == earlier.manifests_rewritten
            &&& told.cas_retries == earlier.cas_retries
            &&& told.objects_scheduled_for_deletion == earlier.objects_scheduled_for_deletion
        }),
{
    let told = step.next->Finish_report->Some_0;
    assert(told.metrics.drop_last() =~= before.phase->AwaitClock_report.metrics);
}

/// The names of figures can be told apart, and each figure keeps its name.
pub proof fn figures_keep_their_names(report: ReportView, name: VacuumMetricName, value: u64)
    ensures
        report.with(name, value as nat).metrics.last() == (VacuumMetric { name, value }),
        report.with(name, value as nat).metrics.drop_last() == report.metrics,
        report.with(name, value as nat).snapshots_expired == report.snapshots_expired,
        report.with(name, value as nat).objects_scheduled_for_deletion
            == report.objects_scheduled_for_deletion,
{
    assert(report.with(name, value as nat).metrics.drop_last() =~= report.metrics);
}

} // verus!
