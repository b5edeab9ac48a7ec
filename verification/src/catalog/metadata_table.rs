//! The catalog row that holds where a table's metadata is and when the table
//! is next due for maintenance.
//!
//! The columns are `relid`, `metadata_location`, `previous_metadata_location`,
//! `default_spec_id` and `maintenance_due_at`. The functions here decide on
//! rows that were read and say how to change them; reading and writing the
//! table is left to the caller.

use vstd::prelude::*;

use crate::Oid;
use crate::catalog::catalog_row::{
    CatalogCell, CatalogRow, CellView, ReplacementView, RowView, TimestampTz, TupleFields,
    TupleReplacement, column_of, int4_cell, int4_cell_of, int4_of, null_row, oid_of, str_view,
    text_cell, text_cell_of, text_of, text_view, timestamptz_cell, timestamptz_cell_of,
    timestamptz_of, with_column,
};
use crate::error::{IcebergError, IcebergResult};
use crate::text::{signed_decimal, signed_decimal_text};

verus! {

/// Number of the column that identifies the table.
pub const RELID: i16 = 1;

/// Number of the column that holds the current metadata location.
pub const METADATA_LOCATION: i16 = 2;

/// Number of the column that holds the previous metadata location.
pub const PREVIOUS_METADATA_LOCATION: i16 = 3;

/// Number of the column that holds the default partition specification.
pub const DEFAULT_SPEC_ID: i16 = 4;

/// Number of the column that holds when maintenance is due.
pub const MAINTENANCE_DUE_AT: i16 = 5;

/// How many columns the table has.
pub const COLUMN_COUNT: usize = 5;

// -- Reading cells ------------------------------------------------------------

/// What is said of a required column without a usable value.
pub open spec fn invalid_cell(field_name: Seq<char>, attno: i16) -> Seq<char> {
    field_name + " (attno "@ + signed_decimal(attno as int) + ") is null or undecodable"@
}

/// Whether a failure says that a required column has no usable value.
pub open spec fn reports_invalid_cell(e: IcebergError, field_name: Seq<char>, attno: i16) -> bool {
    e matches IcebergError::MetadataCatalogInvalidRecord(text) && text@ == invalid_cell(
        field_name,
        attno,
    )
}

fn invalid_record(field_name: &'static str, attno: i16) -> (r: IcebergError)
    ensures
        reports_invalid_cell(r, field_name@, attno),
{
    let mut text = field_name.to_owned();
    text.append(" (attno ");
    let number = signed_decimal_text(attno as i64);
    text.append(number.as_str());
    text.append(") is null or undecodable");
    IcebergError::MetadataCatalogInvalidRecord(text)
}

// -- Values -------------------------------------------------------------------

/// What a successful compare-and-swap writes. Columns that are not named here
/// stay as they are.
#[derive(Debug, Clone, Copy)]
pub struct CasUpdate<'a> {
    pub metadata_location: Option<&'a str>,
    pub previous_metadata_location: Option<&'a str>,
    pub maintenance_schedule: MaintenanceScheduleUpdate,
}

/// What a change does about the next maintenance.
#[derive(Debug, Clone, Copy, PartialEq, Eq, Structural)]
pub enum MaintenanceScheduleUpdate {
    Preserve,
    ScheduleNoLaterThan(TimestampTz),
    CompleteIfDueMatches(Option<TimestampTz>),
}

impl Default for MaintenanceScheduleUpdate {
    fn default() -> (r: Self)
        ensures
            r == MaintenanceScheduleUpdate::Preserve,
    {
        MaintenanceScheduleUpdate::Preserve
    }
}

/// What a maintenance run saw when it began.
#[derive(Debug)]
pub struct MaintenanceCompletionToken {
    pub metadata_location: String,
    pub maintenance_due_at: Option<TimestampTz>,
}

/// A table that is due for maintenance.
#[derive(Debug)]
pub struct MaintenanceCandidate {
    pub relid: Oid,
    pub metadata_location: Option<String>,
    pub due_at: TimestampTz,
}

/// A table that is due for maintenance.
pub struct CandidateView {
    pub relid: Oid,
    pub metadata_location: Option<Seq<char>>,
    pub due_at: TimestampTz,
}

impl View for MaintenanceCandidate {
    type V = CandidateView;

    open spec fn view(&self) -> CandidateView {
        CandidateView {
            relid: self.relid,
            metadata_location: text_view(self.metadata_location),
            due_at: self.due_at,
        }
    }
}

fn same_text(a: &Option<String>, b: Option<&str>) -> (r: bool)
    ensures
        r == (text_view(*a) == str_view(b)),
{
    match (a, b) {
        (Some(x), Some(y)) => *x == y.to_owned(),
        (None, None) => true,
        _ => false,
    }
}

fn same_time(a: Option<TimestampTz>, b: Option<TimestampTz>) -> (r: bool)
    ensures
        r == (a == b),
{
    match (a, b) {
        (Some(x), Some(y)) => x == y,
        (None, None) => true,
        _ => false,
    }
}

impl MaintenanceCandidate {
    /// Whether the table is still as a maintenance run saw it.
    pub fn matches(&self, token: &MaintenanceCompletionToken) -> (r: bool)
        ensures
            r == (self@.metadata_location == Some(token.metadata_location@) && Some(self@.due_at)
                == token.maintenance_due_at),
    {
        same_text(&self.metadata_location, Some(token.metadata_location.as_str())) && same_time(
            Some(self.due_at),
            token.maintenance_due_at,
        )
    }
}

/// How the table took a change of a row that was read before.
#[derive(Debug, Clone, Copy, PartialEq, Eq, Structural)]
pub enum CatalogUpdateResult {
    Success,
    /// Another transaction changed the row first.
    Conflict,
}

/// One row of the table.
#[derive(Debug)]
pub struct IcebergMetadata {
    pub relid: Oid,
    pub metadata_location: Option<String>,
    pub previous_metadata_location: Option<String>,
    pub default_spec_id: Option<i32>,
    pub maintenance_due_at: Option<TimestampTz>,
}

/// One row of the table.
pub struct MetadataView {
    pub relid: Oid,
    pub metadata_location: Option<Seq<char>>,
    pub previous_metadata_location: Option<Seq<char>>,
    pub default_spec_id: Option<i32>,
    pub maintenance_due_at: Option<TimestampTz>,
}

impl View for IcebergMetadata {
    type V = MetadataView;

    open spec fn view(&self) -> MetadataView {
        MetadataView {
            relid: self.relid,
            metadata_location: text_view(self.metadata_location),
            previous_metadata_location: text_view(self.previous_metadata_location),
            default_spec_id: self.default_spec_id,
            maintenance_due_at: self.maintenance_due_at,
        }
    }
}

impl MetadataView {
    /// The row of a table of which nothing is known.
    pub open spec fn blank(relid: Oid) -> MetadataView {
        MetadataView {
            relid,
            metadata_location: None,
            previous_metadata_location: None,
            default_spec_id: None,
            maintenance_due_at: None,
        }
    }

    /// The cells of this row in a table of `natts` columns.
    pub open spec fn row(self, natts: nat) -> RowView {
        with_column(
            with_column(
                with_column(
                    with_column(
                        with_column(null_row(natts), RELID, Some(CellView::Oid(self.relid))),
                        METADATA_LOCATION,
                        text_cell_of(self.metadata_location),
                    ),
                    PREVIOUS_METADATA_LOCATION,
                    text_cell_of(self.previous_metadata_location),
                ),
                DEFAULT_SPEC_ID,
                int4_cell_of(self.default_spec_id),
            ),
            MAINTENANCE_DUE_AT,
            timestamptz_cell_of(self.maintenance_due_at),
        )
    }

    /// The row that some cells hold, if they name a table.
    pub open spec fn of_row(row: RowView) -> Option<MetadataView> {
        match oid_of(row, RELID) {
            Some(relid) => Some(
                MetadataView {
                    relid,
                    metadata_location: text_of(row, METADATA_LOCATION),
                    previous_metadata_location: text_of(row, PREVIOUS_METADATA_LOCATION),
                    default_spec_id: int4_of(row, DEFAULT_SPEC_ID),
                    maintenance_due_at: timestamptz_of(row, MAINTENANCE_DUE_AT),
                },
            ),
            None => None,
        }
    }
}

/// When maintenance is due after a change, and whether that is sooner than
/// before.
pub open spec fn rescheduled(
    schedule: MaintenanceScheduleUpdate,
    due: Option<TimestampTz>,
) -> (Option<TimestampTz>, bool) {
    match schedule {
        MaintenanceScheduleUpdate::Preserve => (due, false),
        MaintenanceScheduleUpdate::ScheduleNoLaterThan(proposed) => if due is None || proposed
            < due->Some_0 {
            (Some(proposed), true)
        } else {
            (due, false)
        },
        MaintenanceScheduleUpdate::CompleteIfDueMatches(expected) => if due == expected {
            (None, false)
        } else {
            (due, false)
        },
    }
}

/// A change of the row, and whether the next maintenance comes closer.
#[derive(Debug)]
pub struct CasPlan {
    pub replacement: TupleReplacement,
    pub maintenance_deadline_advanced: bool,
}

// -- Decisions ----------------------------------------------------------------

impl IcebergMetadata {
    /// The row of a table of which nothing is known.
    pub fn new(relid: Oid) -> (r: Self)
        ensures
            r@ == MetadataView::blank(relid),
    {
        IcebergMetadata {
            relid,
            metadata_location: None,
            previous_metadata_location: None,
            default_spec_id: None,
            maintenance_due_at: None,
        }
    }

    /// This row with a metadata location.
    pub fn with_metadata_location(self, location: String) -> (r: Self)
        ensures
            r@ == (MetadataView { metadata_location: Some(location@), ..self@ }),
    {
        let mut row = self;
        row.metadata_location = Some(location);
        row
    }

    /// This row with a previous metadata location.
    pub fn with_previous_metadata_location(self, location: String) -> (r: Self)
        ensures
            r@ == (MetadataView { previous_metadata_location: Some(location@), ..self@ }),
    {
        let mut row = self;
        row.previous_metadata_location = Some(location);
        row
    }

    /// This row with a default partition specification.
    pub fn with_default_spec_id(self, spec_id: i32) -> (r: Self)
        ensures
            r@ == (MetadataView { default_spec_id: Some(spec_id), ..self@ }),
    {
        let mut row = self;
        row.default_spec_id = Some(spec_id);
        row
    }

    /// The cells that insert this row into a table of `natts` columns.
    pub fn insert(&self, natts: usize) -> (r: CatalogRow)
        requires
            natts >= COLUMN_COUNT,
        ensures
            r@ == self@.row(natts as nat),
    {
        let mut fields = TupleFields::new(natts);
        fields.set(RELID, Some(CatalogCell::Oid(self.relid)));
        fields.set(METADATA_LOCATION, owned_text_cell(&self.metadata_location));
        fields.set(PREVIOUS_METADATA_LOCATION, owned_text_cell(&self.previous_metadata_location));
        fields.set(DEFAULT_SPEC_ID, int4_cell(self.default_spec_id));
        fields.set(MAINTENANCE_DUE_AT, timestamptz_cell(self.maintenance_due_at));
        fields.form_tuple()
    }

    /// The row that some cells hold.
    pub fn from_tuple(tuple: &CatalogRow) -> (r: IcebergResult<Self>)
        ensures
            match r {
                Ok(row) => MetadataView::of_row(tuple@) == Some(row@),
                Err(e) => oid_of(tuple@, RELID) is None && reports_invalid_cell(e, "relid"@, RELID),
            },
    {
        let relid = match tuple.oid(RELID) {
            Some(relid) => relid,
            None => {
                return Err(invalid_record("relid", RELID));
            },
        };
        Ok(
            IcebergMetadata {
                relid,
                metadata_location: tuple.text(METADATA_LOCATION),
                previous_metadata_location: tuple.text(PREVIOUS_METADATA_LOCATION),
                default_spec_id: tuple.int4(DEFAULT_SPEC_ID),
                maintenance_due_at: tuple.timestamptz(MAINTENANCE_DUE_AT),
            },
        )
    }

    /// What a search by table found; nothing where it found no row.
    pub fn find_by_relid(found: Option<&CatalogRow>) -> (r: IcebergResult<Option<Self>>)
        ensures
            match r {
                Ok(None) => found is None,
                Ok(Some(row)) => found is Some && MetadataView::of_row(found->Some_0@) == Some(row@),
                Err(e) => found is Some && oid_of(found->Some_0@, RELID) is None && reports_invalid_cell(
                    e,
                    "relid"@,
                    RELID,
                ),
            },
    {
        match found {
            None => Ok(None),
            Some(tuple) => match Self::from_tuple(tuple) {
                Ok(row) => Ok(Some(row)),
                Err(e) => Err(e),
            },
        }
    }

    /// What a search by table found; a failure where it found no row.
    pub fn get(relid: Oid, found: Option<&CatalogRow>) -> (r: IcebergResult<Self>)
        ensures
            match r {
                Ok(row) => found is Some && MetadataView::of_row(found->Some_0@) == Some(row@),
                Err(e) => if found is None {
                    e == IcebergError::MetadataCatalogNotFound(relid)
                } else {
                    oid_of(found->Some_0@, RELID) is None && reports_invalid_cell(e, "relid"@, RELID)
                },
            },
    {
        match Self::find_by_relid(found) {
            Ok(Some(row)) => Ok(row),
            Ok(None) => Err(IcebergError::MetadataCatalogNotFound(relid)),
            Err(e) => Err(e),
        }
    }

    /// Whether a search by table found a row.
    pub fn row_exists(found: Option<&CatalogRow>) -> (r: IcebergResult<bool>)
        ensures
            match r {
                Ok(b) => b == (found is Some) && (found is Some ==> oid_of(found->Some_0@, RELID) is Some),
                Err(e) => found is Some && oid_of(found->Some_0@, RELID) is None && reports_invalid_cell(
                    e,
                    "relid"@,
                    RELID,
                ),
            },
    {
        match Self::find_by_relid(found) {
            Ok(row) => Ok(row.is_some()),
            Err(e) => Err(e),
        }
    }

    /// The tables that are due, soonest first: the first `limit` rows that a
    /// search in that order finds.
    pub fn maintenance_candidates(
        limit: usize,
        due_rows: &Vec<CatalogRow>,
    ) -> (r: IcebergResult<Vec<MaintenanceCandidate>>)
        ensures
            match r {
                Ok(found) => {
                    &&& found@.len() == first_rows(limit, due_rows@)
                    &&& forall|i: int|
                        0 <= i < found@.len() ==> candidate_of((#[trigger] due_rows@[i])@) == Some(
                            found@[i]@,
                        )
                },
                Err(e) => exists|i: int|
                    0 <= i < first_rows(limit, due_rows@) && refuses_candidate(
                        (#[trigger] due_rows@[i])@,
                        e,
                    ) && forall|k: int|
                        0 <= k < i ==> candidate_of((#[trigger] due_rows@[k])@) is Some,
            },
    {
        let mut candidates: Vec<MaintenanceCandidate> = Vec::new();
        let mut i: usize = 0;
        while i < limit && i < due_rows.len()
            invariant
                i <= limit,
                i <= due_rows@.len(),
                candidates@.len() == i,
                forall|k: int|
                    0 <= k < i ==> candidate_of((#[trigger] due_rows@[k])@) == Some(candidates@[k]@),
            decreases due_rows@.len() - i,
        {
            let tuple = &due_rows[i];
            assert(tuple@ == due_rows@[i as int]@);
            let relid = match tuple.oid(RELID) {
                Some(relid) => relid,
                None => {
                    let e = invalid_record("relid", RELID);
                    assert(refuses_candidate(due_rows@[i as int]@, e));
                    return Err(e);
                },
            };
            let metadata_location = tuple.text(METADATA_LOCATION);
            let due_at = match tuple.timestamptz(MAINTENANCE_DUE_AT) {
                Some(due_at) => due_at,
                None => {
                    let e = invalid_record("maintenance_due_at", MAINTENANCE_DUE_AT);
                    assert(refuses_candidate(due_rows@[i as int]@, e));
                    return Err(e);
                },
            };
            candidates.push(MaintenanceCandidate { relid, metadata_location, due_at });
            i = i + 1;
        }
        Ok(candidates)
    }

    /// When the next maintenance is due: what the first row in that order says.
    pub fn next_maintenance_due_at(first: Option<&CatalogRow>) -> (r: Option<TimestampTz>)
        ensures
            r == match first {
                Some(tuple) => timestamptz_of(tuple@, MAINTENANCE_DUE_AT),
                None => None,
            },
    {
        match first {
            Some(tuple) => tuple.timestamptz(MAINTENANCE_DUE_AT),
            None => None,
        }
    }

    /// How to put off the maintenance of a table. Nothing is to be done where
    /// the table is gone or is no longer as the candidate says.
    pub fn defer_maintenance(
        candidate: &MaintenanceCandidate,
        retry_at: TimestampTz,
        old_tuple: Option<&CatalogRow>,
    ) -> (r: Option<TupleReplacement>)
        requires
            old_tuple is Some ==> old_tuple->Some_0@.len() >= COLUMN_COUNT,
        ensures
            r is Some <==> old_tuple is Some && is_unchanged(candidate@, old_tuple->Some_0@),
            r is Some ==> r->Some_0@ == ReplacementView::nothing(old_tuple->Some_0@.len()).with(
                MAINTENANCE_DUE_AT,
                Some(CellView::Timestamptz(retry_at)),
            ),
    {
        let tuple = match old_tuple {
            Some(tuple) => tuple,
            None => {
                return None;
            },
        };
        let current_location = tuple.text(METADATA_LOCATION);
        let current_due = tuple.timestamptz(MAINTENANCE_DUE_AT);
        let same_location = match &candidate.metadata_location {
            Some(location) => same_text(&current_location, Some(location.as_str())),
            None => same_text(&current_location, None),
        };
        if !same_location || !same_time(current_due, Some(candidate.due_at)) {
            return None;
        }
        let mut replacement = TupleReplacement::new(tuple.cells.len());
        replacement.set(MAINTENANCE_DUE_AT, Some(CatalogCell::Timestamptz(retry_at)));
        Some(replacement)
    }

    /// Whether a deferral took effect.
    pub fn deferred(outcome: Option<CatalogUpdateResult>) -> (r: bool)
        ensures
            r == (outcome == Some(CatalogUpdateResult::Success)),
    {
        match outcome {
            Some(CatalogUpdateResult::Success) => true,
            _ => false,
        }
    }

    /// How to record that the maintenance of a table is done. A due time that
    /// the run did not see stays.
    pub fn finish_maintenance(
        relid: Oid,
        expected_location: &str,
        schedule: MaintenanceScheduleUpdate,
        old_tuple: Option<&CatalogRow>,
    ) -> (r: IcebergResult<TupleReplacement>)
        requires
            old_tuple is Some ==> old_tuple->Some_0@.len() >= COLUMN_COUNT,
        ensures
            match r {
                Ok(replacement) => {
                    &&& old_tuple is Some
                    &&& text_of(old_tuple->Some_0@, METADATA_LOCATION) == Some(expected_location@)
                    &&& schedule !is ScheduleNoLaterThan
                    &&& replacement@ == finish_change(schedule, old_tuple->Some_0@)
                },
                Err(e) => if old_tuple is None {
                    e == IcebergError::MetadataCatalogNotFound(relid)
                } else if text_of(old_tuple->Some_0@, METADATA_LOCATION) != Some(expected_location@) {
                    e == IcebergError::MetadataCatalogConflict
                } else {
                    schedule is ScheduleNoLaterThan && e == IcebergError::InvariantViolated(
                        "maintenance completion cannot schedule new maintenance work",
                    )
                },
            },
    {
        let tuple = match old_tuple {
            Some(tuple) => tuple,
            None => {
                return Err(IcebergError::MetadataCatalogNotFound(relid));
            },
        };
        let current_location = tuple.text(METADATA_LOCATION);
        if !same_text(&current_location, Some(expected_location)) {
            return Err(IcebergError::MetadataCatalogConflict);
        }
        let mut replacement = TupleReplacement::new(tuple.cells.len());
        match schedule {
            MaintenanceScheduleUpdate::CompleteIfDueMatches(expected_due) => {
                if same_time(tuple.timestamptz(MAINTENANCE_DUE_AT), expected_due) {
                    replacement.set(MAINTENANCE_DUE_AT, None);
                }
            },
            MaintenanceScheduleUpdate::Preserve => {},
            MaintenanceScheduleUpdate::ScheduleNoLaterThan(_) => {
                return Err(
                    IcebergError::InvariantViolated(
                        "maintenance completion cannot schedule new maintenance work",
                    ),
                );
            },
        }
        Ok(replacement)
    }

    /// What a completion comes to once the table took or refused the change.
    pub fn finished(outcome: CatalogUpdateResult) -> (r: IcebergResult<()>)
        ensures
            match r {
                Ok(_) => outcome == CatalogUpdateResult::Success,
                Err(e) => outcome == CatalogUpdateResult::Conflict && e
                    == IcebergError::MetadataCatalogConflict,
            },
    {
        match outcome {
            CatalogUpdateResult::Success => Ok(()),
            CatalogUpdateResult::Conflict => Err(IcebergError::MetadataCatalogConflict),
        }
    }

    /// How to move a table from one metadata location to another. The row must
    /// still be at the expected location; columns that the change does not name
    /// stay as they are.
    pub fn cas_update(
        relid: Oid,
        expected_previous_location: Option<&str>,
        new: CasUpdate<'_>,
        old_tuple: Option<&CatalogRow>,
    ) -> (r: IcebergResult<CasPlan>)
        requires
            old_tuple is Some ==> old_tuple->Some_0@.len() >= COLUMN_COUNT,
        ensures
            match r {
                Ok(plan) => {
                    &&& old_tuple is Some
                    &&& text_of(old_tuple->Some_0@, METADATA_LOCATION) == str_view(
                        expected_previous_location,
                    )
                    &&& plan.replacement@ == cas_change(new, old_tuple->Some_0@)
                    &&& plan.maintenance_deadline_advanced == rescheduled(
                        new.maintenance_schedule,
                        timestamptz_of(old_tuple->Some_0@, MAINTENANCE_DUE_AT),
                    ).1
                },
                Err(e) => if old_tuple is None {
                    e == IcebergError::MetadataCatalogNotFound(relid)
                } else {
                    text_of(old_tuple->Some_0@, METADATA_LOCATION) != str_view(
                        expected_previous_location,
                    ) && e == IcebergError::MetadataCatalogConflict
                },
            },
    {
        let tuple = match old_tuple {
            Some(tuple) => tuple,
            None => {
                return Err(IcebergError::MetadataCatalogNotFound(relid));
            },
        };
        let current_location = tuple.text(METADATA_LOCATION);
        if !same_text(&current_location, expected_previous_location) {
            return Err(IcebergError::MetadataCatalogConflict);
        }
        let mut replacement = TupleReplacement::new(tuple.cells.len());
        replacement.set(METADATA_LOCATION, text_cell(new.metadata_location));
        replacement.set(PREVIOUS_METADATA_LOCATION, text_cell(new.previous_metadata_location));
        let current_due = tuple.timestamptz(MAINTENANCE_DUE_AT);
        let mut maintenance_deadline_advanced = false;
        match new.maintenance_schedule {
            MaintenanceScheduleUpdate::Preserve => {},
            MaintenanceScheduleUpdate::ScheduleNoLaterThan(proposed) => {
                let sooner = match current_due {
                    Some(current) => proposed < current,
                    None => true,
                };
                if sooner {
                    replacement.set(MAINTENANCE_DUE_AT, Some(CatalogCell::Timestamptz(proposed)));
                    maintenance_deadline_advanced = true;
                }
            },
            MaintenanceScheduleUpdate::CompleteIfDueMatches(expected_due) => {
                if same_time(current_due, expected_due) && current_due.is_some() {
                    replacement.set(MAINTENANCE_DUE_AT, None);
                }
            },
        }
        Ok(CasPlan { replacement, maintenance_deadline_advanced })
    }

    /// What a compare-and-swap comes to once the table took or refused the
    /// change: whether the next maintenance came closer.
    pub fn cas_updated(outcome: CatalogUpdateResult, maintenance_deadline_advanced: bool) -> (r:
        IcebergResult<bool>)
        ensures
            match r {
                Ok(advanced) => outcome == CatalogUpdateResult::Success && advanced
                    == maintenance_deadline_advanced,
                Err(e) => outcome == CatalogUpdateResult::Conflict && e
                    == IcebergError::MetadataCatalogConflict,
            },
    {
        match outcome {
            CatalogUpdateResult::Success => Ok(maintenance_deadline_advanced),
            CatalogUpdateResult::Conflict => Err(IcebergError::MetadataCatalogConflict),
        }
    }

    /// Whether a row is to be deleted; its absence is a failure.
    pub fn delete(relid: Oid, found: bool) -> (r: IcebergResult<bool>)
        ensures
            match r {
                Ok(b) => b && found,
                Err(e) => !found && e == IcebergError::MetadataCatalogNotFound(relid),
            },
    {
        Self::delete_inner(relid, found, false)
    }

    /// Whether a row is to be deleted; its absence is no failure.
    pub fn delete_if_exists(relid: Oid, found: bool) -> (r: IcebergResult<bool>)
        ensures
            r matches Ok(b) && b == found,
    {
        Self::delete_inner(relid, found, true)
    }

    fn delete_inner(relid: Oid, found: bool, missing_ok: bool) -> (r: IcebergResult<bool>)
        ensures
            match r {
                Ok(b) => b == found && (found || missing_ok),
                Err(e) => !found && !missing_ok && e == IcebergError::MetadataCatalogNotFound(relid),
            },
    {
        if found {
            Ok(true)
        } else if missing_ok {
            Ok(false)
        } else {
            Err(IcebergError::MetadataCatalogNotFound(relid))
        }
    }
}

fn owned_text_cell(text: &Option<String>) -> (r: Option<CatalogCell>)
    ensures
        crate::catalog::catalog_row::cell_view(r) == text_cell_of(text_view(*text)),
{
    match text {
        Some(t) => text_cell(Some(t.as_str())),
        None => text_cell(None),
    }
}

/// How many of some rows a search with a limit reads.
pub open spec fn first_rows(limit: usize, rows: Seq<CatalogRow>) -> nat {
    if rows.len() < limit {
        rows.len()
    } else {
        limit as nat
    }
}

/// The due table that some cells describe.
pub open spec fn candidate_of(row: RowView) -> Option<CandidateView> {
    match (oid_of(row, RELID), timestamptz_of(row, MAINTENANCE_DUE_AT)) {
        (Some(relid), Some(due_at)) => Some(
            CandidateView { relid, metadata_location: text_of(row, METADATA_LOCATION), due_at },
        ),
        _ => None,
    }
}

/// The failure for cells that describe no due table.
pub open spec fn refuses_candidate(row: RowView, e: IcebergError) -> bool {
    if oid_of(row, RELID) is None {
        reports_invalid_cell(e, "relid"@, RELID)
    } else {
        timestamptz_of(row, MAINTENANCE_DUE_AT) is None && reports_invalid_cell(
            e,
            "maintenance_due_at"@,
            MAINTENANCE_DUE_AT,
        )
    }
}

/// Whether a row is still as a candidate says.
pub open spec fn is_unchanged(candidate: CandidateView, row: RowView) -> bool {
    text_of(row, METADATA_LOCATION) == candidate.metadata_location && timestamptz_of(
        row,
        MAINTENANCE_DUE_AT,
    ) == Some(candidate.due_at)
}

/// What the end of a maintenance run changes.
pub open spec fn finish_change(schedule: MaintenanceScheduleUpdate, row: RowView) -> ReplacementView {
    let nothing = ReplacementView::nothing(row.len());
    if schedule matches MaintenanceScheduleUpdate::CompleteIfDueMatches(expected) && expected
        == timestamptz_of(row, MAINTENANCE_DUE_AT) {
        nothing.with(MAINTENANCE_DUE_AT, None)
    } else {
        nothing
    }
}

/// What a compare-and-swap changes.
pub open spec fn cas_change(new: CasUpdate<'_>, row: RowView) -> ReplacementView {
    let moved = ReplacementView::nothing(row.len()).with(
        METADATA_LOCATION,
        text_cell_of(str_view(new.metadata_location)),
    ).with(PREVIOUS_METADATA_LOCATION, text_cell_of(str_view(new.previous_metadata_location)));
    let due = timestamptz_of(row, MAINTENANCE_DUE_AT);
    let (next_due, _) = rescheduled(new.maintenance_schedule, due);
    if next_due != due {
        moved.with(MAINTENANCE_DUE_AT, timestamptz_cell_of(next_due))
    } else {
        moved
    }
}

// -- Laws ---------------------------------------------------------------------

/// A row that was written reads back as it was.
pub proof fn written_row_reads_back(row: MetadataView, natts: nat)
    requires
        natts >= COLUMN_COUNT,
    ensures
        MetadataView::of_row(row.row(natts)) == Some(row),
{
    let cells = row.row(natts);
    assert(column_of(cells, RELID) == Some(CellView::Oid(row.relid)));
    assert(column_of(cells, METADATA_LOCATION) == text_cell_of(row.metadata_location));
    assert(column_of(cells, PREVIOUS_METADATA_LOCATION) == text_cell_of(
        row.previous_metadata_location,
    ));
    assert(column_of(cells, DEFAULT_SPEC_ID) == int4_cell_of(row.default_spec_id));
    assert(column_of(cells, MAINTENANCE_DUE_AT) == timestamptz_cell_of(row.maintenance_due_at));
}

/// A compare-and-swap moves the table, reschedules its maintenance, and keeps
/// everything else.
pub proof fn cas_moves_only_the_table(new: CasUpdate<'_>, row: RowView)
    requires
        row.len() >= COLUMN_COUNT,
        MetadataView::of_row(row) is Some,
    ensures
        ({
            let before = MetadataView::of_row(row)->Some_0;
            MetadataView::of_row(cas_change(new, row).applied(row)) == Some(
                MetadataView {
                    metadata_location: str_view(new.metadata_location),
                    previous_metadata_location: str_view(new.previous_metadata_location),
                    maintenance_due_at: rescheduled(
                        new.maintenance_schedule,
                        before.maintenance_due_at,
                    ).0,
                    ..before
                },
            )
        }),
{
    let after = cas_change(new, row).applied(row);
    let due = timestamptz_of(row, MAINTENANCE_DUE_AT);
    let next_due = rescheduled(new.maintenance_schedule, due).0;
    assert(column_of(after, RELID) == column_of(row, RELID));
    assert(column_of(after, METADATA_LOCATION) == text_cell_of(str_view(new.metadata_location)));
    assert(column_of(after, PREVIOUS_METADATA_LOCATION) == text_cell_of(
        str_view(new.previous_metadata_location),
    ));
    assert(column_of(after, DEFAULT_SPEC_ID) == column_of(row, DEFAULT_SPEC_ID));
    if next_due != due {
        assert(column_of(after, MAINTENANCE_DUE_AT) == timestamptz_cell_of(next_due));
    } else {
        assert(column_of(after, MAINTENANCE_DUE_AT) == column_of(row, MAINTENANCE_DUE_AT));
    }
}

/// Of two transactions that saw the same location, only the first can move the
/// table: the row it leaves is no longer where the second expects it.
pub proof fn only_one_of_two_moves_wins(new: CasUpdate<'_>, row: RowView)
    requires
        row.len() >= COLUMN_COUNT,
        MetadataView::of_row(row) is Some,
        str_view(new.metadata_location) != text_of(row, METADATA_LOCATION),
    ensures
        text_of(cas_change(new, row).applied(row), METADATA_LOCATION) != text_of(
            row,
            METADATA_LOCATION,
        ),
{
    cas_moves_only_the_table(new, row);
}

/// Maintenance is never put off by a commit: scheduling only brings it closer,
/// and it says so exactly when it does.
pub proof fn scheduling_never_delays(proposed: TimestampTz, due: Option<TimestampTz>)
    ensures
        ({
            let (next, advanced) = rescheduled(
                MaintenanceScheduleUpdate::ScheduleNoLaterThan(proposed),
                due,
            );
            &&& next is Some && next->Some_0 <= proposed
            &&& due is Some ==> next->Some_0 <= due->Some_0
            &&& advanced <==> next != due
        }),
{
}

/// Work that became due after a run began stays due when the run completes.
pub proof fn newer_work_stays_due(expected: Option<TimestampTz>, due: Option<TimestampTz>, row: RowView)
    requires
        row.len() >= COLUMN_COUNT,
        timestamptz_of(row, MAINTENANCE_DUE_AT) == due,
        due != expected,
    ensures
        rescheduled(MaintenanceScheduleUpdate::CompleteIfDueMatches(expected), due) == (due, false),
        timestamptz_of(
            finish_change(MaintenanceScheduleUpdate::CompleteIfDueMatches(expected), row).applied(row),
            MAINTENANCE_DUE_AT,
        ) == due,
{
    let after = finish_change(MaintenanceScheduleUpdate::CompleteIfDueMatches(expected), row).applied(
        row,
    );
    assert(column_of(after, MAINTENANCE_DUE_AT) == column_of(row, MAINTENANCE_DUE_AT));
}

/// A completed run that saw the due time clears it and changes nothing else.
pub proof fn completion_clears_the_due_time(row: RowView)
    requires
        row.len() >= COLUMN_COUNT,
    ensures
        ({
            let schedule = MaintenanceScheduleUpdate::CompleteIfDueMatches(
                timestamptz_of(row, MAINTENANCE_DUE_AT),
            );
            finish_change(schedule, row).applied(row) == with_column(row, MAINTENANCE_DUE_AT, None)
        }),
{
    let schedule = MaintenanceScheduleUpdate::CompleteIfDueMatches(
        timestamptz_of(row, MAINTENANCE_DUE_AT),
    );
    assert(finish_change(schedule, row).applied(row) =~= with_column(row, MAINTENANCE_DUE_AT, None));
}

/// A row that is due describes its table as a candidate: the table, where its
/// metadata is, and when it is due. A row that is not due describes none.
pub proof fn due_rows_describe_their_tables(row: MetadataView, natts: nat)
    requires
        natts >= COLUMN_COUNT,
    ensures
        match row.maintenance_due_at {
            Some(due_at) => candidate_of(row.row(natts)) == Some(
                CandidateView { relid: row.relid, metadata_location: row.metadata_location, due_at },
            ) && is_unchanged(candidate_of(row.row(natts))->Some_0, row.row(natts)),
            None => candidate_of(row.row(natts)) is None,
        },
{
    written_row_reads_back(row, natts);
    let cells = row.row(natts);
    assert(column_of(cells, RELID) == Some(CellView::Oid(row.relid)));
    assert(column_of(cells, METADATA_LOCATION) == text_cell_of(row.metadata_location));
    assert(column_of(cells, MAINTENANCE_DUE_AT) == timestamptz_cell_of(row.maintenance_due_at));
}

/// A candidate whose table moved on, or whose maintenance was rescheduled, is
/// no longer as it was.
pub proof fn changed_rows_are_noticed(seen: MetadataView, now: MetadataView, natts: nat)
    requires
        natts >= COLUMN_COUNT,
        seen.maintenance_due_at is Some,
    ensures
        is_unchanged(candidate_of(seen.row(natts))->Some_0, now.row(natts)) <==> now.metadata_location
            == seen.metadata_location && now.maintenance_due_at == seen.maintenance_due_at,
{
    due_rows_describe_their_tables(seen, natts);
    let cells = now.row(natts);
    assert(column_of(cells, METADATA_LOCATION) == text_cell_of(now.metadata_location));
    assert(column_of(cells, MAINTENANCE_DUE_AT) == timestamptz_cell_of(now.maintenance_due_at));
}

/// A commit that leaves the schedule alone keeps the due time, and says that
/// nothing came closer.
pub proof fn preserved_schedules_stay(due: Option<TimestampTz>)
    ensures
        rescheduled(MaintenanceScheduleUpdate::Preserve, due) == (due, false),
{
}

/// A completed run clears the due time that it saw, also as part of a commit.
pub proof fn completion_within_a_commit_clears_the_due_time(due: Option<TimestampTz>)
    ensures
        rescheduled(MaintenanceScheduleUpdate::CompleteIfDueMatches(due), due) == (
            None::<TimestampTz>,
            false,
        ),
{
}

/// The columns of the table stand in this order: the table, where its metadata
/// is, where it was, its partition specification, and when it is due.
pub proof fn columns_stand_in_their_places(row: MetadataView, natts: nat)
    requires
        natts >= 5,
    ensures
        row.row(natts).len() == natts,
        row.row(natts)[0] == Some(CellView::Oid(row.relid)),
        row.row(natts)[1] == text_cell_of(row.metadata_location),
        row.row(natts)[2] == text_cell_of(row.previous_metadata_location),
        row.row(natts)[3] == int4_cell_of(row.default_spec_id),
        row.row(natts)[4] == timestamptz_cell_of(row.maintenance_due_at),
        forall|i: int| 5 <= i < natts ==> (#[trigger] row.row(natts)[i]) is None,
{
}

} // verus!
