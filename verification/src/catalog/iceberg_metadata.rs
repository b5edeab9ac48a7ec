//! The catalog row that holds where a table's metadata is, in the shape without
//! a maintenance schedule.
//!
//! The columns are `relid`, `metadata_location`, `previous_metadata_location`
//! and `default_spec_id`. The functions here decide on rows that were read and
//! say how to change them.

use vstd::prelude::*;

use crate::Oid;
use crate::catalog::catalog_row::{
    CatalogCell, CatalogRow, CellView, ReplacementView, RowView, TupleFields, TupleReplacement,
    cell_view, column_of, int4_cell, int4_cell_of, int4_of, null_row, oid_of, str_view, text_cell,
    text_cell_of, text_of, text_view, with_column,
};
use crate::catalog::metadata_table::CatalogUpdateResult;
use crate::error::{IcebergError, IcebergResult};
use crate::oids::INVALID_OID;

verus! {

/// Number of the column that identifies the table.
pub const RELID: i16 = 1;

/// Number of the column that holds the current metadata location.
pub const METADATA_LOCATION: i16 = 2;

/// Number of the column that holds the previous metadata location.
pub const PREVIOUS_METADATA_LOCATION: i16 = 3;

/// Number of the column that holds the default partition specification.
pub const DEFAULT_SPEC_ID: i16 = 4;

/// How many columns the table has.
pub const COLUMN_COUNT: usize = 4;

/// One row of the table.
#[derive(Debug)]
pub struct IcebergMetadata {
    pub relid: Oid,
    pub metadata_location: Option<String>,
    pub previous_metadata_location: Option<String>,
    pub default_spec_id: Option<i32>,
}

/// One row of the table.
pub struct LocationView {
    pub relid: Oid,
    pub metadata_location: Option<Seq<char>>,
    pub previous_metadata_location: Option<Seq<char>>,
    pub default_spec_id: Option<i32>,
}

impl View for IcebergMetadata {
    type V = LocationView;

    open spec fn view(&self) -> LocationView {
        LocationView {
            relid: self.relid,
            metadata_location: text_view(self.metadata_location),
            previous_metadata_location: text_view(self.previous_metadata_location),
            default_spec_id: self.default_spec_id,
        }
    }
}

impl LocationView {
    /// The cells of this row.
    pub open spec fn row(self) -> RowView {
        with_column(
            with_column(
                with_column(
                    with_column(
                        null_row(COLUMN_COUNT as nat),
                        RELID,
                        Some(CellView::Oid(self.relid)),
                    ),
                    METADATA_LOCATION,
                    text_cell_of(self.metadata_location),
                ),
                PREVIOUS_METADATA_LOCATION,
                text_cell_of(self.previous_metadata_location),
            ),
            DEFAULT_SPEC_ID,
            int4_cell_of(self.default_spec_id),
        )
    }

    /// The row that some cells hold, unless the table's column is NULL. What is
    /// no OID counts as the invalid one.
    pub open spec fn of_row(row: RowView) -> Option<LocationView> {
        if column_of(row, RELID) is None {
            None
        } else {
            Some(
                LocationView {
                    relid: match oid_of(row, RELID) {
                        Some(relid) => relid,
                        None => INVALID_OID,
                    },
                    metadata_location: text_of(row, METADATA_LOCATION),
                    previous_metadata_location: text_of(row, PREVIOUS_METADATA_LOCATION),
                    default_spec_id: int4_of(row, DEFAULT_SPEC_ID),
                },
            )
        }
    }

    /// What writing this row over another changes: all but the table.
    pub open spec fn change(self, natts: nat) -> ReplacementView {
        ReplacementView::nothing(natts).with(METADATA_LOCATION, text_cell_of(self.metadata_location)).with(
            PREVIOUS_METADATA_LOCATION,
            text_cell_of(self.previous_metadata_location),
        ).with(DEFAULT_SPEC_ID, int4_cell_of(self.default_spec_id))
    }
}

/// Whether a failure says that a row names no table.
pub open spec fn reports_null_relid(e: IcebergError) -> bool {
    e matches IcebergError::MetadataCatalogInvalidRecord(text) && text@ == "relid is null"@
}

fn optional_text_cell(text: &Option<String>) -> (r: Option<CatalogCell>)
    ensures
        cell_view(r) == text_cell_of(text_view(*text)),
{
    match text {
        Some(t) => text_cell(Some(t.as_str())),
        None => None,
    }
}

impl IcebergMetadata {
    /// The row of a table of which nothing is known.
    pub fn new(relid: Oid) -> (r: Self)
        ensures
            r@ == (LocationView {
                relid,
                metadata_location: None,
                previous_metadata_location: None,
                default_spec_id: None,
            }),
    {
        IcebergMetadata {
            relid,
            metadata_location: None,
            previous_metadata_location: None,
            default_spec_id: None,
        }
    }

    /// This row with a metadata location.
    pub fn with_metadata_location(self, location: String) -> (r: Self)
        ensures
            r@ == (LocationView { metadata_location: Some(location@), ..self@ }),
    {
        let mut row = self;
        row.metadata_location = Some(location);
        row
    }

    /// This row with a previous metadata location.
    pub fn with_previous_metadata_location(self, location: String) -> (r: Self)
        ensures
            r@ == (LocationView { previous_metadata_location: Some(location@), ..self@ }),
    {
        let mut row = self;
        row.previous_metadata_location = Some(location);
        row
    }

    /// This row with a default partition specification.
    pub fn with_default_spec_id(self, spec_id: i32) -> (r: Self)
        ensures
            r@ == (LocationView { default_spec_id: Some(spec_id), ..self@ }),
    {
        let mut row = self;
        row.default_spec_id = Some(spec_id);
        row
    }

    /// The cells to insert for this row.
    pub fn insert(&self) -> (r: CatalogRow)
        ensures
            r@ == self@.row(),
    {
        let mut fields = TupleFields::new(COLUMN_COUNT);
        fields.set(RELID, Some(CatalogCell::Oid(self.relid)));
        fields.set(METADATA_LOCATION, optional_text_cell(&self.metadata_location));
        fields.set(PREVIOUS_METADATA_LOCATION, optional_text_cell(&self.previous_metadata_location));
        fields.set(DEFAULT_SPEC_ID, int4_cell(self.default_spec_id));
        fields.form_tuple()
    }

    /// The row that some cells hold.
    pub fn from_tuple(tuple: &CatalogRow) -> (r: IcebergResult<Self>)
        ensures
            match r {
                Ok(row) => LocationView::of_row(tuple@) == Some(row@),
                Err(e) => column_of(tuple@, RELID) is None && reports_null_relid(e),
            },
    {
        if tuple.is_null(RELID) {
            return Err(IcebergError::MetadataCatalogInvalidRecord("relid is null".to_owned()));
        }
        let relid: Oid = match tuple.oid(RELID) {
            Some(relid) => relid,
            None => INVALID_OID,
        };
        Ok(
            IcebergMetadata {
                relid,
                metadata_location: tuple.text(METADATA_LOCATION),
                previous_metadata_location: tuple.text(PREVIOUS_METADATA_LOCATION),
                default_spec_id: tuple.int4(DEFAULT_SPEC_ID),
            },
        )
    }

    /// What a search by table found; nothing where it found no row.
    pub fn find_by_relid(found: Option<&CatalogRow>) -> (r: IcebergResult<Option<Self>>)
        ensures
            match r {
                Ok(None) => found is None,
                Ok(Some(row)) => found is Some && LocationView::of_row(found->Some_0@) == Some(row@),
                Err(e) => found is Some && column_of(found->Some_0@, RELID) is None && reports_null_relid(
                    e,
                ),
            },
    {
        match found {
            None => Ok(None),
            Some(tuple) => match Self::from_tuple(tuple) {
                Ok(row) => Ok(Some(row)),
                Err(e) => Err(e),
            },
        }
    }

    /// What a search by table found; a failure where it found no row.
    pub fn get(relid: Oid, found: Option<&CatalogRow>) -> (r: IcebergResult<Self>)
        ensures
            match r {
                Ok(row) => found is Some && LocationView::of_row(found->Some_0@) == Some(row@),
                Err(e) => if found is None {
                    e == IcebergError::MetadataCatalogNotFound(relid)
                } else {
                    column_of(found->Some_0@, RELID) is None && reports_null_relid(e)
                },
            },
    {
        match Self::find_by_relid(found) {
            Ok(Some(row)) => Ok(row),
            Ok(None) => Err(IcebergError::MetadataCatalogNotFound(relid)),
            Err(e) => Err(e),
        }
    }

    /// Whether a search by table found a row.
    pub fn row_exists(found: Option<&CatalogRow>) -> (r: IcebergResult<bool>)
        ensures
            match r {
                Ok(b) => b == (found is Some) && (found is Some ==> column_of(found->Some_0@, RELID) is Some),
                Err(e) => found is Some && column_of(found->Some_0@, RELID) is None && reports_null_relid(
                    e,
                ),
            },
    {
        match Self::find_by_relid(found) {
            Ok(row) => Ok(row.is_some()),
            Err(e) => Err(e),
        }
    }

    /// How to write this row over the one in the table. That one must still be
    /// at the expected location.
    pub fn update(
        &self,
        expected_previous_location: Option<&str>,
        old_tuple: Option<&CatalogRow>,
    ) -> (r: IcebergResult<TupleReplacement>)
        requires
            old_tuple is Some ==> old_tuple->Some_0@.len() >= COLUMN_COUNT,
        ensures
            match r {
                Ok(replacement) => {
                    &&& old_tuple is Some
                    &&& column_of(old_tuple->Some_0@, RELID) is Some
                    &&& text_of(old_tuple->Some_0@, METADATA_LOCATION) == str_view(
                        expected_previous_location,
                    )
                    &&& replacement@ == self@.change(old_tuple->Some_0@.len())
                },
                Err(e) => if old_tuple is None {
                    e == IcebergError::MetadataCatalogNotFound(self.relid)
                } else if column_of(old_tuple->Some_0@, RELID) is None {
                    reports_null_relid(e)
                } else {
                    text_of(old_tuple->Some_0@, METADATA_LOCATION) != str_view(
                        expected_previous_location,
                    ) && e == IcebergError::MetadataCatalogConflict
                },
            },
    {
        let tuple = match old_tuple {
            Some(tuple) => tuple,
            None => {
                return Err(IcebergError::MetadataCatalogNotFound(self.relid));
            },
        };
        let existing = match Self::from_tuple(tuple) {
            Ok(existing) => existing,
            Err(e) => {
                return Err(e);
            },
        };
        let unmoved = match (&existing.metadata_location, expected_previous_location) {
            (Some(current), Some(expected)) => *current == expected.to_owned(),
            (None, None) => true,
            _ => false,
        };
        if !unmoved {
            return Err(IcebergError::MetadataCatalogConflict);
        }
        let mut replacement = TupleReplacement::new(tuple.cells.len());
        replacement.set(METADATA_LOCATION, optional_text_cell(&self.metadata_location));
        replacement.set(
            PREVIOUS_METADATA_LOCATION,
            optional_text_cell(&self.previous_metadata_location),
        );
        replacement.set(DEFAULT_SPEC_ID, int4_cell(self.default_spec_id));
        Ok(replacement)
    }

    /// What an update comes to once the table took or refused the change.
    pub fn updated(outcome: CatalogUpdateResult) -> (r: IcebergResult<()>)
        ensures
            match r {
                Ok(_) => outcome == CatalogUpdateResult::Success,
                Err(e) => outcome == CatalogUpdateResult::Conflict && e
                    == IcebergError::MetadataCatalogConflict,
            },
    {
        match outcome {
            CatalogUpdateResult::Success => Ok(()),
            CatalogUpdateResult::Conflict => Err(IcebergError::MetadataCatalogConflict),
        }
    }

    /// Whether a row can be deleted; its absence is a failure.
    pub fn delete(relid: Oid, found: bool) -> (r: IcebergResult<()>)
        ensures
            match r {
                Ok(_) => found,
                Err(e) => !found && e == IcebergError::MetadataCatalogNotFound(relid),
            },
    {
        if found {
            Ok(())
        } else {
            Err(IcebergError::MetadataCatalogNotFound(relid))
        }
    }
}

/// A row that was written reads back as it was.
pub proof fn written_row_reads_back(row: LocationView)
    ensures
        LocationView::of_row(row.row()) == Some(row),
{
    let cells = row.row();
    assert(column_of(cells, RELID) == Some(CellView::Oid(row.relid)));
    assert(column_of(cells, METADATA_LOCATION) == text_cell_of(row.metadata_location));
    assert(column_of(cells, PREVIOUS_METADATA_LOCATION) == text_cell_of(
        row.previous_metadata_location,
    ));
    assert(column_of(cells, DEFAULT_SPEC_ID) == int4_cell_of(row.default_spec_id));
}

/// After an update the table's row reads as the row that was written, with the
/// table it had.
pub proof fn updated_row_reads_back(new: LocationView, row: RowView)
    requires
        row.len() >= COLUMN_COUNT,
        LocationView::of_row(row) is Some,
    ensures
        LocationView::of_row(new.change(row.len()).applied(row)) == Some(
            LocationView { relid: LocationView::of_row(row)->Some_0.relid, ..new },
        ),
{
    let after = new.change(row.len()).applied(row);
    assert(column_of(after, RELID) == column_of(row, RELID));
    assert(column_of(after, METADATA_LOCATION) == text_cell_of(new.metadata_location));
    assert(column_of(after, PREVIOUS_METADATA_LOCATION) == text_cell_of(
        new.previous_metadata_location,
    ));
    assert(column_of(after, DEFAULT_SPEC_ID) == int4_cell_of(new.default_spec_id));
}

/// The columns of the table stand in this order: the table, where its metadata
/// is, where it was, and its partition specification.
pub proof fn columns_stand_in_their_places(row: LocationView)
    ensures
        row.row().len() == 4,
        row.row()[0] == Some(CellView::Oid(row.relid)),
        row.row()[1] == text_cell_of(row.metadata_location),
        row.row()[2] == text_cell_of(row.previous_metadata_location),
        row.row()[3] == int4_cell_of(row.default_spec_id),
{
}

} // verus!
