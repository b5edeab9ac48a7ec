//! Rows of the catalog tables.
//!
//! A row holds one cell per column, or nothing where the column is NULL.
//! Columns are numbered from one.

use vstd::prelude::*;

use crate::Oid;

verus! {

/// Microseconds since the start of the year 2000, in UTC.
pub type TimestampTz = i64;

/// A value in a catalog row.
#[derive(Debug)]
pub enum CatalogCell {
    Oid(Oid),
    Int4(i32),
    Timestamptz(TimestampTz),
    Text(String),
}

/// A value in a catalog row.
pub enum CellView {
    Oid(Oid),
    Int4(i32),
    Timestamptz(TimestampTz),
    Text(Seq<char>),
}

impl View for CatalogCell {
    type V = CellView;

    open spec fn view(&self) -> CellView {
        match *self {
            CatalogCell::Oid(v) => CellView::Oid(v),
            CatalogCell::Int4(v) => CellView::Int4(v),
            CatalogCell::Timestamptz(v) => CellView::Timestamptz(v),
            CatalogCell::Text(v) => CellView::Text(v@),
        }
    }
}

impl Clone for CatalogCell {
    fn clone(&self) -> (r: CatalogCell)
        ensures
            r@ == self@,
    {
        match self {
            CatalogCell::Oid(v) => CatalogCell::Oid(*v),
            CatalogCell::Int4(v) => CatalogCell::Int4(*v),
            CatalogCell::Timestamptz(v) => CatalogCell::Timestamptz(*v),
            CatalogCell::Text(v) => CatalogCell::Text(v.clone()),
        }
    }
}

/// The value of a cell that may be NULL.
pub open spec fn cell_view(cell: Option<CatalogCell>) -> Option<CellView> {
    match cell {
        Some(c) => Some(c@),
        None => None,
    }
}

/// The value of a text that may be NULL.
pub open spec fn text_view(text: Option<String>) -> Option<Seq<char>> {
    match text {
        Some(t) => Some(t@),
        None => None,
    }
}

/// The value of a borrowed text that may be NULL.
pub open spec fn str_view(text: Option<&str>) -> Option<Seq<char>> {
    match text {
        Some(t) => Some(t@),
        None => None,
    }
}

/// The cells of a row.
pub type RowView = Seq<Option<CellView>>;

/// The value of column `attno` of a row.
pub open spec fn column_of(row: RowView, attno: i16) -> Option<CellView> {
    if 1 <= attno <= row.len() {
        row[attno - 1]
    } else {
        None
    }
}

/// The OID in a column, unless it is NULL or no OID.
pub open spec fn oid_of(row: RowView, attno: i16) -> Option<Oid> {
    match column_of(row, attno) {
        Some(CellView::Oid(v)) => Some(v),
        _ => None,
    }
}

/// The integer in a column, unless it is NULL or no integer.
pub open spec fn int4_of(row: RowView, attno: i16) -> Option<i32> {
    match column_of(row, attno) {
        Some(CellView::Int4(v)) => Some(v),
        _ => None,
    }
}

/// The timestamp in a column, unless it is NULL or no timestamp.
pub open spec fn timestamptz_of(row: RowView, attno: i16) -> Option<TimestampTz> {
    match column_of(row, attno) {
        Some(CellView::Timestamptz(v)) => Some(v),
        _ => None,
    }
}

/// The text in a column, unless it is NULL or no text.
pub open spec fn text_of(row: RowView, attno: i16) -> Option<Seq<char>> {
    match column_of(row, attno) {
        Some(CellView::Text(v)) => Some(v),
        _ => None,
    }
}

/// The row in which column `attno` holds `cell`.
pub open spec fn with_column(row: RowView, attno: i16, cell: Option<CellView>) -> RowView {
    row.update(attno - 1, cell)
}

/// A row of a catalog table.
#[derive(Debug)]
pub struct CatalogRow {
    pub cells: Vec<Option<CatalogCell>>,
}

/// The values of some cells.
pub open spec fn cells_view(cells: Seq<Option<CatalogCell>>) -> RowView {
    Seq::new(cells.len(), |i: int| cell_view(cells[i]))
}

impl View for CatalogRow {
    type V = RowView;

    open spec fn view(&self) -> RowView {
        cells_view(self.cells@)
    }
}

impl CatalogRow {
    fn cell(&self, attno: i16) -> (r: Option<&CatalogCell>)
        ensures
            match r {
                Some(c) => column_of(self@, attno) == Some(c@),
                None => column_of(self@, attno) is None,
            },
    {
        if attno < 1 || attno as usize > self.cells.len() {
            return None;
        }
        match &self.cells[attno as usize - 1] {
            Some(c) => Some(c),
            None => None,
        }
    }

    /// Whether column `attno` is NULL.
    pub fn is_null(&self, attno: i16) -> (r: bool)
        ensures
            r == (column_of(self@, attno) is None),
    {
        self.cell(attno).is_none()
    }

    /// Column `attno` as an OID.
    pub fn oid(&self, attno: i16) -> (r: Option<Oid>)
        ensures
            r == oid_of(self@, attno),
    {
        match self.cell(attno) {
            Some(CatalogCell::Oid(v)) => Some(*v),
            _ => None,
        }
    }

    /// Column `attno` as an integer.
    pub fn int4(&self, attno: i16) -> (r: Option<i32>)
        ensures
            r == int4_of(self@, attno),
    {
        match self.cell(attno) {
            Some(CatalogCell::Int4(v)) => Some(*v),
            _ => None,
        }
    }

    /// Column `attno` as a timestamp.
    pub fn timestamptz(&self, attno: i16) -> (r: Option<TimestampTz>)
        ensures
            r == timestamptz_of(self@, attno),
    {
        match self.cell(attno) {
            Some(CatalogCell::Timestamptz(v)) => Some(*v),
            _ => None,
        }
    }

    /// Column `attno` as text.
    pub fn text(&self, attno: i16) -> (r: Option<String>)
        ensures
            text_view(r) == text_of(self@, attno),
    {
        match self.cell(attno) {
            Some(CatalogCell::Text(v)) => Some(v.clone()),
            _ => None,
        }
    }
}

/// The cell for an integer that may be NULL.
pub open spec fn int4_cell_of(value: Option<i32>) -> Option<CellView> {
    match value {
        Some(v) => Some(CellView::Int4(v)),
        None => None,
    }
}

/// The cell for a timestamp that may be NULL.
pub open spec fn timestamptz_cell_of(value: Option<TimestampTz>) -> Option<CellView> {
    match value {
        Some(v) => Some(CellView::Timestamptz(v)),
        None => None,
    }
}

/// The cell for a text that may be NULL.
pub open spec fn text_cell_of(value: Option<Seq<char>>) -> Option<CellView> {
    match value {
        Some(v) => Some(CellView::Text(v)),
        None => None,
    }
}

/// The cell for an integer that may be NULL.
pub fn int4_cell(value: Option<i32>) -> (r: Option<CatalogCell>)
    ensures
        cell_view(r) == int4_cell_of(value),
{
    match value {
        Some(v) => Some(CatalogCell::Int4(v)),
        None => None,
    }
}

/// The cell for a timestamp that may be NULL.
pub fn timestamptz_cell(value: Option<TimestampTz>) -> (r: Option<CatalogCell>)
    ensures
        cell_view(r) == timestamptz_cell_of(value),
{
    match value {
        Some(v) => Some(CatalogCell::Timestamptz(v)),
        None => None,
    }
}

/// The cell for a text that may be NULL.
pub fn text_cell(value: Option<&str>) -> (r: Option<CatalogCell>)
    ensures
        cell_view(r) == text_cell_of(str_view(value)),
{
    match value {
        Some(v) => Some(CatalogCell::Text(v.to_owned())),
        None => None,
    }
}

/// The row of `natts` columns that are all NULL.
pub open spec fn null_row(natts: nat) -> RowView {
    Seq::new(natts, |i: int| None::<CellView>)
}

/// A row under construction. A column that nobody sets is NULL.
#[derive(Debug)]
pub struct TupleFields {
    cells: Vec<Option<CatalogCell>>,
}

impl View for TupleFields {
    type V = RowView;

    closed spec fn view(&self) -> RowView {
        cells_view(self.cells@)
    }
}

impl TupleFields {
    /// A row of `natts` columns that are all NULL.
    pub fn new(natts: usize) -> (r: Self)
        ensures
            r@ == null_row(natts as nat),
    {
        let mut cells: Vec<Option<CatalogCell>> = Vec::new();
        let mut i: usize = 0;
        while i < natts
            invariant
                i <= natts,
                cells@.len() == i,
                forall|k: int| 0 <= k < i ==> #[trigger] cells@[k] is None,
            decreases natts - i,
        {
            cells.push(None);
            i = i + 1;
        }
        let r = TupleFields { cells };
        assert(r@ =~= null_row(natts as nat));
        r
    }

    /// How many columns the row has.
    pub fn natts(&self) -> (r: usize)
        ensures
            r == self@.len(),
    {
        self.cells.len()
    }

    /// Sets column `attno`; nothing sets it to NULL.
    pub fn set(&mut self, attno: i16, value: Option<CatalogCell>)
        requires
            1 <= attno <= old(self)@.len(),
        ensures
            final(self)@ == with_column(old(self)@, attno, cell_view(value)),
    {
        let ghost before = self@;
        self.cells.set(attno as usize - 1, value);
        assert(self@ =~= with_column(before, attno, cell_view(value)));
    }

    /// The finished row.
    pub fn form_tuple(self) -> (r: CatalogRow)
        ensures
            r@ == self@,
    {
        CatalogRow { cells: self.cells }
    }
}

/// A change to some columns of a row: which are replaced, and by what.
pub struct ReplacementView {
    pub values: RowView,
    pub replaced: Seq<bool>,
}

impl ReplacementView {
    /// The change of nothing in a row of `natts` columns.
    pub open spec fn nothing(natts: nat) -> ReplacementView {
        ReplacementView { values: null_row(natts), replaced: Seq::new(natts, |i: int| false) }
    }

    /// This change with one more column replaced.
    pub open spec fn with(self, attno: i16, cell: Option<CellView>) -> ReplacementView {
        ReplacementView {
            values: with_column(self.values, attno, cell),
            replaced: self.replaced.update(attno - 1, true),
        }
    }

    /// The row after this change; columns that are not replaced stay.
    pub open spec fn applied(self, row: RowView) -> RowView {
        Seq::new(
            row.len(),
            |i: int|
                if i < self.replaced.len() && self.replaced[i] {
                    self.values[i]
                } else {
                    row[i]
                },
        )
    }

    /// Whether the change fits rows of `natts` columns.
    pub open spec fn fits(self, natts: nat) -> bool {
        self.values.len() == natts && self.replaced.len() == natts
    }
}

/// A change to some columns of a row. Only columns that were set are replaced.
#[derive(Debug)]
pub struct TupleReplacement {
    fields: TupleFields,
    repls: Vec<bool>,
}

impl View for TupleReplacement {
    type V = ReplacementView;

    closed spec fn view(&self) -> ReplacementView {
        ReplacementView { values: self.fields@, replaced: self.repls@ }
    }
}

impl TupleReplacement {
    /// A change of nothing in a row of `natts` columns.
    pub fn new(natts: usize) -> (r: Self)
        ensures
            r@ == ReplacementView::nothing(natts as nat),
    {
        let mut repls: Vec<bool> = Vec::new();
        let mut i: usize = 0;
        while i < natts
            invariant
                i <= natts,
                repls@.len() == i,
                forall|k: int| 0 <= k < i ==> !#[trigger] repls@[k],
            decreases natts - i,
        {
            repls.push(false);
            i = i + 1;
        }
        assert(repls@ =~= Seq::new(natts as nat, |i: int| false));
        TupleReplacement { fields: TupleFields::new(natts), repls }
    }

    /// Replaces column `attno`; nothing replaces it by NULL.
    pub fn set(&mut self, attno: i16, value: Option<CatalogCell>)
        requires
            1 <= attno,
            old(self)@.fits(old(self)@.values.len()),
            attno <= old(self)@.values.len(),
        ensures
            final(self)@ == old(self)@.with(attno, cell_view(value)),
    {
        self.fields.set(attno, value);
        self.repls.set(attno as usize - 1, true);
    }

    /// The new value of column `attno`, where it is replaced.
    pub fn replaced(&self, attno: i16) -> (r: Option<Option<CatalogCell>>)
        requires
            1 <= attno,
            self@.fits(self@.values.len()),
            attno <= self@.values.len(),
        ensures
            r is Some <==> self@.replaced[attno - 1],
            r is Some ==> cell_view(r->Some_0) == self@.values[attno - 1],
    {
        let i: usize = attno as usize - 1;
        if self.repls[i] {
            Some(
                match &self.fields.cells[i] {
                    Some(cell) => Some(cell.clone()),
                    None => None,
                },
            )
        } else {
            None
        }
    }

    /// The row after this change.
    pub fn apply(self, old_tuple: CatalogRow) -> (r: CatalogRow)
        requires
            self@.fits(old_tuple@.len()),
        ensures
            r@ == self@.applied(old_tuple@),
    {
        let ghost change = self@;
        let ghost before = old_tuple@;
        let mut cells = old_tuple.cells;
        let natts: usize = cells.len();
        let values = self.fields.cells;
        let repls = self.repls;
        let mut i: usize = 0;
        while i < natts
            invariant
                i <= natts,
                natts == cells@.len(),
                natts == before.len(),
                natts == values@.len(),
                natts == repls@.len(),
                change.values == cells_view(values@),
                change.replaced == repls@,
                forall|k: int|
                    0 <= k < natts ==> cell_view(#[trigger] cells@[k]) == if k < i && repls@[k] {
                        change.values[k]
                    } else {
                        before[k]
                    },
            decreases natts - i,
        {
            if repls[i] {
                let value = match &values[i] {
                    Some(cell) => Some(cell.clone()),
                    None => None,
                };
                assert(cell_view(value) == change.values[i as int]);
                cells.set(i, value);
            }
            i = i + 1;
        }
        let r = CatalogRow { cells };
        assert(r@ =~= change.applied(before));
        r
    }
}

} // verus!
