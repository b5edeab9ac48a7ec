//! Which columns a scan reads, and where their values go.

use vstd::prelude::*;

verus! {

/// A column that a scan reads: its number in the table, from one, and its
/// place in the scan's tuples, from zero.
#[derive(Debug, Clone, Copy, PartialEq, Eq, Structural)]
pub struct ProjectedField {
    pub attno: i16,
    pub destination: usize,
}

impl ProjectedField {
    /// A column that a scan reads.
    pub fn new(attno: i16, destination: usize) -> (r: Self)
        ensures
            r == (ProjectedField { attno, destination }),
    {
        ProjectedField { attno, destination }
    }
}

/// The columns that a scan reads, in the order of the table.
#[derive(Debug)]
pub struct Projection {
    columns: Vec<ProjectedField>,
}

impl View for Projection {
    type V = Seq<ProjectedField>;

    closed spec fn view(&self) -> Seq<ProjectedField> {
        self.columns@
    }
}

impl Projection {
    /// The columns that a scan reads.
    pub fn new(columns: Vec<ProjectedField>) -> (r: Self)
        ensures
            r@ == columns@,
    {
        Projection { columns }
    }

    /// The columns that the scan reads.
    pub fn columns(&self) -> (r: &Vec<ProjectedField>)
        ensures
            r@ == self@,
    {
        &self.columns
    }
}

} // verus!
