//! What the planner keeps of a custom scan for its execution.
//!
//! The payload is a list of integer cells. An identifier is kept as the integer
//! with the same bits.

use vstd::prelude::*;

use crate::Oid;

verus! {

/// A payload that cannot be read.
#[derive(Debug, Clone, Copy, PartialEq, Eq, Structural)]
pub enum PrivateDataError {
    /// A cell was read past the end.
    ReadPastEnd { position: usize, len: usize },
    /// Cells are left after everything was read.
    UnexpectedTrailingCells { read: usize, len: usize },
}

/// The integer with the same bits as an identifier.
pub open spec fn cell_of(oid: Oid) -> i32 {
    if oid <= i32::MAX {
        oid as i32
    } else {
        (oid - 0x1_0000_0000) as i32
    }
}

/// The identifier with the same bits as an integer.
pub open spec fn oid_of_cell(cell: i32) -> Oid {
    if cell >= 0 {
        cell as Oid
    } else {
        (cell + 0x1_0000_0000) as Oid
    }
}

/// Writes a payload.
#[derive(Debug)]
pub struct PrivateDataWriter {
    cells: Vec<i32>,
}

impl View for PrivateDataWriter {
    type V = Seq<i32>;

    closed spec fn view(&self) -> Seq<i32> {
        self.cells@
    }
}

impl PrivateDataWriter {
    /// An empty payload.
    pub fn new() -> (r: Self)
        ensures
            r@ == Seq::<i32>::empty(),
    {
        PrivateDataWriter { cells: Vec::new() }
    }

    /// Appends an identifier.
    pub fn append_oid(&mut self, oid: Oid)
        ensures
            final(self)@ == old(self)@.push(cell_of(oid)),
    {
        let cell: i32 = if oid <= 0x7fff_ffff {
            oid as i32
        } else {
            (oid as i64 - 0x1_0000_0000) as i32
        };
        self.cells.push(cell);
    }

    /// The payload.
    pub fn into_cells(self) -> (r: Vec<i32>)
        ensures
            r@ == self@,
    {
        self.cells
    }
}

/// Reads a payload.
#[derive(Debug)]
pub struct PrivateDataReader<'a> {
    cells: &'a Vec<i32>,
    position: usize,
}

/// A payload and how much of it was read.
pub struct ReaderView {
    pub cells: Seq<i32>,
    pub position: nat,
}

impl<'a> View for PrivateDataReader<'a> {
    type V = ReaderView;

    closed spec fn view(&self) -> ReaderView {
        ReaderView { cells: self.cells@, position: self.position as nat }
    }
}

impl<'a> PrivateDataReader<'a> {
    /// No more was read than there is.
    pub open spec fn wf(self) -> bool {
        self@.position <= self@.cells.len()
    }

    /// At the start of a payload.
    pub fn new(cells: &'a Vec<i32>) -> (r: Self)
        ensures
            r.wf(),
            r@ == (ReaderView { cells: cells@, position: 0 }),
    {
        PrivateDataReader { cells, position: 0 }
    }

    /// Reads an identifier.
    pub fn read_oid(&mut self) -> (r: Result<Oid, PrivateDataError>)
        requires
            old(self).wf(),
        ensures
            final(self).wf(),
            match r {
                Ok(oid) => {
                    &&& old(self)@.position < old(self)@.cells.len()
                    &&& oid == oid_of_cell(old(self)@.cells[old(self)@.position as int])
                    &&& final(self)@ == (ReaderView {
                        position: old(self)@.position + 1,
                        ..old(self)@
                    })
                },
                Err(e) => {
                    &&& old(self)@.position == old(self)@.cells.len()
                    &&& e == (PrivateDataError::ReadPastEnd {
                        position: old(self)@.position as usize,
                        len: old(self)@.cells.len() as usize,
                    })
                    &&& final(self)@ == old(self)@
                },
            },
    {
        if self.position >= self.cells.len() {
            return Err(
                PrivateDataError::ReadPastEnd { position: self.position, len: self.cells.len() },
            );
        }
        let cell: i32 = self.cells[self.position];
        self.position = self.position + 1;
        Ok(
            if cell >= 0 {
                cell as Oid
            } else {
                (cell as i64 + 0x1_0000_0000) as Oid
            },
        )
    }

    /// Makes sure that everything was read.
    pub fn finish(&self) -> (r: Result<(), PrivateDataError>)
        requires
            self.wf(),
        ensures
            match r {
                Ok(_) => self@.position == self@.cells.len(),
                Err(e) => self@.position < self@.cells.len() && e
                    == (PrivateDataError::UnexpectedTrailingCells {
                    read: self@.position as usize,
                    len: self@.cells.len() as usize,
                }),
            },
    {
        if self.position < self.cells.len() {
            return Err(
                PrivateDataError::UnexpectedTrailingCells { read: self.position, len: self.cells.len() },
            );
        }
        Ok(())
    }
}

/// What is kept of a scan: the tablespace of its table.
#[derive(Debug, Clone, Copy, PartialEq, Eq, Structural)]
pub struct IcebergPrivateData {
    pub tablespace_oid: Oid,
}

impl IcebergPrivateData {
    /// Appends what is kept to a payload.
    pub fn encode(&self, writer: &mut PrivateDataWriter)
        ensures
            final(writer)@ == old(writer)@.push(cell_of(self.tablespace_oid)),
    {
        writer.append_oid(self.tablespace_oid);
    }

    /// Reads what is kept from a payload. The invalid identifier is a value
    /// like any other.
    pub fn decode(reader: &mut PrivateDataReader<'_>) -> (r: Result<Self, PrivateDataError>)
        requires
            old(reader).wf(),
        ensures
            final(reader).wf(),
            match r {
                Ok(data) => {
                    &&& old(reader)@.position < old(reader)@.cells.len()
                    &&& data.tablespace_oid == oid_of_cell(
                        old(reader)@.cells[old(reader)@.position as int],
                    )
                    &&& final(reader)@ == (ReaderView {
                        position: old(reader)@.position + 1,
                        ..old(reader)@
                    })
                },
                Err(e) => {
                    &&& old(reader)@.position == old(reader)@.cells.len()
                    &&& e == (PrivateDataError::ReadPastEnd {
                        position: old(reader)@.position as usize,
                        len: old(reader)@.cells.len() as usize,
                    })
                    &&& final(reader)@ == old(reader)@
                },
            },
    {
        match reader.read_oid() {
            Ok(tablespace_oid) => Ok(IcebergPrivateData { tablespace_oid }),
            Err(e) => Err(e),
        }
    }
}

/// What was kept reads back as it was, for every identifier.
pub proof fn kept_identifiers_read_back(oid: Oid)
    ensures
        oid_of_cell(cell_of(oid)) == oid,
{
}

} // verus!
