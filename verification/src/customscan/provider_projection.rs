//! Which columns a custom scan reads.

use vstd::prelude::*;

use crate::text::{signed_decimal, signed_decimal_text};

verus! {

/// The columns of the table that a query uses.
#[derive(Debug, Clone, Copy)]
pub enum NeededColumns<'a> {
    All,
    /// These columns, by number.
    Subset(&'a Vec<i16>),
}

/// What is known of a column that a query uses.
#[derive(Debug)]
pub struct ResolvedColumn {
    /// Its place in the scan's tuples, where it has one.
    pub destination: Option<usize>,
    /// Its name, where the table still has the column.
    pub name: Option<String>,
}

/// A column that a scan reads: its number in the table, its place in the
/// scan's tuples, and its name.
#[derive(Debug, PartialEq, Eq)]
pub struct ProjectedName {
    pub attno: i16,
    pub destination: usize,
    pub name: String,
}

/// A column that a scan reads.
pub struct ProjectedView {
    pub attno: i16,
    pub destination: usize,
    pub name: Seq<char>,
}

impl View for ProjectedName {
    type V = ProjectedView;

    open spec fn view(&self) -> ProjectedView {
        ProjectedView { attno: self.attno, destination: self.destination, name: self.name@ }
    }
}

/// The columns of some projected names.
pub open spec fn projected(columns: Seq<ProjectedName>) -> Seq<ProjectedView> {
    Seq::new(columns.len(), |i: int| columns[i]@)
}

/// The columns that a scan reads, in the order of the table.
#[derive(Debug)]
pub struct NamedProjection {
    columns: Vec<ProjectedName>,
}

impl View for NamedProjection {
    type V = Seq<ProjectedView>;

    closed spec fn view(&self) -> Seq<ProjectedView> {
        projected(self.columns@)
    }
}

impl NamedProjection {
    /// The columns that the scan reads.
    pub fn columns(&self) -> (r: &Vec<ProjectedName>)
        ensures
            projected(r@) == self@,
    {
        &self.columns
    }

    /// The names of the columns that the scan reads.
    pub fn names(&self) -> (r: Vec<&str>)
        ensures
            r@.len() == self@.len(),
            forall|i: int| 0 <= i < r@.len() ==> (#[trigger] r@[i])@ == self@[i].name,
    {
        let mut names: Vec<&str> = Vec::new();
        let mut i: usize = 0;
        while i < self.columns.len()
            invariant
                i <= self.columns@.len(),
                names@.len() == i,
                forall|k: int| 0 <= k < i ==> (#[trigger] names@[k])@ == self@[k].name,
            decreases self.columns@.len() - i,
        {
            names.push(self.columns[i].name.as_str());
            i = i + 1;
        }
        names
    }
}

/// Why a scan cannot read the columns that a query uses.
#[derive(Debug, Clone, Copy, PartialEq, Eq, Structural)]
pub enum ProjectionError {
    EmptyProjectedLayout,
    UnmappedAttno(i16),
    UnresolvedAttno(i16),
}

impl ProjectionError {
    /// What the error says.
    pub open spec fn text(self) -> Seq<char> {
        match self {
            ProjectionError::EmptyProjectedLayout => "projected scan tuple layout contains no source columns"@,
            ProjectionError::UnmappedAttno(attno) => "projected attno "@ + signed_decimal(attno as int)
                + " has no destination in the scan tuple layout"@,
            ProjectionError::UnresolvedAttno(attno) => "projected attno "@ + signed_decimal(attno as int)
                + " could not be resolved to a live column name (stale plan or dropped attribute)"@,
        }
    }

    /// What the error says.
    pub fn message(&self) -> (r: String)
        ensures
            r@ == self.text(),
    {
        match self {
            ProjectionError::EmptyProjectedLayout => {
                "projected scan tuple layout contains no source columns".to_owned()
            },
            ProjectionError::UnmappedAttno(attno) => {
                let mut text = "projected attno ".to_owned();
                let number = signed_decimal_text(*attno as i64);
                text.append(number.as_str());
                text.append(" has no destination in the scan tuple layout");
                text
            },
            ProjectionError::UnresolvedAttno(attno) => {
                let mut text = "projected attno ".to_owned();
                let number = signed_decimal_text(*attno as i64);
                text.append(number.as_str());
                text.append(
                    " could not be resolved to a live column name (stale plan or dropped attribute)",
                );
                text
            },
        }
    }
}

/// The failure of a column that a query uses, if any.
pub open spec fn column_failure(attno: i16, column: ResolvedColumn) -> Option<ProjectionError> {
    if column.destination is None {
        Some(ProjectionError::UnmappedAttno(attno))
    } else if column.name is None {
        Some(ProjectionError::UnresolvedAttno(attno))
    } else {
        None
    }
}

/// The columns that a query uses, in its order.
pub open spec fn entries(attnos: Seq<i16>, columns: Seq<ResolvedColumn>) -> Seq<ProjectedView> {
    Seq::new(
        attnos.len(),
        |i: int|
            ProjectedView {
                attno: attnos[i],
                destination: columns[i].destination->Some_0,
                name: columns[i].name->Some_0@,
            },
    )
}

/// Whether columns are in the order of the table.
pub open spec fn in_table_order(columns: Seq<ProjectedView>) -> bool {
    forall|i: int, j: int|
        0 <= i < j < columns.len() ==> #[trigger] columns[i].attno <= #[trigger] columns[j].attno
}

/// Whether a failure is that of the first column that has one, column `k`.
pub open spec fn fails_at(
    attnos: Seq<i16>,
    columns: Seq<ResolvedColumn>,
    k: int,
    e: ProjectionError,
) -> bool {
    &&& 0 <= k < attnos.len()
    &&& forall|i: int| 0 <= i < k ==> column_failure(attnos[i], #[trigger] columns[i]) is None
    &&& column_failure(attnos[k], columns[k]) == Some(e)
}

fn insert_in_table_order(columns: &mut Vec<ProjectedName>, column: ProjectedName)
    requires
        in_table_order(projected(old(columns)@)),
    ensures
        in_table_order(projected(final(columns)@)),
        projected(final(columns)@).to_multiset() == projected(old(columns)@).to_multiset().insert(
            column@,
        ),
{
    let ghost before = projected(columns@);
    let ghost added = column@;
    let mut at: usize = columns.len();
    while at > 0 && columns[at - 1].attno > column.attno
        invariant
            at <= columns@.len(),
            before == projected(columns@),
            added == column@,
            in_table_order(before),
            forall|k: int| at <= k < before.len() ==> (#[trigger] before[k]).attno > added.attno,
        decreases at,
    {
        assert(before[at - 1].attno == columns@[at - 1].attno);
        at = at - 1;
    }
    proof {
        if at > 0 {
            assert(before[at - 1].attno == columns@[at - 1].attno);
            assert(before[at - 1].attno <= added.attno);
            assert forall|k: int| 0 <= k < at implies (#[trigger] before[k]).attno <= added.attno by {
                if k < at - 1 {
                    assert(before[k].attno <= before[at - 1].attno);
                }
            }
        }
    }
    columns.insert(at, column);
    proof {
        let after = projected(columns@);
        assert(after =~= before.insert(at as int, added));
        assert forall|i: int, j: int| 0 <= i < j < after.len() implies #[trigger] after[i].attno
            <= #[trigger] after[j].attno by {
            let p = if i < at {
                i
            } else {
                i - 1
            };
            let q = if j < at {
                j
            } else {
                j - 1
            };
            if i != at && j != at {
                assert(before[p].attno <= before[q].attno);
            }
        }
        assert(after.remove(at as int) =~= before);
        vstd::seq_lib::to_multiset_remove(after, at as int);
        after.to_multiset_ensures();
        assert(after.contains(added)) by {
            assert(after[at as int] == added);
        }
        assert(after.to_multiset() =~= before.to_multiset().insert(added));
    }
}

/// Decides which columns a scan reads.
#[derive(Debug, Clone, Copy)]
pub struct ProjectionPolicy;

impl ProjectionPolicy {
    /// The columns that a scan reads: nothing where it reads them all, else
    /// those that the query uses, in the order of the table. `columns` is what
    /// is known of each column that the query uses.
    pub fn resolve(&self, needed: NeededColumns<'_>, columns: &Vec<ResolvedColumn>) -> (r: Result<
        Option<NamedProjection>,
        ProjectionError,
    >)
        requires
            needed matches NeededColumns::Subset(attnos) ==> attnos@.len() == columns@.len(),
        ensures
            match (r, needed) {
                (Ok(None), NeededColumns::All) => true,
                (Ok(Some(p)), NeededColumns::Subset(attnos)) => {
                    &&& attnos@.len() > 0
                    &&& forall|i: int|
                        0 <= i < attnos@.len() ==> column_failure(
                            attnos@[i],
                            #[trigger] columns@[i],
                        ) is None
                    &&& in_table_order(p@)
                    &&& p@.to_multiset() == entries(attnos@, columns@).to_multiset()
                },
                (Err(e), NeededColumns::Subset(attnos)) => if attnos@.len() == 0 {
                    e == ProjectionError::EmptyProjectedLayout
                } else {
                    exists|k: int| fails_at(attnos@, columns@, k, e)
                },
                _ => false,
            },
    {
        let attnos = match needed {
            NeededColumns::All => {
                return Ok(None);
            },
            NeededColumns::Subset(attnos) => attnos,
        };
        if attnos.len() == 0 {
            return Err(ProjectionError::EmptyProjectedLayout);
        }
        let ghost wanted = entries(attnos@, columns@);
        let mut selected: Vec<ProjectedName> = Vec::new();
        proof {
            assert(projected(selected@) =~= Seq::<ProjectedView>::empty());
            assert(wanted.take(0) =~= Seq::<ProjectedView>::empty());
        }
        let mut i: usize = 0;
        while i < attnos.len()
            invariant
                i <= attnos@.len(),
                attnos@.len() == columns@.len(),
                attnos@.len() > 0,
                needed == NeededColumns::Subset(attnos),
                wanted == entries(attnos@, columns@),
                forall|k: int|
                    0 <= k < i ==> column_failure(attnos@[k], #[trigger] columns@[k]) is None,
                in_table_order(projected(selected@)),
                projected(selected@).to_multiset() == wanted.take(i as int).to_multiset(),
            decreases attnos@.len() - i,
        {
            let attno: i16 = attnos[i];
            let destination: usize = match columns[i].destination {
                Some(destination) => destination,
                None => {
                    assert(fails_at(
                        attnos@,
                        columns@,
                        i as int,
                        ProjectionError::UnmappedAttno(attno),
                    ));
                    return Err(ProjectionError::UnmappedAttno(attno));
                },
            };
            let name = match &columns[i].name {
                Some(name) => name.clone(),
                None => {
                    assert(fails_at(
                        attnos@,
                        columns@,
                        i as int,
                        ProjectionError::UnresolvedAttno(attno),
                    ));
                    return Err(ProjectionError::UnresolvedAttno(attno));
                },
            };
            let column = ProjectedName { attno, destination, name };
            proof {
                assert(column@ == wanted[i as int]);
                assert(wanted.take(i + 1) =~= wanted.take(i as int).push(column@));
                vstd::seq_lib::to_multiset_build(wanted.take(i as int), column@);
            }
            insert_in_table_order(&mut selected, column);
            i = i + 1;
        }
        assert(wanted.take(attnos@.len() as int) =~= wanted);
        Ok(Some(NamedProjection { columns: selected }))
    }
}

/// Whether a column that is read is the one with a number, as it was resolved.
pub open spec fn delivers(read: ProjectedView, attno: i16, column: ResolvedColumn) -> bool {
    &&& read.attno == attno
    &&& column.destination == Some(read.destination)
    &&& column.name is Some && column.name->Some_0@ == read.name
}

/// Whether some columns that are read have one with a number, as it was
/// resolved.
pub open spec fn is_read(read: Seq<ProjectedView>, attno: i16, column: ResolvedColumn) -> bool {
    exists|k: int| 0 <= k < read.len() && delivers(#[trigger] read[k], attno, column)
}

/// Whether a column that is read is one that the query uses.
pub open spec fn is_needed(read: ProjectedView, attnos: Seq<i16>, columns: Seq<ResolvedColumn>) -> bool {
    exists|i: int| 0 <= i < attnos.len() && delivers(read, attnos[i], #[trigger] columns[i])
}

/// Every column that the query uses is read, under its own number and name and
/// into its own place, and no other column is.
pub proof fn needed_columns_are_read(
    attnos: Seq<i16>,
    columns: Seq<ResolvedColumn>,
    read: Seq<ProjectedView>,
)
    requires
        attnos.len() == columns.len(),
        forall|i: int| 0 <= i < attnos.len() ==> column_failure(attnos[i], #[trigger] columns[i]) is None,
        read.to_multiset() == entries(attnos, columns).to_multiset(),
    ensures
        read.len() == attnos.len(),
        forall|i: int|
            0 <= i < attnos.len() ==> is_read(read, attnos[i], #[trigger] columns[i]),
        forall|k: int|
            0 <= k < read.len() ==> is_needed(#[trigger] read[k], attnos, columns),
{
    let wanted = entries(attnos, columns);
    read.to_multiset_ensures();
    wanted.to_multiset_ensures();
    assert forall|i: int| 0 <= i < attnos.len() implies is_read(read, attnos[i], #[trigger] columns[i]) by {
        assert(column_failure(attnos[i], columns[i]) is None);
        assert(wanted.contains(wanted[i]));
        vstd::seq_lib::to_multiset_contains(wanted, wanted[i]);
        vstd::seq_lib::to_multiset_contains(read, wanted[i]);
        assert(read.contains(wanted[i]));
        let k = choose|k: int| 0 <= k < read.len() && read[k] == wanted[i];
        assert(delivers(read[k], attnos[i], columns[i]));
    }
    assert forall|k: int| 0 <= k < read.len() implies is_needed(#[trigger] read[k], attnos, columns) by {
        assert(read.contains(read[k]));
        vstd::seq_lib::to_multiset_contains(read, read[k]);
        vstd::seq_lib::to_multiset_contains(wanted, read[k]);
        assert(wanted.contains(read[k]));
        let i = choose|i: int| 0 <= i < wanted.len() && wanted[i] == read[k];
        assert(column_failure(attnos[i], columns[i]) is None);
        assert(delivers(read[k], attnos[i], columns[i]));
    }
}

} // verus!
