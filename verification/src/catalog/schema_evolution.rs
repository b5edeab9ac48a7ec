//! Schema changes that one statement asks for.

use vstd::prelude::*;

use crate::Oid;
use crate::catalog::row_mutations::lemma_filter_all;
use crate::catalog::schema_builder::{
    Warned, column_mapping, column_type_to_iceberg_type, column_warnings,
};
use crate::catalog::schema_mapping::{Conversion, PgType, Type};
use crate::error::{IcebergError, IcebergResult};
use crate::text::texts;

verus! {

/// One schema change of a statement.
#[derive(Debug, PartialEq, Eq)]
pub enum SchemaEvolutionOp {
    AddNullableColumn { name: String },
    DropColumn { name: String },
    RenameColumn { old_name: String, new_name: String },
    DropNotNull { name: String },
}

/// One change handed to the table-format layer.
#[derive(Debug, PartialEq, Eq)]
pub enum SchemaChange {
    AddOptionalColumn { column: String, column_type: Type },
    DeleteColumn { column: String },
    RenameColumn { column: String, new_name: String },
    MakeColumnOptional { column: String },
}

/// A schema change that was prepared and not yet committed.
#[derive(Debug, PartialEq, Eq)]
pub struct PreparedSchemaUpdate {
    pub changes: Vec<SchemaChange>,
}

impl PreparedSchemaUpdate {
    /// Whether the update changes nothing.
    pub fn is_empty(&self) -> (r: bool)
        ensures
            r == (self.changes@.len() == 0),
    {
        self.changes.is_empty()
    }
}

/// The schema changes of one statement, in order.
#[derive(Debug)]
pub struct SchemaEvolutionUpdate {
    ops: Vec<SchemaEvolutionOp>,
}

impl View for SchemaEvolutionUpdate {
    type V = Seq<SchemaEvolutionOp>;

    closed spec fn view(&self) -> Seq<SchemaEvolutionOp> {
        self.ops@
    }
}

/// Whether a change adds a column.
pub open spec fn adds_column(op: SchemaEvolutionOp) -> bool {
    op is AddNullableColumn
}

/// The table-format change for an operation on existing columns.
pub open spec fn existing_change(op: SchemaEvolutionOp, change: SchemaChange) -> bool {
    match op {
        SchemaEvolutionOp::AddNullableColumn { .. } => false,
        SchemaEvolutionOp::DropColumn { name } => change == (SchemaChange::DeleteColumn { column: name }),
        SchemaEvolutionOp::RenameColumn { old_name, new_name } => change == (SchemaChange::RenameColumn {
            column: old_name,
            new_name,
        }),
        SchemaEvolutionOp::DropNotNull { name } => change == (SchemaChange::MakeColumnOptional {
            column: name,
        }),
    }
}

/// The existing-column operations among some operations.
pub open spec fn existing_ops(ops: Seq<SchemaEvolutionOp>) -> Seq<SchemaEvolutionOp> {
    ops.filter(|op: SchemaEvolutionOp| !adds_column(op))
}

/// Whether some changes are those of some operations, one for one.
pub open spec fn changes_match(ops: Seq<SchemaEvolutionOp>, changes: Seq<SchemaChange>) -> bool {
    &&& changes.len() == ops.len()
    &&& forall|i: int| 0 <= i < ops.len() ==> existing_change(#[trigger] ops[i], changes[i])
}

/// The type of a column of the changed relation.
#[derive(Debug)]
pub struct ColumnType {
    pub oid: Oid,
    pub typmod: i32,
    /// The successive element types of the type; none for a scalar.
    pub element_chain: Vec<Oid>,
}

/// A live column of a relation: its number, counted from one, and its name.
#[derive(Debug)]
pub struct LiveColumn {
    pub attno: i16,
    pub name: String,
}

/// A live column of a relation and its type.
#[derive(Debug)]
pub struct NamedColumn {
    pub name: String,
    pub column_type: ColumnType,
}

/// A column's name, type, modifier and element types.
pub struct ColumnView {
    pub name: Seq<char>,
    pub oid: Oid,
    pub typmod: i32,
    pub element_chain: Seq<Oid>,
}

impl View for NamedColumn {
    type V = ColumnView;

    open spec fn view(&self) -> ColumnView {
        ColumnView {
            name: self.name@,
            oid: self.column_type.oid,
            typmod: self.column_type.typmod,
            element_chain: self.column_type.element_chain@,
        }
    }
}

impl ColumnView {
    /// The type that a schema change gives the column.
    pub open spec fn mapping(self) -> Conversion<Type> {
        column_mapping(PgType { oid: self.oid, type_mod: self.typmod }, self.element_chain, 1)
    }
}

/// The live columns of a relation after the statement, by name.
#[derive(Debug)]
pub struct RelationColumns {
    columns: Vec<NamedColumn>,
}

impl View for RelationColumns {
    type V = Seq<ColumnView>;

    closed spec fn view(&self) -> Seq<ColumnView> {
        column_views(self.columns@)
    }
}

spec fn column_views(columns: Seq<NamedColumn>) -> Seq<ColumnView> {
    Seq::new(columns.len(), |i: int| columns[i]@)
}

/// Pairs the live columns with their types; a column whose number has no type
/// is left out.
pub open spec fn captured(live: Seq<LiveColumn>, types: Seq<ColumnType>) -> Seq<ColumnView>
    decreases live.len(),
{
    if live.len() == 0 {
        Seq::empty()
    } else {
        let earlier = captured(live.drop_last(), types);
        let column = live.last();
        if 1 <= column.attno <= types.len() {
            let column_type = types[column.attno - 1];
            earlier.push(
                ColumnView {
                    name: column.name@,
                    oid: column_type.oid,
                    typmod: column_type.typmod,
                    element_chain: column_type.element_chain@,
                },
            )
        } else {
            earlier
        }
    }
}

/// Whether column `i` is named `name`.
pub open spec fn named(columns: Seq<ColumnView>, i: int, name: Seq<char>) -> bool {
    0 <= i < columns.len() && columns[i].name == name
}

/// Whether some column is named `name`.
pub open spec fn has_column(columns: Seq<ColumnView>, name: Seq<char>) -> bool {
    exists|i: int| #[trigger] named(columns, i, name)
}

/// Whether column `i` is the last one named `name`.
pub open spec fn last_named(columns: Seq<ColumnView>, i: int, name: Seq<char>) -> bool {
    named(columns, i, name) && forall|j: int| i < j ==> !#[trigger] named(columns, j, name)
}

/// The column that a name stands for.
pub open spec fn column_named(columns: Seq<ColumnView>, name: Seq<char>) -> ColumnView {
    columns[choose|i: int| last_named(columns, i, name)]
}

proof fn lemma_column_named(columns: Seq<ColumnView>, i: int, name: Seq<char>)
    requires
        last_named(columns, i, name),
    ensures
        has_column(columns, name),
        column_named(columns, name) == columns[i],
{
    let k = choose|k: int| last_named(columns, k, name);
    if k < i {
        assert(named(columns, i, name));
    } else if i < k {
        assert(named(columns, k, name));
    }
    assert(named(columns, i, name));
}

impl RelationColumns {
    /// Pairs the live columns of a relation with their types.
    pub fn capture(live_columns: &Vec<LiveColumn>, attr_types: &Vec<ColumnType>) -> (r: Self)
        ensures
            r@ == captured(live_columns@, attr_types@),
    {
        let mut columns: Vec<NamedColumn> = Vec::new();
        let mut i: usize = 0;
        assert(column_views(columns@) =~= Seq::<ColumnView>::empty());
        while i < live_columns.len()
            invariant
                i <= live_columns@.len(),
                column_views(columns@) == captured(live_columns@.take(i as int), attr_types@),
            decreases live_columns@.len() - i,
        {
            let live = &live_columns[i];
            assert(live_columns@.take(i + 1).drop_last() =~= live_columns@.take(i as int));
            if live.attno >= 1 && (live.attno as usize) <= attr_types.len() {
                let column_type = &attr_types[live.attno as usize - 1];
                let ghost before = columns@;
                let element_chain = column_type.element_chain.clone();
                assert(element_chain@ =~= column_type.element_chain@);
                let column = NamedColumn {
                    name: live.name.clone(),
                    column_type: ColumnType {
                        oid: column_type.oid,
                        typmod: column_type.typmod,
                        element_chain,
                    },
                };
                columns.push(column);
                assert(column_views(columns@) =~= column_views(before).push(column@));
            }
            i = i + 1;
        }
        assert(live_columns@.take(live_columns@.len() as int) =~= live_columns@);
        RelationColumns { columns }
    }

    /// Finds a column by name; of several the last one counts.
    pub fn column_type(&self, name: &str) -> (r: IcebergResult<&NamedColumn>)
        ensures
            has_column(self@, name@) ==> r is Ok && r->Ok_0@ == column_named(self@, name@),
            !has_column(self@, name@) ==> (r matches Err(IcebergError::ColumnNotFound(m)) && m@ == name@),
    {
        let wanted = name.to_owned();
        let mut i: usize = self.columns.len();
        while i > 0
            invariant
                i <= self.columns@.len(),
                wanted@ == name@,
                forall|j: int| i <= j ==> !#[trigger] named(self@, j, name@),
            decreases i,
        {
            i = i - 1;
            if self.columns[i].name == wanted {
                assert(named(self@, i as int, name@));
                proof {
                    lemma_column_named(self@, i as int, name@);
                }
                return Ok(&self.columns[i]);
            }
            assert(!named(self@, i as int, name@));
        }
        Err(IcebergError::ColumnNotFound(wanted))
    }
}

/// Whether a change is the one that an operation asks for.
pub open spec fn staged_change(columns: Seq<ColumnView>, op: SchemaEvolutionOp, change: SchemaChange) -> bool {
    match op {
        SchemaEvolutionOp::AddNullableColumn { name } => {
            &&& has_column(columns, name@)
            &&& column_named(columns, name@).mapping() is Converted
            &&& change == (SchemaChange::AddOptionalColumn {
                column: name,
                column_type: column_named(columns, name@).mapping()->Converted_0,
            })
        },
        _ => existing_change(op, change),
    }
}

/// Whether an operation cannot be staged.
pub open spec fn unstageable(columns: Seq<ColumnView>, op: SchemaEvolutionOp) -> bool {
    match op {
        SchemaEvolutionOp::AddNullableColumn { name } => !has_column(columns, name@) || column_named(
            columns,
            name@,
        ).mapping() is Refused,
        _ => false,
    }
}

/// The error of an operation that cannot be staged.
pub open spec fn stage_refusal(columns: Seq<ColumnView>, op: SchemaEvolutionOp, e: IcebergError) -> bool {
    match op {
        SchemaEvolutionOp::AddNullableColumn { name } => if !has_column(columns, name@) {
            e matches IcebergError::ColumnNotFound(m) && m@ == name@
        } else {
            e matches IcebergError::UnsupportedColumnType(m) && Conversion::<Type>::Refused(m@) == column_named(
                columns,
                name@,
            ).mapping()
        },
        _ => false,
    }
}

/// The warnings that the added columns call for, in order. A column that the
/// relation does not have calls for none.
pub open spec fn staged_warnings(columns: Seq<ColumnView>, ops: Seq<SchemaEvolutionOp>) -> Seq<Seq<char>>
    decreases ops.len(),
{
    if ops.len() == 0 {
        Seq::empty()
    } else {
        let earlier = staged_warnings(columns, ops.drop_last());
        match ops.last() {
            SchemaEvolutionOp::AddNullableColumn { name } => {
                let column = column_named(columns, name@);
                if has_column(columns, name@) {
                    earlier + column_warnings(
                        name@,
                        PgType { oid: column.oid, type_mod: column.typmod },
                    )
                } else {
                    earlier
                }
            },
            _ => earlier,
        }
    }
}

fn existing_schema_change(op: &SchemaEvolutionOp) -> (r: Option<SchemaChange>)
    ensures
        adds_column(*op) ==> r is None,
        !adds_column(*op) ==> r is Some && existing_change(*op, r->Some_0),
{
    match op {
        SchemaEvolutionOp::AddNullableColumn { .. } => None,
        SchemaEvolutionOp::DropColumn { name } => Some(
            SchemaChange::DeleteColumn { column: name.clone() },
        ),
        SchemaEvolutionOp::RenameColumn { old_name, new_name } => Some(
            SchemaChange::RenameColumn { column: old_name.clone(), new_name: new_name.clone() },
        ),
        SchemaEvolutionOp::DropNotNull { name } => Some(
            SchemaChange::MakeColumnOptional { column: name.clone() },
        ),
    }
}

impl SchemaEvolutionUpdate {
    /// No changes.
    pub fn new() -> (r: Self)
        ensures
            r@ == Seq::<SchemaEvolutionOp>::empty(),
    {
        SchemaEvolutionUpdate { ops: Vec::new() }
    }

    /// Whether the statement changes nothing.
    #[must_use]
    pub fn is_empty(&self) -> (r: bool)
        ensures
            r == (self@.len() == 0),
    {
        self.ops.is_empty()
    }

    /// Adds a nullable column.
    pub fn add_nullable_column(&mut self, name: String)
        ensures
            final(self)@ == old(self)@.push((SchemaEvolutionOp::AddNullableColumn { name })),
    {
        self.ops.push(SchemaEvolutionOp::AddNullableColumn { name });
    }

    /// Drops a column.
    pub fn drop_column(&mut self, name: String)
        ensures
            final(self)@ == old(self)@.push((SchemaEvolutionOp::DropColumn { name })),
    {
        self.ops.push(SchemaEvolutionOp::DropColumn { name });
    }

    /// Renames a column.
    pub fn rename_column(&mut self, old_name: String, new_name: String)
        ensures
            final(self)@ == old(self)@.push((SchemaEvolutionOp::RenameColumn { old_name, new_name })),
    {
        self.ops.push(SchemaEvolutionOp::RenameColumn { old_name, new_name });
    }

    /// Makes a column nullable.
    pub fn drop_not_null(&mut self, name: String)
        ensures
            final(self)@ == old(self)@.push((SchemaEvolutionOp::DropNotNull { name })),
    {
        self.ops.push(SchemaEvolutionOp::DropNotNull { name });
    }

    /// Whether some change adds a column.
    pub fn has_add_column(&self) -> (r: bool)
        ensures
            r == exists|i: int| 0 <= i < self@.len() && adds_column(#[trigger] self@[i]),
    {
        let mut i: usize = 0;
        while i < self.ops.len()
            invariant
                i <= self.ops@.len(),
                forall|k: int| 0 <= k < i ==> !adds_column(#[trigger] self@[k]),
            decreases self.ops@.len() - i,
        {
            if let SchemaEvolutionOp::AddNullableColumn { .. } = &self.ops[i] {
                assert(adds_column(self@[i as int]));
                return true;
            }
            i = i + 1;
        }
        false
    }

    /// Whether some change concerns an existing column.
    pub fn has_existing_schema_op(&self) -> (r: bool)
        ensures
            r == exists|i: int| 0 <= i < self@.len() && !adds_column(#[trigger] self@[i]),
    {
        let mut i: usize = 0;
        while i < self.ops.len()
            invariant
                i <= self.ops@.len(),
                forall|k: int| 0 <= k < i ==> adds_column(#[trigger] self@[k]),
            decreases self.ops@.len() - i,
        {
            match &self.ops[i] {
                SchemaEvolutionOp::AddNullableColumn { .. } => {},
                _ => {
                    assert(!adds_column(self@[i as int]));
                    return true;
                },
            }
            i = i + 1;
        }
        false
    }

    /// The changes to try before the statement runs: those of existing
    /// columns, in order. Nothing is tried when there are none.
    pub fn preflight_existing_schema(&self) -> (r: Option<Vec<SchemaChange>>)
        ensures
            r is None <==> forall|i: int| 0 <= i < self@.len() ==> adds_column(#[trigger] self@[i]),
            r matches Some(changes) ==> changes_match(existing_ops(self@), changes@),
    {
        if !self.has_existing_schema_op() {
            return None;
        }
        let ghost keep = |op: SchemaEvolutionOp| !adds_column(op);
        let mut changes: Vec<SchemaChange> = Vec::new();
        let mut i: usize = 0;
        proof {
            reveal(Seq::filter);
            assert(self@.take(0).filter(keep) =~= Seq::<SchemaEvolutionOp>::empty());
        }
        while i < self.ops.len()
            invariant
                i <= self.ops@.len(),
                keep == (|op: SchemaEvolutionOp| !adds_column(op)),
                changes_match(self@.take(i as int).filter(keep), changes@),
            decreases self.ops@.len() - i,
        {
            proof {
                reveal(Seq::filter);
                assert(self@.take(i + 1).drop_last() =~= self@.take(i as int));
            }
            if let Some(change) = existing_schema_change(&self.ops[i]) {
                changes.push(change);
            }
            i = i + 1;
        }
        assert(self@.take(self@.len() as int) =~= self@);
        Some(changes)
    }

    /// The changes to stage after the statement ran, one for one. The first
    /// change that cannot be staged ends the work.
    pub fn stage_changes(&self, columns: &RelationColumns) -> (r: Warned<PreparedSchemaUpdate>)
        requires
            forall|i: int| 0 <= i < columns@.len() ==> (#[trigger] columns@[i]).element_chain.len() < i32::MAX,
        ensures
            match r.result {
                Ok(prepared) => {
                    &&& prepared.changes@.len() == self@.len()
                    &&& forall|i: int|
                        0 <= i < self@.len() ==> staged_change(
                            columns@,
                            #[trigger] self@[i],
                            prepared.changes@[i],
                        )
                    &&& texts(r.warnings@) == staged_warnings(columns@, self@)
                },
                Err(e) => exists|i: int|
                    {
                        &&& 0 <= i < self@.len()
                        &&& unstageable(columns@, #[trigger] self@[i])
                        &&& forall|j: int| 0 <= j < i ==> !unstageable(columns@, #[trigger] self@[j])
                        &&& stage_refusal(columns@, self@[i], e)
                        &&& texts(r.warnings@) == staged_warnings(columns@, self@.take(i + 1))
                    },
            },
    {
        let mut changes: Vec<SchemaChange> = Vec::new();
        let mut warnings: Vec<String> = Vec::new();
        let mut i: usize = 0;
        assert(texts(warnings@) =~= Seq::<Seq<char>>::empty());
        while i < self.ops.len()
            invariant
                i <= self.ops@.len(),
                forall|k: int|
                    0 <= k < columns@.len() ==> (#[trigger] columns@[k]).element_chain.len() < i32::MAX,
                changes@.len() == i,
                forall|k: int| 0 <= k < i ==> staged_change(columns@, #[trigger] self@[k], changes@[k]),
                forall|j: int| 0 <= j < i ==> !unstageable(columns@, #[trigger] self@[j]),
                texts(warnings@) == staged_warnings(columns@, self@.take(i as int)),
            decreases self.ops@.len() - i,
        {
            let ghost before = changes@;
            assert(self@.take(i + 1).drop_last() =~= self@.take(i as int));
            match &self.ops[i] {
                SchemaEvolutionOp::AddNullableColumn { name } => {
                    match columns.column_type(name.as_str()) {
                        Ok(column) => {
                            proof {
                                let k = choose|k: int| last_named(columns@, k, name@);
                                lemma_last_exists(columns@, name@);
                                assert(columns@[k] == column@);
                            }
                            let converted = column_type_to_iceberg_type(
                                name.as_str(),
                                column.column_type.oid,
                                column.column_type.typmod,
                                &column.column_type.element_chain,
                            );
                            let ghost earlier = warnings@;
                            let mut own = converted.warnings;
                            let ghost more = own@;
                            warnings.append(&mut own);
                            assert(texts(warnings@) =~= texts(earlier) + texts(more));
                            assert(texts(warnings@) =~= staged_warnings(columns@, self@.take(i + 1)));
                            match converted.result {
                                Ok(column_type) => {
                                    changes.push(
                                        SchemaChange::AddOptionalColumn { column: name.clone(), column_type },
                                    );
                                },
                                Err(e) => {
                                    assert(unstageable(columns@, self@[i as int]));
                                    assert(stage_refusal(columns@, self@[i as int], e));
                                    return Warned { warnings, result: Err(e) };
                                },
                            }
                        },
                        Err(e) => {
                            assert(unstageable(columns@, self@[i as int]));
                            assert(stage_refusal(columns@, self@[i as int], e));
                            return Warned { warnings, result: Err(e) };
                        },
                    }
                },
                _ => {
                    if let Some(change) = existing_schema_change(&self.ops[i]) {
                        changes.push(change);
                    }
                },
            }
            assert forall|k: int| 0 <= k <= i implies staged_change(columns@, #[trigger] self@[k], changes@[k]) by {
                if k < i {
                    assert(changes@[k] == before[k]);
                }
            }
            i = i + 1;
        }
        assert(self@.take(self@.len() as int) =~= self@);
        Warned { warnings, result: Ok(PreparedSchemaUpdate { changes }) }
    }
}

/// A name that some column has is the name of a last column.
proof fn lemma_last_exists(columns: Seq<ColumnView>, name: Seq<char>)
    requires
        has_column(columns, name),
    ensures
        exists|i: int| last_named(columns, i, name),
{
    let i = choose|i: int| #[trigger] named(columns, i, name);
    lemma_last_from(columns, i, name);
}

proof fn lemma_last_from(columns: Seq<ColumnView>, i: int, name: Seq<char>)
    requires
        named(columns, i, name),
    ensures
        exists|k: int| last_named(columns, k, name),
    decreases columns.len() - i,
{
    if exists|j: int| i < j && #[trigger] named(columns, j, name) {
        let j = choose|j: int| i < j && #[trigger] named(columns, j, name);
        lemma_last_from(columns, j, name);
    } else {
        assert(last_named(columns, i, name));
    }
}

// -- Laws ---------------------------------------------------------------------

/// A column of a table: its name, and whether it must have a value.
pub struct ColumnField {
    pub name: Seq<char>,
    pub required: bool,
}

/// The columns of a table after the table-format layer made a change.
pub open spec fn changed(fields: Seq<ColumnField>, change: SchemaChange) -> Seq<ColumnField> {
    match change {
        SchemaChange::AddOptionalColumn { column, .. } => fields.push(
            ColumnField { name: column@, required: false },
        ),
        SchemaChange::DeleteColumn { column } => fields.filter(|f: ColumnField| f.name != column@),
        SchemaChange::RenameColumn { column, new_name } => fields.map_values(
            |f: ColumnField|
                if f.name == column@ {
                    ColumnField { name: new_name@, ..f }
                } else {
                    f
                },
        ),
        SchemaChange::MakeColumnOptional { column } => fields.map_values(
            |f: ColumnField|
                if f.name == column@ {
                    ColumnField { required: false, ..f }
                } else {
                    f
                },
        ),
    }
}

/// Whether the columns after an operation of a statement are what it asked for.
pub open spec fn as_asked(
    op: SchemaEvolutionOp,
    before: Seq<ColumnField>,
    after: Seq<ColumnField>,
) -> bool {
    match op {
        // The column stands behind all others and may be NULL.
        SchemaEvolutionOp::AddNullableColumn { name } => {
            &&& after.len() == before.len() + 1
            &&& forall|i: int| 0 <= i < before.len() ==> #[trigger] after[i] == before[i]
            &&& after.last().name == name@
            &&& !after.last().required
        },
        // No column of the name is left, and every other column stays.
        SchemaEvolutionOp::DropColumn { name } => {
            &&& forall|i: int| 0 <= i < after.len() ==> (#[trigger] after[i]).name != name@
            &&& forall|f: ColumnField|
                f.name != name@ ==> (#[trigger] after.contains(f) <==> before.contains(f))
            &&& (forall|i: int| 0 <= i < before.len() ==> (#[trigger] before[i]).name != name@)
                ==> after == before
        },
        // Every column stays in its place; the one with the old name has the
        // new one.
        SchemaEvolutionOp::RenameColumn { old_name, new_name } => {
            &&& after.len() == before.len()
            &&& forall|i: int|
                0 <= i < before.len() ==> (#[trigger] after[i]).required == before[i].required
                    && after[i].name == if before[i].name == old_name@ {
                    new_name@
                } else {
                    before[i].name
                }
            &&& old_name@ != new_name@ ==> forall|i: int|
                0 <= i < after.len() ==> (#[trigger] after[i]).name != old_name@
        },
        // Every column stays in its place; the named one may be NULL.
        SchemaEvolutionOp::DropNotNull { name } => {
            &&& after.len() == before.len()
            &&& forall|i: int|
                0 <= i < before.len() ==> (#[trigger] after[i]).name == before[i].name
                    && after[i].required == (before[i].required && before[i].name != name@)
        },
    }
}

/// Made by the table-format layer, a staged change does to the table's columns
/// what the statement asked for.
pub proof fn staged_changes_do_what_was_asked(
    columns: Seq<ColumnView>,
    op: SchemaEvolutionOp,
    change: SchemaChange,
    before: Seq<ColumnField>,
)
    requires
        staged_change(columns, op, change),
    ensures
        as_asked(op, before, changed(before, change)),
{
    let after = changed(before, change);
    if let SchemaEvolutionOp::DropColumn { name } = op {
        let keep = |f: ColumnField| f.name != name@;
        assert(after == before.filter(keep));
        assert forall|i: int| 0 <= i < after.len() implies (#[trigger] after[i]).name != name@ by {
            before.lemma_filter_pred(keep, i);
        }
        assert forall|f: ColumnField| f.name != name@ implies (#[trigger] after.contains(f)
            <==> before.contains(f)) by {
            if before.contains(f) {
                let i = choose|i: int| 0 <= i < before.len() && before[i] == f;
                before.lemma_filter_contains(keep, i);
            }
            if after.contains(f) {
                before.lemma_filter_contains_rev(keep, f);
            }
        }
        if forall|i: int| 0 <= i < before.len() ==> (#[trigger] before[i]).name != name@ {
            lemma_filter_all(before, keep);
        }
    }
}

/// A change of existing columns that is tried before the statement runs does to
/// the columns what the statement asks for.
pub proof fn tried_changes_do_what_is_asked(
    op: SchemaEvolutionOp,
    change: SchemaChange,
    before: Seq<ColumnField>,
)
    requires
        existing_change(op, change),
    ensures
        as_asked(op, before, changed(before, change)),
{
    staged_changes_do_what_was_asked(Seq::empty(), op, change, before);
}

/// The changes of existing columns that are staged are the very ones that were
/// tried, in the same order.
pub proof fn staged_changes_were_tried(
    columns: Seq<ColumnView>,
    ops: Seq<SchemaEvolutionOp>,
    staged: Seq<SchemaChange>,
    tried: Seq<SchemaChange>,
)
    requires
        staged.len() == ops.len(),
        forall|i: int| 0 <= i < ops.len() ==> staged_change(columns, #[trigger] ops[i], staged[i]),
        changes_match(existing_ops(ops), tried),
    ensures
        staged.filter(|change: SchemaChange| !(change is AddOptionalColumn)) == tried,
    decreases ops.len(),
{
    reveal(Seq::filter);
    let keep = |change: SchemaChange| !(change is AddOptionalColumn);
    if ops.len() == 0 {
        assert(staged.filter(keep) =~= tried);
    } else {
        let n = ops.len() - 1;
        let fewer = ops.drop_last();
        let earlier = staged.drop_last();
        assert forall|i: int| 0 <= i < fewer.len() implies staged_change(
            columns,
            #[trigger] fewer[i],
            earlier[i],
        ) by {
            assert(staged_change(columns, ops[i], staged[i]));
        }
        assert(staged_change(columns, ops[n], staged[n]));
        if adds_column(ops.last()) {
            assert(existing_ops(ops) =~= existing_ops(fewer));
            staged_changes_were_tried(columns, fewer, earlier, tried);
        } else {
            let before = tried.drop_last();
            assert(existing_ops(ops) =~= existing_ops(fewer).push(ops.last()));
            assert forall|i: int| 0 <= i < existing_ops(fewer).len() implies existing_change(
                #[trigger] existing_ops(fewer)[i],
                before[i],
            ) by {
                assert(existing_ops(ops)[i] == existing_ops(fewer)[i]);
            }
            staged_changes_were_tried(columns, fewer, earlier, before);
            assert(existing_change(existing_ops(ops)[existing_ops(fewer).len() as int], tried.last()));
            assert(staged.filter(keep) =~= tried);
        }
    }
}

/// A column that is added has the type of the relation's column of that name:
/// of several, of the last.
pub proof fn added_columns_have_their_type(
    columns: Seq<ColumnView>,
    name: String,
    change: SchemaChange,
    i: int,
)
    requires
        staged_change(columns, (SchemaEvolutionOp::AddNullableColumn { name }), change),
        0 <= i < columns.len(),
        columns[i].name == name@,
        forall|j: int| i < j < columns.len() ==> (#[trigger] columns[j]).name != name@,
    ensures
        change is AddOptionalColumn,
        change->AddOptionalColumn_column == name,
        column_mapping(
            PgType { oid: columns[i].oid, type_mod: columns[i].typmod },
            columns[i].element_chain,
            1,
        ) == Conversion::Converted(change->column_type),
{
    assert(named(columns, i, name@));
    assert forall|j: int| i < j implies !#[trigger] named(columns, j, name@) by {}
    assert(last_named(columns, i, name@));
    lemma_column_named(columns, i, name@);
}

/// A live column is found by its name with the type that the server gives for
/// its number.
pub proof fn captured_columns_have_their_types(
    live: Seq<LiveColumn>,
    types: Seq<ColumnType>,
    i: int,
)
    requires
        0 <= i < live.len(),
        1 <= live[i].attno <= types.len(),
    ensures
        captured(live, types).contains(
            ColumnView {
                name: live[i].name@,
                oid: types[live[i].attno - 1].oid,
                typmod: types[live[i].attno - 1].typmod,
                element_chain: types[live[i].attno - 1].element_chain@,
            },
        ),
    decreases live.len(),
{
    let all = captured(live, types);
    let earlier = captured(live.drop_last(), types);
    if i < live.len() - 1 {
        captured_columns_have_their_types(live.drop_last(), types, i);
        let column = ColumnView {
            name: live[i].name@,
            oid: types[live[i].attno - 1].oid,
            typmod: types[live[i].attno - 1].typmod,
            element_chain: types[live[i].attno - 1].element_chain@,
        };
        let k = choose|k: int| 0 <= k < earlier.len() && earlier[k] == column;
        assert(all[k] == column);
    } else {
        assert(all[all.len() - 1] == all.last());
    }
}

impl Default for SchemaEvolutionUpdate {
    fn default() -> (r: Self)
        ensures
            r@ == Seq::<SchemaEvolutionOp>::empty(),
    {
        SchemaEvolutionUpdate::new()
    }
}

} // verus!
