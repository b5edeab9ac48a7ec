//! Conversion of server column types to table-format types.
//!
//! Every field of a schema, list elements included in the count, draws its
//! identifier from one ascending counter.

use vstd::arithmetic::power::{lemma_pow0, pow};
use vstd::prelude::*;

use crate::Oid;
use crate::error::{IcebergError, IcebergResult};
use crate::oids::{
    BOOLOID, BPCHAROID, BYTEAOID, DATEOID, FLOAT4OID, FLOAT8OID, INT2OID, INT4OID, INT8OID,
    INVALID_OID, JSONBOID, JSONOID, NAMEOID, NUMERICOID, TEXTOID, TIMEOID, TIMESTAMPOID,
    TIMESTAMPTZOID, UUIDOID, VARCHAROID,
};
use crate::text::{decimal, decimal_text, signed_decimal, signed_decimal_text};

verus! {

/// Precision given to a numeric column without a modifier.
pub const DEFAULT_NUMERIC_PRECISION: u32 = 38;

/// Scale given to a numeric column without a modifier.
pub const DEFAULT_NUMERIC_SCALE: u32 = 18;

/// Largest precision of a decimal.
pub const MAX_DECIMAL_PRECISION: u32 = 38;

/// A table-format type without parts.
#[derive(Debug, Clone, Copy, PartialEq, Eq, Structural)]
pub enum PrimitiveType {
    Boolean,
    Int,
    Long,
    Float,
    Double,
    Decimal { precision: u32, scale: u32 },
    Date,
    Time,
    Timestamp,
    Timestamptz,
    String,
    Uuid,
    Binary,
}

/// A table-format type.
#[derive(Debug, PartialEq, Eq)]
pub enum Type {
    Primitive(PrimitiveType),
    List(ListType),
}

/// A list type and the field of its elements.
#[derive(Debug, PartialEq, Eq)]
pub struct ListType {
    pub element_id: i32,
    pub element_required: bool,
    pub element_type: Box<Type>,
}

/// A column of a schema.
#[derive(Debug, PartialEq, Eq)]
pub struct NestedField {
    pub id: i32,
    pub name: String,
    pub required: bool,
    pub field_type: Type,
}

/// The columns of a table.
#[derive(Debug, PartialEq, Eq)]
pub struct Schema {
    pub fields: Vec<NestedField>,
}

/// The server type to which a table-format type reads back.
#[derive(Debug, Clone, Copy, PartialEq, Eq, Structural)]
pub enum PgColumnType {
    Bool,
    Int4,
    Int8,
    Float4,
    Float8,
    Date,
    Time,
    Timestamp,
    Timestamptz,
    Text,
    Bytea,
    Uuid,
    Numeric,
}

impl Type {
    /// The server type of a type without parts; a list has none of its own.
    pub open spec fn column_type(self) -> Option<PgColumnType> {
        match self {
            Type::List(_) => None,
            Type::Primitive(primitive) => Some(
                match primitive {
                    PrimitiveType::Boolean => PgColumnType::Bool,
                    PrimitiveType::Int => PgColumnType::Int4,
                    PrimitiveType::Long => PgColumnType::Int8,
                    PrimitiveType::Float => PgColumnType::Float4,
                    PrimitiveType::Double => PgColumnType::Float8,
                    PrimitiveType::Decimal { .. } => PgColumnType::Numeric,
                    PrimitiveType::Date => PgColumnType::Date,
                    PrimitiveType::Time => PgColumnType::Time,
                    PrimitiveType::Timestamp => PgColumnType::Timestamp,
                    PrimitiveType::Timestamptz => PgColumnType::Timestamptz,
                    PrimitiveType::String => PgColumnType::Text,
                    PrimitiveType::Uuid => PgColumnType::Uuid,
                    PrimitiveType::Binary => PgColumnType::Bytea,
                },
            ),
        }
    }

    /// The server type to which this type reads back.
    pub fn pg_column_type(&self) -> (r: Option<PgColumnType>)
        ensures
            r == self.column_type(),
    {
        match self {
            Type::List(_) => None,
            Type::Primitive(primitive) => Some(
                match primitive {
                    PrimitiveType::Boolean => PgColumnType::Bool,
                    PrimitiveType::Int => PgColumnType::Int4,
                    PrimitiveType::Long => PgColumnType::Int8,
                    PrimitiveType::Float => PgColumnType::Float4,
                    PrimitiveType::Double => PgColumnType::Float8,
                    PrimitiveType::Decimal { .. } => PgColumnType::Numeric,
                    PrimitiveType::Date => PgColumnType::Date,
                    PrimitiveType::Time => PgColumnType::Time,
                    PrimitiveType::Timestamp => PgColumnType::Timestamp,
                    PrimitiveType::Timestamptz => PgColumnType::Timestamptz,
                    PrimitiveType::String => PgColumnType::Text,
                    PrimitiveType::Uuid => PgColumnType::Uuid,
                    PrimitiveType::Binary => PgColumnType::Bytea,
                },
            ),
        }
    }
}

/// Precision and scale of a numeric type modifier.
#[derive(Debug, Clone, Copy, PartialEq, Eq, Structural)]
pub struct NumericTypmod {
    pub precision: u32,
    pub scale: i32,
}

/// The modifier of `numeric(precision, scale)`: the precision in the upper
/// half, the scale as an 11-bit two's complement number below, plus four.
pub open spec fn packed_typmod(precision: int, scale: int) -> int {
    precision * 65536 + scale % 2048 + 4
}

/// What a numeric modifier says. A modifier below four is none.
pub open spec fn unpacked_typmod(type_mod: int) -> Option<NumericTypmod> {
    if type_mod < 4 {
        None
    } else {
        let low = (type_mod - 4) % 2048;
        Some(
            NumericTypmod {
                precision: ((type_mod - 4) / 65536) as u32,
                scale: (if low < 1024 {
                    low
                } else {
                    low - 2048
                }) as i32,
            },
        )
    }
}

/// Packs a precision and a scale into a numeric modifier.
pub fn numeric_typmod(precision: u32, scale: i32) -> (r: i32)
    requires
        precision < 32768,
        -1024 <= scale < 1024,
    ensures
        r == packed_typmod(precision as int, scale as int),
{
    let low: i32 = if scale < 0 {
        scale + 2048
    } else {
        scale
    };
    precision as i32 * 65536 + low + 4
}

/// Reads precision and scale from a numeric modifier.
pub fn numeric_precision_scale(type_mod: i32) -> (r: Option<NumericTypmod>)
    ensures
        r == unpacked_typmod(type_mod as int),
{
    if type_mod < 4 {
        return None;
    }
    let packed: u32 = (type_mod - 4) as u32;
    let low: i32 = (packed % 2048) as i32;
    let scale: i32 = if low < 1024 {
        low
    } else {
        low - 2048
    };
    Some(NumericTypmod { precision: packed / 65536, scale })
}

/// Unpacking a packed precision and scale gives both back.
pub proof fn numeric_typmod_round_trips(precision: int, scale: int)
    requires
        0 <= precision < 32768,
        -1024 <= scale < 1024,
    ensures
        unpacked_typmod(packed_typmod(precision, scale)) == Some(
            NumericTypmod { precision: precision as u32, scale: scale as i32 },
        ),
{
}

/// A server type and its modifier.
#[derive(Debug, Clone, Copy, PartialEq, Eq, Structural)]
pub struct PgType {
    pub oid: Oid,
    pub type_mod: i32,
}

impl PgType {
    /// Pairs a type with a modifier.
    pub fn new(oid: Oid, type_mod: i32) -> (r: Self)
        ensures
            r == (PgType { oid, type_mod }),
    {
        PgType { oid, type_mod }
    }

    /// A type without a modifier.
    pub fn from_oid(oid: Oid) -> (r: Self)
        ensures
            r.oid == oid,
            r.type_mod == -1,
    {
        PgType::new(oid, -1)
    }

    /// Precision and scale of a numeric column, when it declares them.
    pub fn numeric_precision_scale(&self) -> (r: Option<NumericTypmod>)
        ensures
            r == unpacked_typmod(self.type_mod as int),
    {
        numeric_precision_scale(self.type_mod)
    }

    /// Whether the type is an array, given its element type in the server's
    /// type catalog.
    pub fn is_array(&self, catalog_element: Oid) -> (r: bool)
        ensures
            r == (catalog_element != INVALID_OID),
    {
        catalog_element != INVALID_OID
    }

    /// The element type of an array, given its element type in the server's
    /// type catalog.
    pub fn element_type_oid(&self, catalog_element: Oid) -> (r: Option<Oid>)
        ensures
            r == (if catalog_element != INVALID_OID {
                Some(catalog_element)
            } else {
                None
            }),
    {
        if self.is_array(catalog_element) {
            Some(catalog_element)
        } else {
            None
        }
    }
}

/// The table-format type of a built-in type whose modifier does not matter.
pub open spec fn plain_primitive(oid: Oid) -> Option<PrimitiveType> {
    if oid == BOOLOID {
        Some(PrimitiveType::Boolean)
    } else if oid == INT2OID || oid == INT4OID {
        Some(PrimitiveType::Int)
    } else if oid == INT8OID {
        Some(PrimitiveType::Long)
    } else if oid == FLOAT4OID {
        Some(PrimitiveType::Float)
    } else if oid == FLOAT8OID {
        Some(PrimitiveType::Double)
    } else if oid == DATEOID {
        Some(PrimitiveType::Date)
    } else if oid == TIMEOID {
        Some(PrimitiveType::Time)
    } else if oid == TIMESTAMPOID {
        Some(PrimitiveType::Timestamp)
    } else if oid == TIMESTAMPTZOID {
        Some(PrimitiveType::Timestamptz)
    } else if oid == TEXTOID || oid == VARCHAROID || oid == BPCHAROID || oid == JSONOID || oid
        == NAMEOID {
        Some(PrimitiveType::String)
    } else if oid == BYTEAOID || oid == JSONBOID {
        Some(PrimitiveType::Binary)
    } else if oid == UUIDOID {
        Some(PrimitiveType::Uuid)
    } else {
        None
    }
}

/// Maps a built-in type other than numeric.
pub fn convert_plain_type(oid: Oid) -> (r: Option<PrimitiveType>)
    ensures
        r == plain_primitive(oid),
{
    match oid {
        BOOLOID => Some(PrimitiveType::Boolean),
        INT2OID | INT4OID => Some(PrimitiveType::Int),
        INT8OID => Some(PrimitiveType::Long),
        FLOAT4OID => Some(PrimitiveType::Float),
        FLOAT8OID => Some(PrimitiveType::Double),
        DATEOID => Some(PrimitiveType::Date),
        TIMEOID => Some(PrimitiveType::Time),
        TIMESTAMPOID => Some(PrimitiveType::Timestamp),
        TIMESTAMPTZOID => Some(PrimitiveType::Timestamptz),
        // The table format has no JSON types: json is stored as its text and
        // jsonb as its binary form, which only this access method reads.
        TEXTOID | VARCHAROID | BPCHAROID | JSONOID | NAMEOID => Some(PrimitiveType::String),
        BYTEAOID | JSONBOID => Some(PrimitiveType::Binary),
        UUIDOID => Some(PrimitiveType::Uuid),
        _ => None,
    }
}

/// The text `numeric(precision, scale)`.
pub open spec fn numeric_text(precision: int, scale: int) -> Seq<char> {
    "numeric("@ + decimal(precision as nat) + ", "@ + signed_decimal(scale) + ")"@
}

/// Renders `numeric(precision, scale)`.
pub fn render_numeric(precision: u32, scale: i32) -> (r: String)
    ensures
        r@ == numeric_text(precision as int, scale as int),
{
    let mut text = "numeric(".to_owned();
    let p = decimal_text(precision as u64);
    text.append(p.as_str());
    text.append(", ");
    let s = signed_decimal_text(scale as i64);
    text.append(s.as_str());
    text.append(")");
    text
}

/// The message for a type that the table format cannot hold.
pub open spec fn unsupported_oid_text(oid: Oid) -> Seq<char> {
    "PostgreSQL OID "@ + decimal(oid as nat)
}

/// The refusal of a type that the table format cannot hold.
pub fn unsupported_oid(oid: Oid) -> (r: IcebergError)
    ensures
        r matches IcebergError::UnsupportedColumnType(m) && m@ == unsupported_oid_text(oid),
{
    let mut text = "PostgreSQL OID ".to_owned();
    let digits = decimal_text(oid as u64);
    text.append(digits.as_str());
    IcebergError::UnsupportedColumnType(text)
}

/// What converting a server type gives: a type, or the message of its refusal.
pub enum Conversion<T> {
    Converted(T),
    Refused(Seq<char>),
}

/// Whether a result is what a conversion gives.
pub open spec fn converts_to<T>(r: IcebergResult<T>, expected: Conversion<T>) -> bool {
    match expected {
        Conversion::Converted(t) => r == Ok::<T, IcebergError>(t),
        Conversion::Refused(text) => r matches Err(IcebergError::UnsupportedColumnType(m)) && m@ == text,
    }
}

/// The decimal type of a numeric column; a negative scale is refused.
pub open spec fn numeric_mapping(type_mod: int) -> Conversion<PrimitiveType> {
    let declared = match unpacked_typmod(type_mod) {
        Some(t) => t,
        None => NumericTypmod {
            precision: DEFAULT_NUMERIC_PRECISION,
            scale: DEFAULT_NUMERIC_SCALE as i32,
        },
    };
    if declared.precision > MAX_DECIMAL_PRECISION {
        Conversion::Refused(
            numeric_text(declared.precision as int, declared.scale as int)
                + " precision exceeds maximum supported precision (38)"@,
        )
    } else if declared.scale < 0 {
        Conversion::Refused(
            numeric_text(declared.precision as int, declared.scale as int)
                + " negative scale is not supported by Iceberg decimal"@,
        )
    } else {
        Conversion::Converted(
            PrimitiveType::Decimal { precision: declared.precision, scale: declared.scale as u32 },
        )
    }
}

/// The type of a column without parts.
pub open spec fn primitive_mapping(pg_type: PgType) -> Conversion<PrimitiveType> {
    if pg_type.oid == NUMERICOID {
        numeric_mapping(pg_type.type_mod as int)
    } else {
        match plain_primitive(pg_type.oid) {
            Some(p) => Conversion::Converted(p),
            None => Conversion::Refused(unsupported_oid_text(pg_type.oid)),
        }
    }
}

/// Nests a type in one list per element type; the lists take the identifiers
/// from `first_id` on, the outermost list first.
pub open spec fn nested_in_lists(depth: nat, first_id: int, inner: Type) -> Type
    decreases depth,
{
    if depth == 0 {
        inner
    } else {
        Type::List(
            ListType {
                element_id: first_id as i32,
                element_required: false,
                element_type: Box::new(nested_in_lists((depth - 1) as nat, first_id + 1, inner)),
            },
        )
    }
}

/// The type at the end of a chain of element types.
pub open spec fn innermost(pg_type: PgType, element_chain: Seq<Oid>) -> PgType {
    if element_chain.len() == 0 {
        pg_type
    } else {
        PgType { oid: element_chain.last(), type_mod: pg_type.type_mod }
    }
}

/// The type of a column given the successive element types of its type.
pub open spec fn type_mapping(pg_type: PgType, element_chain: Seq<Oid>, first_id: int) -> Conversion<Type> {
    match primitive_mapping(innermost(pg_type, element_chain)) {
        Conversion::Converted(p) => Conversion::Converted(
            nested_in_lists(element_chain.len(), first_id, Type::Primitive(p)),
        ),
        Conversion::Refused(text) => Conversion::Refused(text),
    }
}

fn convert_numeric_type(pg_type: &PgType) -> (r: IcebergResult<PrimitiveType>)
    ensures
        converts_to(r, numeric_mapping(pg_type.type_mod as int)),
{
    let (precision, scale) = match pg_type.numeric_precision_scale() {
        Some(t) => (t.precision, t.scale),
        None => (DEFAULT_NUMERIC_PRECISION, DEFAULT_NUMERIC_SCALE as i32),
    };
    if precision > MAX_DECIMAL_PRECISION {
        let mut text = render_numeric(precision, scale);
        text.append(" precision exceeds maximum supported precision (38)");
        return Err(IcebergError::UnsupportedColumnType(text));
    }
    if scale < 0 {
        let mut text = render_numeric(precision, scale);
        text.append(" negative scale is not supported by Iceberg decimal");
        return Err(IcebergError::UnsupportedColumnType(text));
    }
    Ok(PrimitiveType::Decimal { precision, scale: scale as u32 })
}

/// Converts a type without parts.
pub fn convert_primitive_type(pg_type: &PgType) -> (r: IcebergResult<PrimitiveType>)
    ensures
        converts_to(r, primitive_mapping(*pg_type)),
{
    if pg_type.oid == NUMERICOID {
        return convert_numeric_type(pg_type);
    }
    match convert_plain_type(pg_type.oid) {
        Some(p) => Ok(p),
        None => Err(unsupported_oid(pg_type.oid)),
    }
}

/// Takes the next field identifier.
pub fn allocate_field_id(next_field_id: &mut i32) -> (r: i32)
    requires
        *old(next_field_id) < i32::MAX,
    ensures
        r == *old(next_field_id),
        *final(next_field_id) == *old(next_field_id) + 1,
{
    let id: i32 = *next_field_id;
    *next_field_id = *next_field_id + 1;
    id
}

/// Wraps a type in one list per element type, inside out.
pub fn wrap_in_lists(inner: Type, depth: usize, first_id: i32) -> (r: Type)
    requires
        first_id + depth <= i32::MAX,
    ensures
        r == nested_in_lists(depth as nat, first_id as int, inner),
    decreases depth,
{
    if depth == 0 {
        inner
    } else {
        // PostgreSQL arrays admit NULL elements unconditionally.
        Type::List(
            ListType {
                element_id: first_id,
                element_required: false,
                element_type: Box::new(wrap_in_lists(inner, depth - 1, first_id + 1)),
            },
        )
    }
}

/// Converts a type given its successive element types. Each list takes its
/// identifier before what it holds.
pub fn convert_pg_type_with_field_ids(
    pg_type: &PgType,
    element_chain: &Vec<Oid>,
    next_field_id: &mut i32,
) -> (r: IcebergResult<Type>)
    requires
        *old(next_field_id) + element_chain@.len() <= i32::MAX,
    ensures
        converts_to(r, type_mapping(*pg_type, element_chain@, *old(next_field_id) as int)),
        *final(next_field_id) == *old(next_field_id) + element_chain@.len(),
{
    let first_id: i32 = *next_field_id;
    let depth: usize = element_chain.len();
    let mut innermost_type = PgType::new(pg_type.oid, pg_type.type_mod);
    let mut i: usize = 0;
    while i < depth
        invariant
            depth == element_chain@.len(),
            i <= depth,
            first_id + depth <= i32::MAX,
            *next_field_id == first_id + i,
            innermost_type == innermost(*pg_type, element_chain@.take(i as int)),
        decreases depth - i,
    {
        let _element_id = allocate_field_id(next_field_id);
        innermost_type = PgType::new(element_chain[i], pg_type.type_mod);
        i = i + 1;
    }
    assert(element_chain@.take(depth as int) =~= element_chain@);
    match convert_primitive_type(&innermost_type) {
        Ok(p) => Ok(wrap_in_lists(Type::Primitive(p), depth, first_id)),
        Err(e) => Err(e),
    }
}

/// A type of the server that the table format can hold, or not.
pub trait ToIcebergType {
    /// The type in the table format, given its successive element types.
    spec fn mapping(&self, element_chain: Seq<Oid>) -> Conversion<Type>;

    /// Converts to a type of the table format.
    fn to_iceberg_type(&self, element_chain: &Vec<Oid>) -> (r: IcebergResult<Type>)
        requires
            element_chain@.len() < i32::MAX,
        ensures
            converts_to(r, self.mapping(element_chain@)),
    ;

    /// Converts to a field of a schema.
    fn to_iceberg_field(
        &self,
        field_id: i32,
        name: String,
        required: bool,
        element_chain: &Vec<Oid>,
    ) -> (r: IcebergResult<NestedField>)
        requires
            element_chain@.len() < i32::MAX,
        ensures
            match self.mapping(element_chain@) {
                Conversion::Converted(field_type) => r == Ok::<NestedField, IcebergError>(
                    (NestedField { id: field_id, name, required, field_type }),
                ),
                Conversion::Refused(text) => r matches Err(IcebergError::UnsupportedColumnType(m)) && m@
                    == text,
            },
    {
        match self.to_iceberg_type(element_chain) {
            Ok(field_type) => Ok(NestedField { id: field_id, name, required, field_type }),
            Err(e) => Err(e),
        }
    }
}

impl ToIcebergType for PgType {
    open spec fn mapping(&self, element_chain: Seq<Oid>) -> Conversion<Type> {
        type_mapping(*self, element_chain, 1)
    }

    // The identifiers of the lists count from one; in a schema, where they
    // must be unique, the builder assigns them.
    fn to_iceberg_type(&self, element_chain: &Vec<Oid>) -> (r: IcebergResult<Type>) {
        let mut next_field_id: i32 = 1;
        convert_pg_type_with_field_ids(self, element_chain, &mut next_field_id)
    }
}

/// Converts one type; its list identifiers count from one.
pub fn pg_type_to_iceberg_type(
    type_oid: Oid,
    type_mod: i32,
    element_chain: &Vec<Oid>,
) -> (r: IcebergResult<Type>)
    requires
        element_chain@.len() < i32::MAX,
    ensures
        converts_to(r, type_mapping(PgType { oid: type_oid, type_mod }, element_chain@, 1)),
{
    let pg_type = PgType::new(type_oid, type_mod);
    pg_type.to_iceberg_type(element_chain)
}

/// A column as the server describes it.
#[derive(Debug)]
pub struct ColumnAttribute {
    pub name: String,
    pub type_oid: Oid,
    pub type_mod: i32,
    /// The successive element types of the column's type; none for a scalar.
    pub element_chain: Vec<Oid>,
    pub not_null: bool,
    pub dropped: bool,
}

/// The columns of a schema under construction.
#[derive(Debug)]
pub struct SchemaBuilder {
    pub next_field_id: i32,
    pub fields: Vec<NestedField>,
}

impl SchemaBuilder {
    /// A builder without columns whose identifiers start at one.
    pub fn new() -> (r: Self)
        ensures
            r.next_field_id == 1,
            r.fields@ == Seq::<NestedField>::empty(),
    {
        SchemaBuilder { next_field_id: 1, fields: Vec::new() }
    }

    /// Appends a column. The column takes the next identifier, its lists the
    /// ones after it; a refused column takes them too and appends nothing.
    pub fn add_field(
        &mut self,
        name: String,
        pg_type: PgType,
        element_chain: &Vec<Oid>,
        required: bool,
    ) -> (r: IcebergResult<()>)
        requires
            old(self).next_field_id + 1 + element_chain@.len() <= i32::MAX,
        ensures
            final(self).next_field_id == old(self).next_field_id + 1 + element_chain@.len(),
            match type_mapping(pg_type, element_chain@, old(self).next_field_id + 1) {
                Conversion::Converted(field_type) => r == Ok::<(), IcebergError>(()) && final(self).fields@ == old(self).fields@.push(
                    (NestedField { id: old(self).next_field_id, name, required, field_type }),
                ),
                Conversion::Refused(text) => final(self).fields@ == old(self).fields@ && (
                r matches Err(IcebergError::UnsupportedColumnType(m)) && m@ == text),
            },
    {
        let field_id: i32 = allocate_field_id(&mut self.next_field_id);
        match convert_pg_type_with_field_ids(&pg_type, element_chain, &mut self.next_field_id) {
            Ok(field_type) => {
                self.fields.push(NestedField { id: field_id, name, required, field_type });
                Ok(())
            },
            Err(e) => Err(e),
        }
    }

    /// Ends construction; `refusal` is the table-format layer's objection to
    /// the columns, if it has one.
    pub fn build(self, refusal: Option<String>) -> (r: IcebergResult<Schema>)
        ensures
            refusal is None ==> r == Ok::<Schema, IcebergError>((Schema { fields: self.fields })),
            refusal matches Some(text) ==> r == Err::<Schema, IcebergError>(
                IcebergError::SchemaBuildError(text),
            ),
    {
        match refusal {
            Some(text) => Err(IcebergError::SchemaBuildError(text)),
            None => Ok(Schema { fields: self.fields }),
        }
    }
}

impl Default for SchemaBuilder {
    fn default() -> (r: Self)
        ensures
            r.next_field_id == 1,
            r.fields@ == Seq::<NestedField>::empty(),
    {
        SchemaBuilder::new()
    }
}

/// The identifiers that the live columns of a relation take.
pub open spec fn ids_needed(attrs: Seq<ColumnAttribute>) -> nat
    decreases attrs.len(),
{
    if attrs.len() == 0 {
        0
    } else {
        ids_needed(attrs.drop_last()) + if attrs.last().dropped {
            0
        } else {
            1 + attrs.last().element_chain@.len()
        }
    }
}

/// A longer column list needs at least as many identifiers.
pub proof fn lemma_ids_needed_grows(attrs: Seq<ColumnAttribute>, n: int)
    requires
        0 <= n <= attrs.len(),
    ensures
        ids_needed(attrs.take(n)) <= ids_needed(attrs),
    decreases attrs.len() - n,
{
    if n < attrs.len() {
        lemma_ids_needed_grows(attrs, n + 1);
        assert(attrs.take(n + 1).drop_last() =~= attrs.take(n));
    } else {
        assert(attrs.take(n) =~= attrs);
    }
}

/// The mapping of a live column, given its first list identifier.
pub open spec fn live_mapping(attr: ColumnAttribute, first_id: int) -> Conversion<Type> {
    type_mapping(
        PgType { oid: attr.type_oid, type_mod: attr.type_mod },
        attr.element_chain@,
        first_id,
    )
}

/// Whether a live column is refused for its type.
pub open spec fn type_refused(attr: ColumnAttribute) -> bool {
    !attr.dropped && live_mapping(attr, 0) is Refused
}

/// The schema fields of the live columns, in order.
pub open spec fn mapped_fields(attrs: Seq<ColumnAttribute>) -> Seq<NestedField>
    decreases attrs.len(),
{
    if attrs.len() == 0 {
        Seq::empty()
    } else {
        let earlier = mapped_fields(attrs.drop_last());
        let attr = attrs.last();
        if attr.dropped {
            earlier
        } else {
            let id = 1 + ids_needed(attrs.drop_last()) as int;
            earlier.push(
                NestedField {
                    id: id as i32,
                    name: attr.name,
                    required: attr.not_null,
                    field_type: live_mapping(attr, id + 1)->Converted_0,
                },
            )
        }
    }
}

/// Collects the live columns of a relation in a schema builder. The first
/// column whose type is refused ends the work.
pub fn tuple_desc_to_schema(attrs: &Vec<ColumnAttribute>) -> (r: IcebergResult<SchemaBuilder>)
    requires
        ids_needed(attrs@) < i32::MAX,
    ensures
        match r {
            Ok(builder) => {
                &&& forall|i: int| 0 <= i < attrs@.len() ==> !type_refused(#[trigger] attrs@[i])
                &&& builder.fields@ == mapped_fields(attrs@)
                &&& builder.next_field_id == 1 + ids_needed(attrs@)
            },
            Err(e) => exists|i: int|
                {
                    &&& 0 <= i < attrs@.len()
                    &&& type_refused(#[trigger] attrs@[i])
                    &&& forall|j: int| 0 <= j < i ==> !type_refused(#[trigger] attrs@[j])
                    &&& e matches IcebergError::UnsupportedColumnType(m) && Conversion::<Type>::Refused(m@)
                        == live_mapping(attrs@[i], 0)
                },
        },
{
    let mut builder = SchemaBuilder::new();
    let mut i: usize = 0;
    while i < attrs.len()
        invariant
            i <= attrs@.len(),
            ids_needed(attrs@) < i32::MAX,
            forall|j: int| 0 <= j < i ==> !type_refused(#[trigger] attrs@[j]),
            builder.fields@ == mapped_fields(attrs@.take(i as int)),
            builder.next_field_id == 1 + ids_needed(attrs@.take(i as int)),
        decreases attrs@.len() - i,
    {
        let attr = &attrs[i];
        proof {
            assert(attrs@.take(i + 1).drop_last() =~= attrs@.take(i as int));
            lemma_ids_needed_grows(attrs@, i + 1);
        }
        if !attr.dropped {
            let pg_type = PgType::new(attr.type_oid, attr.type_mod);
            match builder.add_field(attr.name.clone(), pg_type, &attr.element_chain, attr.not_null) {
                Ok(_) => {},
                Err(e) => {
                    assert(type_refused(attrs@[i as int]));
                    return Err(e);
                },
            }
        }
        i = i + 1;
    }
    assert(attrs@.take(attrs@.len() as int) =~= attrs@);
    Ok(builder)
}

// -- Laws ---------------------------------------------------------------------

/// Whether an integer type of the table format has room for a number.
pub open spec fn holds_integer(primitive: PrimitiveType, n: int) -> bool {
    match primitive {
        PrimitiveType::Int => -0x8000_0000 <= n < 0x8000_0000,
        PrimitiveType::Long => -0x8000_0000_0000_0000 <= n < 0x8000_0000_0000_0000,
        _ => false,
    }
}

/// Whether a decimal type has room for the number `mantissa * 10^exponent`: no
/// digit of it lies behind the type's scale, and it has no more digits than the
/// type's precision.
pub open spec fn holds_decimal(primitive: PrimitiveType, mantissa: int, exponent: int) -> bool {
    match primitive {
        PrimitiveType::Decimal { precision, scale } => exponent + scale >= 0 && -pow(
            10,
            precision as nat,
        ) < mantissa * pow(10, (exponent + scale) as nat) < pow(10, precision as nat),
        _ => false,
    }
}

/// Integer columns of two, four and eight bytes have types with room for every
/// number that such a column holds.
pub proof fn integer_columns_fit_their_types(oid: Oid, n: int)
    ensures
        oid == 21 && -0x8000 <= n < 0x8000 ==> plain_primitive(oid) is Some && holds_integer(
            plain_primitive(oid)->Some_0,
            n,
        ),
        oid == 23 && -0x8000_0000 <= n < 0x8000_0000 ==> plain_primitive(oid) is Some && holds_integer(
            plain_primitive(oid)->Some_0,
            n,
        ),
        oid == 20 && -0x8000_0000_0000_0000 <= n < 0x8000_0000_0000_0000 ==> plain_primitive(oid) is Some
            && holds_integer(plain_primitive(oid)->Some_0, n),
{
}

/// The server type that holds what a column of a built-in type holds.
pub open spec fn reads_back_as(oid: Oid) -> Option<PgColumnType> {
    match oid {
        16 => Some(PgColumnType::Bool),
        17 => Some(PgColumnType::Bytea),
        19 => Some(PgColumnType::Text),
        20 => Some(PgColumnType::Int8),
        21 => Some(PgColumnType::Int4),
        23 => Some(PgColumnType::Int4),
        25 => Some(PgColumnType::Text),
        114 => Some(PgColumnType::Text),
        700 => Some(PgColumnType::Float4),
        701 => Some(PgColumnType::Float8),
        1042 => Some(PgColumnType::Text),
        1043 => Some(PgColumnType::Text),
        1082 => Some(PgColumnType::Date),
        1083 => Some(PgColumnType::Time),
        1114 => Some(PgColumnType::Timestamp),
        1184 => Some(PgColumnType::Timestamptz),
        2950 => Some(PgColumnType::Uuid),
        3802 => Some(PgColumnType::Bytea),
        _ => None,
    }
}

/// A column that the table format takes reads back as a type that holds the
/// same values, and the types that it takes are these.
pub proof fn columns_read_back(oid: Oid)
    ensures
        match plain_primitive(oid) {
            Some(primitive) => reads_back_as(oid) is Some && Type::Primitive(primitive).column_type()
                == reads_back_as(oid),
            None => reads_back_as(oid) is None,
        },
{
}

/// A type and the table-format type that it reads back from: different types
/// without parts read back as different types.
pub proof fn reading_back_tells_types_apart(a: PrimitiveType, b: PrimitiveType)
    requires
        Type::Primitive(a).column_type() == Type::Primitive(b).column_type(),
    ensures
        a == b || (a is Decimal && b is Decimal),
        a is Decimal <==> Type::Primitive(a).column_type() == Some(PgColumnType::Numeric),
{
}

/// A column declared `numeric(precision, scale)` becomes a decimal of that
/// precision and scale where it has one: its scale is not negative, and its
/// precision not above 38. Other declarations are refused.
pub proof fn mapped_numerics_are_as_declared(precision: int, scale: int)
    requires
        0 <= precision < 32768,
        -1024 <= scale < 1024,
    ensures
        ({
            let mapped = numeric_mapping(packed_typmod(precision, scale));
            &&& mapped is Converted <==> precision <= 38 && scale >= 0
            &&& mapped is Converted ==> mapped->Converted_0 == (PrimitiveType::Decimal {
                precision: precision as u32,
                scale: scale as u32,
            })
        }),
{
    numeric_typmod_round_trips(precision, scale);
}

/// A numeric column without a declared precision has 38 digits, 18 of them
/// behind the point.
pub proof fn mapped_numerics_have_a_default(type_mod: int)
    requires
        type_mod < 4,
    ensures
        numeric_mapping(type_mod) == Conversion::Converted(
            PrimitiveType::Decimal { precision: 38, scale: 18 },
        ),
{
}

/// Every number that a numeric column can hold is one that its decimal type can
/// hold: with `precision` digits, `scale` of them behind the point.
pub proof fn mapped_decimals_hold_what_columns_hold(precision: int, scale: int, mantissa: int)
    requires
        0 <= precision < 32768,
        -1024 <= scale < 1024,
        -pow(10, precision as nat) < mantissa < pow(10, precision as nat),
        numeric_mapping(packed_typmod(precision, scale)) is Converted,
    ensures
        holds_decimal(
            numeric_mapping(packed_typmod(precision, scale))->Converted_0,
            mantissa,
            -scale,
        ),
{
    mapped_numerics_are_as_declared(precision, scale);
    lemma_pow0(10);
}

/// A numeric modifier is packed as the server packs it: the precision above the
/// lower sixteen bits, the lowest eleven bits of the scale below, plus four.
pub proof fn modifiers_are_packed_as_the_server_packs_them(precision: u32, scale: int, low: u32)
    requires
        precision < 32768,
        low < 2048,
        (scale - low) % 2048 == 0,
    ensures
        packed_typmod(precision as int, scale) == ((precision << 16) | low) + 4,
{
    assert((precision << 16) | low == precision * 65536 + low) by (bit_vector)
        requires
            precision < 32768,
            low < 2048,
    ;
    assert(scale % 2048 == low);
}

/// The `k`-th type inside a nest of lists.
pub open spec fn inside(t: Type, k: nat) -> Type
    decreases k,
{
    match t {
        Type::List(list) if k > 0 => inside(*list.element_type, (k - 1) as nat),
        _ => t,
    }
}

/// An array becomes as many lists as it has dimensions of element types. Their
/// elements may be NULL, their identifiers ascend by one from the outermost,
/// and the innermost elements have the type of the array's elements.
pub proof fn arrays_become_lists(depth: nat, first_id: int, inner: PrimitiveType, k: nat)
    requires
        i32::MIN <= first_id,
        first_id + depth <= i32::MAX,
        k <= depth,
    ensures
        k < depth ==> inside(nested_in_lists(depth, first_id, Type::Primitive(inner)), k) is List
            && inside(nested_in_lists(depth, first_id, Type::Primitive(inner)), k)->List_0.element_id
            == first_id + k && !inside(
            nested_in_lists(depth, first_id, Type::Primitive(inner)),
            k,
        )->List_0.element_required,
        k == depth ==> inside(nested_in_lists(depth, first_id, Type::Primitive(inner)), k)
            == Type::Primitive(inner),
    decreases depth,
{
    if k > 0 {
        arrays_become_lists((depth - 1) as nat, first_id + 1, inner, (k - 1) as nat);
    }
}

/// The live columns of a relation, in order.
pub open spec fn live_columns(attrs: Seq<ColumnAttribute>) -> Seq<ColumnAttribute> {
    attrs.filter(|attr: ColumnAttribute| !attr.dropped)
}

/// The fields of a schema are the live columns of the relation, in order: they
/// have their names, and those that are not nullable are required.
pub proof fn mapped_fields_are_the_live_columns(attrs: Seq<ColumnAttribute>)
    ensures
        mapped_fields(attrs).len() == live_columns(attrs).len(),
        forall|i: int|
            0 <= i < mapped_fields(attrs).len() ==> (#[trigger] mapped_fields(attrs)[i]).name
                == live_columns(attrs)[i].name && mapped_fields(attrs)[i].required == live_columns(
                attrs,
            )[i].not_null,
    decreases attrs.len(),
{
    reveal(Seq::filter);
    if attrs.len() > 0 {
        mapped_fields_are_the_live_columns(attrs.drop_last());
    }
}

} // verus!
