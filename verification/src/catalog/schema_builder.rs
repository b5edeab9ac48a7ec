//! Table schemas built from the columns of a relation.
//!
//! Numeric columns with a negative scale widen to whole numbers, columns
//! without a numeric modifier are reported, and ambiguous names are refused.

use vstd::arithmetic::power::{lemma_pow0, lemma_pow_adds, lemma_pow_positive, pow};
use vstd::prelude::*;

use crate::Oid;
use crate::catalog::schema_mapping::{
    arrays_become_lists, columns_read_back, holds_decimal, ids_needed, inside,
    lemma_ids_needed_grows, live_columns, numeric_typmod_round_trips, packed_typmod, reads_back_as,
    ColumnAttribute, Conversion, DEFAULT_NUMERIC_PRECISION, DEFAULT_NUMERIC_SCALE,
    MAX_DECIMAL_PRECISION, NestedField, PgType, PrimitiveType, Schema, Type, allocate_field_id,
    convert_plain_type, converts_to, innermost, nested_in_lists, numeric_text, plain_primitive,
    render_numeric, unpacked_typmod, unsupported_oid, unsupported_oid_text, wrap_in_lists,
};
use crate::error::{IcebergError, IcebergResult};
use crate::oids::NUMERICOID;
use crate::text::{decimal, decimal_text, texts};

verus! {

/// Separates the parts of a nested column name.
pub const SCHEMA_NAME_DELIMITER: char = '.';

/// The decimal type of a numeric column.
///
/// Without a modifier it is `decimal(38, 18)`. A negative scale `-k` of
/// precision `p` becomes `decimal(p + k, 0)`, which holds every value of the
/// column.
pub open spec fn decimal_mapping(type_mod: int) -> Conversion<PrimitiveType> {
    match unpacked_typmod(type_mod) {
        None => Conversion::Converted(
            PrimitiveType::Decimal {
                precision: DEFAULT_NUMERIC_PRECISION,
                scale: DEFAULT_NUMERIC_SCALE,
            },
        ),
        Some(t) => if t.scale < 0 {
            let widened = t.precision - t.scale;
            if widened > MAX_DECIMAL_PRECISION {
                Conversion::Refused(
                    numeric_text(t.precision as int, t.scale as int) + " maps to decimal("@ + decimal(
                        widened as nat,
                    ) + ", 0) which exceeds maximum supported precision (38)"@,
                )
            } else {
                Conversion::Converted(PrimitiveType::Decimal { precision: widened as u32, scale: 0 })
            }
        } else if t.precision > MAX_DECIMAL_PRECISION {
            Conversion::Refused(
                numeric_text(t.precision as int, t.scale as int)
                    + " precision exceeds maximum supported precision (38)"@,
            )
        } else {
            Conversion::Converted(
                PrimitiveType::Decimal { precision: t.precision, scale: t.scale as u32 },
            )
        },
    }
}

/// The type of a column without parts.
pub open spec fn scalar_mapping(pg_type: PgType) -> Conversion<PrimitiveType> {
    if pg_type.oid == NUMERICOID {
        decimal_mapping(pg_type.type_mod as int)
    } else {
        match plain_primitive(pg_type.oid) {
            Some(p) => Conversion::Converted(p),
            None => Conversion::Refused(unsupported_oid_text(pg_type.oid)),
        }
    }
}

/// The type of a column given the successive element types of its type.
pub open spec fn column_mapping(pg_type: PgType, element_chain: Seq<Oid>, first_id: int) -> Conversion<Type> {
    match scalar_mapping(innermost(pg_type, element_chain)) {
        Conversion::Converted(p) => Conversion::Converted(
            nested_in_lists(element_chain.len(), first_id, Type::Primitive(p)),
        ),
        Conversion::Refused(text) => Conversion::Refused(text),
    }
}

/// Whether a column is numeric and declares no precision and scale.
pub open spec fn defaults_numeric(pg_type: PgType) -> bool {
    pg_type.oid == NUMERICOID && unpacked_typmod(pg_type.type_mod as int) is None
}

/// The warning for a numeric column without precision and scale.
pub open spec fn default_numeric_text(column_name: Seq<char>) -> Seq<char> {
    "numeric column \""@ + column_name
        + "\" has no precision/scale; defaulting to decimal(38, 18). Use numeric(p, s) explicitly to avoid runtime overflow on values wider than 38 digits."@
}

/// Whether a warning is the one that a column calls for.
pub open spec fn warns_as(warning: Option<String>, column_name: Seq<char>, pg_type: PgType) -> bool {
    if defaults_numeric(pg_type) {
        warning matches Some(text) && text@ == default_numeric_text(column_name)
    } else {
        warning is None
    }
}

impl PgType {
    /// Converts a numeric column to a decimal.
    pub fn decimal_type(&self) -> (r: IcebergResult<PrimitiveType>)
        ensures
            converts_to(r, decimal_mapping(self.type_mod as int)),
    {
        match self.numeric_precision_scale() {
            None => Ok(
                PrimitiveType::Decimal {
                    precision: DEFAULT_NUMERIC_PRECISION,
                    scale: DEFAULT_NUMERIC_SCALE,
                },
            ),
            Some(t) => {
                if t.scale < 0 {
                    let widened: u32 = t.precision + (-t.scale) as u32;
                    if widened > MAX_DECIMAL_PRECISION {
                        let mut text = render_numeric(t.precision, t.scale);
                        text.append(" maps to decimal(");
                        let digits = decimal_text(widened as u64);
                        text.append(digits.as_str());
                        text.append(", 0) which exceeds maximum supported precision (38)");
                        return Err(IcebergError::UnsupportedColumnType(text));
                    }
                    return Ok(PrimitiveType::Decimal { precision: widened, scale: 0 });
                }
                if t.precision > MAX_DECIMAL_PRECISION {
                    let mut text = render_numeric(t.precision, t.scale);
                    text.append(" precision exceeds maximum supported precision (38)");
                    return Err(IcebergError::UnsupportedColumnType(text));
                }
                Ok(PrimitiveType::Decimal { precision: t.precision, scale: t.scale as u32 })
            },
        }
    }

    /// Converts a type without parts.
    pub fn primitive_type(&self) -> (r: IcebergResult<Type>)
        ensures
            match scalar_mapping(*self) {
                Conversion::Converted(p) => r == Ok::<Type, IcebergError>(Type::Primitive(p)),
                Conversion::Refused(text) => r matches Err(IcebergError::UnsupportedColumnType(m)) && m@
                    == text,
            },
    {
        if self.oid == NUMERICOID {
            return match self.decimal_type() {
                Ok(p) => Ok(Type::Primitive(p)),
                Err(e) => Err(e),
            };
        }
        match convert_plain_type(self.oid) {
            Some(p) => Ok(Type::Primitive(p)),
            None => Err(unsupported_oid(self.oid)),
        }
    }

    /// The warning that a column of this type calls for.
    pub fn default_numeric_warning(&self, column_name: &str) -> (r: Option<String>)
        ensures
            warns_as(r, column_name@, *self),
    {
        if self.oid != NUMERICOID || self.numeric_precision_scale().is_some() {
            return None;
        }
        let mut text = "numeric column \"".to_owned();
        text.append(column_name);
        text.append(
            "\" has no precision/scale; defaulting to decimal(38, 18). Use numeric(p, s) explicitly to avoid runtime overflow on values wider than 38 digits.",
        );
        Some(text)
    }
}

/// What work on columns came to, with the warnings that it called for up to
/// its end, in order. They are due whether it succeeded or not.
#[derive(Debug)]
pub struct Warned<T> {
    pub warnings: Vec<String>,
    pub result: IcebergResult<T>,
}

/// The warnings that a column of this type calls for.
pub open spec fn column_warnings(column_name: Seq<char>, pg_type: PgType) -> Seq<Seq<char>> {
    if defaults_numeric(pg_type) {
        seq![default_numeric_text(column_name)]
    } else {
        Seq::empty()
    }
}

fn warnings_for(column_name: &str, pg_type: &PgType) -> (r: Vec<String>)
    ensures
        texts(r@) == column_warnings(column_name@, *pg_type),
{
    let mut warnings: Vec<String> = Vec::new();
    if let Some(text) = pg_type.default_numeric_warning(column_name) {
        warnings.push(text);
    }
    assert(texts(warnings@) =~= column_warnings(column_name@, *pg_type));
    warnings
}

fn is_ambiguous(name: &str) -> (r: bool)
    ensures
        r == name@.contains(SCHEMA_NAME_DELIMITER),
{
    let mut found = false;
    for c in it: name.chars()
        invariant
            it.seq() == name@,
            found == it.seq().take(it.index() as int).contains(SCHEMA_NAME_DELIMITER),
    {
        proof {
            let before = it.seq().take(it.index() as int);
            let after = it.seq().take(it.index() + 1);
            assert(after =~= before.push(c));
            if before.contains(SCHEMA_NAME_DELIMITER) {
                let k = choose|k: int| 0 <= k < before.len() && before[k] == SCHEMA_NAME_DELIMITER;
                assert(after[k] == SCHEMA_NAME_DELIMITER);
            }
            if c == SCHEMA_NAME_DELIMITER {
                assert(after[it.index() as int] == SCHEMA_NAME_DELIMITER);
            }
        }
        if c == SCHEMA_NAME_DELIMITER {
            found = true;
        }
    }
    assert(name@.take(name@.len() as int) =~= name@);
    found
}

/// The columns of a schema under construction.
#[derive(Debug)]
pub struct SchemaBuilder {
    pub next_field_id: i32,
    pub fields: Vec<NestedField>,
}

impl SchemaBuilder {
    /// A builder without columns whose identifiers start at one.
    pub fn new() -> (r: Self)
        ensures
            r.next_field_id == 1,
            r.fields@ == Seq::<NestedField>::empty(),
    {
        SchemaBuilder { next_field_id: 1, fields: Vec::new() }
    }

    /// Appends a column.
    ///
    /// The column takes the next identifier, its lists the ones after it. A
    /// name with a delimiter is refused before it takes any, and before the
    /// column calls for a warning.
    pub fn add_field(
        &mut self,
        name: String,
        pg_type: PgType,
        element_chain: &Vec<Oid>,
        required: bool,
    ) -> (r: Warned<()>)
        requires
            old(self).next_field_id + 1 + element_chain@.len() <= i32::MAX,
        ensures
            name@.contains(SCHEMA_NAME_DELIMITER) ==> {
                &&& final(self).fields@ == old(self).fields@
                &&& final(self).next_field_id == old(self).next_field_id
                &&& r.warnings@.len() == 0
                &&& r.result matches Err(IcebergError::SchemaBuildError(m)) && m@
                    == "Cannot add column with ambiguous name: "@ + name@
            },
            !name@.contains(SCHEMA_NAME_DELIMITER) ==> {
                &&& final(self).next_field_id == old(self).next_field_id + 1 + element_chain@.len()
                &&& texts(r.warnings@) == column_warnings(name@, pg_type)
                &&& match column_mapping(pg_type, element_chain@, old(self).next_field_id + 1) {
                    Conversion::Converted(field_type) => r.result is Ok && final(self).fields@
                        == old(self).fields@.push(
                        (NestedField { id: old(self).next_field_id, name, required, field_type }),
                    ),
                    Conversion::Refused(text) => final(self).fields@ == old(self).fields@ && (
                    r.result matches Err(IcebergError::UnsupportedColumnType(m)) && m@ == text),
                }
            },
    {
        if is_ambiguous(name.as_str()) {
            let mut text = "Cannot add column with ambiguous name: ".to_owned();
            text.append(name.as_str());
            return Warned {
                warnings: Vec::new(),
                result: Err(IcebergError::SchemaBuildError(text)),
            };
        }
        let warnings = warnings_for(name.as_str(), &pg_type);
        let field_id: i32 = allocate_field_id(&mut self.next_field_id);
        match self.convert(&pg_type, element_chain) {
            Ok(field_type) => {
                self.fields.push(NestedField { id: field_id, name, required, field_type });
                Warned { warnings, result: Ok(()) }
            },
            Err(e) => Warned { warnings, result: Err(e) },
        }
    }

    /// Ends construction; `refusal` is the table-format layer's objection to
    /// the columns, if it has one.
    pub fn build(self, refusal: Option<String>) -> (r: IcebergResult<Schema>)
        ensures
            refusal is None ==> r == Ok::<Schema, IcebergError>((Schema { fields: self.fields })),
            refusal matches Some(text) ==> r == Err::<Schema, IcebergError>(
                IcebergError::SchemaBuildError(text),
            ),
    {
        match refusal {
            Some(text) => Err(IcebergError::SchemaBuildError(text)),
            None => Ok(Schema { fields: self.fields }),
        }
    }

    /// Converts a type given its successive element types. Each list takes
    /// its identifier before what it holds.
    pub fn convert(&mut self, pg_type: &PgType, element_chain: &Vec<Oid>) -> (r: IcebergResult<Type>)
        requires
            old(self).next_field_id + element_chain@.len() <= i32::MAX,
        ensures
            converts_to(r, column_mapping(*pg_type, element_chain@, old(self).next_field_id as int)),
            final(self).next_field_id == old(self).next_field_id + element_chain@.len(),
            final(self).fields == old(self).fields,
    {
        let first_id: i32 = self.next_field_id;
        let depth: usize = element_chain.len();
        let mut innermost_type = PgType::new(pg_type.oid, pg_type.type_mod);
        let mut i: usize = 0;
        while i < depth
            invariant
                depth == element_chain@.len(),
                i <= depth,
                first_id + depth <= i32::MAX,
                self.next_field_id == first_id + i,
                self.fields == old(self).fields,
                innermost_type == innermost(*pg_type, element_chain@.take(i as int)),
            decreases depth - i,
        {
            let _element_id = allocate_field_id(&mut self.next_field_id);
            innermost_type = PgType::new(element_chain[i], pg_type.type_mod);
            i = i + 1;
        }
        assert(element_chain@.take(depth as int) =~= element_chain@);
        match innermost_type.primitive_type() {
            Ok(t) => Ok(wrap_in_lists(t, depth, first_id)),
            Err(e) => Err(e),
        }
    }
}

/// Whether a live column is refused: for its name, or for its type.
pub open spec fn column_refused(attr: ColumnAttribute) -> bool {
    !attr.dropped && (attr.name@.contains(SCHEMA_NAME_DELIMITER) || column_mapping(
        PgType { oid: attr.type_oid, type_mod: attr.type_mod },
        attr.element_chain@,
        0,
    ) is Refused)
}

/// The schema fields of the live columns, in order.
pub open spec fn schema_fields(attrs: Seq<ColumnAttribute>) -> Seq<NestedField>
    decreases attrs.len(),
{
    if attrs.len() == 0 {
        Seq::empty()
    } else {
        let earlier = schema_fields(attrs.drop_last());
        let attr = attrs.last();
        if attr.dropped {
            earlier
        } else {
            let id = 1 + ids_needed(attrs.drop_last()) as int;
            earlier.push(
                NestedField {
                    id: id as i32,
                    name: attr.name,
                    required: attr.not_null,
                    field_type: column_mapping(
                        PgType { oid: attr.type_oid, type_mod: attr.type_mod },
                        attr.element_chain@,
                        id + 1,
                    )->Converted_0,
                },
            )
        }
    }
}

/// The warnings that the live columns call for, in order. A column that is
/// refused for its name calls for none.
pub open spec fn schema_warnings(attrs: Seq<ColumnAttribute>) -> Seq<Seq<char>>
    decreases attrs.len(),
{
    if attrs.len() == 0 {
        Seq::empty()
    } else {
        let earlier = schema_warnings(attrs.drop_last());
        let attr = attrs.last();
        if attr.dropped || attr.name@.contains(SCHEMA_NAME_DELIMITER) {
            earlier
        } else {
            earlier + column_warnings(
                attr.name@,
                PgType { oid: attr.type_oid, type_mod: attr.type_mod },
            )
        }
    }
}

/// The error of a refused column.
pub open spec fn refusal_of(attr: ColumnAttribute, e: IcebergError) -> bool {
    if attr.name@.contains(SCHEMA_NAME_DELIMITER) {
        e matches IcebergError::SchemaBuildError(m) && m@ == "Cannot add column with ambiguous name: "@
            + attr.name@
    } else {
        e matches IcebergError::UnsupportedColumnType(m) && Conversion::<Type>::Refused(m@)
            == column_mapping(
            PgType { oid: attr.type_oid, type_mod: attr.type_mod },
            attr.element_chain@,
            0,
        )
    }
}

/// Collects the live columns of a relation in a schema builder. The first
/// refused column ends the work.
pub fn tuple_desc_to_schema(attrs: &Vec<ColumnAttribute>) -> (r: Warned<SchemaBuilder>)
    requires
        ids_needed(attrs@) < i32::MAX,
    ensures
        match r.result {
            Ok(builder) => {
                &&& forall|i: int| 0 <= i < attrs@.len() ==> !column_refused(#[trigger] attrs@[i])
                &&& builder.fields@ == schema_fields(attrs@)
                &&& builder.next_field_id == 1 + ids_needed(attrs@)
                &&& texts(r.warnings@) == schema_warnings(attrs@)
            },
            Err(e) => exists|i: int|
                {
                    &&& 0 <= i < attrs@.len()
                    &&& column_refused(#[trigger] attrs@[i])
                    &&& forall|j: int| 0 <= j < i ==> !column_refused(#[trigger] attrs@[j])
                    &&& refusal_of(attrs@[i], e)
                    &&& texts(r.warnings@) == schema_warnings(attrs@.take(i + 1))
                },
        },
{
    let mut builder = SchemaBuilder::new();
    let mut warnings: Vec<String> = Vec::new();
    assert(texts(warnings@) =~= Seq::<Seq<char>>::empty());
    let mut i: usize = 0;
    while i < attrs.len()
        invariant
            i <= attrs@.len(),
            ids_needed(attrs@) < i32::MAX,
            forall|j: int| 0 <= j < i ==> !column_refused(#[trigger] attrs@[j]),
            builder.fields@ == schema_fields(attrs@.take(i as int)),
            builder.next_field_id == 1 + ids_needed(attrs@.take(i as int)),
            texts(warnings@) == schema_warnings(attrs@.take(i as int)),
        decreases attrs@.len() - i,
    {
        let attr = &attrs[i];
        proof {
            assert(attrs@.take(i + 1).drop_last() =~= attrs@.take(i as int));
            lemma_ids_needed_grows(attrs@, i + 1);
        }
        if !attr.dropped {
            let pg_type = PgType::new(attr.type_oid, attr.type_mod);
            let ghost before = warnings@;
            let added = builder.add_field(
                attr.name.clone(),
                pg_type,
                &attr.element_chain,
                attr.not_null,
            );
            let mut own = added.warnings;
            let ghost more = own@;
            warnings.append(&mut own);
            assert(texts(warnings@) =~= texts(before) + texts(more));
            assert(texts(warnings@) =~= schema_warnings(attrs@.take(i + 1)));
            match added.result {
                Ok(()) => {},
                Err(e) => {
                    assert(column_refused(attrs@[i as int]));
                    assert(refusal_of(attrs@[i as int], e));
                    return Warned { warnings, result: Err(e) };
                },
            }
        }
        i = i + 1;
    }
    assert(attrs@.take(attrs@.len() as int) =~= attrs@);
    Warned { warnings, result: Ok(builder) }
}

/// Converts one column type for a schema change. Its list identifiers count
/// from one and are placeholders: the schema change assigns fresh ones.
pub fn column_type_to_iceberg_type(
    column_name: &str,
    type_oid: Oid,
    type_mod: i32,
    element_chain: &Vec<Oid>,
) -> (r: Warned<Type>)
    requires
        element_chain@.len() < i32::MAX,
    ensures
        texts(r.warnings@) == column_warnings(column_name@, PgType { oid: type_oid, type_mod }),
        match column_mapping(PgType { oid: type_oid, type_mod }, element_chain@, 1) {
            Conversion::Converted(t) => r.result is Ok && r.result->Ok_0 == t,
            Conversion::Refused(text) => r.result matches Err(IcebergError::UnsupportedColumnType(m)) && m@
                == text,
        },
{
    let pg_type = PgType::new(type_oid, type_mod);
    let warnings = warnings_for(column_name, &pg_type);
    let mut builder = SchemaBuilder::new();
    Warned { warnings, result: builder.convert(&pg_type, element_chain) }
}

/// A column declared `numeric(precision, scale)` becomes `decimal(precision,
/// scale)`; with a negative scale it becomes a whole number with as many more
/// digits. It is refused exactly where more than 38 digits are needed.
pub proof fn decimals_are_as_declared(precision: int, scale: int)
    requires
        0 <= precision < 32768,
        -1024 <= scale < 1024,
    ensures
        ({
            let mapped = decimal_mapping(packed_typmod(precision, scale));
            &&& scale >= 0 ==> (mapped is Converted <==> precision <= 38)
            &&& scale < 0 ==> (mapped is Converted <==> precision - scale <= 38)
            &&& mapped is Converted && scale >= 0 ==> mapped->Converted_0 == (PrimitiveType::Decimal {
                precision: precision as u32,
                scale: scale as u32,
            })
            &&& mapped is Converted && scale < 0 ==> mapped->Converted_0 == (PrimitiveType::Decimal {
                precision: (precision - scale) as u32,
                scale: 0,
            })
        }),
{
    numeric_typmod_round_trips(precision, scale);
}

/// A numeric column without a declared precision has 38 digits, 18 of them
/// behind the point, and is warned about; one with a precision is not.
pub proof fn undeclared_numerics_have_a_default(type_mod: i32)
    ensures
        type_mod < 4 ==> decimal_mapping(type_mod as int) == Conversion::Converted(
            PrimitiveType::Decimal { precision: 38, scale: 18 },
        ),
        defaults_numeric(PgType { oid: 1700, type_mod }) <==> type_mod < 4,
{
}

/// Every number that a numeric column can hold is one that its decimal type can
/// hold: with `precision` digits, `scale` of them behind the point.
pub proof fn decimals_hold_what_columns_hold(precision: int, scale: int, mantissa: int)
    requires
        0 <= precision < 32768,
        -1024 <= scale < 1024,
        -pow(10, precision as nat) < mantissa < pow(10, precision as nat),
        decimal_mapping(packed_typmod(precision, scale)) is Converted,
    ensures
        holds_decimal(
            decimal_mapping(packed_typmod(precision, scale))->Converted_0,
            mantissa,
            -scale,
        ),
{
    decimals_are_as_declared(precision, scale);
    lemma_pow0(10);
    if scale < 0 {
        let shift = pow(10, (-scale) as nat);
        let room = pow(10, precision as nat);
        lemma_pow_adds(10, precision as nat, (-scale) as nat);
        lemma_pow_positive(10, (-scale) as nat);
        assert(precision as nat + (-scale) as nat == (precision - scale) as nat);
        assert(-(room * shift) < mantissa * shift < room * shift) by (nonlinear_arith)
            requires
                -room < mantissa < room,
                shift > 0,
        ;
    }
}

/// The elements of a numeric array are decimals of the declared precision and
/// scale, as a column of its own would be.
pub proof fn numeric_arrays_keep_their_precision(
    oid: Oid,
    type_mod: i32,
    element_chain: Seq<Oid>,
    first_id: int,
)
    requires
        element_chain.len() > 0,
        element_chain.last() == 1700,
        i32::MIN <= first_id,
        first_id + element_chain.len() <= i32::MAX,
    ensures
        match decimal_mapping(type_mod as int) {
            Conversion::Converted(p) => {
                let mapped = column_mapping(PgType { oid, type_mod }, element_chain, first_id);
                &&& mapped is Converted
                &&& inside(mapped->Converted_0, element_chain.len()) == Type::Primitive(p)
                &&& inside(mapped->Converted_0, 0) is List
            },
            Conversion::Refused(_) => column_mapping(PgType { oid, type_mod }, element_chain, first_id)
                is Refused,
        },
{
    if let Conversion::Converted(p) = decimal_mapping(type_mod as int) {
        arrays_become_lists(element_chain.len(), first_id, p, element_chain.len());
        arrays_become_lists(element_chain.len(), first_id, p, 0);
    }
}

/// A column of a built-in type reads back as a type that holds the same values,
/// also as the element of an array.
pub proof fn built_columns_read_back(
    oid: Oid,
    type_mod: i32,
    element_chain: Seq<Oid>,
    first_id: int,
)
    requires
        i32::MIN <= first_id,
        first_id + element_chain.len() <= i32::MAX,
    ensures
        ({
            let held = if element_chain.len() == 0 {
                oid
            } else {
                element_chain.last()
            };
            let mapped = column_mapping(PgType { oid, type_mod }, element_chain, first_id);
            &&& held != 1700 ==> (mapped is Converted <==> reads_back_as(held) is Some)
            &&& held != 1700 && mapped is Converted ==> inside(
                mapped->Converted_0,
                element_chain.len(),
            ).column_type() == reads_back_as(held)
        }),
{
    let held = if element_chain.len() == 0 {
        oid
    } else {
        element_chain.last()
    };
    columns_read_back(held);
    if let Some(p) = plain_primitive(held) {
        arrays_become_lists(element_chain.len(), first_id, p, element_chain.len());
    }
}

/// The fields of a schema are the live columns of the relation, in order: they
/// have their names, and those that are not nullable are required.
pub proof fn fields_are_the_live_columns(attrs: Seq<ColumnAttribute>)
    ensures
        schema_fields(attrs).len() == live_columns(attrs).len(),
        forall|i: int|
            0 <= i < schema_fields(attrs).len() ==> (#[trigger] schema_fields(attrs)[i]).name
                == live_columns(attrs)[i].name && schema_fields(attrs)[i].required == live_columns(
                attrs,
            )[i].not_null,
    decreases attrs.len(),
{
    reveal(Seq::filter);
    if attrs.len() > 0 {
        fields_are_the_live_columns(attrs.drop_last());
    }
}

/// The identifiers inside a list nest ascend by one from the outermost.
pub proof fn list_identifiers_ascend(depth: nat, first_id: int, inner: Type)
    requires
        depth >= 2,
        0 < first_id,
        first_id + depth <= i32::MAX,
    ensures
        nested_in_lists(depth, first_id, inner)->List_0.element_id == first_id,
        (*nested_in_lists(depth, first_id, inner)->List_0.element_type)->List_0.element_id == first_id + 1,
{
    reveal_with_fuel(nested_in_lists, 3);
}

/// The fields of a schema have ascending, hence distinct, identifiers.
pub proof fn field_identifiers_ascend(attrs: Seq<ColumnAttribute>, i: int, j: int)
    requires
        ids_needed(attrs) < i32::MAX,
        0 <= i < j < schema_fields(attrs).len(),
    ensures
        1 <= schema_fields(attrs)[i].id < schema_fields(attrs)[j].id <= ids_needed(attrs),
    decreases attrs.len(),
{
    let earlier = schema_fields(attrs.drop_last());
    if j < earlier.len() {
        field_identifiers_ascend(attrs.drop_last(), i, j);
    } else {
        lemma_field_identifier_bound(attrs.drop_last(), i);
    }
}

proof fn lemma_field_identifier_bound(attrs: Seq<ColumnAttribute>, i: int)
    requires
        ids_needed(attrs) < i32::MAX,
        0 <= i < schema_fields(attrs).len(),
    ensures
        1 <= schema_fields(attrs)[i].id <= ids_needed(attrs),
    decreases attrs.len(),
{
    if i < schema_fields(attrs.drop_last()).len() {
        lemma_field_identifier_bound(attrs.drop_last(), i);
    }
}

} // verus!
