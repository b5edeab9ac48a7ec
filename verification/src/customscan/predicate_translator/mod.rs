//! From the conditions of a query to conditions of the table format.

use vstd::prelude::*;

pub mod datum_decoder;
pub mod error;
pub mod fold;
pub mod predicate;
pub mod scalar;

use crate::Oid;
use crate::customscan::predicate_pushdown_policy::{
    ComparisonOpClass, PgComparisonOp, PredicateCapability, PredicatePushdownPolicy, class_of,
    classes_mean_what_the_server_means, comparison_capability, integer_comparisons_are_taken_over,
    is_comparison, null_test_supported, sql_holds,
};
use crate::customscan::predicate_translator::datum_decoder::{
    IcebergDatumDecoder, PgDatum, PgDatumView, decoded, decoded_values_are_the_server_values,
    number_of, read_decimal, server_number,
};
use crate::customscan::predicate_translator::error::IcebergTranslationError;
use crate::customscan::predicate_translator::fold::{
    compares, fold_predicates, joined, mirror_operator, mirrored, predicates,
};
use crate::customscan::predicate_translator::predicate::{
    DatumView, Predicate, PredicateOperator, PredicateView, Reference,
};
use crate::customscan::predicate_translator::scalar::{IcebergScalar, ScalarView, kind_of};

verus! {

/// A column of a query.
#[derive(Debug, Clone, Copy)]
pub struct PgColumnRef<'a> {
    /// The name, where planning kept it.
    pub name: Option<&'a str>,
    pub rel_oid: Oid,
    pub attno: i16,
    pub atttypid: Oid,
}

/// A literal or the value of a parameter.
#[derive(Debug)]
pub struct PgLiteral {
    pub type_oid: Oid,
    pub is_null: bool,
    pub datum: PgDatum,
}

/// What the catalog says of a column's name.
#[derive(Debug)]
pub enum ColumnNameLookup {
    Found(String),
    Missing,
    /// The name is not valid UTF-8, for the given cause.
    NotUtf8(String),
}

/// The operator of the table format for an operator class.
pub open spec fn operator_of(class: ComparisonOpClass) -> PredicateOperator {
    match class {
        ComparisonOpClass::Eq => PredicateOperator::Eq,
        ComparisonOpClass::NotEq => PredicateOperator::NotEq,
        ComparisonOpClass::Lt => PredicateOperator::LessThan,
        ComparisonOpClass::Le => PredicateOperator::LessThanOrEq,
        ComparisonOpClass::Gt => PredicateOperator::GreaterThan,
        ComparisonOpClass::Ge => PredicateOperator::GreaterThanOrEq,
    }
}

/// The condition that a comparison comes to. With NULL it never holds; a value
/// on the left is moved to the right.
pub open spec fn compared(
    op: PgComparisonOp,
    left: ScalarView,
    right: ScalarView,
    catalog_deterministic: bool,
) -> Result<PredicateView, IcebergTranslationError> {
    match (left, right) {
        (ScalarView::Null { .. }, _) => Ok(PredicateView::AlwaysFalse),
        (_, ScalarView::Null { .. }) => Ok(PredicateView::AlwaysFalse),
        (ScalarView::Column { name, atttypid }, ScalarView::Datum(literal)) => built(
            op,
            name,
            atttypid,
            literal,
            catalog_deterministic,
            false,
        ),
        (ScalarView::Datum(literal), ScalarView::Column { name, atttypid }) => built(
            op,
            name,
            atttypid,
            literal,
            catalog_deterministic,
            true,
        ),
        _ => Err(
            IcebergTranslationError::ComparisonShape { left: kind_of(left), right: kind_of(right) },
        ),
    }
}

/// The condition on a column, where the policy admits the comparison.
pub open spec fn built(
    op: PgComparisonOp,
    column: Seq<char>,
    atttypid: Oid,
    literal: DatumView,
    catalog_deterministic: bool,
    swapped: bool,
) -> Result<PredicateView, IcebergTranslationError> {
    if comparison_capability(atttypid, op, catalog_deterministic) == PredicateCapability::Unsupported {
        Err(IcebergTranslationError::UnsupportedType { type_oid: atttypid })
    } else {
        let direct = operator_of(class_of(op.opno)->Some_0);
        let op = if swapped {
            mirrored(direct)
        } else {
            direct
        };
        Ok(PredicateView::Binary { op, column, literal })
    }
}

/// The condition that a test for NULL comes to.
pub open spec fn null_tested(op: PredicateOperator, value: ScalarView) -> Result<
    PredicateView,
    IcebergTranslationError,
> {
    match value {
        ScalarView::Column { name, atttypid } => if null_test_supported(atttypid) {
            Ok(PredicateView::Unary { op, column: name })
        } else {
            Err(IcebergTranslationError::UnsupportedType { type_oid: atttypid })
        },
        _ => Err(IcebergTranslationError::NullTestOnNonColumn),
    }
}

/// The operand that a literal or parameter comes to.
pub open spec fn literal_operand(type_oid: Oid, is_null: bool, datum: PgDatumView) -> Result<
    ScalarView,
    IcebergTranslationError,
> {
    if is_null {
        Ok(ScalarView::Null { type_oid })
    } else {
        match decoded(type_oid, datum, read_decimal(datum)) {
            Ok(datum) => Ok(ScalarView::Datum(datum)),
            Err(e) => Err(e),
        }
    }
}

/// The view of a resulting condition.
pub open spec fn predicate_result(r: Result<Predicate, IcebergTranslationError>) -> Result<
    PredicateView,
    IcebergTranslationError,
> {
    match r {
        Ok(p) => Ok(p@),
        Err(e) => Err(e),
    }
}

/// The view of a resulting operand.
pub open spec fn scalar_result(r: Result<IcebergScalar, IcebergTranslationError>) -> Result<
    ScalarView,
    IcebergTranslationError,
> {
    match r {
        Ok(scalar) => Ok(scalar@),
        Err(e) => Err(e),
    }
}

/// The name of a column: the one that planning kept, else the one in the
/// catalog.
pub open spec fn column_name(carried: Option<&str>, attno: i16, lookup: ColumnNameLookup) -> Option<
    Seq<char>,
> {
    match carried {
        Some(name) => Some(name@),
        None => match lookup {
            ColumnNameLookup::Found(name) if attno > 0 => Some(name@),
            _ => None,
        },
    }
}

/// Why a column has no name that can be used.
pub open spec fn no_column_name(rel_oid: Oid, attno: i16, lookup: ColumnNameLookup) -> IcebergTranslationError {
    if attno <= 0 {
        IcebergTranslationError::SystemOrWholeRowColumn { rel_oid, attno }
    } else {
        match lookup {
            ColumnNameLookup::NotUtf8(cause) => IcebergTranslationError::ColumnNameNotUtf8 {
                rel_oid,
                attno,
                cause,
            },
            _ => IcebergTranslationError::ColumnLookupFailed { rel_oid, attno },
        }
    }
}

/// Expresses the conditions of a query for the table format.
#[derive(Debug, Clone, Copy, PartialEq, Eq, Structural)]
pub struct IcebergPredicateTranslator {
    pushdown: PredicatePushdownPolicy,
}

impl Default for IcebergPredicateTranslator {
    fn default() -> (r: Self)
        ensures
            r.policy() == PredicatePushdownPolicy,
    {
        IcebergPredicateTranslator { pushdown: PredicatePushdownPolicy::new() }
    }
}

impl IcebergPredicateTranslator {
    /// The policy that decides what can be expressed.
    pub closed spec fn policy(self) -> PredicatePushdownPolicy {
        self.pushdown
    }

    /// With the usual policy.
    pub fn new() -> (r: Self)
        ensures
            r.policy() == PredicatePushdownPolicy,
    {
        IcebergPredicateTranslator { pushdown: PredicatePushdownPolicy::new() }
    }

    /// With a given policy.
    pub fn with_policy(pushdown: PredicatePushdownPolicy) -> (r: Self)
        ensures
            r.policy() == pushdown,
    {
        IcebergPredicateTranslator { pushdown }
    }

    /// The operand for a column. `lookup` is what the catalog says of the
    /// column's name; it matters only where planning kept no name.
    pub fn column(&self, col: PgColumnRef<'_>, lookup: ColumnNameLookup) -> (r: Result<
        IcebergScalar,
        IcebergTranslationError,
    >)
        ensures
            match (r, column_name(col.name, col.attno, lookup)) {
                (Ok(scalar), Some(name)) => scalar@ == (ScalarView::Column {
                    name,
                    atttypid: col.atttypid,
                }),
                (Err(e), None) => e == no_column_name(col.rel_oid, col.attno, lookup),
                _ => false,
            },
    {
        match Self::resolve_column_name(col.name, col.rel_oid, col.attno, lookup) {
            Ok(name) => Ok(
                IcebergScalar::Column { reference: Reference::new(name), atttypid: col.atttypid },
            ),
            Err(e) => Err(e),
        }
    }

    /// The operand for a literal.
    pub fn literal(&self, lit: &PgLiteral) -> (r: Result<IcebergScalar, IcebergTranslationError>)
        ensures
            scalar_result(r) == literal_operand(lit.type_oid, lit.is_null, lit.datum@),
    {
        if lit.is_null {
            return Ok(IcebergScalar::Null { type_oid: lit.type_oid });
        }
        match IcebergDatumDecoder::decode(lit.type_oid, &lit.datum) {
            Ok(datum) => Ok(IcebergScalar::Datum(datum)),
            Err(e) => Err(e),
        }
    }

    /// The operand for the value of a parameter.
    pub fn param_value(&self, param: &PgLiteral) -> (r: Result<
        IcebergScalar,
        IcebergTranslationError,
    >)
        ensures
            scalar_result(r) == literal_operand(param.type_oid, param.is_null, param.datum@),
    {
        self.literal(param)
    }

    /// The condition for a comparison. `catalog_deterministic` is what the
    /// catalog says of the input collation.
    pub fn comparison(
        &self,
        op: PgComparisonOp,
        left: IcebergScalar,
        right: IcebergScalar,
        catalog_deterministic: bool,
    ) -> (r: Result<Predicate, IcebergTranslationError>)
        ensures
            predicate_result(r) == compared(op, left@, right@, catalog_deterministic),
    {
        let left_kind = left.kind();
        let right_kind = right.kind();
        let (reference, atttypid, datum, swap_sides) = match (left, right) {
            (IcebergScalar::Null { .. }, _) => {
                return Ok(Predicate::AlwaysFalse);
            },
            (_, IcebergScalar::Null { .. }) => {
                return Ok(Predicate::AlwaysFalse);
            },
            (
                IcebergScalar::Column { reference, atttypid },
                IcebergScalar::Datum(datum),
            ) => (reference, atttypid, datum, false),
            (
                IcebergScalar::Datum(datum),
                IcebergScalar::Column { reference, atttypid },
            ) => (reference, atttypid, datum, true),
            _ => {
                return Err(
                    IcebergTranslationError::ComparisonShape { left: left_kind, right: right_kind },
                );
            },
        };
        if !self.pushdown.can_build(atttypid, op, catalog_deterministic) {
            return Err(IcebergTranslationError::UnsupportedType { type_oid: atttypid });
        }
        let mut predicate_op = match self.map_comparison_operator(op) {
            Ok(predicate_op) => predicate_op,
            Err(e) => {
                return Err(e);
            },
        };
        if swap_sides {
            predicate_op = mirror_operator(predicate_op);
        }
        Ok(reference.compared(predicate_op, datum))
    }

    /// The condition for `IS NULL`.
    pub fn is_null(&self, value: IcebergScalar) -> (r: Result<Predicate, IcebergTranslationError>)
        ensures
            predicate_result(r) == null_tested(PredicateOperator::IsNull, value@),
    {
        match self.null_test_reference(value) {
            Ok(reference) => Ok(reference.tested(PredicateOperator::IsNull)),
            Err(e) => Err(e),
        }
    }

    /// The condition for `IS NOT NULL`.
    pub fn is_not_null(&self, value: IcebergScalar) -> (r: Result<Predicate, IcebergTranslationError>)
        ensures
            predicate_result(r) == null_tested(PredicateOperator::NotNull, value@),
    {
        match self.null_test_reference(value) {
            Ok(reference) => Ok(reference.tested(PredicateOperator::NotNull)),
            Err(e) => Err(e),
        }
    }

    /// The conjunction of some conditions.
    pub fn and(&self, items: Vec<Predicate>) -> (r: Result<Predicate, IcebergTranslationError>)
        ensures
            match r {
                Ok(p) => items@.len() > 0 && p@ == joined(predicates(items@), true),
                Err(e) => items@.len() == 0 && e == IcebergTranslationError::EmptyBoolExpr,
            },
    {
        fold_predicates(items, true)
    }

    /// The disjunction of some conditions.
    pub fn or(&self, items: Vec<Predicate>) -> (r: Result<Predicate, IcebergTranslationError>)
        ensures
            match r {
                Ok(p) => items@.len() > 0 && p@ == joined(predicates(items@), false),
                Err(e) => items@.len() == 0 && e == IcebergTranslationError::EmptyBoolExpr,
            },
    {
        fold_predicates(items, false)
    }

    /// The opposite of a condition.
    pub fn not(&self, item: Predicate) -> (r: Result<Predicate, IcebergTranslationError>)
        ensures
            r matches Ok(p) && p@ == PredicateView::Not(Box::new(item@)),
    {
        Ok(item.negated())
    }

    fn null_test_reference(&self, value: IcebergScalar) -> (r: Result<
        Reference,
        IcebergTranslationError,
    >)
        ensures
            match (r, value@) {
                (Ok(reference), ScalarView::Column { name, atttypid }) => null_test_supported(atttypid)
                    && reference.name@ == name,
                (Err(e), ScalarView::Column { name, atttypid }) => !null_test_supported(atttypid) && e
                    == IcebergTranslationError::UnsupportedType { type_oid: atttypid },
                (Ok(_), _) => false,
                (Err(e), _) => e == IcebergTranslationError::NullTestOnNonColumn,
            },
    {
        match value {
            IcebergScalar::Column { reference, atttypid } => {
                if matches!(
                    self.pushdown.null_test_capability(atttypid),
                    PredicateCapability::Unsupported
                ) {
                    return Err(IcebergTranslationError::UnsupportedType { type_oid: atttypid });
                }
                Ok(reference)
            },
            _ => Err(IcebergTranslationError::NullTestOnNonColumn),
        }
    }

    /// The name of a column: the one that planning kept, else the one in the
    /// catalog.
    pub fn resolve_column_name(
        carried: Option<&str>,
        rel_oid: Oid,
        attno: i16,
        lookup: ColumnNameLookup,
    ) -> (r: Result<String, IcebergTranslationError>)
        ensures
            match (r, column_name(carried, attno, lookup)) {
                (Ok(found), Some(name)) => found@ == name,
                (Err(e), None) => e == no_column_name(rel_oid, attno, lookup),
                _ => false,
            },
    {
        if let Some(name) = carried {
            return Ok(name.to_owned());
        }
        if attno <= 0 {
            return Err(IcebergTranslationError::SystemOrWholeRowColumn { rel_oid, attno });
        }
        match lookup {
            ColumnNameLookup::Found(name) => Ok(name),
            ColumnNameLookup::Missing => Err(
                IcebergTranslationError::ColumnLookupFailed { rel_oid, attno },
            ),
            ColumnNameLookup::NotUtf8(cause) => Err(
                IcebergTranslationError::ColumnNameNotUtf8 { rel_oid, attno, cause },
            ),
        }
    }

    /// The operator of the table format for an operator of the query. Whether
    /// its collation admits it is decided elsewhere.
    pub fn map_comparison_operator(&self, op: PgComparisonOp) -> (r: Result<
        PredicateOperator,
        IcebergTranslationError,
    >)
        ensures
            match r {
                Ok(o) => class_of(op.opno) is Some && o == operator_of(class_of(op.opno)->Some_0),
                Err(e) => class_of(op.opno) is None && e
                    == (IcebergTranslationError::UnsupportedOperator {
                    opno: op.opno,
                    opcollid: op.opcollid,
                    inputcollid: op.inputcollid,
                }),
            },
    {
        match self.pushdown.op_class(op.opno) {
            Some(ComparisonOpClass::Eq) => Ok(PredicateOperator::Eq),
            Some(ComparisonOpClass::NotEq) => Ok(PredicateOperator::NotEq),
            Some(ComparisonOpClass::Lt) => Ok(PredicateOperator::LessThan),
            Some(ComparisonOpClass::Le) => Ok(PredicateOperator::LessThanOrEq),
            Some(ComparisonOpClass::Gt) => Ok(PredicateOperator::GreaterThan),
            Some(ComparisonOpClass::Ge) => Ok(PredicateOperator::GreaterThanOrEq),
            None => Err(
                IcebergTranslationError::UnsupportedOperator {
                    opno: op.opno,
                    opcollid: op.opcollid,
                    inputcollid: op.inputcollid,
                },
            ),
        }
    }
}

// -- Laws ---------------------------------------------------------------------

/// A comparison that is built means what the server's operator means: for all
/// numbers, `a` of the column and `b` of the value, it holds exactly when the
/// operator holds of the operands in the order in which they were written. The
/// column and the value are those of the query, and only comparisons of the
/// server are built.
pub proof fn built_comparisons_mean_what_the_query_means(
    op: PgComparisonOp,
    column: Seq<char>,
    atttypid: Oid,
    literal: DatumView,
    catalog_deterministic: bool,
    a: int,
    b: int,
)
    requires
        comparison_capability(atttypid, op, catalog_deterministic) != PredicateCapability::Unsupported,
    ensures
        is_comparison(op.opno),
        ({
            let written = compared(
                op,
                (ScalarView::Column { name: column, atttypid }),
                ScalarView::Datum(literal),
                catalog_deterministic,
            );
            &&& written is Ok
            &&& written->Ok_0 is Binary
            &&& written->Ok_0->Binary_column == column
            &&& written->Ok_0->literal == literal
            &&& compares(written->Ok_0->Binary_op, a, b) <==> sql_holds(op.opno, a, b)
        }),
        ({
            let written = compared(
                op,
                ScalarView::Datum(literal),
                (ScalarView::Column { name: column, atttypid }),
                catalog_deterministic,
            );
            &&& written is Ok
            &&& written->Ok_0 is Binary
            &&& written->Ok_0->Binary_column == column
            &&& written->Ok_0->literal == literal
            &&& compares(written->Ok_0->Binary_op, a, b) <==> sql_holds(op.opno, b, a)
        }),
{
    classes_mean_what_the_server_means(op.opno, a, b);
    classes_mean_what_the_server_means(op.opno, b, a);
}

/// An exact filter on an integer column keeps a row exactly when the query's
/// condition holds of it: of the column's value and the literal's, as the
/// server holds them.
pub proof fn exact_filters_keep_the_rows_of_the_query(
    op: PgComparisonOp,
    column: Seq<char>,
    atttypid: Oid,
    literal_type: Oid,
    value: PgDatumView,
    a: int,
)
    requires
        atttypid == 20 || atttypid == 21 || atttypid == 23,
        is_comparison(op.opno),
        op.opcollid == 0,
        op.inputcollid == 0,
        match value {
            PgDatumView::Int2(_) => literal_type == 21,
            PgDatumView::Int4(_) => literal_type == 23,
            PgDatumView::Int8(_) => literal_type == 20,
            _ => false,
        },
    ensures
        ({
            let operand = literal_operand(literal_type, false, value);
            let filter = compared(
                op,
                (ScalarView::Column { name: column, atttypid }),
                operand->Ok_0,
                false,
            );
            &&& operand is Ok
            &&& filter is Ok
            &&& filter->Ok_0 is Binary
            &&& filter->Ok_0->Binary_column == column
            &&& compares(filter->Ok_0->Binary_op, a, number_of(filter->Ok_0->literal)) <==> sql_holds(
                op.opno,
                a,
                server_number(value),
            )
        }),
{
    integer_comparisons_are_taken_over(atttypid, op, false);
    let operand = literal_operand(literal_type, false, value);
    decoded_values_are_the_server_values(literal_type, value, read_decimal(value));
    built_comparisons_mean_what_the_query_means(
        op,
        column,
        atttypid,
        operand->Ok_0->Datum_0,
        false,
        a,
        server_number(value),
    );
}

/// A test for NULL is built for the column that it names and keeps its sense;
/// a value of the query cannot be tested, nor a column of a type that the scan
/// does not take over.
pub proof fn null_tests_test_their_column(op: PredicateOperator, value: ScalarView)
    ensures
        null_tested(op, value) matches Ok(p) ==> value is Column && p == (PredicateView::Unary {
            op,
            column: value->name,
        }),
        null_tested(op, value) is Ok <==> value is Column && null_test_supported(value->atttypid),
{
}

/// NULL stays NULL, whatever its type, and a value that is not NULL never
/// becomes NULL.
pub proof fn null_stays_null(type_oid: Oid, is_null: bool, datum: PgDatumView)
    ensures
        is_null ==> literal_operand(type_oid, is_null, datum) matches Ok(ScalarView::Null { .. }),
        literal_operand(type_oid, is_null, datum) matches Ok(operand) ==> (operand is Null <==> is_null)
            && !(operand is Column),
{
}

/// The name that planning kept is the column's name; the catalog is asked only
/// where it kept none, and only for columns that a user made.
pub proof fn planned_names_are_kept(name: &str, attno: i16, lookup: ColumnNameLookup)
    ensures
        column_name(Some(name), attno, lookup) == Some(name@),
        column_name(None, attno, lookup) is Some ==> attno > 0,
        attno > 0 ==> (lookup matches ColumnNameLookup::Found(found) ==> column_name(None, attno, lookup)
            == Some(found@)),
        !(lookup is Found) ==> column_name(None, attno, lookup) is None,
{
}

/// Planning and execution agree: a comparison of a column with a value is built
/// exactly where the policy says that it can be pushed down.
pub proof fn comparisons_are_built_where_they_are_admitted(
    op: PgComparisonOp,
    column: Seq<char>,
    atttypid: Oid,
    literal: DatumView,
    catalog_deterministic: bool,
)
    ensures
        compared(
            op,
            (ScalarView::Column { name: column, atttypid }),
            ScalarView::Datum(literal),
            catalog_deterministic,
        ) is Ok <==> comparison_capability(atttypid, op, catalog_deterministic)
            != PredicateCapability::Unsupported,
{
}

/// A comparison and its mirror image, with the operands exchanged, come to the
/// same condition.
pub proof fn mirrored_comparisons_are_one_condition(
    op: PgComparisonOp,
    mirror: PgComparisonOp,
    column: ScalarView,
    value: ScalarView,
    catalog_deterministic: bool,
)
    requires
        column is Column,
        value is Datum,
        class_of(op.opno) is Some,
        class_of(mirror.opno) is Some,
        operator_of(class_of(mirror.opno)->Some_0) == mirrored(operator_of(class_of(op.opno)->Some_0)),
        compared(op, column, value, catalog_deterministic) is Ok,
        compared(mirror, value, column, catalog_deterministic) is Ok,
    ensures
        compared(op, column, value, catalog_deterministic) == compared(
            mirror,
            value,
            column,
            catalog_deterministic,
        ),
{
}

/// A comparison with NULL never holds, on whichever side the NULL stands and
/// whatever the operator.
pub proof fn comparisons_with_null_never_hold(
    op: PgComparisonOp,
    type_oid: Oid,
    other: ScalarView,
    catalog_deterministic: bool,
)
    ensures
        compared(op, (ScalarView::Null { type_oid }), other, catalog_deterministic) == Ok::<
            PredicateView,
            IcebergTranslationError,
        >(PredicateView::AlwaysFalse),
        compared(op, other, (ScalarView::Null { type_oid }), catalog_deterministic) == Ok::<
            PredicateView,
            IcebergTranslationError,
        >(PredicateView::AlwaysFalse),
{
}

} // verus!
