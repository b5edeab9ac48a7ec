//! Which conditions a scan can take over.
//!
//! The policy is shared by planning, which decides what to push down, and by
//! execution, which builds what was pushed down.

use vstd::prelude::*;

use crate::Oid;
use crate::customscan::pg_operator_oid as op;
use crate::customscan::{FLOAT_PUSHDOWN_ENABLED, NUMERIC_COMPARISON_PUSHDOWN_ENABLED};
use crate::oids::{
    C_COLLATION_OID, DATEOID, FLOAT4OID, FLOAT8OID, INT2OID, INT4OID, INT8OID, INVALID_OID,
    NUMERICOID, POSIX_COLLATION_OID, TEXTOID, TIMESTAMPOID, TIMESTAMPTZOID, VARCHAROID,
};

verus! {

/// What a scan can do with a condition.
#[derive(Debug, Clone, Copy, PartialEq, Eq, Structural)]
pub enum PredicateCapability {
    /// Filter rows exactly as SQL would.
    ExactRowFilter,
    /// Leave out rows that cannot match; the condition is checked again.
    ConservativePruning,
    /// Nothing.
    Unsupported,
}

/// What a comparison operator means.
#[derive(Debug, Clone, Copy, PartialEq, Eq, Structural)]
pub enum ComparisonOpClass {
    /// `=`
    Eq,
    /// `<>`
    NotEq,
    /// `<`
    Lt,
    /// `<=`
    Le,
    /// `>`
    Gt,
    /// `>=`
    Ge,
}

impl ComparisonOpClass {
    /// Whether this is `<`, `<=`, `>` or `>=`.
    pub fn is_ordered(self) -> (r: bool)
        ensures
            r == (self != ComparisonOpClass::Eq && self != ComparisonOpClass::NotEq),
    {
        matches!(
            self,
            ComparisonOpClass::Lt | ComparisonOpClass::Le | ComparisonOpClass::Gt
                | ComparisonOpClass::Ge
        )
    }
}

/// A comparison as the planner sees it. The function and the result type of
/// the operator are there for diagnosis.
#[derive(Debug, Clone, Copy, PartialEq, Eq, Structural)]
pub struct PgComparisonOp {
    pub opno: Oid,
    pub opfuncid: Oid,
    pub opresulttype: Oid,
    pub opcollid: Oid,
    pub inputcollid: Oid,
}

/// What an operator means, if it is a known one.
pub open spec fn class_of(opno: Oid) -> Option<ComparisonOpClass> {
    if opno == op::INT2_EQ || opno == op::INT4_EQ || opno == op::INT8_EQ || opno == op::NUMERIC_EQ
        || opno == op::DATE_EQ || opno == op::TIMESTAMP_EQ || opno == op::TIMESTAMPTZ_EQ || opno
        == op::FLOAT4_EQ || opno == op::FLOAT8_EQ || opno == op::TEXT_EQ {
        Some(ComparisonOpClass::Eq)
    } else if opno == op::INT2_NE || opno == op::INT4_NE || opno == op::INT8_NE || opno
        == op::NUMERIC_NE || opno == op::DATE_NE || opno == op::TIMESTAMP_NE || opno
        == op::TIMESTAMPTZ_NE || opno == op::FLOAT4_NE || opno == op::FLOAT8_NE || opno
        == op::TEXT_NE {
        Some(ComparisonOpClass::NotEq)
    } else if opno == op::INT2_LT || opno == op::INT4_LT || opno == op::INT8_LT || opno
        == op::NUMERIC_LT || opno == op::DATE_LT || opno == op::TIMESTAMP_LT || opno
        == op::TIMESTAMPTZ_LT || opno == op::FLOAT4_LT || opno == op::FLOAT8_LT || opno
        == op::TEXT_LT {
        Some(ComparisonOpClass::Lt)
    } else if opno == op::INT2_LE || opno == op::INT4_LE || opno == op::INT8_LE || opno
        == op::NUMERIC_LE || opno == op::DATE_LE || opno == op::TIMESTAMP_LE || opno
        == op::TIMESTAMPTZ_LE || opno == op::FLOAT4_LE || opno == op::FLOAT8_LE || opno
        == op::TEXT_LE {
        Some(ComparisonOpClass::Le)
    } else if opno == op::INT2_GT || opno == op::INT4_GT || opno == op::INT8_GT || opno
        == op::NUMERIC_GT || opno == op::DATE_GT || opno == op::TIMESTAMP_GT || opno
        == op::TIMESTAMPTZ_GT || opno == op::FLOAT4_GT || opno == op::FLOAT8_GT || opno
        == op::TEXT_GT {
        Some(ComparisonOpClass::Gt)
    } else if opno == op::INT2_GE || opno == op::INT4_GE || opno == op::INT8_GE || opno
        == op::NUMERIC_GE || opno == op::DATE_GE || opno == op::TIMESTAMP_GE || opno
        == op::TIMESTAMPTZ_GE || opno == op::FLOAT4_GE || opno == op::FLOAT8_GE || opno
        == op::TEXT_GE {
        Some(ComparisonOpClass::Ge)
    } else {
        None
    }
}

/// Whether a type is an integer type.
pub open spec fn is_integer_type(type_oid: Oid) -> bool {
    type_oid == INT2OID || type_oid == INT4OID || type_oid == INT8OID
}

/// Whether a type is a date or timestamp type.
pub open spec fn is_temporal_type(type_oid: Oid) -> bool {
    type_oid == DATEOID || type_oid == TIMESTAMPOID || type_oid == TIMESTAMPTZOID
}

/// Whether a type is a floating-point type.
pub open spec fn is_float_type(type_oid: Oid) -> bool {
    type_oid == FLOAT4OID || type_oid == FLOAT8OID
}

/// Whether a type is a text type without blank padding.
pub open spec fn is_text_type(type_oid: Oid) -> bool {
    type_oid == TEXTOID || type_oid == VARCHAROID
}

/// Whether a collation orders strings by their bytes.
pub open spec fn is_byte_order(collation: Oid) -> bool {
    collation == C_COLLATION_OID || collation == POSIX_COLLATION_OID
}

/// Whether strings that are equal under a collation have equal bytes. Of other
/// collations than those by byte order the catalog knows.
pub open spec fn is_deterministic(collation: Oid, catalog_deterministic: bool) -> bool {
    collation != INVALID_OID && (is_byte_order(collation) || catalog_deterministic)
}

/// Pruning for everything but `<>`.
pub open spec fn pruning_for(class: ComparisonOpClass) -> PredicateCapability {
    if class == ComparisonOpClass::NotEq {
        PredicateCapability::Unsupported
    } else {
        PredicateCapability::ConservativePruning
    }
}

/// What a scan can do with a comparison of a column of some type.
pub open spec fn comparison_capability(
    type_oid: Oid,
    op_key: PgComparisonOp,
    catalog_deterministic: bool,
) -> PredicateCapability {
    match class_of(op_key.opno) {
        None => PredicateCapability::Unsupported,
        Some(class) => if is_integer_type(type_oid) {
            if op_key.opcollid == INVALID_OID && op_key.inputcollid == INVALID_OID {
                PredicateCapability::ExactRowFilter
            } else {
                PredicateCapability::Unsupported
            }
        } else if is_temporal_type(type_oid) {
            pruning_for(class)
        } else if type_oid == NUMERICOID && NUMERIC_COMPARISON_PUSHDOWN_ENABLED {
            pruning_for(class)
        } else if is_float_type(type_oid) && FLOAT_PUSHDOWN_ENABLED {
            pruning_for(class)
        } else if is_text_type(type_oid) {
            let admitted = match class {
                ComparisonOpClass::Eq => is_deterministic(op_key.inputcollid, catalog_deterministic),
                ComparisonOpClass::NotEq => false,
                _ => is_byte_order(op_key.inputcollid),
            };
            if admitted {
                PredicateCapability::ConservativePruning
            } else {
                PredicateCapability::Unsupported
            }
        } else {
            PredicateCapability::Unsupported
        },
    }
}

/// Whether a scan can test columns of a type for NULL.
pub open spec fn null_test_supported(type_oid: Oid) -> bool {
    is_integer_type(type_oid) || type_oid == NUMERICOID || is_temporal_type(type_oid) || is_text_type(
        type_oid,
    ) || is_float_type(type_oid)
}

/// The policy.
#[derive(Debug, Clone, Copy, PartialEq, Eq, Structural)]
pub struct PredicatePushdownPolicy;

impl Default for PredicatePushdownPolicy {
    fn default() -> (r: Self)
        ensures
            r == PredicatePushdownPolicy,
    {
        PredicatePushdownPolicy
    }
}

impl PredicatePushdownPolicy {
    /// The policy.
    pub fn new() -> (r: Self)
        ensures
            r == PredicatePushdownPolicy,
    {
        PredicatePushdownPolicy
    }

    /// What an operator means, if it is a known one.
    pub fn op_class(&self, opno: Oid) -> (r: Option<ComparisonOpClass>)
        ensures
            r == class_of(opno),
    {
        if opno == op::INT2_EQ || opno == op::INT4_EQ || opno == op::INT8_EQ || opno
            == op::NUMERIC_EQ || opno == op::DATE_EQ || opno == op::TIMESTAMP_EQ || opno
            == op::TIMESTAMPTZ_EQ || opno == op::FLOAT4_EQ || opno == op::FLOAT8_EQ || opno
            == op::TEXT_EQ {
            return Some(ComparisonOpClass::Eq);
        }
        if opno == op::INT2_NE || opno == op::INT4_NE || opno == op::INT8_NE || opno
            == op::NUMERIC_NE || opno == op::DATE_NE || opno == op::TIMESTAMP_NE || opno
            == op::TIMESTAMPTZ_NE || opno == op::FLOAT4_NE || opno == op::FLOAT8_NE || opno
            == op::TEXT_NE {
            return Some(ComparisonOpClass::NotEq);
        }
        if opno == op::INT2_LT || opno == op::INT4_LT || opno == op::INT8_LT || opno
            == op::NUMERIC_LT || opno == op::DATE_LT || opno == op::TIMESTAMP_LT || opno
            == op::TIMESTAMPTZ_LT || opno == op::FLOAT4_LT || opno == op::FLOAT8_LT || opno
            == op::TEXT_LT {
            return Some(ComparisonOpClass::Lt);
        }
        if opno == op::INT2_LE || opno == op::INT4_LE || opno == op::INT8_LE || opno
            == op::NUMERIC_LE || opno == op::DATE_LE || opno == op::TIMESTAMP_LE || opno
            == op::TIMESTAMPTZ_LE || opno == op::FLOAT4_LE || opno == op::FLOAT8_LE || opno
            == op::TEXT_LE {
            return Some(ComparisonOpClass::Le);
        }
        if opno == op::INT2_GT || opno == op::INT4_GT || opno == op::INT8_GT || opno
            == op::NUMERIC_GT || opno == op::DATE_GT || opno == op::TIMESTAMP_GT || opno
            == op::TIMESTAMPTZ_GT || opno == op::FLOAT4_GT || opno == op::FLOAT8_GT || opno
            == op::TEXT_GT {
            return Some(ComparisonOpClass::Gt);
        }
        if opno == op::INT2_GE || opno == op::INT4_GE || opno == op::INT8_GE || opno
            == op::NUMERIC_GE || opno == op::DATE_GE || opno == op::TIMESTAMP_GE || opno
            == op::TIMESTAMPTZ_GE || opno == op::FLOAT4_GE || opno == op::FLOAT8_GE || opno
            == op::TEXT_GE {
            return Some(ComparisonOpClass::Ge);
        }
        None
    }

    /// What a scan can do with a comparison of a column of type `type_oid`.
    /// `catalog_deterministic` is what the catalog says of the input collation,
    /// and `false` where it says nothing.
    pub fn capability_for(
        &self,
        type_oid: Oid,
        op_key: PgComparisonOp,
        catalog_deterministic: bool,
    ) -> (r: PredicateCapability)
        ensures
            r == comparison_capability(type_oid, op_key, catalog_deterministic),
    {
        let class = match self.op_class(op_key.opno) {
            Some(class) => class,
            None => {
                return PredicateCapability::Unsupported;
            },
        };
        if type_oid == INT2OID || type_oid == INT4OID || type_oid == INT8OID {
            if self.is_collation_free(op_key) {
                PredicateCapability::ExactRowFilter
            } else {
                PredicateCapability::Unsupported
            }
        } else if type_oid == DATEOID || type_oid == TIMESTAMPOID || type_oid == TIMESTAMPTZOID {
            self.conservative_pruning_for_eq_and_ordered(class)
        } else if type_oid == NUMERICOID && NUMERIC_COMPARISON_PUSHDOWN_ENABLED {
            self.conservative_pruning_for_eq_and_ordered(class)
        } else if (type_oid == FLOAT4OID || type_oid == FLOAT8OID) && FLOAT_PUSHDOWN_ENABLED {
            self.conservative_pruning_for_eq_and_ordered(class)
        } else if type_oid == TEXTOID || type_oid == VARCHAROID {
            let admitted = match class {
                ComparisonOpClass::Eq => self.is_deterministic_collation(
                    op_key.inputcollid,
                    catalog_deterministic,
                ),
                ComparisonOpClass::NotEq => false,
                ComparisonOpClass::Lt | ComparisonOpClass::Le | ComparisonOpClass::Gt
                | ComparisonOpClass::Ge => self.is_c_or_posix_collation(op_key.inputcollid),
            };
            if admitted {
                PredicateCapability::ConservativePruning
            } else {
                PredicateCapability::Unsupported
            }
        } else {
            PredicateCapability::Unsupported
        }
    }

    /// Whether a comparison can be built for the table format.
    pub fn can_build(&self, type_oid: Oid, op: PgComparisonOp, catalog_deterministic: bool) -> (r: bool)
        ensures
            r == (comparison_capability(type_oid, op, catalog_deterministic)
                != PredicateCapability::Unsupported),
    {
        !matches!(
            self.capability_for(type_oid, op, catalog_deterministic),
            PredicateCapability::Unsupported
        )
    }

    /// Whether a literal of this type may have no counterpart in the table
    /// format, which planning cannot see.
    pub fn is_value_sensitive_type(&self, type_oid: Oid) -> (r: bool)
        ensures
            r == (type_oid == NUMERICOID || is_temporal_type(type_oid)),
    {
        type_oid == NUMERICOID || type_oid == DATEOID || type_oid == TIMESTAMPOID || type_oid
            == TIMESTAMPTZOID
    }

    /// Whether a collation orders strings by their bytes.
    pub fn is_c_or_posix_collation(&self, oid: Oid) -> (r: bool)
        ensures
            r == is_byte_order(oid),
    {
        oid == C_COLLATION_OID || oid == POSIX_COLLATION_OID
    }

    /// Whether strings that are equal under a collation have equal bytes. An
    /// unknown collation is not taken to be so.
    pub fn is_deterministic_collation(&self, oid: Oid, catalog_deterministic: bool) -> (r: bool)
        ensures
            r == is_deterministic(oid, catalog_deterministic),
    {
        if oid == INVALID_OID {
            return false;
        }
        if self.is_c_or_posix_collation(oid) {
            return true;
        }
        catalog_deterministic
    }

    /// Pruning for everything but `<>`.
    pub fn conservative_pruning_for_eq_and_ordered(&self, class: ComparisonOpClass) -> (r:
        PredicateCapability)
        ensures
            r == pruning_for(class),
    {
        match class {
            ComparisonOpClass::NotEq => PredicateCapability::Unsupported,
            ComparisonOpClass::Eq => PredicateCapability::ConservativePruning,
            _ => if class.is_ordered() {
                PredicateCapability::ConservativePruning
            } else {
                PredicateCapability::Unsupported
            },
        }
    }

    fn is_collation_free(&self, op_key: PgComparisonOp) -> (r: bool)
        ensures
            r == (op_key.opcollid == INVALID_OID && op_key.inputcollid == INVALID_OID),
    {
        op_key.opcollid == INVALID_OID && op_key.inputcollid == INVALID_OID
    }

    /// What a scan can do with a test of a column for NULL.
    pub fn null_test_capability(&self, type_oid: Oid) -> (r: PredicateCapability)
        ensures
            r == if null_test_supported(type_oid) {
                PredicateCapability::ExactRowFilter
            } else {
                PredicateCapability::Unsupported
            },
    {
        if type_oid == INT2OID || type_oid == INT4OID || type_oid == INT8OID || type_oid
            == NUMERICOID || type_oid == DATEOID || type_oid == TIMESTAMPOID || type_oid
            == TIMESTAMPTZOID || type_oid == TEXTOID || type_oid == VARCHAROID || type_oid
            == FLOAT4OID || type_oid == FLOAT8OID {
            PredicateCapability::ExactRowFilter
        } else {
            PredicateCapability::Unsupported
        }
    }
}

// -- Laws ---------------------------------------------------------------------

/// Whether an operator of the server holds of two numbers. The server fixes the
/// identifiers: of `smallint`, `integer`, `bigint`, `numeric`, `date`,
/// `timestamp`, `timestamp with time zone`, `real`, `double precision` and
/// `text`, in this order.
pub open spec fn sql_holds(opno: Oid, a: int, b: int) -> bool {
    ||| seq![94u32, 96, 410, 1752, 1093, 2060, 1320, 620, 670, 98].contains(opno) && a == b
    ||| seq![519u32, 518, 411, 1753, 1094, 2061, 1321, 621, 671, 531].contains(opno) && a != b
    ||| seq![95u32, 97, 412, 1754, 1095, 2062, 1322, 622, 672, 664].contains(opno) && a < b
    ||| seq![522u32, 523, 414, 1755, 1096, 2063, 1323, 624, 673, 665].contains(opno) && a <= b
    ||| seq![520u32, 521, 413, 1756, 1097, 2064, 1324, 623, 674, 666].contains(opno) && a > b
    ||| seq![524u32, 525, 415, 1757, 1098, 2065, 1325, 625, 675, 667].contains(opno) && a >= b
}

/// Whether an operator is a comparison: it holds of some numbers.
pub open spec fn is_comparison(opno: Oid) -> bool {
    sql_holds(opno, 0, 0) || sql_holds(opno, 0, 1) || sql_holds(opno, 1, 0)
}

/// Whether a comparison class holds of two numbers.
pub open spec fn class_holds(class: ComparisonOpClass, a: int, b: int) -> bool {
    match class {
        ComparisonOpClass::Eq => a == b,
        ComparisonOpClass::NotEq => a != b,
        ComparisonOpClass::Lt => a < b,
        ComparisonOpClass::Le => a <= b,
        ComparisonOpClass::Gt => a > b,
        ComparisonOpClass::Ge => a >= b,
    }
}

proof fn lemma_ten(s: Seq<Oid>, opno: Oid)
    requires
        s.len() == 10,
    ensures
        s.contains(opno) <==> opno == s[0] || opno == s[1] || opno == s[2] || opno == s[3] || opno == s[4]
            || opno == s[5] || opno == s[6] || opno == s[7] || opno == s[8] || opno == s[9],
{
    if s.contains(opno) {
        let i = choose|i: int| 0 <= i < s.len() && s[i] == opno;
        assert(i == 0 || i == 1 || i == 2 || i == 3 || i == 4 || i == 5 || i == 6 || i == 7 || i == 8 || i
            == 9);
    }
}

/// The class of an operator holds of numbers exactly when the server's operator
/// does, and every comparison of the server has a class.
pub proof fn classes_mean_what_the_server_means(opno: Oid, a: int, b: int)
    ensures
        class_of(opno) is Some <==> is_comparison(opno),
        class_of(opno) is Some ==> (class_holds(class_of(opno)->Some_0, a, b) <==> sql_holds(opno, a, b)),
        class_of(opno) is None ==> !sql_holds(opno, a, b),
{
    lemma_ten(seq![94u32, 96, 410, 1752, 1093, 2060, 1320, 620, 670, 98], opno);
    lemma_ten(seq![519u32, 518, 411, 1753, 1094, 2061, 1321, 621, 671, 531], opno);
    lemma_ten(seq![95u32, 97, 412, 1754, 1095, 2062, 1322, 622, 672, 664], opno);
    lemma_ten(seq![522u32, 523, 414, 1755, 1096, 2063, 1323, 624, 673, 665], opno);
    lemma_ten(seq![520u32, 521, 413, 1756, 1097, 2064, 1324, 623, 674, 666], opno);
    lemma_ten(seq![524u32, 525, 415, 1757, 1098, 2065, 1325, 625, 675, 667], opno);
}

/// Every comparison of an integer column without a collation is taken over, and
/// filters rows exactly.
pub proof fn integer_comparisons_are_taken_over(
    type_oid: Oid,
    op_key: PgComparisonOp,
    catalog_deterministic: bool,
)
    requires
        type_oid == 20 || type_oid == 21 || type_oid == 23,
        is_comparison(op_key.opno),
        op_key.opcollid == 0,
        op_key.inputcollid == 0,
    ensures
        comparison_capability(type_oid, op_key, catalog_deterministic)
            == PredicateCapability::ExactRowFilter,
{
    classes_mean_what_the_server_means(op_key.opno, 0, 0);
}

/// Files and rows are pruned by order and equality, never by inequality: an
/// operator that holds of different numbers on both sides does not prune.
pub proof fn inequality_does_not_prune(
    type_oid: Oid,
    op_key: PgComparisonOp,
    catalog_deterministic: bool,
)
    requires
        comparison_capability(type_oid, op_key, catalog_deterministic)
            == PredicateCapability::ConservativePruning,
    ensures
        !(sql_holds(op_key.opno, 0, 1) && sql_holds(op_key.opno, 1, 0)),
{
    classes_mean_what_the_server_means(op_key.opno, 0, 1);
    classes_mean_what_the_server_means(op_key.opno, 1, 0);
}

/// Comparisons by order and equality prune for dates and timestamps, whatever
/// the collation, and for text in byte order; equality prunes for text under
/// every deterministic collation.
pub proof fn ordered_comparisons_prune(
    type_oid: Oid,
    op_key: PgComparisonOp,
    catalog_deterministic: bool,
)
    requires
        is_comparison(op_key.opno),
        !(sql_holds(op_key.opno, 0, 1) && sql_holds(op_key.opno, 1, 0)),
    ensures
        type_oid == 1082 || type_oid == 1114 || type_oid == 1184 ==> comparison_capability(
            type_oid,
            op_key,
            catalog_deterministic,
        ) == PredicateCapability::ConservativePruning,
        (type_oid == 25 || type_oid == 1043) && (op_key.inputcollid == 950 || op_key.inputcollid == 951)
            ==> comparison_capability(type_oid, op_key, catalog_deterministic)
            == PredicateCapability::ConservativePruning,
        (type_oid == 25 || type_oid == 1043) && op_key.inputcollid != 0 && catalog_deterministic
            && sql_holds(op_key.opno, 0, 0) && !sql_holds(op_key.opno, 0, 1) && !sql_holds(
            op_key.opno,
            1,
            0,
        ) ==> comparison_capability(type_oid, op_key, catalog_deterministic)
            == PredicateCapability::ConservativePruning,
{
    classes_mean_what_the_server_means(op_key.opno, 0, 0);
    classes_mean_what_the_server_means(op_key.opno, 0, 1);
    classes_mean_what_the_server_means(op_key.opno, 1, 0);
}

/// Comparisons of numeric and floating-point columns, and of every type that
/// is neither an integer, a date, a timestamp nor text, stay with the server.
pub proof fn other_types_stay(type_oid: Oid, op_key: PgComparisonOp, catalog_deterministic: bool)
    requires
        !seq![20u32, 21, 23, 25, 1043, 1082, 1114, 1184].contains(type_oid),
    ensures
        comparison_capability(type_oid, op_key, catalog_deterministic)
            == PredicateCapability::Unsupported,
{
    let known = seq![20u32, 21, 23, 25, 1043, 1082, 1114, 1184];
    assert(known[0] == 20 && known[1] == 21 && known[2] == 23 && known[3] == 25);
    assert(known[4] == 1043 && known[5] == 1082 && known[6] == 1114 && known[7] == 1184);
}

/// A column can be tested for NULL by the scan exactly where its type is one of
/// those whose values the table format keeps as they are.
pub proof fn null_tests_are_taken_over(type_oid: Oid)
    ensures
        null_test_supported(type_oid) <==> seq![
            20u32,
            21,
            23,
            25,
            700,
            701,
            1043,
            1082,
            1114,
            1184,
            1700,
        ].contains(type_oid),
{
    let known = seq![20u32, 21, 23, 25, 700, 701, 1043, 1082, 1114, 1184, 1700];
    assert(known[0] == 20 && known[1] == 21 && known[2] == 23 && known[3] == 25 && known[4] == 700);
    assert(known[5] == 701 && known[6] == 1043 && known[7] == 1082 && known[8] == 1114 && known[9] == 1184);
    assert(known[10] == 1700);
    if known.contains(type_oid) {
        let i = choose|i: int| 0 <= i < known.len() && known[i] == type_oid;
        assert(i == 0 || i == 1 || i == 2 || i == 3 || i == 4 || i == 5 || i == 6 || i == 7 || i == 8 || i == 9
            || i == 10);
    }
}

/// Only integer comparisons without a collation filter rows exactly; for every
/// other comparison the condition is checked again.
pub proof fn only_plain_integer_comparisons_are_exact(
    type_oid: Oid,
    op_key: PgComparisonOp,
    catalog_deterministic: bool,
)
    requires
        comparison_capability(type_oid, op_key, catalog_deterministic)
            == PredicateCapability::ExactRowFilter,
    ensures
        is_integer_type(type_oid),
        op_key.opcollid == INVALID_OID,
        op_key.inputcollid == INVALID_OID,
        class_of(op_key.opno) is Some,
{
}

/// The verdict rests on the operator and its collations alone: what is carried
/// for diagnosis does not change it.
pub proof fn diagnostic_fields_do_not_matter(
    type_oid: Oid,
    op_key: PgComparisonOp,
    opfuncid: Oid,
    opresulttype: Oid,
    catalog_deterministic: bool,
)
    ensures
        comparison_capability(
            type_oid,
            (PgComparisonOp { opfuncid, opresulttype, ..op_key }),
            catalog_deterministic,
        ) == comparison_capability(type_oid, op_key, catalog_deterministic),
{
}

/// An integer comparison that carries a collation is not pushed down.
pub proof fn tagged_integer_comparisons_stay(
    type_oid: Oid,
    op_key: PgComparisonOp,
    catalog_deterministic: bool,
)
    requires
        is_integer_type(type_oid),
        op_key.opcollid != INVALID_OID || op_key.inputcollid != INVALID_OID,
    ensures
        comparison_capability(type_oid, op_key, catalog_deterministic)
            == PredicateCapability::Unsupported,
{
}

/// Strings are never compared for order under a collation that does not order
/// them by bytes, nor for equality under one that is not deterministic or not
/// known.
pub proof fn collations_that_differ_from_bytes_stay(
    type_oid: Oid,
    op_key: PgComparisonOp,
    catalog_deterministic: bool,
)
    requires
        is_text_type(type_oid),
        comparison_capability(type_oid, op_key, catalog_deterministic)
            != PredicateCapability::Unsupported,
    ensures
        op_key.inputcollid != INVALID_OID,
        class_of(op_key.opno) != Some(ComparisonOpClass::NotEq),
        class_of(op_key.opno) != Some(ComparisonOpClass::Eq) ==> is_byte_order(op_key.inputcollid),
        is_byte_order(op_key.inputcollid) || catalog_deterministic,
{
}

/// What the catalog says of a collation is asked for text equality only.
pub proof fn catalog_is_asked_for_text_equality_only(type_oid: Oid, op_key: PgComparisonOp)
    requires
        !is_text_type(type_oid) || class_of(op_key.opno) != Some(ComparisonOpClass::Eq) || is_byte_order(
            op_key.inputcollid,
        ),
    ensures
        comparison_capability(type_oid, op_key, true) == comparison_capability(type_oid, op_key, false),
{
}

} // verus!
