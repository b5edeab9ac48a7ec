//! Which conditions can be pushed down, once collations are resolved.

use vstd::prelude::*;

use crate::Oid;
use crate::customscan::predicate_pushdown_policy::{
    ComparisonOpClass, PgComparisonOp, PredicateCapability, class_of, comparison_capability,
    is_byte_order, is_integer_type, is_temporal_type, is_text_type,
    null_test_supported,
};
use crate::oids::{
    DATEOID, FLOAT4OID, FLOAT8OID, INT2OID, INT4OID, INT8OID, INVALID_OID, NUMERICOID, TEXTOID,
    TIMESTAMPOID, TIMESTAMPTZOID, VARCHAROID,
};

verus! {

/// What is known of the collation of a comparison.
#[derive(Debug, Clone, Copy, PartialEq, Eq, Structural)]
pub enum CollationSemantics {
    /// There is none, or it is not known.
    Absent,
    /// Strings are ordered by their bytes.
    COrPosix,
    /// Equal strings have equal bytes.
    Deterministic,
    /// Strings of different bytes may be equal.
    NonDeterministic,
}

/// What a scan can do with a comparison that it supports.
#[derive(Debug, Clone, Copy, PartialEq, Eq, Structural)]
pub enum SupportedPredicateCapability {
    Exact,
    Conservative,
}

/// What identifies a comparison.
#[derive(Debug, Clone, Copy, PartialEq, Eq, Structural)]
pub struct ComparisonIdentity {
    pub opno: Oid,
    pub opcollid: Oid,
    pub inputcollid: Oid,
}

/// The identity of a comparison.
pub open spec fn identity_of(op: PgComparisonOp) -> ComparisonIdentity {
    ComparisonIdentity { opno: op.opno, opcollid: op.opcollid, inputcollid: op.inputcollid }
}

/// The identity of a comparison.
pub fn identity(op: PgComparisonOp) -> (r: ComparisonIdentity)
    ensures
        r == identity_of(op),
{
    ComparisonIdentity { opno: op.opno, opcollid: op.opcollid, inputcollid: op.inputcollid }
}

/// What a scan can do with a comparison of a column of some type.
pub open spec fn supported(
    type_oid: Oid,
    identity: ComparisonIdentity,
    collation: CollationSemantics,
    class: ComparisonOpClass,
) -> Option<SupportedPredicateCapability> {
    if is_integer_type(type_oid) {
        if identity.opcollid == INVALID_OID && identity.inputcollid == INVALID_OID {
            Some(SupportedPredicateCapability::Exact)
        } else {
            None
        }
    } else if class == ComparisonOpClass::NotEq {
        None
    } else if is_temporal_type(type_oid) {
        Some(SupportedPredicateCapability::Conservative)
    } else if is_text_type(type_oid) && (collation == CollationSemantics::COrPosix || (class
        == ComparisonOpClass::Eq && collation == CollationSemantics::Deterministic)) {
        Some(SupportedPredicateCapability::Conservative)
    } else {
        None
    }
}

/// The policy.
#[derive(Debug, Clone, Copy, PartialEq, Eq, Structural)]
pub struct PredicatePushdownPolicy;

impl PredicatePushdownPolicy {
    /// What an operator means, if it is a known one.
    pub fn op_class(opno: Oid) -> (r: Option<ComparisonOpClass>)
        ensures
            r == class_of(opno),
    {
        crate::customscan::predicate_pushdown_policy::PredicatePushdownPolicy::new().op_class(opno)
    }

    /// What a scan can do with a comparison of a column of type `type_oid`.
    pub fn capability_for_class(
        type_oid: Oid,
        identity: ComparisonIdentity,
        collation: CollationSemantics,
        class: ComparisonOpClass,
    ) -> (r: Option<SupportedPredicateCapability>)
        ensures
            r == supported(type_oid, identity, collation, class),
    {
        if type_oid == INT2OID || type_oid == INT4OID || type_oid == INT8OID {
            if identity.opcollid == INVALID_OID && identity.inputcollid == INVALID_OID {
                return Some(SupportedPredicateCapability::Exact);
            }
            return None;
        }
        if class == ComparisonOpClass::NotEq {
            return None;
        }
        if type_oid == DATEOID || type_oid == TIMESTAMPOID || type_oid == TIMESTAMPTZOID {
            return Some(SupportedPredicateCapability::Conservative);
        }
        if (type_oid == TEXTOID || type_oid == VARCHAROID) && (collation
            == CollationSemantics::COrPosix || (class == ComparisonOpClass::Eq && collation
            == CollationSemantics::Deterministic)) {
            return Some(SupportedPredicateCapability::Conservative);
        }
        None
    }

    /// Whether a scan can test columns of a type for NULL.
    pub fn supports_null_test(type_oid: Oid) -> (r: bool)
        ensures
            r == null_test_supported(type_oid),
    {
        type_oid == INT2OID || type_oid == INT4OID || type_oid == INT8OID || type_oid == NUMERICOID
            || type_oid == DATEOID || type_oid == TIMESTAMPOID || type_oid == TIMESTAMPTZOID
            || type_oid == TEXTOID || type_oid == VARCHAROID || type_oid == FLOAT4OID || type_oid
            == FLOAT8OID
    }
}

/// What is known of a collation, given what the catalog says of it.
pub open spec fn resolved(collation: Oid, catalog_deterministic: bool) -> CollationSemantics {
    if collation == INVALID_OID {
        CollationSemantics::Absent
    } else if is_byte_order(collation) {
        CollationSemantics::COrPosix
    } else if catalog_deterministic {
        CollationSemantics::Deterministic
    } else {
        CollationSemantics::NonDeterministic
    }
}

/// The policy of scans and this one agree on every comparison, once its
/// collation is resolved.
pub proof fn policies_agree(type_oid: Oid, op: PgComparisonOp, catalog_deterministic: bool)
    requires
        class_of(op.opno) is Some,
    ensures
        comparison_capability(type_oid, op, catalog_deterministic) == match supported(
            type_oid,
            identity_of(op),
            resolved(op.inputcollid, catalog_deterministic),
            class_of(op.opno)->Some_0,
        ) {
            Some(SupportedPredicateCapability::Exact) => PredicateCapability::ExactRowFilter,
            Some(SupportedPredicateCapability::Conservative) => PredicateCapability::ConservativePruning,
            None => PredicateCapability::Unsupported,
        },
{
}

} // verus!
