use std::collections::HashSet;

use pg_iceberg_am::Oid;
use pg_iceberg_am::customscan::pg_operator_oid as op;
use pg_iceberg_am::customscan::predicate_pushdown_policy::{ComparisonOpClass, PgComparisonOp};
use pg_iceberg_am::engine::predicate::policy::{
    CollationSemantics, PredicatePushdownPolicy, SupportedPredicateCapability, identity,
};
use pg_iceberg_am::oids::{
    BOOLOID, BYTEAOID, DATEOID, FLOAT4OID, FLOAT8OID, INT2OID, INT4OID, INT8OID, INVALID_OID,
    NUMERICOID, TEXTOID, TIMESTAMPOID, TIMESTAMPTZOID, VARCHAROID,
};

const INT4: [u32; 6] =
    [op::INT4_EQ, op::INT4_NE, op::INT4_LT, op::INT4_LE, op::INT4_GT, op::INT4_GE];
const INT8: [u32; 6] =
    [op::INT8_EQ, op::INT8_NE, op::INT8_LT, op::INT8_LE, op::INT8_GT, op::INT8_GE];
const TEXT: [u32; 6] =
    [op::TEXT_EQ, op::TEXT_NE, op::TEXT_LT, op::TEXT_LE, op::TEXT_GT, op::TEXT_GE];

const CLASS_BY_COLUMN: [ComparisonOpClass; 6] = [
    ComparisonOpClass::Eq,
    ComparisonOpClass::NotEq,
    ComparisonOpClass::Lt,
    ComparisonOpClass::Le,
    ComparisonOpClass::Gt,
    ComparisonOpClass::Ge,
];

fn opno_table() -> [(Oid, [u32; 6]); 7] {
    [
        (
            INT2OID,
            [op::INT2_EQ, op::INT2_NE, op::INT2_LT, op::INT2_LE, op::INT2_GT, op::INT2_GE],
        ),
        (INT4OID, INT4),
        (INT8OID, INT8),
        (
            DATEOID,
            [op::DATE_EQ, op::DATE_NE, op::DATE_LT, op::DATE_LE, op::DATE_GT, op::DATE_GE],
        ),
        (
            TIMESTAMPOID,
            [
                op::TIMESTAMP_EQ,
                op::TIMESTAMP_NE,
                op::TIMESTAMP_LT,
                op::TIMESTAMP_LE,
                op::TIMESTAMP_GT,
                op::TIMESTAMP_GE,
            ],
        ),
        (
            TIMESTAMPTZOID,
            [
                op::TIMESTAMPTZ_EQ,
                op::TIMESTAMPTZ_NE,
                op::TIMESTAMPTZ_LT,
                op::TIMESTAMPTZ_LE,
                op::TIMESTAMPTZ_GT,
                op::TIMESTAMPTZ_GE,
            ],
        ),
        (TEXTOID, TEXT),
    ]
}

fn op_class(opno: Oid) -> Option<ComparisonOpClass> {
    PredicatePushdownPolicy::op_class(opno)
}

fn triple(opno: u32) -> PgComparisonOp {
    PgComparisonOp {
        opno,
        opfuncid: INVALID_OID,
        opresulttype: INVALID_OID,
        opcollid: INVALID_OID,
        inputcollid: INVALID_OID,
    }
}

fn capability(
    type_oid: Oid,
    op: PgComparisonOp,
    collation: CollationSemantics,
) -> Option<SupportedPredicateCapability> {
    let class = PredicatePushdownPolicy::op_class(op.opno)?;
    PredicatePushdownPolicy::capability_for_class(type_oid, identity(op), collation, class)
}

#[test]
fn test_op_class_maps_every_known_opno() {
    for (type_oid, opnos) in opno_table() {
        for (column, &opno) in opnos.iter().enumerate() {
            assert_eq!(
                op_class(opno),
                Some(CLASS_BY_COLUMN[column]),
                "opno {opno} (type {type_oid}, column {column}) must map to {:?}",
                CLASS_BY_COLUMN[column],
            );
        }
    }
}

#[test]
fn test_op_class_table_has_no_duplicate_opnos() {
    let mut seen = HashSet::new();
    for (_, opnos) in opno_table() {
        for opno in opnos {
            assert!(seen.insert(opno), "opno {opno} appears twice in the table");
        }
    }
}

#[test]
fn test_op_class_rejects_unknown_opnos() {
    assert_eq!(op_class(558), None, "oidvector <> is not mapped");
    assert_eq!(op_class(INVALID_OID), None, "InvalidOid is not mapped");
    assert_eq!(op_class(9_999_999), None, "unused OID is not mapped");
}

#[test]
fn test_supported_predicate_integers_are_exact_under_zero_collation() {
    for (type_oid, opnos) in opno_table().into_iter().take(3) {
        for opno in opnos {
            assert_eq!(
                capability(type_oid, triple(opno), CollationSemantics::Absent),
                Some(SupportedPredicateCapability::Exact),
                "integer type {type_oid} opno {opno} must be exact",
            );
        }
    }
}

#[test]
fn integers_with_a_collation_are_not_supported() {
    for (type_oid, opnos) in [(INT4OID, INT4), (INT8OID, INT8)] {
        for opno in opnos {
            for collid in [1u32, 100, u32::MAX] {
                let mut tagged = triple(opno);
                tagged.inputcollid = collid;
                assert_eq!(capability(type_oid, tagged, CollationSemantics::Deterministic), None);
                let mut tagged = triple(opno);
                tagged.opcollid = collid;
                assert_eq!(capability(type_oid, tagged, CollationSemantics::Deterministic), None);
            }
        }
    }
}

#[test]
fn test_supported_predicate_ignores_diagnostic_fields() {
    let mut tagged_integer = triple(INT4[0]);
    tagged_integer.opcollid = 50_000;
    let cases = [
        (INT4OID, triple(INT4[0]), CollationSemantics::Absent),
        (INT4OID, triple(INT4[2]), CollationSemantics::Absent),
        (INT4OID, tagged_integer, CollationSemantics::Absent),
        (NUMERICOID, triple(1752), CollationSemantics::Absent),
        (TEXTOID, triple(TEXT[0]), CollationSemantics::COrPosix),
        (TEXTOID, triple(TEXT[1]), CollationSemantics::COrPosix),
    ];

    for (type_oid, baseline, collation) in cases {
        let expected = capability(type_oid, baseline, collation);
        for (opfuncid, opresulttype) in [(65, BOOLOID), (9_999, 9_999)] {
            assert_eq!(
                capability(
                    type_oid,
                    PgComparisonOp { opfuncid, opresulttype, ..baseline },
                    collation,
                ),
                expected,
            );
        }
    }
}

#[test]
fn test_supported_predicate_numeric_temporal_float_matrix() {
    for (type_oid, opnos) in opno_table().into_iter().skip(3).take(3) {
        for (column, opno) in opnos.into_iter().enumerate() {
            let expected = if CLASS_BY_COLUMN[column] == ComparisonOpClass::NotEq {
                None
            } else {
                Some(SupportedPredicateCapability::Conservative)
            };
            assert_eq!(capability(type_oid, triple(opno), CollationSemantics::Absent), expected);
        }
    }

    for opno in [1752, 1753, 1754, 1755, 1756, 1757] {
        assert_eq!(capability(NUMERICOID, triple(opno), CollationSemantics::Absent), None);
    }
    for (type_oid, opnos) in [
        (FLOAT4OID, [620, 621, 622, 624, 623, 625]),
        (FLOAT8OID, [670, 671, 672, 673, 674, 675]),
    ] {
        for opno in opnos {
            assert_eq!(capability(type_oid, triple(opno), CollationSemantics::Absent), None);
        }
    }
}

#[test]
fn test_supported_predicate_only_integers_are_exact() {
    for (type_oid, opnos) in opno_table().into_iter().skip(3) {
        let collation = if type_oid == TEXTOID {
            CollationSemantics::COrPosix
        } else {
            CollationSemantics::Absent
        };
        for opno in opnos {
            assert_ne!(
                capability(type_oid, triple(opno), collation),
                Some(SupportedPredicateCapability::Exact),
            );
        }
    }
}

#[test]
fn supported_predicate_unknown_inputs_are_unsupported() {
    for type_oid in [BOOLOID, BYTEAOID] {
        assert_eq!(capability(type_oid, triple(INT4[0]), CollationSemantics::Absent), None);
    }
    assert_eq!(capability(INT4OID, triple(558), CollationSemantics::Absent), None);
}

#[test]
fn text_capability_depends_only_on_resolved_collation_semantics() {
    for type_oid in [TEXTOID, VARCHAROID] {
        for semantics in [CollationSemantics::COrPosix, CollationSemantics::Deterministic] {
            assert_eq!(
                capability(type_oid, triple(TEXT[0]), semantics),
                Some(SupportedPredicateCapability::Conservative),
            );
        }
        for semantics in [CollationSemantics::Absent, CollationSemantics::NonDeterministic] {
            assert_eq!(capability(type_oid, triple(TEXT[0]), semantics), None);
        }
        for opno in TEXT[2..].iter().copied() {
            assert_eq!(
                capability(type_oid, triple(opno), CollationSemantics::COrPosix),
                Some(SupportedPredicateCapability::Conservative),
            );
            assert_eq!(
                capability(type_oid, triple(opno), CollationSemantics::Deterministic),
                None,
            );
        }
        assert_eq!(capability(type_oid, triple(TEXT[1]), CollationSemantics::COrPosix), None);
    }
}

#[test]
fn null_tests_admit_supported_types_including_float() {
    for type_oid in [
        INT2OID,
        INT4OID,
        INT8OID,
        NUMERICOID,
        DATEOID,
        TIMESTAMPOID,
        TIMESTAMPTZOID,
        TEXTOID,
        VARCHAROID,
        FLOAT4OID,
        FLOAT8OID,
    ] {
        assert!(
            PredicatePushdownPolicy::supports_null_test(type_oid),
            "null tests must be supported for type {type_oid}",
        );
    }
}

#[test]
fn null_tests_reject_unsupported_types() {
    for type_oid in [BOOLOID, BYTEAOID, 9_999_999] {
        assert!(
            !PredicatePushdownPolicy::supports_null_test(type_oid),
            "null tests must be unsupported for type {type_oid}",
        );
    }
}
