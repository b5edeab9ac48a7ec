use std::collections::HashSet;

use pg_iceberg_am::Oid;
use pg_iceberg_am::customscan::pg_operator_oid as op;
use pg_iceberg_am::customscan::predicate_pushdown_policy::{
    ComparisonOpClass, PgComparisonOp, PredicateCapability, PredicatePushdownPolicy,
};
use pg_iceberg_am::customscan::{FLOAT_PUSHDOWN_ENABLED, NUMERIC_COMPARISON_PUSHDOWN_ENABLED};
use pg_iceberg_am::oids::{
    BOOLOID, BPCHAROID, BYTEAOID, C_COLLATION_OID, DATEOID, DEFAULT_COLLATION_OID, FLOAT4OID,
    FLOAT8OID, INT2OID, INT4OID, INT8OID, INVALID_OID, NUMERICOID, POSIX_COLLATION_OID, TEXTOID,
    TIMESTAMPOID, TIMESTAMPTZOID, VARCHAROID,
};

fn op_class(opno: Oid) -> Option<ComparisonOpClass> {
    PredicatePushdownPolicy::new().op_class(opno)
}

fn supported_predicate(type_oid: Oid, op_key: PgComparisonOp) -> PredicateCapability {
    PredicatePushdownPolicy::new().capability_for(type_oid, op_key, false)
}

fn is_c_or_posix_collation(oid: Oid) -> bool {
    PredicatePushdownPolicy::new().is_c_or_posix_collation(oid)
}

fn triple(opno: u32) -> PgComparisonOp {
    PgComparisonOp {
        opno,
        opfuncid: INVALID_OID,
        opresulttype: INVALID_OID,
        opcollid: INVALID_OID,
        inputcollid: INVALID_OID,
    }
}

fn triple_with_collation(opno: u32, collid: u32) -> PgComparisonOp {
    PgComparisonOp {
        opno,
        opfuncid: INVALID_OID,
        opresulttype: INVALID_OID,
        opcollid: collid,
        inputcollid: collid,
    }
}

/// Per type, the operators in the order `=`, `<>`, `<`, `<=`, `>`, `>=`.
const OPNO_TABLE: &[(Oid, [u32; 6])] = &[
    (INT2OID, [op::INT2_EQ, op::INT2_NE, op::INT2_LT, op::INT2_LE, op::INT2_GT, op::INT2_GE]),
    (INT4OID, [op::INT4_EQ, op::INT4_NE, op::INT4_LT, op::INT4_LE, op::INT4_GT, op::INT4_GE]),
    (INT8OID, [op::INT8_EQ, op::INT8_NE, op::INT8_LT, op::INT8_LE, op::INT8_GT, op::INT8_GE]),
    (
        NUMERICOID,
        [
            op::NUMERIC_EQ,
            op::NUMERIC_NE,
            op::NUMERIC_LT,
            op::NUMERIC_LE,
            op::NUMERIC_GT,
            op::NUMERIC_GE,
        ],
    ),
    (DATEOID, [op::DATE_EQ, op::DATE_NE, op::DATE_LT, op::DATE_LE, op::DATE_GT, op::DATE_GE]),
    (
        TIMESTAMPOID,
        [
            op::TIMESTAMP_EQ,
            op::TIMESTAMP_NE,
            op::TIMESTAMP_LT,
            op::TIMESTAMP_LE,
            op::TIMESTAMP_GT,
            op::TIMESTAMP_GE,
        ],
    ),
    (
        TIMESTAMPTZOID,
        [
            op::TIMESTAMPTZ_EQ,
            op::TIMESTAMPTZ_NE,
            op::TIMESTAMPTZ_LT,
            op::TIMESTAMPTZ_LE,
            op::TIMESTAMPTZ_GT,
            op::TIMESTAMPTZ_GE,
        ],
    ),
    (
        FLOAT4OID,
        [op::FLOAT4_EQ, op::FLOAT4_NE, op::FLOAT4_LT, op::FLOAT4_LE, op::FLOAT4_GT, op::FLOAT4_GE],
    ),
    (
        FLOAT8OID,
        [op::FLOAT8_EQ, op::FLOAT8_NE, op::FLOAT8_LT, op::FLOAT8_LE, op::FLOAT8_GT, op::FLOAT8_GE],
    ),
    (TEXTOID, [op::TEXT_EQ, op::TEXT_NE, op::TEXT_LT, op::TEXT_LE, op::TEXT_GT, op::TEXT_GE]),
];

const CLASS_BY_COLUMN: [ComparisonOpClass; 6] = [
    ComparisonOpClass::Eq,
    ComparisonOpClass::NotEq,
    ComparisonOpClass::Lt,
    ComparisonOpClass::Le,
    ComparisonOpClass::Gt,
    ComparisonOpClass::Ge,
];

#[test]
fn predicate_pushdown_policy_op_class_maps_every_known_opno() {
    for (type_oid, opnos) in OPNO_TABLE {
        for (col, &opno) in opnos.iter().enumerate() {
            assert_eq!(
                op_class(opno),
                Some(CLASS_BY_COLUMN[col]),
                "opno {opno} (type {type_oid}, column {col}) must map to {:?}",
                CLASS_BY_COLUMN[col],
            );
        }
    }
}

#[test]
fn predicate_pushdown_policy_op_class_table_has_no_duplicate_opnos() {
    let mut seen = HashSet::new();
    for (_type_oid, opnos) in OPNO_TABLE {
        for &opno in opnos {
            assert!(seen.insert(opno), "opno {opno} appears twice in the table");
        }
    }
}

#[test]
fn operator_identifiers_are_those_of_the_server() {
    let expected: [[u32; 6]; 10] = [
        [94, 519, 95, 522, 520, 524],
        [96, 518, 97, 523, 521, 525],
        [410, 411, 412, 414, 413, 415],
        [1752, 1753, 1754, 1755, 1756, 1757],
        [1093, 1094, 1095, 1096, 1097, 1098],
        [2060, 2061, 2062, 2063, 2064, 2065],
        [1320, 1321, 1322, 1323, 1324, 1325],
        [620, 621, 622, 624, 623, 625],
        [670, 671, 672, 673, 674, 675],
        [98, 531, 664, 665, 666, 667],
    ];
    for (row, (_, opnos)) in OPNO_TABLE.iter().enumerate() {
        assert_eq!(*opnos, expected[row]);
    }
}

#[test]
fn predicate_pushdown_policy_op_class_rejects_unknown_opnos() {
    assert_eq!(op_class(558), None, "oidvector <> is not mapped");
    assert_eq!(op_class(INVALID_OID), None, "InvalidOid is not mapped");
    assert_eq!(op_class(9_999_999), None, "unused OID is not mapped");
}

#[test]
fn predicate_pushdown_policy_supported_predicate_integers_are_exact_under_zero_collation() {
    for &type_oid in &[INT2OID, INT4OID, INT8OID] {
        let row = OPNO_TABLE
            .iter()
            .find(|(t, _)| *t == type_oid)
            .expect("integer type present in table");
        for &opno in &row.1 {
            assert_eq!(
                supported_predicate(type_oid, triple(opno)),
                PredicateCapability::ExactRowFilter,
                "integer type {type_oid} opno {opno} must be ExactRowFilter under (0,0)",
            );
        }
    }
}

#[test]
fn supported_predicate_integer_single_slot_collation_is_unsupported() {
    let collid: Oid = 50_000;

    let int4eq = triple(op::INT4_EQ);
    let input_only = PgComparisonOp { inputcollid: collid, ..int4eq };
    assert_eq!(
        supported_predicate(INT4OID, input_only),
        PredicateCapability::Unsupported,
        "non-zero inputcollid alone must make int4eq Unsupported",
    );
    let opcoll_only = PgComparisonOp { opcollid: collid, ..int4eq };
    assert_eq!(
        supported_predicate(INT4OID, opcoll_only),
        PredicateCapability::Unsupported,
        "non-zero opcollid alone must make int4eq Unsupported",
    );

    let int8lt = triple(op::INT8_LT);
    let input_only = PgComparisonOp { inputcollid: collid, ..int8lt };
    assert_eq!(supported_predicate(INT8OID, input_only), PredicateCapability::Unsupported);
    let opcoll_only = PgComparisonOp { opcollid: collid, ..int8lt };
    assert_eq!(supported_predicate(INT8OID, opcoll_only), PredicateCapability::Unsupported);
}

#[test]
fn supported_predicate_integer_with_collation_is_unsupported() {
    assert_eq!(
        supported_predicate(INT4OID, triple_with_collation(op::INT4_EQ, 50_000)),
        PredicateCapability::Unsupported,
    );
    assert_eq!(
        supported_predicate(INT8OID, triple_with_collation(op::INT8_LT, 50_000)),
        PredicateCapability::Unsupported,
    );
}

const INTEGER_EXACT_PRESERVATION_SET: &[(Oid, u32)] = &[
    (INT4OID, op::INT4_EQ),
    (INT4OID, op::INT4_NE),
    (INT4OID, op::INT4_LT),
    (INT4OID, op::INT4_LE),
    (INT4OID, op::INT4_GT),
    (INT4OID, op::INT4_GE),
    (INT8OID, op::INT8_EQ),
    (INT8OID, op::INT8_NE),
    (INT8OID, op::INT8_LT),
    (INT8OID, op::INT8_LE),
    (INT8OID, op::INT8_GT),
    (INT8OID, op::INT8_GE),
];

#[test]
fn supported_predicate_integer_exact_preservation_set_is_exact() {
    assert!(!INTEGER_EXACT_PRESERVATION_SET.is_empty());
    for &(type_oid, opno) in INTEGER_EXACT_PRESERVATION_SET {
        assert_eq!(
            supported_predicate(type_oid, triple(opno)),
            PredicateCapability::ExactRowFilter,
            "integer preservation (type {type_oid}, opno {opno}) must stay ExactRowFilter under (0,0)",
        );
    }
}

#[test]
fn integer_comparisons_with_any_collation_are_unsupported() {
    for &(type_oid, opno) in INTEGER_EXACT_PRESERVATION_SET {
        for collid in [1u32, 100, 950, 50_000, u32::MAX] {
            let mut tagged = triple(opno);
            tagged.inputcollid = collid;
            assert_eq!(supported_predicate(type_oid, tagged), PredicateCapability::Unsupported);
            let mut tagged = triple(opno);
            tagged.opcollid = collid;
            assert_eq!(supported_predicate(type_oid, tagged), PredicateCapability::Unsupported);
        }
    }
}

#[test]
fn predicate_pushdown_policy_supported_predicate_ignores_diagnostic_fields() {
    let text_eq_c = PgComparisonOp {
        opno: op::TEXT_EQ,
        opfuncid: INVALID_OID,
        opresulttype: INVALID_OID,
        opcollid: INVALID_OID,
        inputcollid: C_COLLATION_OID,
    };

    let baselines: &[(Oid, PgComparisonOp)] = &[
        (INT4OID, triple(op::INT4_EQ)),
        (INT4OID, triple(op::INT4_LT)),
        (INT4OID, triple_with_collation(op::INT4_EQ, 50_000)),
        (NUMERICOID, triple(op::NUMERIC_EQ)),
        (TEXTOID, text_eq_c),
        (
            TEXTOID,
            PgComparisonOp {
                opno: op::TEXT_NE,
                opfuncid: INVALID_OID,
                opresulttype: INVALID_OID,
                opcollid: INVALID_OID,
                inputcollid: C_COLLATION_OID,
            },
        ),
    ];

    for &(type_oid, baseline) in baselines {
        let expected = supported_predicate(type_oid, baseline);

        let planner_like = PgComparisonOp { opfuncid: 65, opresulttype: BOOLOID, ..baseline };
        assert_eq!(
            supported_predicate(type_oid, planner_like),
            expected,
            "planner-like diagnostic OIDs must not change verdict for type {type_oid} opno {}",
            baseline.opno,
        );

        let arbitrary = PgComparisonOp { opfuncid: 9_999, opresulttype: 9_999, ..baseline };
        assert_eq!(
            supported_predicate(type_oid, arbitrary),
            expected,
            "arbitrary diagnostic OIDs must not change verdict for type {type_oid} opno {}",
            baseline.opno,
        );
    }
}

#[test]
fn predicate_pushdown_policy_supported_predicate_numeric_temporal_float_matrix() {
    let temporal = [DATEOID, TIMESTAMPOID, TIMESTAMPTZOID];
    for &type_oid in &temporal {
        let row =
            OPNO_TABLE.iter().find(|(t, _)| *t == type_oid).expect("type present in table");
        for (col, &opno) in row.1.iter().enumerate() {
            let class = CLASS_BY_COLUMN[col];
            let expected = if class == ComparisonOpClass::NotEq {
                PredicateCapability::Unsupported
            } else {
                PredicateCapability::ConservativePruning
            };
            assert_eq!(
                supported_predicate(type_oid, triple(opno)),
                expected,
                "type {type_oid} class {class:?} (opno {opno}) mismatch",
            );
        }
    }

    let numeric_row =
        OPNO_TABLE.iter().find(|(t, _)| *t == NUMERICOID).expect("numeric present in table");
    for (col, &opno) in numeric_row.1.iter().enumerate() {
        let expected = if NUMERIC_COMPARISON_PUSHDOWN_ENABLED {
            let class = CLASS_BY_COLUMN[col];
            if class == ComparisonOpClass::NotEq {
                PredicateCapability::Unsupported
            } else {
                PredicateCapability::ConservativePruning
            }
        } else {
            PredicateCapability::Unsupported
        };
        assert_eq!(
            supported_predicate(NUMERICOID, triple(opno)),
            expected,
            "numeric opno {opno} mismatch",
        );
    }

    for &type_oid in &[FLOAT4OID, FLOAT8OID] {
        let row =
            OPNO_TABLE.iter().find(|(t, _)| *t == type_oid).expect("type present in table");
        for (col, &opno) in row.1.iter().enumerate() {
            let expected = if FLOAT_PUSHDOWN_ENABLED {
                let class = CLASS_BY_COLUMN[col];
                if class == ComparisonOpClass::NotEq {
                    PredicateCapability::Unsupported
                } else {
                    PredicateCapability::ConservativePruning
                }
            } else {
                PredicateCapability::Unsupported
            };
            assert_eq!(
                supported_predicate(type_oid, triple(opno)),
                expected,
                "float type {type_oid} opno {opno} mismatch",
            );
        }
    }
}

#[test]
fn predicate_pushdown_policy_supported_predicate_only_integers_are_exact() {
    for (type_oid, opnos) in OPNO_TABLE {
        let is_integer = matches!(*type_oid, INT2OID | INT4OID | INT8OID);
        if is_integer {
            continue;
        }
        for &opno in opnos {
            assert_ne!(
                supported_predicate(*type_oid, triple(opno)),
                PredicateCapability::ExactRowFilter,
                "non-integer type {type_oid} opno {opno} must not be ExactRowFilter",
            );
        }
    }
}

#[test]
fn supported_predicate_unknown_type_is_unsupported() {
    assert_eq!(
        supported_predicate(BOOLOID, triple(op::INT4_EQ)),
        PredicateCapability::Unsupported,
    );
    assert_eq!(
        supported_predicate(BYTEAOID, triple(op::INT4_EQ)),
        PredicateCapability::Unsupported,
    );
}

#[test]
fn supported_predicate_unknown_operator_is_unsupported() {
    assert_eq!(
        supported_predicate(INT4OID, triple(558)),
        PredicateCapability::Unsupported,
        "unmapped opno 558 must be Unsupported even for int4",
    );
}

#[test]
fn supported_predicate_text_collation_known_cases() {
    let c = C_COLLATION_OID;
    let posix = POSIX_COLLATION_OID;

    let with = |opno: u32, collid: Oid| PgComparisonOp {
        opno,
        opfuncid: INVALID_OID,
        opresulttype: INVALID_OID,
        opcollid: INVALID_OID,
        inputcollid: collid,
    };

    for &collid in &[c, posix] {
        for &opno in &[op::TEXT_LT, op::TEXT_LE, op::TEXT_GT, op::TEXT_GE] {
            assert_eq!(
                supported_predicate(TEXTOID, with(opno, collid)),
                PredicateCapability::ConservativePruning,
                "ordered text opno {opno} under C/POSIX must be ConservativePruning",
            );
        }
        assert_eq!(
            supported_predicate(TEXTOID, with(op::TEXT_EQ, collid)),
            PredicateCapability::ConservativePruning,
        );
    }

    assert_eq!(
        supported_predicate(TEXTOID, with(op::TEXT_NE, c)),
        PredicateCapability::Unsupported,
    );

    assert_eq!(
        supported_predicate(TEXTOID, with(op::TEXT_EQ, INVALID_OID)),
        PredicateCapability::Unsupported,
    );
    assert_eq!(
        supported_predicate(TEXTOID, with(op::TEXT_LT, INVALID_OID)),
        PredicateCapability::Unsupported,
    );
}

#[test]
fn text_equality_follows_the_catalog() {
    let policy = PredicatePushdownPolicy::new();
    let mut eq = triple(op::TEXT_EQ);
    eq.inputcollid = DEFAULT_COLLATION_OID;
    assert_eq!(
        policy.capability_for(TEXTOID, eq, true),
        PredicateCapability::ConservativePruning
    );
    assert_eq!(policy.capability_for(TEXTOID, eq, false), PredicateCapability::Unsupported);
    let mut lt = triple(op::TEXT_LT);
    lt.inputcollid = DEFAULT_COLLATION_OID;
    assert_eq!(policy.capability_for(VARCHAROID, lt, true), PredicateCapability::Unsupported);
    // An unknown collation is not taken to be deterministic, whatever is said.
    assert_eq!(
        policy.capability_for(TEXTOID, triple(op::TEXT_EQ), true),
        PredicateCapability::Unsupported
    );
    // Padded text never compares by its bytes.
    eq.inputcollid = C_COLLATION_OID;
    assert_eq!(policy.capability_for(BPCHAROID, eq, true), PredicateCapability::Unsupported);
    assert!(policy.can_build(TEXTOID, eq, false));
    assert!(!policy.can_build(BPCHAROID, eq, true));
}

#[test]
fn is_c_or_posix_collation_only_for_c_and_posix() {
    assert!(is_c_or_posix_collation(C_COLLATION_OID));
    assert!(is_c_or_posix_collation(POSIX_COLLATION_OID));
    assert_eq!(C_COLLATION_OID, 950);
    assert_eq!(POSIX_COLLATION_OID, 951);

    assert!(!is_c_or_posix_collation(INVALID_OID));
    assert!(!is_c_or_posix_collation(DEFAULT_COLLATION_OID));
    assert!(!is_c_or_posix_collation(50_000));
}

#[test]
fn null_test_capability_admits_all_supported_types_including_float() {
    let policy = PredicatePushdownPolicy::new();
    let supported = [
        INT2OID,
        INT4OID,
        INT8OID,
        NUMERICOID,
        DATEOID,
        TIMESTAMPOID,
        TIMESTAMPTZOID,
        TEXTOID,
        FLOAT4OID,
        FLOAT8OID,
    ];
    for &type_oid in &supported {
        assert_eq!(
            policy.null_test_capability(type_oid),
            PredicateCapability::ExactRowFilter,
            "null_test_capability must be ExactRowFilter for type {type_oid}",
        );
    }
}

#[test]
fn null_test_capability_float_is_independent_of_comparison_toggle() {
    let policy = PredicatePushdownPolicy::new();
    assert_eq!(policy.null_test_capability(FLOAT4OID), PredicateCapability::ExactRowFilter);
    assert_eq!(policy.null_test_capability(FLOAT8OID), PredicateCapability::ExactRowFilter);
}

#[test]
fn null_test_capability_rejects_unsupported_types() {
    let policy = PredicatePushdownPolicy::new();
    let unsupported = [BOOLOID, BYTEAOID, 9_999_999];
    for &type_oid in &unsupported {
        assert_eq!(
            policy.null_test_capability(type_oid),
            PredicateCapability::Unsupported,
            "null_test_capability must be Unsupported for type {type_oid}",
        );
    }
}

#[test]
fn pruning_leaves_out_inequality() {
    let policy = PredicatePushdownPolicy::new();
    for class in CLASS_BY_COLUMN {
        let expected = if class == ComparisonOpClass::NotEq {
            PredicateCapability::Unsupported
        } else {
            PredicateCapability::ConservativePruning
        };
        assert_eq!(policy.conservative_pruning_for_eq_and_ordered(class), expected);
        assert_eq!(
            class.is_ordered(),
            !matches!(class, ComparisonOpClass::Eq | ComparisonOpClass::NotEq)
        );
    }
    assert!(policy.is_value_sensitive_type(DATEOID));
    assert!(policy.is_value_sensitive_type(NUMERICOID));
    assert!(!policy.is_value_sensitive_type(INT4OID));
}
