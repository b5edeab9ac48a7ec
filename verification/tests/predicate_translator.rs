use pg_iceberg_am::customscan::predicate_pushdown_policy::{PgComparisonOp, PredicatePushdownPolicy};
use pg_iceberg_am::customscan::predicate_translator::datum_decoder::{
    IcebergDatumDecoder, PG_EPOCH_DAYS_DIFF, PG_EPOCH_MICROS_DIFF, PgDatum, decode_datum,
    pg_epoch_days_to_unix_days, pg_epoch_micros_to_unix_micros,
};
use pg_iceberg_am::customscan::predicate_translator::error::IcebergTranslationError;
use pg_iceberg_am::customscan::predicate_translator::fold::{fold_predicates, mirror_operator};
use pg_iceberg_am::customscan::predicate_translator::predicate::{
    Datum, Predicate, PredicateOperator, Reference,
};
use pg_iceberg_am::customscan::predicate_translator::scalar::{IcebergScalar, ScalarKind};
use pg_iceberg_am::customscan::predicate_translator::{
    ColumnNameLookup, IcebergPredicateTranslator, PgColumnRef, PgLiteral,
};
use pg_iceberg_am::oids::{
    BOOLOID, C_COLLATION_OID, DATEOID, DEFAULT_COLLATION_OID, INT2OID, INT4OID, INT8OID,
    INVALID_OID, NUMERICOID, TEXTOID, TIMESTAMPOID, TIMESTAMPTZOID, VARCHAROID,
};

const INT4_TYPE_OID: u32 = 23;
const INT8_TYPE_OID: u32 = 20;

fn map_comparison_operator(
    op: PgComparisonOp,
) -> Result<PredicateOperator, IcebergTranslationError> {
    IcebergPredicateTranslator::new().map_comparison_operator(op)
}

fn op_triple(opno: u32) -> PgComparisonOp {
    PgComparisonOp {
        opno,
        opfuncid: INVALID_OID,
        opresulttype: INVALID_OID,
        opcollid: INVALID_OID,
        inputcollid: INVALID_OID,
    }
}

fn null_scalar(type_oid: u32) -> IcebergScalar {
    IcebergScalar::Null { type_oid }
}

fn column_scalar(name: &str, type_oid: u32) -> IcebergScalar {
    IcebergScalar::Column { reference: Reference::new(name.to_owned()), atttypid: type_oid }
}

fn equal_to(name: &str, value: i32) -> Predicate {
    Reference::new(name.to_owned()).compared(PredicateOperator::Eq, Datum::Int(value))
}

#[test]
fn predicate_translator_maps_int4_operators() {
    assert_eq!(map_comparison_operator(op_triple(96)).unwrap(), PredicateOperator::Eq);
    assert_eq!(map_comparison_operator(op_triple(518)).unwrap(), PredicateOperator::NotEq);
    assert_eq!(map_comparison_operator(op_triple(97)).unwrap(), PredicateOperator::LessThan);
    assert_eq!(map_comparison_operator(op_triple(523)).unwrap(), PredicateOperator::LessThanOrEq);
    assert_eq!(map_comparison_operator(op_triple(521)).unwrap(), PredicateOperator::GreaterThan);
    assert_eq!(
        map_comparison_operator(op_triple(525)).unwrap(),
        PredicateOperator::GreaterThanOrEq
    );
}

#[test]
fn predicate_translator_maps_int8_operators() {
    for opno in [410u32, 411, 412, 413, 414, 415] {
        assert!(
            map_comparison_operator(op_triple(opno)).is_ok(),
            "int8 opno {opno} must be in the consolidated op_class map",
        );
    }
}

#[test]
fn predicate_translator_maps_delegated_non_integer_operators() {
    assert_eq!(map_comparison_operator(op_triple(1754)).unwrap(), PredicateOperator::LessThan);
    assert_eq!(
        map_comparison_operator(op_triple(1098)).unwrap(),
        PredicateOperator::GreaterThanOrEq
    );
    assert_eq!(map_comparison_operator(op_triple(98)).unwrap(), PredicateOperator::Eq);
    assert_eq!(map_comparison_operator(op_triple(674)).unwrap(), PredicateOperator::GreaterThan);
}

#[test]
fn predicate_translator_rejects_unknown_operator() {
    assert!(matches!(
        map_comparison_operator(op_triple(558)),
        Err(IcebergTranslationError::UnsupportedOperator { .. })
    ));
}

#[test]
fn predicate_translator_map_comparison_operator_is_collation_agnostic() {
    let mut t = op_triple(96);
    t.inputcollid = 100;
    assert_eq!(map_comparison_operator(t).unwrap(), PredicateOperator::Eq);

    let mut t = op_triple(96);
    t.opcollid = 100;
    assert_eq!(map_comparison_operator(t).unwrap(), PredicateOperator::Eq);
}

#[test]
fn predicate_translator_is_null_with_null_scalar_fails_closed() {
    let t = IcebergPredicateTranslator::new();
    assert!(matches!(
        t.is_null(null_scalar(INT4_TYPE_OID)),
        Err(IcebergTranslationError::NullTestOnNonColumn)
    ));
}

#[test]
fn predicate_translator_is_not_null_with_null_scalar_fails_closed() {
    let t = IcebergPredicateTranslator::new();
    assert!(matches!(
        t.is_not_null(null_scalar(INT4_TYPE_OID)),
        Err(IcebergTranslationError::NullTestOnNonColumn)
    ));
}

#[test]
fn mod_maps_int4_operators() {
    assert_eq!(map_comparison_operator(op_triple(96)).unwrap(), PredicateOperator::Eq);
    assert_eq!(map_comparison_operator(op_triple(518)).unwrap(), PredicateOperator::NotEq);
    assert_eq!(map_comparison_operator(op_triple(97)).unwrap(), PredicateOperator::LessThan);
    assert_eq!(map_comparison_operator(op_triple(523)).unwrap(), PredicateOperator::LessThanOrEq);
    assert_eq!(map_comparison_operator(op_triple(521)).unwrap(), PredicateOperator::GreaterThan);
    assert_eq!(
        map_comparison_operator(op_triple(525)).unwrap(),
        PredicateOperator::GreaterThanOrEq
    );
}

#[test]
fn mod_maps_int8_operators() {
    for opno in [410u32, 411, 412, 413, 414, 415] {
        assert!(
            map_comparison_operator(op_triple(opno)).is_ok(),
            "int8 opno {opno} must be in the consolidated op_class map",
        );
    }
}

#[test]
fn mod_maps_delegated_non_integer_operators() {
    assert_eq!(map_comparison_operator(op_triple(1754)).unwrap(), PredicateOperator::LessThan);
    assert_eq!(
        map_comparison_operator(op_triple(1098)).unwrap(),
        PredicateOperator::GreaterThanOrEq
    );
    assert_eq!(map_comparison_operator(op_triple(98)).unwrap(), PredicateOperator::Eq);
    assert_eq!(map_comparison_operator(op_triple(674)).unwrap(), PredicateOperator::GreaterThan);
}

#[test]
fn mod_rejects_unknown_operator() {
    assert!(matches!(
        map_comparison_operator(op_triple(558)),
        Err(IcebergTranslationError::UnsupportedOperator { .. })
    ));
}

#[test]
fn mod_map_comparison_operator_is_collation_agnostic() {
    let mut t = op_triple(96);
    t.inputcollid = 100;
    assert_eq!(map_comparison_operator(t).unwrap(), PredicateOperator::Eq);

    let mut t = op_triple(96);
    t.opcollid = 100;
    assert_eq!(map_comparison_operator(t).unwrap(), PredicateOperator::Eq);
}

#[test]
fn mod_is_null_with_null_scalar_fails_closed() {
    let t = IcebergPredicateTranslator::new();
    assert!(matches!(
        t.is_null(null_scalar(INT4_TYPE_OID)),
        Err(IcebergTranslationError::NullTestOnNonColumn)
    ));
}

#[test]
fn mod_is_not_null_with_null_scalar_fails_closed() {
    let t = IcebergPredicateTranslator::new();
    assert!(matches!(
        t.is_not_null(null_scalar(INT4_TYPE_OID)),
        Err(IcebergTranslationError::NullTestOnNonColumn)
    ));
}

#[test]
fn fold_mirror_operator_is_self_inverse_for_directional_ops() {
    for op in [
        PredicateOperator::LessThan,
        PredicateOperator::LessThanOrEq,
        PredicateOperator::GreaterThan,
        PredicateOperator::GreaterThanOrEq,
    ] {
        assert_eq!(mirror_operator(mirror_operator(op)), op);
    }
}

#[test]
fn fold_mirror_operator_is_identity_for_symmetric_ops() {
    for op in [
        PredicateOperator::Eq,
        PredicateOperator::NotEq,
        PredicateOperator::IsNull,
        PredicateOperator::NotNull,
    ] {
        assert_eq!(mirror_operator(op), op);
    }
}

#[test]
fn fold_mirror_operator_swaps_lt_and_gt() {
    assert_eq!(mirror_operator(PredicateOperator::LessThan), PredicateOperator::GreaterThan);
    assert_eq!(
        mirror_operator(PredicateOperator::LessThanOrEq),
        PredicateOperator::GreaterThanOrEq
    );
}

#[test]
fn fold_fold_predicates_handles_single_child() {
    let only = equal_to("a", 1);
    let folded = fold_predicates(vec![only.clone()], true).unwrap();
    assert_eq!(folded, only);
}

#[test]
fn fold_fold_predicates_chains_and_left_assoc() {
    let a = equal_to("a", 1);
    let b = equal_to("b", 2);
    let c = equal_to("c", 3);
    let folded = fold_predicates(vec![a.clone(), b.clone(), c.clone()], true).unwrap();
    let expected = a.and(b).and(c);
    assert_eq!(folded, expected);
}

#[test]
fn fold_fold_predicates_chains_or() {
    let a = equal_to("a", 1);
    let b = equal_to("b", 2);
    let folded = fold_predicates(vec![a.clone(), b.clone()], false).unwrap();
    let expected = a.or(b);
    assert_eq!(folded, expected);
}

#[test]
fn fold_fold_predicates_rejects_empty_input() {
    assert!(matches!(
        fold_predicates(vec![], true),
        Err(IcebergTranslationError::EmptyBoolExpr),
    ));
}

#[test]
fn predicate_translator_mirror_operator_is_self_inverse_for_directional_ops() {
    for op in [
        PredicateOperator::LessThan,
        PredicateOperator::LessThanOrEq,
        PredicateOperator::GreaterThan,
        PredicateOperator::GreaterThanOrEq,
    ] {
        assert_eq!(mirror_operator(mirror_operator(op)), op);
    }
}

#[test]
fn predicate_translator_mirror_operator_is_identity_for_symmetric_ops() {
    for op in [
        PredicateOperator::Eq,
        PredicateOperator::NotEq,
        PredicateOperator::IsNull,
        PredicateOperator::NotNull,
    ] {
        assert_eq!(mirror_operator(op), op);
    }
}

#[test]
fn predicate_translator_mirror_operator_swaps_lt_and_gt() {
    assert_eq!(mirror_operator(PredicateOperator::LessThan), PredicateOperator::GreaterThan);
    assert_eq!(
        mirror_operator(PredicateOperator::LessThanOrEq),
        PredicateOperator::GreaterThanOrEq
    );
}

#[test]
fn predicate_translator_fold_predicates_handles_single_child() {
    let only = equal_to("a", 1);
    let folded = IcebergPredicateTranslator::new().and(vec![only.clone()]).unwrap();
    assert_eq!(folded, only);
}

#[test]
fn predicate_translator_fold_predicates_chains_and_left_assoc() {
    let a = equal_to("a", 1);
    let b = equal_to("b", 2);
    let c = equal_to("c", 3);
    let folded = IcebergPredicateTranslator::new().and(vec![a.clone(), b.clone(), c.clone()]).unwrap();
    let expected = a.and(b).and(c);
    assert_eq!(folded, expected);
}

#[test]
fn predicate_translator_fold_predicates_chains_or() {
    let a = equal_to("a", 1);
    let b = equal_to("b", 2);
    let folded = IcebergPredicateTranslator::new().or(vec![a.clone(), b.clone()]).unwrap();
    let expected = a.or(b);
    assert_eq!(folded, expected);
}

#[test]
fn predicate_translator_fold_predicates_rejects_empty_input() {
    assert!(matches!(
        IcebergPredicateTranslator::new().and(vec![]),
        Err(IcebergTranslationError::EmptyBoolExpr),
    ));
}

#[test]
fn always_false_composes_through_and_or() {
    let leaves = [
        Predicate::AlwaysTrue,
        Predicate::AlwaysFalse,
        equal_to("a", 1),
        equal_to("a", 1).and(equal_to("b", 2)),
        equal_to("a", 1).or(equal_to("b", 2).and(equal_to("c", 3))),
    ];
    for x in leaves {
        assert_eq!(Predicate::AlwaysFalse.and(x.clone()), Predicate::AlwaysFalse);
        assert_eq!(x.clone().and(Predicate::AlwaysFalse), Predicate::AlwaysFalse);
        assert_eq!(Predicate::AlwaysFalse.or(x.clone()), x.clone());
        assert_eq!(x.clone().or(Predicate::AlwaysFalse), x.clone());
    }
}

#[test]
fn comparisons_with_null_fold_to_always_false() {
    let t = IcebergPredicateTranslator::with_policy(PredicatePushdownPolicy::new());
    for opno in [96, 518, 97, 523, 521, 525, 410, 411, 412, 413, 414, 415] {
        let right = t
            .comparison(
                op_triple(opno),
                column_scalar("id", INT4_TYPE_OID),
                null_scalar(INT4_TYPE_OID),
                false,
            )
            .unwrap();
        assert_eq!(right, Predicate::AlwaysFalse);
        let left = t
            .comparison(
                op_triple(opno),
                null_scalar(INT4_TYPE_OID),
                column_scalar("id", INT4_TYPE_OID),
                false,
            )
            .unwrap();
        assert_eq!(left, Predicate::AlwaysFalse);
    }
    let both = t
        .comparison(op_triple(96), null_scalar(INT4_TYPE_OID), null_scalar(INT8_TYPE_OID), false)
        .unwrap();
    assert_eq!(both, Predicate::AlwaysFalse);
}

#[test]
fn a_literal_on_the_left_mirrors_the_operator() {
    let t = IcebergPredicateTranslator::new();
    // 7 < id is id > 7.
    let got = t
        .comparison(
            op_triple(97),
            IcebergScalar::Datum(Datum::Int(7)),
            column_scalar("id", INT4OID),
            false,
        )
        .unwrap();
    let expected = Reference::new("id".to_owned())
        .compared(PredicateOperator::GreaterThan, Datum::Int(7));
    assert_eq!(got, expected);
    let direct = t
        .comparison(
            op_triple(521),
            column_scalar("id", INT4OID),
            IcebergScalar::Datum(Datum::Int(7)),
            false,
        )
        .unwrap();
    assert_eq!(direct, expected);
}

#[test]
fn comparisons_are_built_only_where_the_policy_admits_them() {
    let t = IcebergPredicateTranslator::new();
    let name = || column_scalar("name", TEXTOID);
    let value = || IcebergScalar::Datum(Datum::Text("x".to_owned()));
    let with = |opno: u32, collid: u32| PgComparisonOp { inputcollid: collid, ..op_triple(opno) };

    assert!(t.comparison(with(98, DEFAULT_COLLATION_OID), name(), value(), true).is_ok());
    for (op, deterministic) in [
        (with(98, DEFAULT_COLLATION_OID), false),
        (with(531, DEFAULT_COLLATION_OID), true),
        (with(664, DEFAULT_COLLATION_OID), true),
    ] {
        assert_eq!(
            t.comparison(op, name(), value(), deterministic).unwrap_err(),
            IcebergTranslationError::UnsupportedType { type_oid: TEXTOID }
        );
    }
    assert!(t.comparison(with(664, C_COLLATION_OID), name(), value(), false).is_ok());
    assert_eq!(
        t.comparison(
            op_triple(1752),
            column_scalar("n", NUMERICOID),
            IcebergScalar::Datum(Datum::Decimal { mantissa: 1, scale: 0 }),
            false,
        )
        .unwrap_err(),
        IcebergTranslationError::UnsupportedType { type_oid: NUMERICOID }
    );
    assert_eq!(
        t.comparison(op_triple(96), name(), name(), false).unwrap_err(),
        IcebergTranslationError::ComparisonShape {
            left: ScalarKind::Column,
            right: ScalarKind::Column,
        }
    );
}

#[test]
fn null_tests_need_a_column_of_a_supported_type() {
    let t = IcebergPredicateTranslator::new();
    assert_eq!(
        t.is_null(column_scalar("id", INT4OID)).unwrap(),
        Reference::new("id".to_owned()).tested(PredicateOperator::IsNull)
    );
    assert_eq!(
        t.is_not_null(column_scalar("id", INT4OID)).unwrap(),
        Reference::new("id".to_owned()).tested(PredicateOperator::NotNull)
    );
    assert_eq!(
        t.is_null(column_scalar("flag", BOOLOID)).unwrap_err(),
        IcebergTranslationError::UnsupportedType { type_oid: BOOLOID }
    );
    assert_eq!(
        t.not(equal_to("a", 1)).unwrap(),
        Predicate::Not(Box::new(equal_to("a", 1)))
    );
}

#[test]
fn column_names_come_from_the_plan_or_the_catalog() {
    let resolve = IcebergPredicateTranslator::resolve_column_name;
    assert_eq!(resolve(Some("a"), 1, -1, ColumnNameLookup::Missing).unwrap(), "a");
    assert_eq!(resolve(None, 1, 2, ColumnNameLookup::Found("b".to_owned())).unwrap(), "b");
    assert_eq!(
        resolve(None, 1, 0, ColumnNameLookup::Found("b".to_owned())).unwrap_err(),
        IcebergTranslationError::SystemOrWholeRowColumn { rel_oid: 1, attno: 0 }
    );
    assert_eq!(
        resolve(None, 1, 2, ColumnNameLookup::Missing).unwrap_err(),
        IcebergTranslationError::ColumnLookupFailed { rel_oid: 1, attno: 2 }
    );
    assert_eq!(
        resolve(None, 1, 2, ColumnNameLookup::NotUtf8("bad byte".to_owned())).unwrap_err(),
        IcebergTranslationError::ColumnNameNotUtf8 {
            rel_oid: 1,
            attno: 2,
            cause: "bad byte".to_owned(),
        }
    );
    let t = IcebergPredicateTranslator::new();
    let column = PgColumnRef { name: None, rel_oid: 1, attno: 2, atttypid: INT4OID };
    assert!(matches!(
        t.column(column, ColumnNameLookup::Found("b".to_owned())),
        Ok(IcebergScalar::Column { reference, atttypid: INT4OID }) if reference.name == "b"
    ));
}

fn literal(type_oid: u32, is_null: bool, datum: PgDatum) -> PgLiteral {
    PgLiteral { type_oid, is_null, datum }
}

#[test]
fn null_literals_and_parameters_keep_their_type() {
    let t = IcebergPredicateTranslator::new();
    assert!(matches!(
        t.literal(&literal(INT4OID, true, PgDatum::Other)),
        Ok(IcebergScalar::Null { type_oid: INT4OID })
    ));
    assert!(matches!(
        t.param_value(&literal(INT8OID, true, PgDatum::Other)),
        Ok(IcebergScalar::Null { type_oid: INT8OID })
    ));
    assert!(matches!(
        t.param_value(&literal(INT8OID, false, PgDatum::Int8(5))),
        Ok(IcebergScalar::Datum(Datum::Long(5)))
    ));
}

#[test]
fn values_decode_by_their_type() {
    assert_eq!(decode_datum(INT2OID, &PgDatum::Int2(-3)).unwrap(), Datum::Int(-3));
    assert_eq!(decode_datum(INT4OID, &PgDatum::Int4(4)).unwrap(), Datum::Int(4));
    assert_eq!(decode_datum(INT8OID, &PgDatum::Int8(8)).unwrap(), Datum::Long(8));
    assert_eq!(
        decode_datum(TEXTOID, &PgDatum::Text("hello".to_owned())).unwrap(),
        Datum::Text("hello".to_owned())
    );
    assert_eq!(
        decode_datum(VARCHAROID, &PgDatum::Text("world".to_owned())).unwrap(),
        Datum::Text("world".to_owned())
    );
    assert_eq!(
        decode_datum(BOOLOID, &PgDatum::Other).unwrap_err(),
        IcebergTranslationError::UnsupportedType { type_oid: BOOLOID }
    );
    assert_eq!(
        decode_datum(INT4OID, &PgDatum::Text("4".to_owned())).unwrap_err(),
        IcebergTranslationError::DatumDecode { type_oid: INT4OID }
    );
}

#[test]
fn times_decode_with_the_epoch_offset() {
    assert_eq!(decode_datum(DATEOID, &PgDatum::Date(-PG_EPOCH_DAYS_DIFF)).unwrap(), Datum::Date(0));
    assert_eq!(decode_datum(DATEOID, &PgDatum::Date(0)).unwrap(), Datum::Date(10_957));
    assert_eq!(
        decode_datum(TIMESTAMPOID, &PgDatum::Timestamp(-PG_EPOCH_MICROS_DIFF)).unwrap(),
        Datum::TimestampMicros(0)
    );
    assert_eq!(
        decode_datum(TIMESTAMPTZOID, &PgDatum::TimestampTz(1)).unwrap(),
        Datum::TimestamptzMicros(946_684_800_000_001)
    );
    assert_eq!(pg_epoch_days_to_unix_days(i32::MAX), None);
    assert_eq!(pg_epoch_micros_to_unix_micros(i64::MAX), None);
    for raw in [i32::MAX, i32::MIN, i32::MAX - 1] {
        assert_eq!(
            decode_datum(DATEOID, &PgDatum::Date(raw)).unwrap_err(),
            IcebergTranslationError::ValueNotRepresentable { type_oid: DATEOID }
        );
    }
    for raw in [i64::MAX, i64::MIN, i64::MAX - 1] {
        assert_eq!(
            decode_datum(TIMESTAMPOID, &PgDatum::Timestamp(raw)).unwrap_err(),
            IcebergTranslationError::ValueNotRepresentable { type_oid: TIMESTAMPOID }
        );
        assert_eq!(
            decode_datum(TIMESTAMPTZOID, &PgDatum::TimestampTz(raw)).unwrap_err(),
            IcebergTranslationError::ValueNotRepresentable { type_oid: TIMESTAMPTZOID }
        );
    }
}

fn numeric(normalized: &str) -> PgDatum {
    PgDatum::Numeric { nan: false, normalized: normalized.to_owned() }
}

#[test]
fn numerics_decode_to_mantissa_and_scale() {
    assert_eq!(
        decode_datum(NUMERICOID, &numeric("-123.45")).unwrap(),
        Datum::Decimal { mantissa: -12345, scale: 2 }
    );
    assert_eq!(
        decode_datum(NUMERICOID, &numeric("7")).unwrap(),
        Datum::Decimal { mantissa: 7, scale: 0 }
    );
    let unrepresentable = IcebergTranslationError::ValueNotRepresentable { type_oid: NUMERICOID };
    for text in ["Infinity", "-Infinity", "", "1e400", "99999999999999999999999999999999"] {
        assert_eq!(decode_datum(NUMERICOID, &numeric(text)).unwrap_err(), unrepresentable);
    }
    let nan = PgDatum::Numeric { nan: true, normalized: "NaN".to_owned() };
    assert_eq!(decode_datum(NUMERICOID, &nan).unwrap_err(), unrepresentable);
    assert_eq!(
        IcebergDatumDecoder::decode_parsed(NUMERICOID, &numeric("?"), Some((5, 1))).unwrap(),
        Datum::Decimal { mantissa: 5, scale: 1 }
    );
    assert_eq!(
        IcebergDatumDecoder::decode_parsed(NUMERICOID, &numeric("5"), None).unwrap_err(),
        unrepresentable
    );
}

#[test]
fn errors_say_what_is_wrong() {
    let error = IcebergTranslationError::ComparisonShape {
        left: ScalarKind::Datum,
        right: ScalarKind::Datum,
    };
    assert_eq!(
        error.message(),
        "iceberg-am translator: comparison expects column op literal/param; got left=Datum, right=Datum"
    );
    let error = IcebergTranslationError::SystemOrWholeRowColumn { rel_oid: 16384, attno: -2 };
    assert_eq!(
        error.message(),
        "iceberg-am translator: refusing to translate system / whole-row column (rel_oid=16384, attno=-2)"
    );
    let error =
        IcebergTranslationError::UnsupportedOperator { opno: 558, opcollid: 0, inputcollid: 100 };
    assert_eq!(
        error.message(),
        "iceberg-am translator: unsupported operator triple (opno=558, opcollid=0, inputcollid=100)"
    );
    assert_eq!(
        IcebergTranslationError::EmptyBoolExpr.message(),
        "iceberg-am translator: AND/OR called with an empty children list"
    );
}
