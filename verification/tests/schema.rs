use pg_iceberg_am::catalog::schema_builder;
use pg_iceberg_am::catalog::schema_mapping::{
    self, ColumnAttribute, DEFAULT_NUMERIC_PRECISION, DEFAULT_NUMERIC_SCALE, PgColumnType, PgType,
    PrimitiveType, ToIcebergType, Type, numeric_typmod,
};
use pg_iceberg_am::error::IcebergError;
use pg_iceberg_am::oids::{
    BOOLOID, BPCHAROID, BYTEAOID, DATEOID, FLOAT4OID, FLOAT8OID, INT2OID, INT4OID, INT8OID,
    JSONBOID, JSONOID, NAMEOID, NUMERICOID, TEXTOID, TIMEOID, TIMESTAMPOID, TIMESTAMPTZOID, UUIDOID,
    VARCHAROID,
};

#[test]
fn pg_type_constructors_default_typmod_to_minus_one() {
    let t = PgType::from_oid(23);
    assert_eq!(t.type_mod, -1);
}

#[test]
fn numeric_typmod_round_trips_positive_scale() {
    let pg = PgType::new(NUMERICOID, numeric_typmod(10, 2));
    let typmod = pg.numeric_precision_scale().unwrap();
    assert_eq!((typmod.precision, typmod.scale), (10, 2));
}

#[test]
fn numeric_typmod_sign_extends_negative_scale() {
    let pg = PgType::new(NUMERICOID, numeric_typmod(2, -3));
    let typmod = pg.numeric_precision_scale().unwrap();
    assert_eq!((typmod.precision, typmod.scale), (2, -3));
}

#[test]
fn numeric_typmod_is_none_without_modifier() {
    let pg = PgType::new(NUMERICOID, -1);
    assert!(pg.numeric_precision_scale().is_none());
}

#[test]
fn numeric_without_modifier_falls_back_to_default_decimal() {
    let pg = PgType::new(NUMERICOID, -1);
    assert!(matches!(
        pg.decimal_type().unwrap(),
        PrimitiveType::Decimal {
            precision: DEFAULT_NUMERIC_PRECISION,
            scale: DEFAULT_NUMERIC_SCALE,
        }
    ));
}

#[test]
fn numeric_negative_scale_widens_precision_and_zeroes_scale() {
    // numeric(2, -3) -> decimal(5, 0)
    let pg = PgType::new(NUMERICOID, numeric_typmod(2, -3));
    match pg.decimal_type().unwrap() {
        PrimitiveType::Decimal { precision, scale } => {
            assert_eq!((precision, scale), (5, 0));
        }
        other => panic!("expected Decimal, got {other:?}"),
    }
}

#[test]
fn numeric_negative_scale_rejects_overflow_beyond_38() {
    // numeric(20, -20) would need decimal(40, 0), exceeding the 38-digit cap.
    let pg = PgType::new(NUMERICOID, numeric_typmod(20, -20));
    assert!(matches!(pg.decimal_type(), Err(IcebergError::UnsupportedColumnType(_))));
}

#[test]
fn schema_builder_allocates_sequential_ids() {
    let builder = schema_builder::SchemaBuilder::new();
    assert_eq!(builder.next_field_id, 1);
}

#[test]
fn pg_to_iceberg_to_pg_column_type_round_trips() {
    let cases = [
        (BOOLOID, PgColumnType::Bool),
        (INT2OID, PgColumnType::Int4),
        (INT4OID, PgColumnType::Int4),
        (INT8OID, PgColumnType::Int8),
        (FLOAT4OID, PgColumnType::Float4),
        (FLOAT8OID, PgColumnType::Float8),
        (DATEOID, PgColumnType::Date),
        (TIMEOID, PgColumnType::Time),
        (TIMESTAMPOID, PgColumnType::Timestamp),
        (TIMESTAMPTZOID, PgColumnType::Timestamptz),
        (TEXTOID, PgColumnType::Text),
        (VARCHAROID, PgColumnType::Text),
        (BPCHAROID, PgColumnType::Text),
        (JSONOID, PgColumnType::Text),
        (NAMEOID, PgColumnType::Text),
        (BYTEAOID, PgColumnType::Bytea),
        (JSONBOID, PgColumnType::Bytea),
        (UUIDOID, PgColumnType::Uuid),
        (NUMERICOID, PgColumnType::Numeric),
    ];

    for (oid, expected) in cases {
        let iceberg = PgType::from_oid(oid)
            .primitive_type()
            .unwrap_or_else(|e| panic!("PG->Iceberg for {oid:?} failed: {e:?}"));
        assert_eq!(
            iceberg.pg_column_type(),
            Some(expected),
            "PG->Iceberg->PG round-trip mismatch for {oid:?}",
        );
    }
}

#[test]
fn test_pg_type_new() {
    let pg_type = PgType::new(23, 10);
    assert_eq!(pg_type.oid, 23);
    assert_eq!(pg_type.type_mod, 10);
}

#[test]
fn test_pg_type_from_oid() {
    let pg_type = PgType::from_oid(23);
    assert_eq!(pg_type.type_mod, -1);
}

#[test]
fn test_numeric_precision_scale_extraction() {
    // numeric(10, 2)
    let pg_type = PgType::new(NUMERICOID, numeric_typmod(10, 2));

    let typmod = pg_type.numeric_precision_scale().unwrap();
    assert_eq!(typmod.precision, 10);
    assert_eq!(typmod.scale, 2);
}

#[test]
fn test_numeric_precision_scale_sign_extends_negative_scale() {
    // numeric(2, -3)
    let pg_type = PgType::new(NUMERICOID, numeric_typmod(2, -3));

    let typmod = pg_type.numeric_precision_scale().unwrap();
    assert_eq!(typmod.precision, 2);
    assert_eq!(typmod.scale, -3);
}

#[test]
fn test_numeric_precision_scale_none_when_no_typemod() {
    let pg_type = PgType::new(NUMERICOID, -1);
    assert!(pg_type.numeric_precision_scale().is_none());
}

#[test]
fn test_schema_builder_allocates_sequential_ids() {
    let builder = schema_mapping::SchemaBuilder::new();
    assert_eq!(builder.next_field_id, 1);
}

fn column(name: &str, type_oid: u32, element_chain: Vec<u32>) -> ColumnAttribute {
    ColumnAttribute {
        name: name.to_owned(),
        type_oid,
        type_mod: -1,
        element_chain,
        not_null: true,
        dropped: false,
    }
}

#[test]
fn arrays_take_identifiers_after_their_column() {
    // integer[] is type 1007.
    let mut dropped = column("gone", INT4OID, vec![]);
    dropped.dropped = true;
    let columns = vec![
        column("a", INT4OID, vec![]),
        dropped,
        column("b", 1007, vec![INT4OID]),
        column("c", TEXTOID, vec![]),
    ];
    let built = schema_builder::tuple_desc_to_schema(&columns);
    assert!(built.warnings.is_empty());
    let builder = built.result.unwrap();
    let ids: Vec<i32> = builder.fields.iter().map(|field| field.id).collect();
    assert_eq!(ids, vec![1, 2, 4]);
    assert!(matches!(&builder.fields[1].field_type, Type::List(list) if list.element_id == 3));

    let mapped = schema_mapping::tuple_desc_to_schema(&columns).unwrap();
    let ids: Vec<i32> = mapped.fields.iter().map(|field| field.id).collect();
    assert_eq!(ids, vec![1, 2, 4]);
    assert_eq!(mapped.next_field_id, 5);
}

#[test]
fn ambiguous_names_and_unknown_types_are_refused() {
    let refused = schema_builder::tuple_desc_to_schema(&vec![column("a.b", INT4OID, vec![])]);
    assert_eq!(
        refused.result.unwrap_err(),
        IcebergError::SchemaBuildError("Cannot add column with ambiguous name: a.b".to_owned())
    );
    let error = schema_mapping::tuple_desc_to_schema(&vec![column("a", 4, vec![])]).unwrap_err();
    assert!(matches!(error, IcebergError::UnsupportedColumnType(_)));
    assert!(schema_mapping::tuple_desc_to_schema(&vec![column("a.b", INT4OID, vec![])]).is_ok());
}

#[test]
fn unbounded_numerics_are_warned_about() {
    let text = |name: &str| {
        format!(
            "numeric column \"{name}\" has no precision/scale; defaulting to decimal(38, 18). Use numeric(p, s) explicitly to avoid runtime overflow on values wider than 38 digits."
        )
    };
    let built = schema_builder::tuple_desc_to_schema(&vec![column("n", NUMERICOID, vec![])]);
    assert!(built.result.is_ok());
    assert_eq!(built.warnings, vec![text("n")]);

    // Columns before a refused one are warned about all the same.
    let refused = schema_builder::tuple_desc_to_schema(&vec![
        column("n", NUMERICOID, vec![]),
        column("m", NUMERICOID, vec![]),
        column("a.b", NUMERICOID, vec![]),
        column("o", NUMERICOID, vec![]),
    ]);
    assert!(refused.result.is_err());
    assert_eq!(refused.warnings, vec![text("n"), text("m")]);

    let converted = schema_builder::column_type_to_iceberg_type("n", NUMERICOID, -1, &vec![]);
    assert!(converted.result.is_ok());
    assert_eq!(converted.warnings, vec![text("n")]);
}

#[test]
fn types_convert_to_fields() {
    let field = PgType::from_oid(INT8OID)
        .to_iceberg_field(7, "id".to_owned(), true, &vec![])
        .unwrap();
    assert_eq!(field.id, 7);
    assert_eq!(field.name, "id");
    assert!(field.required);
    assert_eq!(field.field_type, Type::Primitive(PrimitiveType::Long));
    let list = PgType::from_oid(1007).to_iceberg_type(&vec![INT4OID]).unwrap();
    assert!(matches!(list, Type::List(l) if l.element_id == 1 && !l.element_required));
    assert_eq!(
        PgType::from_oid(600).to_iceberg_field(1, "p".to_owned(), false, &vec![]).unwrap_err(),
        IcebergError::UnsupportedColumnType("PostgreSQL OID 600".to_owned())
    );
}
