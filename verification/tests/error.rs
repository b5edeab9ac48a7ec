use pg_iceberg_am::customscan::provider::CustomScanError;
use pg_iceberg_am::error::{
    ConvError, DecimalCodecError, IcebergError, IcebergErrorKind, IcebergLiteError, IcebergResult,
    MetadataCatalogOperation, PgError, PgSqlErrorCode, StorageError, StorageErrorKind,
};

fn lite(kind: IcebergErrorKind, message: &str) -> IcebergLiteError {
    IcebergLiteError { kind, message: message.to_owned() }
}

#[test]
fn metadata_catalog_sqlstate_survives_iceberg_error_boundary() {
    let conflict = IcebergError::MetadataCatalogConflict;
    assert_eq!(conflict.sql_error_code(), PgSqlErrorCode::ERRCODE_T_R_SERIALIZATION_FAILURE);

    let not_found = IcebergError::MetadataCatalogNotFound(42);
    assert_eq!(not_found.sql_error_code(), PgSqlErrorCode::ERRCODE_NO_DATA_FOUND);
}

#[test]
fn retry_exhaustion_reports_serialization_failure() {
    let error = IcebergError::MetadataCommitConflict { relid: 42, max_retries: 3 };

    assert_eq!(error.sql_error_code(), PgSqlErrorCode::ERRCODE_T_R_SERIALIZATION_FAILURE);
}

#[test]
fn iceberg_lite_feature_unsupported_reports_feature_not_supported() {
    let error = IcebergError::IcebergLiteError(lite(
        IcebergErrorKind::FeatureUnsupported,
        "catalog method not implemented",
    ));

    assert_eq!(error.sql_error_code(), PgSqlErrorCode::ERRCODE_FEATURE_NOT_SUPPORTED);
}

#[test]
fn iceberg_data_conflict_requires_client_transaction_retry() {
    let source = lite(IcebergErrorKind::DataConflict, "concurrent row delta conflict");
    assert!(!source.retryable());
    let error = IcebergError::IcebergLiteError(source);

    assert_eq!(error.sql_error_code(), PgSqlErrorCode::ERRCODE_T_R_SERIALIZATION_FAILURE);
}

#[test]
fn non_retryable_iceberg_precondition_preserves_prerequisite_state() {
    let error = IcebergError::IcebergLiteError(lite(
        IcebergErrorKind::PreconditionFailed,
        "invalid operation state",
    ));

    assert_eq!(error.sql_error_code(), PgSqlErrorCode::ERRCODE_OBJECT_NOT_IN_PREREQUISITE_STATE);
}

#[test]
fn conv_error_sqlstate_survives_iceberg_error_boundary() {
    let representatives = [
        ConvError::UnsupportedColumnType("Decimal256(76, 10)".into()),
        ConvError::IncompatibleColumnType("FixedSizeBinary(16)".into(), "expected uuid".into()),
        ConvError::ArrowTypeMismatch("Int32Array".into()),
        ConvError::DatumConversionError("value out of range".into()),
        ConvError::NumericError("not a numeric".into()),
        ConvError::DatetimeConversionError("field overflow".into()),
        ConvError::InvalidUtf8("invalid utf-8 sequence of 1 bytes from index 0".into()),
        ConvError::ArrowError("bad schema".into()),
        ConvError::DecimalCodecBug("malformed numeric bytes".into()),
    ];

    for conv in representatives {
        let expected = conv.sql_error_code();
        let wrapped = IcebergError::from(conv);
        assert_eq!(
            wrapped.sql_error_code(),
            expected,
            "IcebergError::ConvError must preserve the inner ConvError SQLSTATE"
        );
    }
}

#[test]
fn conversion_failures_have_three_classes() {
    assert_eq!(
        ConvError::ArrowTypeMismatch("Int32Array".into()).sql_error_code(),
        PgSqlErrorCode::ERRCODE_DATATYPE_MISMATCH
    );
    assert_eq!(
        ConvError::InvalidUtf8("bad".into()).sql_error_code(),
        PgSqlErrorCode::ERRCODE_DATA_EXCEPTION
    );
    assert_eq!(
        ConvError::ArrowError("bad schema".into()).sql_error_code(),
        PgSqlErrorCode::ERRCODE_INTERNAL_ERROR
    );
}

#[test]
fn conv_error_propagates_into_iceberg_error_via_question_mark() {
    fn boundary() -> IcebergResult<()> {
        Err(ConvError::DatumConversionError("value out of range".into()))?;
        Ok(())
    }

    let err = boundary().expect_err("ConvError should propagate as IcebergError");
    assert!(matches!(err, IcebergError::ConvError(_)));
}

#[test]
fn decode_conv_error_propagates_into_iceberg_error_via_question_mark() {
    fn boundary() -> IcebergResult<()> {
        Err(ConvError::ArrowTypeMismatch("expected Int32Array".into()))?;
        Ok(())
    }

    let err = boundary().expect_err("decode ConvError should propagate as IcebergError");
    assert!(matches!(err, IcebergError::ConvError(_)));
}

#[test]
fn conv_uuid_error_sqlstate_survives_iceberg_error_boundary() {
    let conv = ConvError::UuidConversionError("not-a-uuid".into());

    let expected = conv.sql_error_code();
    assert_eq!(expected, PgSqlErrorCode::ERRCODE_DATA_EXCEPTION);
    assert_eq!(IcebergError::from(conv).sql_error_code(), expected);
}

#[test]
fn decimal_codec_error_sqlstate_classes_survive_the_boundary() {
    let cases: [(DecimalCodecError, PgSqlErrorCode); 4] = [
        (
            DecimalCodecError::PrecisionOutOfRange { precision: 40 },
            PgSqlErrorCode::ERRCODE_DATATYPE_MISMATCH,
        ),
        (
            DecimalCodecError::ScaleOutOfRange { precision: 10, scale: 20 },
            PgSqlErrorCode::ERRCODE_DATATYPE_MISMATCH,
        ),
        (
            DecimalCodecError::ValueOutOfRange {
                precision: 10,
                scale: 2,
                message: "value exceeds NUMERIC(10, 2)".into(),
            },
            PgSqlErrorCode::ERRCODE_DATA_EXCEPTION,
        ),
        (
            DecimalCodecError::InvalidBinaryRepresentation {
                message: "numeric_recv rejected wire bytes".into(),
            },
            PgSqlErrorCode::ERRCODE_INTERNAL_ERROR,
        ),
    ];

    for (codec_err, expected_class) in cases {
        let conv: ConvError = codec_err.into();
        let via_conv = IcebergError::from(conv);

        assert_eq!(
            via_conv.sql_error_code(),
            expected_class,
            "DecimalCodecError -> ConvError -> IcebergError must preserve the SQLSTATE class"
        );
    }
}

#[test]
fn iceberg_error_sqlstate_preserved_through_custom_scan_error() {
    let err: CustomScanError = IcebergError::ColumnNotFound("missing_col".into()).into();
    assert_eq!(err.sql_error_code(), PgSqlErrorCode::ERRCODE_UNDEFINED_COLUMN);

    let err: CustomScanError = IcebergError::NotImplemented("scan feature").into();
    assert_eq!(err.sql_error_code(), PgSqlErrorCode::ERRCODE_FEATURE_NOT_SUPPORTED);
}

#[test]
fn server_and_storage_failures_keep_their_code() {
    let source = PgError {
        code: PgSqlErrorCode::ERRCODE_LOCK_NOT_AVAILABLE,
        message: "relation is locked".into(),
    };
    let error = IcebergError::metadata_catalog(MetadataCatalogOperation::Update, source);
    assert_eq!(error.sql_error_code(), PgSqlErrorCode::ERRCODE_LOCK_NOT_AVAILABLE);
    assert_eq!(MetadataCatalogOperation::Update.as_str(), "update");

    for (kind, code) in [
        (StorageErrorKind::InvalidPath, PgSqlErrorCode::ERRCODE_INVALID_PARAMETER_VALUE),
        (StorageErrorKind::NotFound, PgSqlErrorCode::ERRCODE_UNDEFINED_OBJECT),
        (StorageErrorKind::Busy, PgSqlErrorCode::ERRCODE_LOCK_NOT_AVAILABLE),
        (StorageErrorKind::Cache, PgSqlErrorCode::ERRCODE_IO_ERROR),
        (StorageErrorKind::ClosedHandle, PgSqlErrorCode::ERRCODE_INTERNAL_ERROR),
    ] {
        let error = IcebergError::StorageError(StorageError { kind, message: String::new() });
        assert_eq!(error.sql_error_code(), code);
    }
}
