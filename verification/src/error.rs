//! Errors of the access method and the SQLSTATE each one reports.

use vstd::prelude::*;

use crate::Oid;

verus! {

/// SQLSTATE classes that the access method reports.
#[allow(non_camel_case_types)]
#[derive(Debug, Clone, Copy, PartialEq, Eq, Structural)]
pub enum PgSqlErrorCode {
    ERRCODE_NO_DATA_FOUND,
    ERRCODE_UNIQUE_VIOLATION,
    ERRCODE_T_R_SERIALIZATION_FAILURE,
    ERRCODE_INTERNAL_ERROR,
    ERRCODE_INVALID_PARAMETER_VALUE,
    ERRCODE_PROGRAM_LIMIT_EXCEEDED,
    ERRCODE_UNDEFINED_OBJECT,
    ERRCODE_INVALID_OBJECT_DEFINITION,
    ERRCODE_UNDEFINED_COLUMN,
    ERRCODE_NOT_NULL_VIOLATION,
    ERRCODE_DATATYPE_MISMATCH,
    ERRCODE_DATA_EXCEPTION,
    ERRCODE_FEATURE_NOT_SUPPORTED,
    ERRCODE_LOCK_NOT_AVAILABLE,
    ERRCODE_CONFIGURATION_LIMIT_EXCEEDED,
    ERRCODE_IO_ERROR,
    ERRCODE_DATA_CORRUPTED,
    ERRCODE_UNDEFINED_TABLE,
    ERRCODE_DUPLICATE_TABLE,
    ERRCODE_INVALID_SCHEMA_NAME,
    ERRCODE_DUPLICATE_SCHEMA,
    ERRCODE_OBJECT_NOT_IN_PREREQUISITE_STATE,
}

/// Operation on a metadata catalog that failed.
#[derive(Debug, Clone, Copy, PartialEq, Eq, Structural)]
pub enum MetadataCatalogOperation {
    Access,
    Insert,
    Read,
    Update,
    Delete,
}

impl MetadataCatalogOperation {
    /// The verb that names the operation in an error message.
    pub open spec fn word(self) -> Seq<char> {
        match self {
            MetadataCatalogOperation::Access => "access"@,
            MetadataCatalogOperation::Insert => "insert"@,
            MetadataCatalogOperation::Read => "read"@,
            MetadataCatalogOperation::Update => "update"@,
            MetadataCatalogOperation::Delete => "delete"@,
        }
    }

    /// Renders the operation as the verb that names it.
    pub fn as_str(&self) -> (r: &'static str)
        ensures
            r@ == self.word(),
    {
        match self {
            MetadataCatalogOperation::Access => "access",
            MetadataCatalogOperation::Insert => "insert",
            MetadataCatalogOperation::Read => "read",
            MetadataCatalogOperation::Update => "update",
            MetadataCatalogOperation::Delete => "delete",
        }
    }
}

/// A failure of the server, its tablespaces or its options: the SQLSTATE it
/// came with and its text.
#[derive(Debug, PartialEq, Eq)]
pub struct PgError {
    pub code: PgSqlErrorCode,
    pub message: String,
}

/// Class of an object-store failure.
#[derive(Debug, Clone, Copy, PartialEq, Eq, Structural)]
pub enum StorageErrorKind {
    InvalidPath,
    Configuration,
    NotFound,
    Unsupported,
    Busy,
    ResourceExhausted,
    Io,
    Backend,
    Cache,
    CacheFillAborted,
    Protocol,
    ClosedHandle,
}

/// A failure of the object store.
#[derive(Debug, PartialEq, Eq)]
pub struct StorageError {
    pub kind: StorageErrorKind,
    pub message: String,
}

/// Class of a failure in the table-format layer.
#[derive(Debug, Clone, Copy, PartialEq, Eq, Structural)]
pub enum IcebergErrorKind {
    FeatureUnsupported,
    IoError,
    DataInvalid,
    CatalogCommitConflicts,
    DataConflict,
    TableNotFound,
    TableAlreadyExists,
    NamespaceNotFound,
    NamespaceAlreadyExists,
    PreconditionFailed,
    Unexpected,
}

/// A failure in the table-format layer.
#[derive(Debug, PartialEq, Eq)]
pub struct IcebergLiteError {
    pub kind: IcebergErrorKind,
    pub message: String,
}

impl IcebergLiteError {
    /// Whether the same commit may be tried again. A conflict over the catalog
    /// entry may; one over rows has to go back to the client.
    pub fn retryable(&self) -> (r: bool)
        ensures
            r == (self.kind == IcebergErrorKind::CatalogCommitConflicts),
    {
        matches!(self.kind, IcebergErrorKind::CatalogCommitConflicts)
    }
}

impl Clone for IcebergLiteError {
    fn clone(&self) -> (r: Self)
        ensures
            r == *self,
    {
        IcebergLiteError { kind: self.kind, message: self.message.clone() }
    }
}

/// A failure to encode or decode a decimal.
#[derive(Debug, PartialEq, Eq)]
pub enum DecimalCodecError {
    PrecisionOutOfRange { precision: u32 },
    ScaleOutOfRange { precision: u32, scale: u32 },
    ValueOutOfRange { precision: u32, scale: u32, message: String },
    InvalidBinaryRepresentation { message: String },
}

/// A failure to convert a value between the server and columnar forms.
#[derive(Debug, PartialEq, Eq)]
pub enum ConvError {
    UnsupportedColumnType(String),
    IncompatibleColumnType(String, String),
    ArrowTypeMismatch(String),
    DatumConversionError(String),
    NumericError(String),
    DatetimeConversionError(String),
    InvalidUtf8(String),
    UuidConversionError(String),
    ArrowError(String),
    DecimalCodec(DecimalCodecError),
    /// The decimal codec broke its own rules.
    DecimalCodecBug(String),
}

/// A failure of table maintenance.
#[derive(Debug, PartialEq, Eq)]
pub enum IcebergVacuumError {
    /// Maintenance was combined with another change of the same table.
    ActionConflict,
    /// A count or size of the run does not fit.
    ResourceLimit(String),
}

/// Any failure of the access method.
#[allow(inconsistent_fields)]
#[derive(Debug, PartialEq, Eq)]
pub enum IcebergError {
    MetadataCatalog { operation: MetadataCatalogOperation, source: PgError },
    MetadataCatalogNotFound(Oid),
    MetadataCatalogAlreadyExists(Oid),
    MetadataCatalogInvalidRecord(String),
    MetadataCatalogConflict,
    AutomaticMaintenanceCatalog { operation: MetadataCatalogOperation, source: PgError },
    AutomaticMaintenanceCatalogInvalidRecord(String),
    MetadataTracker(String),
    FileIdLimitExceeded { max_files: usize },
    RowIdentityLimitExceeded,
    MetadataCommitConflict { relid: Oid, max_retries: i32 },
    TruncateCommitConflict { relid: Oid },
    SchemaEvolutionConflict(IcebergLiteError),
    Vacuum { source: IcebergVacuumError },
    TablespaceError(PgError),
    TablespaceCacheError(PgError),
    TableOptionError(PgError),
    StorageError(StorageError),
    PgError(PgError),
    ConvError(ConvError),
    TablespaceNotFound,
    NamespaceNull,
    MetadataLocationNull,
    SchemaBuildError(String),
    ColumnNotFound(String),
    RequiredColumnMissingSource(String),
    UnsupportedColumnType(String),
    ImportColumnError(String, String),
    ParseFloatError(String),
    DatetimeConversionError(String),
    UuidConversionError(String),
    NumericError(String),
    IcebergLiteError(IcebergLiteError),
    ArrowError(String),
    ArrowTypeMismatch(String),
    SpiError(String),
    JsonError(String),
    InvariantViolated(&'static str),
    NotImplemented(&'static str),
}

pub type IcebergResult<T> = Result<T, IcebergError>;

impl StorageErrorKind {
    /// The SQLSTATE of an object-store failure.
    pub open spec fn code(self) -> PgSqlErrorCode {
        match self {
            StorageErrorKind::InvalidPath | StorageErrorKind::Configuration => PgSqlErrorCode::ERRCODE_INVALID_PARAMETER_VALUE,
            StorageErrorKind::NotFound => PgSqlErrorCode::ERRCODE_UNDEFINED_OBJECT,
            StorageErrorKind::Unsupported => PgSqlErrorCode::ERRCODE_FEATURE_NOT_SUPPORTED,
            StorageErrorKind::Busy => PgSqlErrorCode::ERRCODE_LOCK_NOT_AVAILABLE,
            StorageErrorKind::ResourceExhausted => PgSqlErrorCode::ERRCODE_CONFIGURATION_LIMIT_EXCEEDED,
            StorageErrorKind::Io | StorageErrorKind::Backend | StorageErrorKind::Cache
            | StorageErrorKind::CacheFillAborted => PgSqlErrorCode::ERRCODE_IO_ERROR,
            StorageErrorKind::Protocol | StorageErrorKind::ClosedHandle => PgSqlErrorCode::ERRCODE_INTERNAL_ERROR,
        }
    }
}

/// Maps an object-store failure to its SQLSTATE.
pub fn storage_sql_error_code(error: &StorageError) -> (r: PgSqlErrorCode)
    ensures
        r == error.kind.code(),
{
    match error.kind {
        StorageErrorKind::InvalidPath | StorageErrorKind::Configuration => PgSqlErrorCode::ERRCODE_INVALID_PARAMETER_VALUE,
        StorageErrorKind::NotFound => PgSqlErrorCode::ERRCODE_UNDEFINED_OBJECT,
        StorageErrorKind::Unsupported => PgSqlErrorCode::ERRCODE_FEATURE_NOT_SUPPORTED,
        StorageErrorKind::Busy => PgSqlErrorCode::ERRCODE_LOCK_NOT_AVAILABLE,
        StorageErrorKind::ResourceExhausted => PgSqlErrorCode::ERRCODE_CONFIGURATION_LIMIT_EXCEEDED,
        StorageErrorKind::Io
        | StorageErrorKind::Backend
        | StorageErrorKind::Cache
        | StorageErrorKind::CacheFillAborted => PgSqlErrorCode::ERRCODE_IO_ERROR,
        StorageErrorKind::Protocol | StorageErrorKind::ClosedHandle => PgSqlErrorCode::ERRCODE_INTERNAL_ERROR,
    }
}

impl IcebergErrorKind {
    /// The SQLSTATE of a table-format failure.
    pub open spec fn code(self) -> PgSqlErrorCode {
        match self {
            IcebergErrorKind::FeatureUnsupported => PgSqlErrorCode::ERRCODE_FEATURE_NOT_SUPPORTED,
            IcebergErrorKind::IoError => PgSqlErrorCode::ERRCODE_IO_ERROR,
            IcebergErrorKind::DataInvalid => PgSqlErrorCode::ERRCODE_DATA_CORRUPTED,
            IcebergErrorKind::CatalogCommitConflicts | IcebergErrorKind::DataConflict =>
                PgSqlErrorCode::ERRCODE_T_R_SERIALIZATION_FAILURE,
            IcebergErrorKind::TableNotFound => PgSqlErrorCode::ERRCODE_UNDEFINED_TABLE,
            IcebergErrorKind::TableAlreadyExists => PgSqlErrorCode::ERRCODE_DUPLICATE_TABLE,
            IcebergErrorKind::NamespaceNotFound => PgSqlErrorCode::ERRCODE_INVALID_SCHEMA_NAME,
            IcebergErrorKind::NamespaceAlreadyExists => PgSqlErrorCode::ERRCODE_DUPLICATE_SCHEMA,
            IcebergErrorKind::PreconditionFailed => PgSqlErrorCode::ERRCODE_OBJECT_NOT_IN_PREREQUISITE_STATE,
            IcebergErrorKind::Unexpected => PgSqlErrorCode::ERRCODE_INTERNAL_ERROR,
        }
    }
}

/// Maps a table-format failure to its SQLSTATE.
pub fn iceberg_lite_sql_error_code(error: &IcebergLiteError) -> (r: PgSqlErrorCode)
    ensures
        r == error.kind.code(),
{
    match error.kind {
        IcebergErrorKind::FeatureUnsupported => PgSqlErrorCode::ERRCODE_FEATURE_NOT_SUPPORTED,
        // Object-store or file failure met by a scan or a writer.
        IcebergErrorKind::IoError => PgSqlErrorCode::ERRCODE_IO_ERROR,
        // Unparseable or corrupted table metadata or data files.
        IcebergErrorKind::DataInvalid => PgSqlErrorCode::ERRCODE_DATA_CORRUPTED,
        // The commit lost the race to a concurrent update.
        IcebergErrorKind::CatalogCommitConflicts => PgSqlErrorCode::ERRCODE_T_R_SERIALIZATION_FAILURE,
        // Row-level validation found concurrent changes: the client rebuilds
        // its transaction.
        IcebergErrorKind::DataConflict => PgSqlErrorCode::ERRCODE_T_R_SERIALIZATION_FAILURE,
        IcebergErrorKind::TableNotFound => PgSqlErrorCode::ERRCODE_UNDEFINED_TABLE,
        IcebergErrorKind::TableAlreadyExists => PgSqlErrorCode::ERRCODE_DUPLICATE_TABLE,
        IcebergErrorKind::NamespaceNotFound => PgSqlErrorCode::ERRCODE_INVALID_SCHEMA_NAME,
        IcebergErrorKind::NamespaceAlreadyExists => PgSqlErrorCode::ERRCODE_DUPLICATE_SCHEMA,
        IcebergErrorKind::PreconditionFailed => PgSqlErrorCode::ERRCODE_OBJECT_NOT_IN_PREREQUISITE_STATE,
        IcebergErrorKind::Unexpected => PgSqlErrorCode::ERRCODE_INTERNAL_ERROR,
    }
}

impl ConvError {
    /// The SQLSTATE of a conversion failure.
    pub open spec fn code(self) -> PgSqlErrorCode {
        match self {
            ConvError::UnsupportedColumnType(_) | ConvError::IncompatibleColumnType(_, _)
            | ConvError::ArrowTypeMismatch(_)
            | ConvError::DecimalCodec(DecimalCodecError::PrecisionOutOfRange { .. })
            | ConvError::DecimalCodec(DecimalCodecError::ScaleOutOfRange { .. }) =>
                PgSqlErrorCode::ERRCODE_DATATYPE_MISMATCH,
            ConvError::DatumConversionError(_) | ConvError::NumericError(_)
            | ConvError::DatetimeConversionError(_) | ConvError::InvalidUtf8(_)
            | ConvError::UuidConversionError(_)
            | ConvError::DecimalCodec(DecimalCodecError::ValueOutOfRange { .. }) =>
                PgSqlErrorCode::ERRCODE_DATA_EXCEPTION,
            ConvError::ArrowError(_)
            | ConvError::DecimalCodecBug(_)
            | ConvError::DecimalCodec(DecimalCodecError::InvalidBinaryRepresentation { .. }) =>
                PgSqlErrorCode::ERRCODE_INTERNAL_ERROR,
        }
    }

    /// The SQLSTATE that the conversion failure reports.
    pub fn sql_error_code(&self) -> (r: PgSqlErrorCode)
        ensures
            r == self.code(),
    {
        match self {
            ConvError::UnsupportedColumnType(_)
            | ConvError::IncompatibleColumnType(_, _)
            | ConvError::ArrowTypeMismatch(_) => PgSqlErrorCode::ERRCODE_DATATYPE_MISMATCH,
            ConvError::DatumConversionError(_)
            | ConvError::NumericError(_)
            | ConvError::DatetimeConversionError(_)
            | ConvError::InvalidUtf8(_)
            | ConvError::UuidConversionError(_) => PgSqlErrorCode::ERRCODE_DATA_EXCEPTION,
            ConvError::ArrowError(_) => PgSqlErrorCode::ERRCODE_INTERNAL_ERROR,
            ConvError::DecimalCodecBug(_) => PgSqlErrorCode::ERRCODE_INTERNAL_ERROR,
            ConvError::DecimalCodec(codec) => match codec {
                DecimalCodecError::PrecisionOutOfRange { .. } => PgSqlErrorCode::ERRCODE_DATATYPE_MISMATCH,
                DecimalCodecError::ScaleOutOfRange { .. } => PgSqlErrorCode::ERRCODE_DATATYPE_MISMATCH,
                DecimalCodecError::ValueOutOfRange { .. } => PgSqlErrorCode::ERRCODE_DATA_EXCEPTION,
                DecimalCodecError::InvalidBinaryRepresentation { .. } => PgSqlErrorCode::ERRCODE_INTERNAL_ERROR,
            },
        }
    }
}

impl IcebergVacuumError {
    /// The SQLSTATE of a maintenance failure.
    pub open spec fn code(self) -> PgSqlErrorCode {
        match self {
            IcebergVacuumError::ActionConflict => PgSqlErrorCode::ERRCODE_OBJECT_NOT_IN_PREREQUISITE_STATE,
            IcebergVacuumError::ResourceLimit(_) => PgSqlErrorCode::ERRCODE_PROGRAM_LIMIT_EXCEEDED,
        }
    }

    /// The SQLSTATE that the maintenance failure reports.
    pub fn sql_error_code(&self) -> (r: PgSqlErrorCode)
        ensures
            r == self.code(),
    {
        match self {
            IcebergVacuumError::ActionConflict => PgSqlErrorCode::ERRCODE_OBJECT_NOT_IN_PREREQUISITE_STATE,
            IcebergVacuumError::ResourceLimit(_) => PgSqlErrorCode::ERRCODE_PROGRAM_LIMIT_EXCEEDED,
        }
    }
}

impl IcebergError {
    /// The SQLSTATE of a failure. One that wraps another failure keeps the
    /// SQLSTATE of what it wraps.
    pub open spec fn code(self) -> PgSqlErrorCode {
        match self {
            IcebergError::MetadataCatalog { source, .. } => source.code,
            IcebergError::AutomaticMaintenanceCatalog { source, .. } => source.code,
            IcebergError::TablespaceError(error) => error.code,
            IcebergError::TablespaceCacheError(error) => error.code,
            IcebergError::TableOptionError(error) => error.code,
            IcebergError::PgError(error) => error.code,
            IcebergError::StorageError(error) => error.kind.code(),
            IcebergError::IcebergLiteError(error) => error.kind.code(),
            IcebergError::ConvError(error) => error.code(),
            IcebergError::Vacuum { source } => source.code(),
            IcebergError::MetadataCatalogNotFound(_) => PgSqlErrorCode::ERRCODE_NO_DATA_FOUND,
            IcebergError::MetadataCatalogAlreadyExists(_) => PgSqlErrorCode::ERRCODE_UNIQUE_VIOLATION,
            IcebergError::MetadataCatalogConflict | IcebergError::MetadataCommitConflict { .. }
            | IcebergError::TruncateCommitConflict { .. } | IcebergError::SchemaEvolutionConflict(_) =>
                PgSqlErrorCode::ERRCODE_T_R_SERIALIZATION_FAILURE,
            IcebergError::TablespaceNotFound => PgSqlErrorCode::ERRCODE_INVALID_PARAMETER_VALUE,
            IcebergError::FileIdLimitExceeded { .. } | IcebergError::RowIdentityLimitExceeded =>
                PgSqlErrorCode::ERRCODE_PROGRAM_LIMIT_EXCEEDED,
            IcebergError::NamespaceNull | IcebergError::MetadataLocationNull =>
                PgSqlErrorCode::ERRCODE_UNDEFINED_OBJECT,
            IcebergError::SchemaBuildError(_) => PgSqlErrorCode::ERRCODE_INVALID_OBJECT_DEFINITION,
            IcebergError::ColumnNotFound(_) => PgSqlErrorCode::ERRCODE_UNDEFINED_COLUMN,
            IcebergError::RequiredColumnMissingSource(_) => PgSqlErrorCode::ERRCODE_NOT_NULL_VIOLATION,
            IcebergError::UnsupportedColumnType(_) | IcebergError::ImportColumnError(_, _) =>
                PgSqlErrorCode::ERRCODE_DATATYPE_MISMATCH,
            IcebergError::ParseFloatError(_) | IcebergError::DatetimeConversionError(_)
            | IcebergError::UuidConversionError(_) | IcebergError::NumericError(_) =>
                PgSqlErrorCode::ERRCODE_DATA_EXCEPTION,
            IcebergError::MetadataCatalogInvalidRecord(_)
            | IcebergError::AutomaticMaintenanceCatalogInvalidRecord(_)
            | IcebergError::MetadataTracker(_) | IcebergError::ArrowError(_)
            | IcebergError::ArrowTypeMismatch(_) | IcebergError::JsonError(_)
            | IcebergError::SpiError(_) | IcebergError::InvariantViolated(_) =>
                PgSqlErrorCode::ERRCODE_INTERNAL_ERROR,
            IcebergError::NotImplemented(_) => PgSqlErrorCode::ERRCODE_FEATURE_NOT_SUPPORTED,
        }
    }

    /// The SQLSTATE that the failure reports.
    pub fn sql_error_code(&self) -> (r: PgSqlErrorCode)
        ensures
            r == self.code(),
    {
        match self {
            IcebergError::MetadataCatalog { source, .. } => source.code,
            IcebergError::AutomaticMaintenanceCatalog { source, .. } => source.code,
            IcebergError::MetadataCatalogNotFound(_) => PgSqlErrorCode::ERRCODE_NO_DATA_FOUND,
            IcebergError::MetadataCatalogAlreadyExists(_) => PgSqlErrorCode::ERRCODE_UNIQUE_VIOLATION,
            IcebergError::MetadataCatalogConflict => PgSqlErrorCode::ERRCODE_T_R_SERIALIZATION_FAILURE,
            IcebergError::MetadataCatalogInvalidRecord(_)
            | IcebergError::AutomaticMaintenanceCatalogInvalidRecord(_) => PgSqlErrorCode::ERRCODE_INTERNAL_ERROR,
            IcebergError::TablespaceError(error) => error.code,
            IcebergError::TablespaceCacheError(error) => error.code,
            IcebergError::TableOptionError(error) => error.code,
            IcebergError::StorageError(error) => storage_sql_error_code(error),
            IcebergError::TablespaceNotFound => PgSqlErrorCode::ERRCODE_INVALID_PARAMETER_VALUE,
            IcebergError::PgError(error) => error.code,
            IcebergError::ConvError(conv) => conv.sql_error_code(),
            IcebergError::MetadataTracker(_) => PgSqlErrorCode::ERRCODE_INTERNAL_ERROR,
            IcebergError::FileIdLimitExceeded { .. }
            | IcebergError::RowIdentityLimitExceeded => PgSqlErrorCode::ERRCODE_PROGRAM_LIMIT_EXCEEDED,
            IcebergError::MetadataCommitConflict { .. } => PgSqlErrorCode::ERRCODE_T_R_SERIALIZATION_FAILURE,
            IcebergError::TruncateCommitConflict { .. }
            | IcebergError::SchemaEvolutionConflict(_) => PgSqlErrorCode::ERRCODE_T_R_SERIALIZATION_FAILURE,
            IcebergError::Vacuum { source } => source.sql_error_code(),
            IcebergError::NamespaceNull
            | IcebergError::MetadataLocationNull => PgSqlErrorCode::ERRCODE_UNDEFINED_OBJECT,
            IcebergError::SchemaBuildError(_) => PgSqlErrorCode::ERRCODE_INVALID_OBJECT_DEFINITION,
            IcebergError::ColumnNotFound(_) => PgSqlErrorCode::ERRCODE_UNDEFINED_COLUMN,
            IcebergError::RequiredColumnMissingSource(_) => PgSqlErrorCode::ERRCODE_NOT_NULL_VIOLATION,
            IcebergError::UnsupportedColumnType(_)
            | IcebergError::ImportColumnError(_, _) => PgSqlErrorCode::ERRCODE_DATATYPE_MISMATCH,
            IcebergError::ParseFloatError(_)
            | IcebergError::DatetimeConversionError(_)
            | IcebergError::UuidConversionError(_)
            | IcebergError::NumericError(_) => PgSqlErrorCode::ERRCODE_DATA_EXCEPTION,
            IcebergError::IcebergLiteError(error) => iceberg_lite_sql_error_code(error),
            IcebergError::ArrowError(_)
            | IcebergError::ArrowTypeMismatch(_)
            | IcebergError::JsonError(_)
            | IcebergError::SpiError(_) => PgSqlErrorCode::ERRCODE_INTERNAL_ERROR,
            IcebergError::InvariantViolated(_) => PgSqlErrorCode::ERRCODE_INTERNAL_ERROR,
            IcebergError::NotImplemented(_) => PgSqlErrorCode::ERRCODE_FEATURE_NOT_SUPPORTED,
        }
    }

    /// Wraps a server failure met during an operation on the metadata catalog.
    pub fn metadata_catalog(operation: MetadataCatalogOperation, source: PgError) -> (r: Self)
        ensures
            r == (IcebergError::MetadataCatalog { operation, source }),
    {
        IcebergError::MetadataCatalog { operation, source }
    }

    /// Wraps the refusal of a staged schema change on newer table metadata.
    pub fn schema_evolution_conflict(error: IcebergLiteError) -> (r: Self)
        ensures
            r == IcebergError::SchemaEvolutionConflict(error),
    {
        IcebergError::SchemaEvolutionConflict(error)
    }
}

impl From<ConvError> for IcebergError {
    fn from(value: ConvError) -> (r: Self) {
        IcebergError::ConvError(value)
    }
}

impl vstd::std_specs::convert::FromSpecImpl<ConvError> for IcebergError {
    open spec fn obeys_from_spec() -> bool {
        true
    }

    open spec fn from_spec(value: ConvError) -> Self {
        IcebergError::ConvError(value)
    }
}

impl From<DecimalCodecError> for ConvError {
    fn from(value: DecimalCodecError) -> (r: Self) {
        ConvError::DecimalCodec(value)
    }
}

impl vstd::std_specs::convert::FromSpecImpl<DecimalCodecError> for ConvError {
    open spec fn obeys_from_spec() -> bool {
        true
    }

    open spec fn from_spec(value: DecimalCodecError) -> Self {
        ConvError::DecimalCodec(value)
    }
}

/// A conversion failure reports the same SQLSTATE alone and wrapped.
pub proof fn conversion_code_survives_wrapping(error: ConvError)
    ensures
        IcebergError::ConvError(error).code() == error.code(),
{
}

/// The SQLSTATE that came with a failure from elsewhere, where one came.
pub open spec fn carried_code(error: IcebergError) -> Option<PgSqlErrorCode> {
    match error {
        IcebergError::MetadataCatalog { source, .. } => Some(source.code),
        IcebergError::AutomaticMaintenanceCatalog { source, .. } => Some(source.code),
        IcebergError::TablespaceError(inner) => Some(inner.code),
        IcebergError::TablespaceCacheError(inner) => Some(inner.code),
        IcebergError::TableOptionError(inner) => Some(inner.code),
        IcebergError::PgError(inner) => Some(inner.code),
        _ => None,
    }
}

/// A failure of the server is reported with the SQLSTATE that it came with,
/// whatever the access method was doing.
pub proof fn server_failures_keep_their_code(error: IcebergError)
    ensures
        carried_code(error) matches Some(code) ==> error.code() == code,
{
}

/// A client is told to try again exactly where another transaction won: over
/// the catalog entry, over the rows, over the schema or over a truncated table.
pub proof fn lost_races_are_serialization_failures(error: IcebergError)
    requires
        carried_code(error) is None,
    ensures
        error.code() == PgSqlErrorCode::ERRCODE_T_R_SERIALIZATION_FAILURE <==> match error {
            IcebergError::MetadataCatalogConflict => true,
            IcebergError::MetadataCommitConflict { .. } => true,
            IcebergError::TruncateCommitConflict { .. } => true,
            IcebergError::SchemaEvolutionConflict(_) => true,
            IcebergError::IcebergLiteError(inner) => inner.kind == IcebergErrorKind::CatalogCommitConflicts
                || inner.kind == IcebergErrorKind::DataConflict,
            _ => false,
        },
{
}

/// What the access method cannot do is reported as not supported, and nothing
/// else is; limits that it sets are reported as limits.
pub proof fn unsupported_requests_are_told_apart(error: IcebergError)
    requires
        carried_code(error) is None,
    ensures
        error.code() == PgSqlErrorCode::ERRCODE_FEATURE_NOT_SUPPORTED <==> match error {
            IcebergError::NotImplemented(_) => true,
            IcebergError::IcebergLiteError(inner) => inner.kind == IcebergErrorKind::FeatureUnsupported,
            IcebergError::StorageError(inner) => inner.kind == StorageErrorKind::Unsupported,
            _ => false,
        },
        error.code() == PgSqlErrorCode::ERRCODE_PROGRAM_LIMIT_EXCEEDED <==> match error {
            IcebergError::FileIdLimitExceeded { .. } => true,
            IcebergError::RowIdentityLimitExceeded => true,
            IcebergError::Vacuum { source } => source is ResourceLimit,
            _ => false,
        },
{
}

/// A column that cannot be stored is a matter of its type, a value that cannot
/// be stored is a matter of its data; neither is an internal error.
pub proof fn types_and_values_are_told_apart(error: ConvError)
    ensures
        error.code() == PgSqlErrorCode::ERRCODE_DATATYPE_MISMATCH <==> match error {
            ConvError::UnsupportedColumnType(_) => true,
            ConvError::IncompatibleColumnType(_, _) => true,
            ConvError::ArrowTypeMismatch(_) => true,
            ConvError::DecimalCodec(codec) => codec is PrecisionOutOfRange || codec is ScaleOutOfRange,
            _ => false,
        },
        error.code() == PgSqlErrorCode::ERRCODE_INTERNAL_ERROR <==> match error {
            ConvError::ArrowError(_) => true,
            ConvError::DecimalCodecBug(_) => true,
            ConvError::DecimalCodec(codec) => codec is InvalidBinaryRepresentation,
            _ => false,
        },
        error.code() == PgSqlErrorCode::ERRCODE_DATATYPE_MISMATCH || error.code()
            == PgSqlErrorCode::ERRCODE_INTERNAL_ERROR || error.code()
            == PgSqlErrorCode::ERRCODE_DATA_EXCEPTION,
{
}

} // verus!
