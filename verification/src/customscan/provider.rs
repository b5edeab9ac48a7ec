//! Which relations the custom scan serves, and its failures.

use vstd::prelude::*;

use crate::Oid;
use crate::catalog::automatic_maintenance::{RELKIND_MATVIEW, RELKIND_RELATION};
use crate::error::{IcebergError, PgSqlErrorCode};

verus! {

/// The kind of a table that holds oversized values of another.
pub const RELKIND_TOASTVALUE: u8 = 116;

/// The kind of a partitioned table.
pub const RELKIND_PARTITIONED_TABLE: u8 = 112;

/// What a scan is for.
#[derive(Debug, Clone, Copy, PartialEq, Eq, Structural)]
pub enum ScanPurpose {
    Query,
    Modify,
}

impl ScanPurpose {
    /// Whether the scan finds rows to change.
    pub fn is_modify(self) -> (r: bool)
        ensures
            r == (self == ScanPurpose::Modify),
    {
        matches!(self, ScanPurpose::Modify)
    }
}

/// A failure of a custom scan.
#[derive(Debug, PartialEq, Eq)]
pub enum CustomScanError {
    /// The access method failed.
    Provider(IcebergError),
    /// The scan machinery failed.
    Internal(String),
}

impl CustomScanError {
    /// The SQLSTATE of the failure.
    pub open spec fn code(self) -> PgSqlErrorCode {
        match self {
            CustomScanError::Provider(e) => e.code(),
            CustomScanError::Internal(_) => PgSqlErrorCode::ERRCODE_INTERNAL_ERROR,
        }
    }

    /// The SQLSTATE of the failure.
    pub fn sql_error_code(&self) -> (r: PgSqlErrorCode)
        ensures
            r == self.code(),
    {
        match self {
            CustomScanError::Provider(e) => e.sql_error_code(),
            CustomScanError::Internal(_) => PgSqlErrorCode::ERRCODE_INTERNAL_ERROR,
        }
    }
}

impl From<IcebergError> for CustomScanError {
    fn from(err: IcebergError) -> (r: Self) {
        CustomScanError::Provider(err)
    }
}

impl vstd::std_specs::convert::FromSpecImpl<IcebergError> for CustomScanError {
    open spec fn obeys_from_spec() -> bool {
        true
    }

    open spec fn from_spec(err: IcebergError) -> CustomScanError {
        CustomScanError::Provider(err)
    }
}

/// A failure of the access method keeps its SQLSTATE when a scan reports it.
pub proof fn scan_failures_keep_their_code(err: IcebergError)
    ensures
        CustomScanError::Provider(err).code() == err.code(),
{
}

/// The custom scan of Iceberg tables.
#[derive(Debug, Clone, Copy)]
pub struct IcebergCustomScanProvider;

impl IcebergCustomScanProvider {
    /// Whether the custom scan can read a relation: an entry of the range table
    /// that is stored by the Iceberg access method.
    pub fn supports_relation(
        is_relation: bool,
        relkind: u8,
        access_method: Oid,
        iceberg_am: Option<Oid>,
    ) -> (r: bool)
        ensures
            r == (is_relation && (relkind == RELKIND_RELATION || relkind == RELKIND_MATVIEW || relkind
                == RELKIND_TOASTVALUE) && iceberg_am == Some(access_method)),
    {
        if !is_relation {
            return false;
        }
        if !(relkind == RELKIND_RELATION || relkind == RELKIND_MATVIEW || relkind
            == RELKIND_TOASTVALUE) {
            return false;
        }
        match iceberg_am {
            Some(am) => access_method == am,
            None => false,
        }
    }

    /// Whether the custom scan can find the rows to change of a relation.
    pub fn supports_modify_target(
        is_relation: bool,
        relkind: u8,
        access_method: Oid,
        iceberg_am: Option<Oid>,
    ) -> (r: bool)
        ensures
            r == (is_relation && (relkind == RELKIND_RELATION || relkind == RELKIND_PARTITIONED_TABLE)
                && iceberg_am == Some(access_method)),
    {
        is_relation && (relkind == RELKIND_RELATION || relkind == RELKIND_PARTITIONED_TABLE)
            && match iceberg_am {
            Some(am) => access_method == am,
            None => false,
        }
    }

    /// Whether the custom scan offers a path. For a query it must take over
    /// some condition; for a change, reading fewer columns is enough.
    pub fn offers_path(purpose: ScanPurpose, has_pushed_predicates: bool) -> (r: bool)
        ensures
            r == (purpose == ScanPurpose::Modify || has_pushed_predicates),
    {
        purpose.is_modify() || has_pushed_predicates
    }
}

} // verus!
