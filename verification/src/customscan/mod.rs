//! Custom scans of Iceberg tables: which conditions a scan takes over, how they
//! are expressed for the table format, and which columns a scan reads.

use vstd::prelude::*;

pub mod pg_operator_oid;
pub mod predicate_pushdown_policy;
pub mod predicate_translator;
pub mod provider;
pub mod provider_private_data;
pub mod provider_projection;
pub mod provider_scan_state;
pub mod scan_state;

verus! {

/// Whether comparisons of floating-point columns are pushed down. The table
/// format orders NaN differently.
pub const FLOAT_PUSHDOWN_ENABLED: bool = false;

/// Whether comparisons of numeric columns are pushed down. The table format's
/// row filter can round a literal to the column's scale.
pub const NUMERIC_COMPARISON_PUSHDOWN_ENABLED: bool = false;

} // verus!
