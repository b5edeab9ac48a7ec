//! Object identifiers that the server fixes for its built-in types.

use vstd::prelude::*;

use crate::Oid;

verus! {

/// Names no object.
pub const INVALID_OID: Oid = 0;

pub const BOOLOID: Oid = 16;

pub const BYTEAOID: Oid = 17;

pub const NAMEOID: Oid = 19;

pub const INT8OID: Oid = 20;

pub const INT2OID: Oid = 21;

pub const INT4OID: Oid = 23;

pub const TEXTOID: Oid = 25;

pub const JSONOID: Oid = 114;

pub const FLOAT4OID: Oid = 700;

pub const FLOAT8OID: Oid = 701;

pub const BPCHAROID: Oid = 1042;

pub const VARCHAROID: Oid = 1043;

pub const DATEOID: Oid = 1082;

pub const TIMEOID: Oid = 1083;

pub const TIMESTAMPOID: Oid = 1114;

pub const TIMESTAMPTZOID: Oid = 1184;

pub const NUMERICOID: Oid = 1700;

pub const UUIDOID: Oid = 2950;

pub const JSONBOID: Oid = 3802;

/// The collation that a database was created with.
pub const DEFAULT_COLLATION_OID: Oid = 100;

/// The byte-order collation named C.
pub const C_COLLATION_OID: Oid = 950;

/// The byte-order collation named POSIX.
pub const POSIX_COLLATION_OID: Oid = 951;

} // verus!
