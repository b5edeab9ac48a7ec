//! Identifiers of the built-in comparison operators.

use vstd::prelude::*;

use crate::Oid;

verus! {

pub const INT2_EQ: Oid = 94;

pub const INT2_NE: Oid = 519;

pub const INT2_LT: Oid = 95;

pub const INT2_LE: Oid = 522;

pub const INT2_GT: Oid = 520;

pub const INT2_GE: Oid = 524;

pub const INT4_EQ: Oid = 96;

pub const INT4_NE: Oid = 518;

pub const INT4_LT: Oid = 97;

pub const INT4_LE: Oid = 523;

pub const INT4_GT: Oid = 521;

pub const INT4_GE: Oid = 525;

pub const INT8_EQ: Oid = 410;

pub const INT8_NE: Oid = 411;

pub const INT8_LT: Oid = 412;

pub const INT8_LE: Oid = 414;

pub const INT8_GT: Oid = 413;

pub const INT8_GE: Oid = 415;

pub const NUMERIC_EQ: Oid = 1752;

pub const NUMERIC_NE: Oid = 1753;

pub const NUMERIC_LT: Oid = 1754;

pub const NUMERIC_LE: Oid = 1755;

pub const NUMERIC_GT: Oid = 1756;

pub const NUMERIC_GE: Oid = 1757;

pub const DATE_EQ: Oid = 1093;

pub const DATE_NE: Oid = 1094;

pub const DATE_LT: Oid = 1095;

pub const DATE_LE: Oid = 1096;

pub const DATE_GT: Oid = 1097;

pub const DATE_GE: Oid = 1098;

pub const TIMESTAMP_EQ: Oid = 2060;

pub const TIMESTAMP_NE: Oid = 2061;

pub const TIMESTAMP_LT: Oid = 2062;

pub const TIMESTAMP_LE: Oid = 2063;

pub const TIMESTAMP_GT: Oid = 2064;

pub const TIMESTAMP_GE: Oid = 2065;

pub const TIMESTAMPTZ_EQ: Oid = 1320;

pub const TIMESTAMPTZ_NE: Oid = 1321;

pub const TIMESTAMPTZ_LT: Oid = 1322;

pub const TIMESTAMPTZ_LE: Oid = 1323;

pub const TIMESTAMPTZ_GT: Oid = 1324;

pub const TIMESTAMPTZ_GE: Oid = 1325;

pub const FLOAT4_EQ: Oid = 620;

pub const FLOAT4_NE: Oid = 621;

pub const FLOAT4_LT: Oid = 622;

pub const FLOAT4_LE: Oid = 624;

pub const FLOAT4_GT: Oid = 623;

pub const FLOAT4_GE: Oid = 625;

pub const FLOAT8_EQ: Oid = 670;

pub const FLOAT8_NE: Oid = 671;

pub const FLOAT8_LT: Oid = 672;

pub const FLOAT8_LE: Oid = 673;

pub const FLOAT8_GT: Oid = 674;

pub const FLOAT8_GE: Oid = 675;

pub const TEXT_EQ: Oid = 98;

pub const TEXT_NE: Oid = 531;

pub const TEXT_LT: Oid = 664;

pub const TEXT_LE: Oid = 665;

pub const TEXT_GT: Oid = 666;

pub const TEXT_GE: Oid = 667;

} // verus!
