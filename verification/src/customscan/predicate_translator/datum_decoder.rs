//! From the server's values to values of the table format.

use rust_decimal::Decimal;
use vstd::prelude::*;

use crate::Oid;
use crate::customscan::predicate_translator::error::IcebergTranslationError;
use crate::customscan::predicate_translator::predicate::{Datum, DatumView};
use crate::oids::{
    DATEOID, INT2OID, INT4OID, INT8OID, NUMERICOID, TEXTOID, TIMESTAMPOID, TIMESTAMPTZOID,
    VARCHAROID,
};

verus! {

/// Days from the start of 1970 to the start of 2000, the server's day zero.
pub const PG_EPOCH_DAYS_DIFF: i32 = 10_957;

/// Microseconds from the start of 1970 to the start of 2000.
pub const PG_EPOCH_MICROS_DIFF: i64 = 946_684_800_000_000;

/// A value as the server holds it.
#[derive(Debug)]
pub enum PgDatum {
    Int2(i16),
    Int4(i32),
    Int8(i64),
    /// A number that may be NaN, in canonical decimal notation.
    Numeric { nan: bool, normalized: String },
    /// Days since the start of 2000; the extremes are the infinities.
    Date(i32),
    /// Microseconds since the start of 2000; the extremes are the infinities.
    Timestamp(i64),
    /// Microseconds since the start of 2000, in UTC; the extremes are the
    /// infinities.
    TimestampTz(i64),
    Text(String),
    /// A value of any other type.
    Other,
}

/// A value as the server holds it.
pub enum PgDatumView {
    Int2(i16),
    Int4(i32),
    Int8(i64),
    Numeric { nan: bool, normalized: Seq<char> },
    Date(i32),
    Timestamp(i64),
    TimestampTz(i64),
    Text(Seq<char>),
    Other,
}

impl View for PgDatum {
    type V = PgDatumView;

    open spec fn view(&self) -> PgDatumView {
        match *self {
            PgDatum::Int2(v) => PgDatumView::Int2(v),
            PgDatum::Int4(v) => PgDatumView::Int4(v),
            PgDatum::Int8(v) => PgDatumView::Int8(v),
            PgDatum::Numeric { nan, normalized } => PgDatumView::Numeric {
                nan,
                normalized: normalized@,
            },
            PgDatum::Date(v) => PgDatumView::Date(v),
            PgDatum::Timestamp(v) => PgDatumView::Timestamp(v),
            PgDatum::TimestampTz(v) => PgDatumView::TimestampTz(v),
            PgDatum::Text(v) => PgDatumView::Text(v@),
            PgDatum::Other => PgDatumView::Other,
        }
    }
}

/// The number that `rust_decimal::Decimal::from_str_exact` reads from a text,
/// as its mantissa and its scale; nothing where it refuses the text.
pub uninterp spec fn exact_decimal(text: Seq<char>) -> Option<(i128, u32)>;

/// Calls `rust_decimal::Decimal::from_str_exact` and takes the number apart.
/// The claim is that the result depends on the text alone; what numbers the
/// function reads from which texts is left unsaid.
#[verifier::external_body]
fn parse_exact_decimal(text: &str) -> (r: Option<(i128, u32)>)
    ensures
        r == exact_decimal(text@),
{
    match Decimal::from_str_exact(text) {
        Ok(decimal) => Some((decimal.mantissa(), decimal.scale())),
        Err(_) => None,
    }
}

/// A day count of the server as days since the start of 1970. The infinities
/// and what does not fit have none.
pub open spec fn unix_days(days: i32) -> Option<i32> {
    if days == i32::MIN || days == i32::MAX || days + PG_EPOCH_DAYS_DIFF > i32::MAX {
        None
    } else {
        Some((days + PG_EPOCH_DAYS_DIFF) as i32)
    }
}

/// A microsecond count of the server as microseconds since the start of 1970.
/// The infinities and what does not fit have none.
pub open spec fn unix_micros(micros: i64) -> Option<i64> {
    if micros == i64::MIN || micros == i64::MAX || micros + PG_EPOCH_MICROS_DIFF > i64::MAX {
        None
    } else {
        Some((micros + PG_EPOCH_MICROS_DIFF) as i64)
    }
}

/// The value of the table format for a value of the server, given the number
/// that was read from a numeric's text.
pub open spec fn decoded(
    type_oid: Oid,
    value: PgDatumView,
    parsed: Option<(i128, u32)>,
) -> Result<DatumView, IcebergTranslationError> {
    let undecodable = Err::<DatumView, _>(IcebergTranslationError::DatumDecode { type_oid });
    let unrepresentable = Err::<DatumView, _>(
        IcebergTranslationError::ValueNotRepresentable { type_oid },
    );
    if type_oid == INT2OID {
        match value {
            PgDatumView::Int2(v) => Ok(DatumView::Int(v as i32)),
            _ => undecodable,
        }
    } else if type_oid == INT4OID {
        match value {
            PgDatumView::Int4(v) => Ok(DatumView::Int(v)),
            _ => undecodable,
        }
    } else if type_oid == INT8OID {
        match value {
            PgDatumView::Int8(v) => Ok(DatumView::Long(v)),
            _ => undecodable,
        }
    } else if type_oid == NUMERICOID {
        match (value, parsed) {
            (PgDatumView::Numeric { nan: false, .. }, Some((mantissa, scale))) => Ok(
                DatumView::Decimal { mantissa, scale },
            ),
            (PgDatumView::Numeric { .. }, _) => unrepresentable,
            _ => undecodable,
        }
    } else if type_oid == DATEOID {
        match value {
            PgDatumView::Date(days) => match unix_days(days) {
                Some(v) => Ok(DatumView::Date(v)),
                None => unrepresentable,
            },
            _ => undecodable,
        }
    } else if type_oid == TIMESTAMPOID {
        match value {
            PgDatumView::Timestamp(micros) => match unix_micros(micros) {
                Some(v) => Ok(DatumView::TimestampMicros(v)),
                None => unrepresentable,
            },
            _ => undecodable,
        }
    } else if type_oid == TIMESTAMPTZOID {
        match value {
            PgDatumView::TimestampTz(micros) => match unix_micros(micros) {
                Some(v) => Ok(DatumView::TimestamptzMicros(v)),
                None => unrepresentable,
            },
            _ => undecodable,
        }
    } else if type_oid == TEXTOID || type_oid == VARCHAROID {
        match value {
            PgDatumView::Text(v) => Ok(DatumView::Text(v)),
            _ => undecodable,
        }
    } else {
        Err(IcebergTranslationError::UnsupportedType { type_oid })
    }
}

/// What is read from a value's text: a number from that of a numeric.
pub open spec fn read_decimal(value: PgDatumView) -> Option<(i128, u32)> {
    match value {
        PgDatumView::Numeric { normalized, .. } => exact_decimal(normalized),
        _ => None,
    }
}

/// The view of a result of decoding.
pub open spec fn datum_result(r: Result<Datum, IcebergTranslationError>) -> Result<
    DatumView,
    IcebergTranslationError,
> {
    match r {
        Ok(datum) => Ok(datum@),
        Err(e) => Err(e),
    }
}

/// A day count of the server as days since the start of 1970.
pub fn pg_epoch_days_to_unix_days(days: i32) -> (r: Option<i32>)
    ensures
        r == if days + PG_EPOCH_DAYS_DIFF > i32::MAX {
            None::<i32>
        } else {
            Some((days + PG_EPOCH_DAYS_DIFF) as i32)
        },
{
    days.checked_add(PG_EPOCH_DAYS_DIFF)
}

/// A microsecond count of the server as microseconds since the start of 1970.
pub fn pg_epoch_micros_to_unix_micros(micros: i64) -> (r: Option<i64>)
    ensures
        r == if micros + PG_EPOCH_MICROS_DIFF > i64::MAX {
            None::<i64>
        } else {
            Some((micros + PG_EPOCH_MICROS_DIFF) as i64)
        },
{
    micros.checked_add(PG_EPOCH_MICROS_DIFF)
}

/// The value of the table format for a value of type `type_oid`.
pub fn decode_datum(type_oid: Oid, value: &PgDatum) -> (r: Result<Datum, IcebergTranslationError>)
    ensures
        datum_result(r) == decoded(type_oid, value@, read_decimal(value@)),
{
    IcebergDatumDecoder::decode(type_oid, value)
}

/// Turns values of the server into values of the table format.
#[derive(Debug, Clone, Copy)]
pub struct IcebergDatumDecoder;

impl IcebergDatumDecoder {
    /// The value of the table format for a value of type `type_oid`.
    pub fn decode(type_oid: Oid, value: &PgDatum) -> (r: Result<Datum, IcebergTranslationError>)
        ensures
            datum_result(r) == decoded(type_oid, value@, read_decimal(value@)),
    {
        let parsed = match value {
            PgDatum::Numeric { normalized, .. } => parse_exact_decimal(normalized.as_str()),
            _ => None,
        };
        Self::decode_parsed(type_oid, value, parsed)
    }

    /// The value of the table format for a value of type `type_oid`, given the
    /// number that was read from a numeric's text.
    pub fn decode_parsed(type_oid: Oid, value: &PgDatum, parsed: Option<(i128, u32)>) -> (r: Result<
        Datum,
        IcebergTranslationError,
    >)
        ensures
            datum_result(r) == decoded(type_oid, value@, parsed),
    {
        if type_oid == INT2OID {
            match value {
                PgDatum::Int2(v) => Ok(Datum::Int(*v as i32)),
                _ => Err(IcebergTranslationError::DatumDecode { type_oid }),
            }
        } else if type_oid == INT4OID {
            match value {
                PgDatum::Int4(v) => Ok(Datum::Int(*v)),
                _ => Err(IcebergTranslationError::DatumDecode { type_oid }),
            }
        } else if type_oid == INT8OID {
            match value {
                PgDatum::Int8(v) => Ok(Datum::Long(*v)),
                _ => Err(IcebergTranslationError::DatumDecode { type_oid }),
            }
        } else if type_oid == NUMERICOID {
            match value {
                PgDatum::Numeric { nan, .. } => Self::decode_numeric(type_oid, *nan, parsed),
                _ => Err(IcebergTranslationError::DatumDecode { type_oid }),
            }
        } else if type_oid == DATEOID {
            match value {
                PgDatum::Date(days) => Self::decode_date(type_oid, *days),
                _ => Err(IcebergTranslationError::DatumDecode { type_oid }),
            }
        } else if type_oid == TIMESTAMPOID {
            match value {
                PgDatum::Timestamp(micros) => match Self::decode_micros(type_oid, *micros) {
                    Ok(v) => Ok(Datum::TimestampMicros(v)),
                    Err(e) => Err(e),
                },
                _ => Err(IcebergTranslationError::DatumDecode { type_oid }),
            }
        } else if type_oid == TIMESTAMPTZOID {
            match value {
                PgDatum::TimestampTz(micros) => match Self::decode_micros(type_oid, *micros) {
                    Ok(v) => Ok(Datum::TimestamptzMicros(v)),
                    Err(e) => Err(e),
                },
                _ => Err(IcebergTranslationError::DatumDecode { type_oid }),
            }
        } else if type_oid == TEXTOID || type_oid == VARCHAROID {
            match value {
                PgDatum::Text(v) => Ok(Datum::Text(v.clone())),
                _ => Err(IcebergTranslationError::DatumDecode { type_oid }),
            }
        } else {
            Err(IcebergTranslationError::UnsupportedType { type_oid })
        }
    }

    fn decode_numeric(type_oid: Oid, nan: bool, parsed: Option<(i128, u32)>) -> (r: Result<
        Datum,
        IcebergTranslationError,
    >)
        ensures
            datum_result(r) == match parsed {
                Some((mantissa, scale)) if !nan => Ok::<DatumView, IcebergTranslationError>(
                    DatumView::Decimal { mantissa, scale },
                ),
                _ => Err(IcebergTranslationError::ValueNotRepresentable { type_oid }),
            },
    {
        if nan {
            return Err(IcebergTranslationError::ValueNotRepresentable { type_oid });
        }
        match parsed {
            Some((mantissa, scale)) => Ok(Datum::Decimal { mantissa, scale }),
            None => Err(IcebergTranslationError::ValueNotRepresentable { type_oid }),
        }
    }

    fn decode_date(type_oid: Oid, days: i32) -> (r: Result<Datum, IcebergTranslationError>)
        ensures
            datum_result(r) == match unix_days(days) {
                Some(v) => Ok::<DatumView, IcebergTranslationError>(DatumView::Date(v)),
                None => Err(IcebergTranslationError::ValueNotRepresentable { type_oid }),
            },
    {
        if days == i32::MIN || days == i32::MAX {
            return Err(IcebergTranslationError::ValueNotRepresentable { type_oid });
        }
        match pg_epoch_days_to_unix_days(days) {
            Some(v) => Ok(Datum::Date(v)),
            None => Err(IcebergTranslationError::ValueNotRepresentable { type_oid }),
        }
    }

    fn decode_micros(type_oid: Oid, micros: i64) -> (r: Result<i64, IcebergTranslationError>)
        ensures
            r == match unix_micros(micros) {
                Some(v) => Ok::<i64, IcebergTranslationError>(v),
                None => Err(IcebergTranslationError::ValueNotRepresentable { type_oid }),
            },
    {
        if micros == i64::MIN || micros == i64::MAX {
            return Err(IcebergTranslationError::ValueNotRepresentable { type_oid });
        }
        match pg_epoch_micros_to_unix_micros(micros) {
            Some(v) => Ok(v),
            None => Err(IcebergTranslationError::ValueNotRepresentable { type_oid }),
        }
    }
}

/// The number that an integer of the server stands for.
pub open spec fn server_number(value: PgDatumView) -> int {
    match value {
        PgDatumView::Int2(v) => v as int,
        PgDatumView::Int4(v) => v as int,
        PgDatumView::Int8(v) => v as int,
        _ => 0,
    }
}

/// The number that an integer of the table format stands for.
pub open spec fn number_of(datum: DatumView) -> int {
    match datum {
        DatumView::Int(v) => v as int,
        DatumView::Long(v) => v as int,
        _ => 0,
    }
}

/// Whether a year of the Gregorian calendar has a leap day.
pub open spec fn is_leap_year(year: int) -> bool {
    year % 4 == 0 && (year % 100 != 0 || year % 400 == 0)
}

/// How many days lie between the start of 1970 and the start of a year.
pub open spec fn days_before_year(year: int) -> int
    decreases year - 1970,
{
    if year <= 1970 {
        0
    } else {
        days_before_year(year - 1) + if is_leap_year(year - 1) {
            366int
        } else {
            365int
        }
    }
}

/// How many microseconds a day has.
pub open spec fn micros_per_day() -> int {
    24int * 60 * 60 * 1_000_000
}

proof fn lemma_days_before_2000()
    ensures
        days_before_year(2000) == 10957,
{
    reveal_with_fuel(days_before_year, 31);
}

/// A value of the table format is the server's value: the same number, the same
/// text, the same decimal as was read, the same day, and the same point in time
/// with or without a time zone. The server counts from the start of 2000, the
/// table format from the start of 1970. Integers, text and finite times that
/// fit are always decoded.
pub proof fn decoded_values_are_the_server_values(
    type_oid: Oid,
    value: PgDatumView,
    parsed: Option<(i128, u32)>,
)
    ensures
        decoded(type_oid, value, parsed) matches Ok(datum) ==> match value {
            PgDatumView::Int2(v) => datum is Int && number_of(datum) == v,
            PgDatumView::Int4(v) => datum is Int && number_of(datum) == v,
            PgDatumView::Int8(v) => datum is Long && number_of(datum) == v,
            PgDatumView::Numeric { nan, .. } => !nan && parsed is Some && datum == (DatumView::Decimal {
                mantissa: parsed->Some_0.0,
                scale: parsed->Some_0.1,
            }),
            PgDatumView::Date(days) => i32::MIN < days < i32::MAX && datum is Date && datum->Date_0 == days
                + days_before_year(2000),
            PgDatumView::Timestamp(micros) => i64::MIN < micros < i64::MAX && datum is TimestampMicros
                && datum->TimestampMicros_0 == micros + days_before_year(2000) * micros_per_day(),
            PgDatumView::TimestampTz(micros) => i64::MIN < micros < i64::MAX
                && datum is TimestamptzMicros && datum->TimestamptzMicros_0 == micros + days_before_year(
                2000,
            ) * micros_per_day(),
            PgDatumView::Text(text) => datum == DatumView::Text(text),
            PgDatumView::Other => false,
        },
        decoded(type_oid, value, parsed) is Ok <== match value {
            PgDatumView::Int2(_) => type_oid == 21,
            PgDatumView::Int4(_) => type_oid == 23,
            PgDatumView::Int8(_) => type_oid == 20,
            PgDatumView::Numeric { nan, .. } => type_oid == 1700 && !nan && parsed is Some,
            PgDatumView::Date(days) => type_oid == 1082 && i32::MIN < days && days + days_before_year(2000)
                <= i32::MAX,
            PgDatumView::Timestamp(micros) => type_oid == 1114 && i64::MIN < micros && micros
                + days_before_year(2000) * micros_per_day() <= i64::MAX,
            PgDatumView::TimestampTz(micros) => type_oid == 1184 && i64::MIN < micros && micros
                + days_before_year(2000) * micros_per_day() <= i64::MAX,
            PgDatumView::Text(_) => type_oid == 25 || type_oid == 1043,
            PgDatumView::Other => false,
        },
{
    lemma_days_before_2000();
}

/// Dates and timestamps keep their order when they are decoded, so that a
/// bound that is pushed down leaves out no row that matches.
pub proof fn decoding_keeps_the_order_of_time(days_a: i32, days_b: i32, micros_a: i64, micros_b: i64)
    ensures
        unix_days(days_a) is Some && unix_days(days_b) is Some ==> (days_a < days_b <==> unix_days(
            days_a,
        )->Some_0 < unix_days(days_b)->Some_0),
        unix_micros(micros_a) is Some && unix_micros(micros_b) is Some ==> (micros_a < micros_b
            <==> unix_micros(micros_a)->Some_0 < unix_micros(micros_b)->Some_0),
{
}

} // verus!
