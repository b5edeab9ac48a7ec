//! Why a condition cannot be expressed for the table format.

use vstd::prelude::*;

use crate::Oid;
use crate::customscan::predicate_translator::scalar::ScalarKind;
use crate::text::{decimal, decimal_text, signed_decimal, signed_decimal_text};

verus! {

/// Why a condition cannot be expressed for the table format.
#[allow(inconsistent_fields)]
#[derive(Debug, PartialEq, Eq)]
pub enum IcebergTranslationError {
    /// The catalog has no name for the column.
    ColumnLookupFailed { rel_oid: Oid, attno: i16 },
    /// The column's name is not valid UTF-8.
    ColumnNameNotUtf8 { rel_oid: Oid, attno: i16, cause: String },
    /// The column is a system column or the whole row.
    SystemOrWholeRowColumn { rel_oid: Oid, attno: i16 },
    /// The comparison is not between a column and a value.
    ComparisonShape { left: ScalarKind, right: ScalarKind },
    /// A test for NULL of something that is not a column.
    NullTestOnNonColumn,
    /// The operator is not known.
    UnsupportedOperator { opno: Oid, opcollid: Oid, inputcollid: Oid },
    /// The type is not supported.
    UnsupportedType { type_oid: Oid },
    /// The value has no counterpart in the table format.
    ValueNotRepresentable { type_oid: Oid },
    /// The value is not of its type.
    DatumDecode { type_oid: Oid },
    /// An empty conjunction or disjunction.
    EmptyBoolExpr,
}

impl IcebergTranslationError {
    /// What the error says.
    pub open spec fn text(self) -> Seq<char> {
        match self {
            IcebergTranslationError::ColumnLookupFailed { rel_oid, attno } => {
                "iceberg-am translator: get_attname returned NULL for (rel_oid="@ + decimal(
                    rel_oid as nat,
                ) + ", attno="@ + signed_decimal(attno as int) + ")"@
            },
            IcebergTranslationError::ColumnNameNotUtf8 { rel_oid, attno, cause } => {
                "iceberg-am translator: column name for (rel_oid="@ + decimal(rel_oid as nat)
                    + ", attno="@ + signed_decimal(attno as int) + ") is not valid UTF-8: "@ + cause@
            },
            IcebergTranslationError::SystemOrWholeRowColumn { rel_oid, attno } => {
                "iceberg-am translator: refusing to translate system / whole-row column (rel_oid="@
                    + decimal(rel_oid as nat) + ", attno="@ + signed_decimal(attno as int) + ")"@
            },
            IcebergTranslationError::ComparisonShape { left, right } => {
                "iceberg-am translator: comparison expects column op literal/param; got left="@
                    + left.named() + ", right="@ + right.named()
            },
            IcebergTranslationError::NullTestOnNonColumn => {
                "iceberg-am translator: IS NULL / IS NOT NULL is only supported on a column term"@
            },
            IcebergTranslationError::UnsupportedOperator { opno, opcollid, inputcollid } => {
                "iceberg-am translator: unsupported operator triple (opno="@ + decimal(opno as nat)
                    + ", opcollid="@ + decimal(opcollid as nat) + ", inputcollid="@ + decimal(
                    inputcollid as nat,
                ) + ")"@
            },
            IcebergTranslationError::UnsupportedType { type_oid } => {
                "iceberg-am translator: unsupported PG type OID "@ + decimal(type_oid as nat)
            },
            IcebergTranslationError::ValueNotRepresentable { type_oid } => {
                "iceberg-am translator: value of PG type OID "@ + decimal(type_oid as nat)
                    + " is not representable as an iceberg Datum (dropped to residual)"@
            },
            IcebergTranslationError::DatumDecode { type_oid } => {
                "iceberg-am translator: failed to decode PG Datum for type OID "@ + decimal(
                    type_oid as nat,
                )
            },
            IcebergTranslationError::EmptyBoolExpr => {
                "iceberg-am translator: AND/OR called with an empty children list"@
            },
        }
    }

    /// What the error says.
    pub fn message(&self) -> (r: String)
        ensures
            r@ == self.text(),
    {
        match self {
            IcebergTranslationError::ColumnLookupFailed { rel_oid, attno } => {
                let mut r = "iceberg-am translator: get_attname returned NULL for (rel_oid=".to_owned();
                append_column(&mut r, *rel_oid, *attno);
                r.append(")");
                r
            },
            IcebergTranslationError::ColumnNameNotUtf8 { rel_oid, attno, cause } => {
                let mut r = "iceberg-am translator: column name for (rel_oid=".to_owned();
                append_column(&mut r, *rel_oid, *attno);
                r.append(") is not valid UTF-8: ");
                r.append(cause.as_str());
                r
            },
            IcebergTranslationError::SystemOrWholeRowColumn { rel_oid, attno } => {
                let mut r =
                    "iceberg-am translator: refusing to translate system / whole-row column (rel_oid=".to_owned();
                append_column(&mut r, *rel_oid, *attno);
                r.append(")");
                r
            },
            IcebergTranslationError::ComparisonShape { left, right } => {
                let mut r =
                    "iceberg-am translator: comparison expects column op literal/param; got left=".to_owned();
                r.append(left.name());
                r.append(", right=");
                r.append(right.name());
                r
            },
            IcebergTranslationError::NullTestOnNonColumn => {
                "iceberg-am translator: IS NULL / IS NOT NULL is only supported on a column term".to_owned()
            },
            IcebergTranslationError::UnsupportedOperator { opno, opcollid, inputcollid } => {
                let mut r = "iceberg-am translator: unsupported operator triple (opno=".to_owned();
                append_number(&mut r, *opno);
                r.append(", opcollid=");
                append_number(&mut r, *opcollid);
                r.append(", inputcollid=");
                append_number(&mut r, *inputcollid);
                r.append(")");
                r
            },
            IcebergTranslationError::UnsupportedType { type_oid } => {
                let mut r = "iceberg-am translator: unsupported PG type OID ".to_owned();
                append_number(&mut r, *type_oid);
                r
            },
            IcebergTranslationError::ValueNotRepresentable { type_oid } => {
                let mut r = "iceberg-am translator: value of PG type OID ".to_owned();
                append_number(&mut r, *type_oid);
                r.append(" is not representable as an iceberg Datum (dropped to residual)");
                r
            },
            IcebergTranslationError::DatumDecode { type_oid } => {
                let mut r = "iceberg-am translator: failed to decode PG Datum for type OID ".to_owned();
                append_number(&mut r, *type_oid);
                r
            },
            IcebergTranslationError::EmptyBoolExpr => {
                "iceberg-am translator: AND/OR called with an empty children list".to_owned()
            },
        }
    }
}

fn append_number(text: &mut String, n: u32)
    ensures
        final(text)@ == old(text)@ + decimal(n as nat),
{
    let number = decimal_text(n as u64);
    text.append(number.as_str());
}

fn append_column(text: &mut String, rel_oid: Oid, attno: i16)
    ensures
        final(text)@ == old(text)@ + decimal(rel_oid as nat) + ", attno="@ + signed_decimal(attno as int),
{
    append_number(text, rel_oid);
    text.append(", attno=");
    let number = signed_decimal_text(attno as i64);
    text.append(number.as_str());
}

} // verus!
