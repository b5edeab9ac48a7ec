//! Operands of conditions.

use vstd::prelude::*;

use crate::Oid;
use crate::customscan::predicate_translator::predicate::{Datum, DatumView, Reference};

verus! {

/// An operand: a column, a value, or NULL.
#[derive(Debug)]
pub enum IcebergScalar {
    Column { reference: Reference, atttypid: Oid },
    Datum(Datum),
    /// A literal or parameter that is NULL. A comparison with it never holds.
    Null { type_oid: Oid },
}

/// An operand: a column, a value, or NULL.
pub enum ScalarView {
    Column { name: Seq<char>, atttypid: Oid },
    Datum(DatumView),
    Null { type_oid: Oid },
}

impl View for IcebergScalar {
    type V = ScalarView;

    open spec fn view(&self) -> ScalarView {
        match *self {
            IcebergScalar::Column { reference, atttypid } => ScalarView::Column {
                name: reference.name@,
                atttypid,
            },
            IcebergScalar::Datum(datum) => ScalarView::Datum(datum@),
            IcebergScalar::Null { type_oid } => ScalarView::Null { type_oid },
        }
    }
}

/// The shape of an operand.
#[derive(Debug, Clone, Copy, PartialEq, Eq, Structural)]
pub enum ScalarKind {
    Column,
    Datum,
    Null,
}

/// The shape of an operand.
pub open spec fn kind_of(scalar: ScalarView) -> ScalarKind {
    match scalar {
        ScalarView::Column { .. } => ScalarKind::Column,
        ScalarView::Datum(_) => ScalarKind::Datum,
        ScalarView::Null { .. } => ScalarKind::Null,
    }
}

impl IcebergScalar {
    /// The shape of this operand.
    pub fn kind(&self) -> (r: ScalarKind)
        ensures
            r == kind_of(self@),
    {
        match self {
            IcebergScalar::Column { .. } => ScalarKind::Column,
            IcebergScalar::Datum(_) => ScalarKind::Datum,
            IcebergScalar::Null { .. } => ScalarKind::Null,
        }
    }
}

impl ScalarKind {
    /// The name of the shape.
    pub open spec fn named(self) -> Seq<char> {
        match self {
            ScalarKind::Column => "Column"@,
            ScalarKind::Datum => "Datum"@,
            ScalarKind::Null => "Null"@,
        }
    }

    /// The name of the shape.
    pub fn name(self) -> (r: &'static str)
        ensures
            r@ == self.named(),
    {
        match self {
            ScalarKind::Column => "Column",
            ScalarKind::Datum => "Datum",
            ScalarKind::Null => "Null",
        }
    }
}

} // verus!
