//! Conditions as the table format understands them.

use vstd::prelude::*;

verus! {

/// A column of the table, by name.
#[derive(Debug, PartialEq, Eq)]
pub struct Reference {
    pub name: String,
}

/// A value of the table format.
#[derive(Debug, PartialEq, Eq)]
pub enum Datum {
    Int(i32),
    Long(i64),
    /// The number `mantissa / 10^scale`.
    Decimal { mantissa: i128, scale: u32 },
    /// Days since the start of 1970.
    Date(i32),
    /// Microseconds since the start of 1970, without a time zone.
    TimestampMicros(i64),
    /// Microseconds since the start of 1970, in UTC.
    TimestamptzMicros(i64),
    Text(String),
}

/// A value of the table format.
pub enum DatumView {
    Int(i32),
    Long(i64),
    Decimal { mantissa: i128, scale: u32 },
    Date(i32),
    TimestampMicros(i64),
    TimestamptzMicros(i64),
    Text(Seq<char>),
}

impl View for Datum {
    type V = DatumView;

    open spec fn view(&self) -> DatumView {
        match *self {
            Datum::Int(v) => DatumView::Int(v),
            Datum::Long(v) => DatumView::Long(v),
            Datum::Decimal { mantissa, scale } => DatumView::Decimal { mantissa, scale },
            Datum::Date(v) => DatumView::Date(v),
            Datum::TimestampMicros(v) => DatumView::TimestampMicros(v),
            Datum::TimestamptzMicros(v) => DatumView::TimestamptzMicros(v),
            Datum::Text(v) => DatumView::Text(v@),
        }
    }
}

impl Clone for Datum {
    fn clone(&self) -> (r: Datum)
        ensures
            r@ == self@,
    {
        match self {
            Datum::Int(v) => Datum::Int(*v),
            Datum::Long(v) => Datum::Long(*v),
            Datum::Decimal { mantissa, scale } => Datum::Decimal { mantissa: *mantissa, scale: *scale },
            Datum::Date(v) => Datum::Date(*v),
            Datum::TimestampMicros(v) => Datum::TimestampMicros(*v),
            Datum::TimestamptzMicros(v) => Datum::TimestamptzMicros(*v),
            Datum::Text(v) => Datum::Text(v.clone()),
        }
    }
}

/// An operator of the table format.
#[derive(Debug, Clone, Copy, PartialEq, Eq, Structural)]
pub enum PredicateOperator {
    IsNull,
    NotNull,
    LessThan,
    LessThanOrEq,
    GreaterThan,
    GreaterThanOrEq,
    Eq,
    NotEq,
}

/// A condition on a row.
#[derive(Debug, PartialEq, Eq)]
pub enum Predicate {
    AlwaysTrue,
    AlwaysFalse,
    And(Box<Predicate>, Box<Predicate>),
    Or(Box<Predicate>, Box<Predicate>),
    Not(Box<Predicate>),
    Unary { op: PredicateOperator, term: Reference },
    Binary { op: PredicateOperator, term: Reference, literal: Datum },
}

/// A condition on a row.
pub enum PredicateView {
    AlwaysTrue,
    AlwaysFalse,
    And(Box<PredicateView>, Box<PredicateView>),
    Or(Box<PredicateView>, Box<PredicateView>),
    Not(Box<PredicateView>),
    Unary { op: PredicateOperator, column: Seq<char> },
    Binary { op: PredicateOperator, column: Seq<char>, literal: DatumView },
}

impl Predicate {
    /// The condition.
    pub open spec fn view(self) -> PredicateView
        decreases self,
    {
        match self {
            Predicate::AlwaysTrue => PredicateView::AlwaysTrue,
            Predicate::AlwaysFalse => PredicateView::AlwaysFalse,
            Predicate::And(a, b) => PredicateView::And(Box::new(a.view()), Box::new(b.view())),
            Predicate::Or(a, b) => PredicateView::Or(Box::new(a.view()), Box::new(b.view())),
            Predicate::Not(a) => PredicateView::Not(Box::new(a.view())),
            Predicate::Unary { op, term } => PredicateView::Unary { op, column: term.name@ },
            Predicate::Binary { op, term, literal } => PredicateView::Binary {
                op,
                column: term.name@,
                literal: literal@,
            },
        }
    }
}

impl Clone for Predicate {
    fn clone(&self) -> (r: Predicate)
        ensures
            r@ == self@,
        decreases self,
    {
        match self {
            Predicate::AlwaysTrue => Predicate::AlwaysTrue,
            Predicate::AlwaysFalse => Predicate::AlwaysFalse,
            Predicate::And(a, b) => Predicate::And(Box::new((**a).clone()), Box::new((**b).clone())),
            Predicate::Or(a, b) => Predicate::Or(Box::new((**a).clone()), Box::new((**b).clone())),
            Predicate::Not(a) => Predicate::Not(Box::new((**a).clone())),
            Predicate::Unary { op, term } => Predicate::Unary {
                op: *op,
                term: Reference { name: term.name.clone() },
            },
            Predicate::Binary { op, term, literal } => Predicate::Binary {
                op: *op,
                term: Reference { name: term.name.clone() },
                literal: literal.clone(),
            },
        }
    }
}

/// Both conditions. One that never holds absorbs the other, and one that always
/// holds leaves it alone.
pub open spec fn both(a: PredicateView, b: PredicateView) -> PredicateView {
    if a is AlwaysFalse || b is AlwaysFalse {
        PredicateView::AlwaysFalse
    } else if a is AlwaysTrue {
        b
    } else if b is AlwaysTrue {
        a
    } else {
        PredicateView::And(Box::new(a), Box::new(b))
    }
}

/// Either condition. One that always holds absorbs the other, and one that
/// never holds leaves it alone.
pub open spec fn either(a: PredicateView, b: PredicateView) -> PredicateView {
    if a is AlwaysTrue || b is AlwaysTrue {
        PredicateView::AlwaysTrue
    } else if a is AlwaysFalse {
        b
    } else if b is AlwaysFalse {
        a
    } else {
        PredicateView::Or(Box::new(a), Box::new(b))
    }
}

impl Predicate {
    /// Both conditions.
    pub fn and(self, other: Predicate) -> (r: Predicate)
        ensures
            r@ == both(self@, other@),
    {
        match (self, other) {
            (Predicate::AlwaysFalse, _) => Predicate::AlwaysFalse,
            (_, Predicate::AlwaysFalse) => Predicate::AlwaysFalse,
            (Predicate::AlwaysTrue, rhs) => rhs,
            (lhs, Predicate::AlwaysTrue) => lhs,
            (lhs, rhs) => Predicate::And(Box::new(lhs), Box::new(rhs)),
        }
    }

    /// Either condition.
    pub fn or(self, other: Predicate) -> (r: Predicate)
        ensures
            r@ == either(self@, other@),
    {
        match (self, other) {
            (Predicate::AlwaysTrue, _) => Predicate::AlwaysTrue,
            (_, Predicate::AlwaysTrue) => Predicate::AlwaysTrue,
            (Predicate::AlwaysFalse, rhs) => rhs,
            (lhs, Predicate::AlwaysFalse) => lhs,
            (lhs, rhs) => Predicate::Or(Box::new(lhs), Box::new(rhs)),
        }
    }

    /// The opposite condition, as it stands.
    pub fn negated(self) -> (r: Predicate)
        ensures
            r@ == PredicateView::Not(Box::new(self@)),
    {
        Predicate::Not(Box::new(self))
    }
}

impl Reference {
    /// A column of the table.
    pub fn new(name: String) -> (r: Self)
        ensures
            r.name@ == name@,
    {
        Reference { name }
    }

    /// A comparison of this column with a value.
    pub fn compared(self, op: PredicateOperator, literal: Datum) -> (r: Predicate)
        ensures
            r@ == (PredicateView::Binary { op, column: self.name@, literal: literal@ }),
    {
        Predicate::Binary { op, term: self, literal }
    }

    /// A test of this column for NULL.
    pub fn tested(self, op: PredicateOperator) -> (r: Predicate)
        ensures
            r@ == (PredicateView::Unary { op, column: self.name@ }),
    {
        Predicate::Unary { op, term: self }
    }
}

/// Whether a condition holds, given which comparisons and tests hold.
pub open spec fn holds(p: PredicateView, leaf: spec_fn(PredicateView) -> bool) -> bool
    decreases p,
{
    match p {
        PredicateView::AlwaysTrue => true,
        PredicateView::AlwaysFalse => false,
        PredicateView::And(a, b) => holds(*a, leaf) && holds(*b, leaf),
        PredicateView::Or(a, b) => holds(*a, leaf) || holds(*b, leaf),
        PredicateView::Not(a) => !holds(*a, leaf),
        PredicateView::Unary { .. } => leaf(p),
        PredicateView::Binary { .. } => leaf(p),
    }
}

/// Simplification keeps the meaning of a conjunction and of a disjunction.
pub proof fn connectives_mean_what_they_say(
    a: PredicateView,
    b: PredicateView,
    leaf: spec_fn(PredicateView) -> bool,
)
    ensures
        holds(both(a, b), leaf) == (holds(a, leaf) && holds(b, leaf)),
        holds(either(a, b), leaf) == (holds(a, leaf) || holds(b, leaf)),
{
}

/// A condition that never holds absorbs every conjunction and disappears from
/// every disjunction.
pub proof fn never_composes(x: PredicateView)
    ensures
        both(PredicateView::AlwaysFalse, x) == PredicateView::AlwaysFalse,
        both(x, PredicateView::AlwaysFalse) == PredicateView::AlwaysFalse,
        either(PredicateView::AlwaysFalse, x) == x,
        either(x, PredicateView::AlwaysFalse) == x,
{
}

} // verus!
