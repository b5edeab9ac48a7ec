//! Conjunctions and disjunctions of several conditions.

use vstd::prelude::*;

use crate::customscan::predicate_translator::error::IcebergTranslationError;
use crate::customscan::predicate_translator::predicate::{
    Predicate, PredicateOperator, PredicateView, both, connectives_mean_what_they_say, either, holds,
};

verus! {

/// The conditions of some predicates.
pub open spec fn predicates(items: Seq<Predicate>) -> Seq<PredicateView> {
    Seq::new(items.len(), |i: int| items[i]@)
}

/// Conditions joined from the left, by conjunction or by disjunction.
pub open spec fn joined(items: Seq<PredicateView>, and: bool) -> PredicateView
    decreases items.len(),
{
    if items.len() <= 1 {
        items[0]
    } else if and {
        both(joined(items.drop_last(), and), items.last())
    } else {
        either(joined(items.drop_last(), and), items.last())
    }
}

/// The conditions joined from the left; nothing where there are none.
pub fn fold_left(items: Vec<Predicate>, and: bool) -> (r: Option<Predicate>)
    ensures
        r is None <==> items@.len() == 0,
        r is Some ==> r->Some_0@ == joined(predicates(items@), and),
{
    let ghost all = predicates(items@);
    let mut folded: Option<Predicate> = None;
    for item in it: items.into_iter()
        invariant
            it.seq() == items@,
            all == predicates(items@),
            folded is None <==> it.index() == 0,
            folded is Some ==> folded->Some_0@ == joined(all.take(it.index() as int), and),
    {
        proof {
            let n = it.index() as int;
            assert(item@ == all[n]);
            assert(all.take(n + 1).drop_last() =~= all.take(n));
            assert(all.take(n + 1).last() == all[n]);
        }
        folded = match folded {
            None => Some(item),
            Some(before) => if and {
                Some(before.and(item))
            } else {
                Some(before.or(item))
            },
        };
    }
    assert(all.take(items@.len() as int) =~= all);
    folded
}

/// The conditions joined from the left; there must be some.
pub fn fold_predicates(items: Vec<Predicate>, and: bool) -> (r: Result<
    Predicate,
    IcebergTranslationError,
>)
    ensures
        match r {
            Ok(p) => items@.len() > 0 && p@ == joined(predicates(items@), and),
            Err(e) => items@.len() == 0 && e == IcebergTranslationError::EmptyBoolExpr,
        },
{
    match fold_left(items, and) {
        Some(p) => Ok(p),
        None => Err(IcebergTranslationError::EmptyBoolExpr),
    }
}

/// The operator with its operands exchanged.
pub open spec fn mirrored(op: PredicateOperator) -> PredicateOperator {
    match op {
        PredicateOperator::LessThan => PredicateOperator::GreaterThan,
        PredicateOperator::LessThanOrEq => PredicateOperator::GreaterThanOrEq,
        PredicateOperator::GreaterThan => PredicateOperator::LessThan,
        PredicateOperator::GreaterThanOrEq => PredicateOperator::LessThanOrEq,
        _ => op,
    }
}

/// The operator with its operands exchanged.
pub fn mirror_operator(op: PredicateOperator) -> (r: PredicateOperator)
    ensures
        r == mirrored(op),
{
    match op {
        PredicateOperator::LessThan => PredicateOperator::GreaterThan,
        PredicateOperator::LessThanOrEq => PredicateOperator::GreaterThanOrEq,
        PredicateOperator::GreaterThan => PredicateOperator::LessThan,
        PredicateOperator::GreaterThanOrEq => PredicateOperator::LessThanOrEq,
        _ => op,
    }
}

/// Whether a comparison of two numbers holds.
pub open spec fn compares(op: PredicateOperator, a: int, b: int) -> bool {
    match op {
        PredicateOperator::LessThan => a < b,
        PredicateOperator::LessThanOrEq => a <= b,
        PredicateOperator::GreaterThan => a > b,
        PredicateOperator::GreaterThanOrEq => a >= b,
        PredicateOperator::Eq => a == b,
        PredicateOperator::NotEq => a != b,
        PredicateOperator::IsNull => false,
        PredicateOperator::NotNull => true,
    }
}

/// Exchanging operands twice changes nothing, and exchanging the operands of a
/// comparison along with its operator keeps its meaning.
pub proof fn mirroring_keeps_the_meaning(op: PredicateOperator, a: int, b: int)
    ensures
        mirrored(mirrored(op)) == op,
        compares(mirrored(op), b, a) == compares(op, a, b),
{
}

/// A conjunction holds when all of its conditions hold, and a disjunction when
/// one of them does.
pub proof fn joined_conditions_hold_together(
    items: Seq<PredicateView>,
    leaf: spec_fn(PredicateView) -> bool,
)
    requires
        items.len() > 0,
    ensures
        holds(joined(items, true), leaf) <==> forall|i: int|
            0 <= i < items.len() ==> holds(#[trigger] items[i], leaf),
        holds(joined(items, false), leaf) <==> exists|i: int|
            0 <= i < items.len() && holds(#[trigger] items[i], leaf),
    decreases items.len(),
{
    if items.len() > 1 {
        let rest = items.drop_last();
        let n = items.len() - 1;
        joined_conditions_hold_together(rest, leaf);
        connectives_mean_what_they_say(joined(rest, true), items.last(), leaf);
        connectives_mean_what_they_say(joined(rest, false), items.last(), leaf);
        assert forall|i: int| 0 <= i < rest.len() implies #[trigger] rest[i] == items[i] by {}
        assert(items.last() == items[n]);
        if holds(joined(items, true), leaf) {
            assert forall|i: int| 0 <= i < items.len() implies holds(#[trigger] items[i], leaf) by {
                if i < n {
                    assert(rest[i] == items[i]);
                }
            }
        } else if forall|i: int| 0 <= i < items.len() ==> holds(#[trigger] items[i], leaf) {
            assert forall|i: int| 0 <= i < rest.len() implies holds(#[trigger] rest[i], leaf) by {
                assert(holds(items[i], leaf));
            }
        }
        if exists|i: int| 0 <= i < items.len() && holds(#[trigger] items[i], leaf) {
            let i = choose|i: int| 0 <= i < items.len() && holds(#[trigger] items[i], leaf);
            if i < n {
                assert(holds(rest[i], leaf));
            }
        }
        if exists|i: int| 0 <= i < rest.len() && holds(#[trigger] rest[i], leaf) {
            let i = choose|i: int| 0 <= i < rest.len() && holds(#[trigger] rest[i], leaf);
            assert(holds(items[i], leaf));
        }
    } else {
        assert(items[0] == joined(items, true));
    }
}

} // verus!
