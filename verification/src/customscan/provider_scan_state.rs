//! The course of a custom scan that answers a query.

use vstd::prelude::*;

use crate::customscan::predicate_translator::fold::{fold_left, joined, predicates};
use crate::customscan::predicate_translator::predicate::{Predicate, PredicateView};

verus! {

/// All of the conditions that were pushed down; nothing where there are none.
pub fn combine_with_and(items: Vec<Predicate>) -> (r: Option<Predicate>)
    ensures
        r is None <==> items@.len() == 0,
        r is Some ==> r->Some_0@ == joined(predicates(items@), true),
{
    fold_left(items, true)
}

/// The conjunction of some conditions; nothing where there are none.
pub open spec fn conjunction(items: Seq<Predicate>) -> Option<PredicateView> {
    if items.len() == 0 {
        None
    } else {
        Some(joined(predicates(items), true))
    }
}

/// The view of a condition that may be absent.
pub open spec fn filter_view(filter: Option<Predicate>) -> Option<PredicateView> {
    match filter {
        Some(p) => Some(p@),
        None => None,
    }
}

/// A custom scan that answers a query: whether it was begun, and whether it
/// has a cursor.
#[derive(Debug, Clone, Copy, PartialEq, Eq, Structural)]
pub struct IcebergScanState {
    pub begun: bool,
    pub cursor: bool,
}

/// What to do about the filter and the cursor of a scan that starts over.
#[derive(Debug)]
pub struct RescanPlan {
    /// The new filter, where parameters changed.
    pub filter: Option<Option<Predicate>>,
    /// Whether to open a cursor.
    pub open_cursor: bool,
}

impl IcebergScanState {
    /// A scan that was not begun.
    pub fn new() -> (r: Self)
        ensures
            r == (IcebergScanState { begun: false, cursor: false }),
    {
        IcebergScanState { begun: false, cursor: false }
    }

    /// The filter with which the scan begins. The scan is as it was until its
    /// cursor is open.
    pub fn begin(&self, pushed: Vec<Predicate>) -> (r: Option<Predicate>)
        ensures
            filter_view(r) == conjunction(pushed@),
    {
        combine_with_and(pushed)
    }

    /// Takes note that the scan began with a cursor.
    pub fn began(&mut self)
        ensures
            *final(self) == (IcebergScanState { begun: true, cursor: true }),
    {
        self.begun = true;
        self.cursor = true;
    }

    /// Takes note that a cursor was opened.
    pub fn cursor_opened(&mut self)
        ensures
            *final(self) == (IcebergScanState { cursor: true, ..*old(self) }),
    {
        self.cursor = true;
    }

    /// Whether there is a cursor that can emit the next row.
    pub fn next_slot(&self) -> (r: bool)
        ensures
            r == self.cursor,
    {
        self.cursor
    }

    /// How to start over. The filter is replaced where parameters changed; a
    /// scan that was begun gets a new cursor, and keeps the earlier one until
    /// that is open.
    pub fn rescan(&self, params_changed: bool, pushed: Vec<Predicate>) -> (r: RescanPlan)
        ensures
            r.open_cursor == self.begun,
            r.filter is Some <==> self.begun && params_changed,
            r.filter is Some ==> filter_view(r.filter->Some_0) == conjunction(pushed@),
    {
        if !self.begun {
            return RescanPlan { filter: None, open_cursor: false };
        }
        let filter = if params_changed {
            Some(combine_with_and(pushed))
        } else {
            None
        };
        RescanPlan { filter, open_cursor: true }
    }

    /// Ends the scan.
    pub fn end(&mut self)
        ensures
            *final(self) == (IcebergScanState { begun: false, cursor: false }),
    {
        self.cursor = false;
        self.begun = false;
    }
}

} // verus!
