//! Scheduling of automatic maintenance.
//!
//! One catalog row per table holds when the table may next be tried, when it
//! was last tried and with what outcome. The functions here decide on rows that
//! were read and say what to write; reading and writing the table is left to
//! the caller.

use std::collections::{HashMap, HashSet};

use vstd::prelude::*;
use vstd::relations::sorted_by;
use vstd::seq_lib::lemma_sorted_unique;
use vstd::utf8::{decode_utf8, encode_scalar, encode_utf8, is_char_boundary};

use crate::Oid;
use crate::catalog::catalog_row::{
    CatalogCell, CatalogRow, CellView, RowView, TimestampTz, TupleFields, column_of, int4_of,
    null_row, oid_of, str_view, text_cell, text_cell_of, text_of, timestamptz_cell,
    timestamptz_cell_of, timestamptz_of, with_column,
};
use crate::error::{IcebergError, IcebergResult};
use crate::oids::INVALID_OID;
use crate::text::{decimal, decimal_text};

verus! {

broadcast use vstd::std_specs::hash::group_hash_axioms;

/// How many bytes of an error text are kept.
pub const MAX_ERROR_BYTES: usize = 2_048;

/// Number of the column that identifies the table.
pub const RELID: i16 = 1;

/// Number of the column that counts failures since the last success.
pub const CONSECUTIVE_FAILURES: i16 = 2;

/// Number of the column that holds when the table may next be tried.
pub const NEXT_ATTEMPT_AT: i16 = 3;

/// Number of the column that holds when the table was last tried.
pub const LAST_ATTEMPT_AT: i16 = 4;

/// Number of the column that holds when maintenance last succeeded.
pub const LAST_SUCCESS_AT: i16 = 5;

/// Number of the column that holds the outcome of the last attempt.
pub const LAST_OUTCOME: i16 = 6;

/// Number of the column that holds the error of the last attempt.
pub const LAST_ERROR: i16 = 7;

/// How many columns the table has.
pub const COLUMN_COUNT: usize = 7;

/// The kind of an ordinary table.
pub const RELKIND_RELATION: u8 = 114;

/// The kind of a materialized view.
pub const RELKIND_MATVIEW: u8 = 109;

// -- Candidates ---------------------------------------------------------------

/// A table that may be maintained. Tables that were never tried come first,
/// then those tried longest ago; a key that differs between servers breaks ties.
#[derive(Debug, Clone, Copy, PartialEq, Eq, Structural)]
pub struct SchedulingCandidate {
    pub last_attempt_at: Option<TimestampTz>,
    pub fairness_key: u64,
    pub relid: Oid,
}

/// Whether one time is before another; no time at all is before every time.
pub open spec fn time_less(a: Option<TimestampTz>, b: Option<TimestampTz>) -> bool {
    match (a, b) {
        (None, Some(_)) => true,
        (Some(x), Some(y)) => x < y,
        _ => false,
    }
}

/// Whether one candidate is to be tried before another.
pub open spec fn candidate_less(a: SchedulingCandidate, b: SchedulingCandidate) -> bool {
    if a.last_attempt_at != b.last_attempt_at {
        time_less(a.last_attempt_at, b.last_attempt_at)
    } else if a.fairness_key != b.fairness_key {
        a.fairness_key < b.fairness_key
    } else {
        a.relid < b.relid
    }
}

/// Whether some candidates are in the order in which they are to be tried.
pub open spec fn in_order(candidates: Seq<SchedulingCandidate>) -> bool {
    forall|i: int, j: int|
        0 <= i < j < candidates.len() ==> !candidate_less(
            #[trigger] candidates[j],
            #[trigger] candidates[i],
        )
}

/// Candidates in order, with one more at its place.
pub open spec fn ranked(
    candidates: Seq<SchedulingCandidate>,
    candidate: SchedulingCandidate,
) -> Seq<SchedulingCandidate>
    decreases candidates.len(),
{
    if candidates.len() == 0 || !candidate_less(candidate, candidates.last()) {
        candidates.push(candidate)
    } else {
        ranked(candidates.drop_last(), candidate).push(candidates.last())
    }
}

/// The first `limit` of some candidates.
pub open spec fn limited(
    candidates: Seq<SchedulingCandidate>,
    limit: usize,
) -> Seq<SchedulingCandidate> {
    if candidates.len() <= limit {
        candidates
    } else {
        candidates.take(limit as int)
    }
}

fn precedes(a: &SchedulingCandidate, b: &SchedulingCandidate) -> (r: bool)
    ensures
        r == candidate_less(*a, *b),
{
    match (a.last_attempt_at, b.last_attempt_at) {
        (None, Some(_)) => true,
        (Some(_), None) => false,
        (Some(x), Some(y)) if x != y => x < y,
        _ => if a.fairness_key != b.fairness_key {
            a.fairness_key < b.fairness_key
        } else {
            a.relid < b.relid
        },
    }
}

/// The best candidates so far, at most `limit` of them.
pub struct CandidateSet {
    limit: usize,
    candidates: Vec<SchedulingCandidate>,
}

/// The best candidates so far, in order, and how many are kept.
pub struct CandidateSetView {
    pub limit: usize,
    pub candidates: Seq<SchedulingCandidate>,
}

impl View for CandidateSet {
    type V = CandidateSetView;

    closed spec fn view(&self) -> CandidateSetView {
        CandidateSetView { limit: self.limit, candidates: self.candidates@ }
    }
}

impl CandidateSet {
    /// The candidates are in order and no more than the limit.
    pub open spec fn wf(self) -> bool {
        self@.candidates.len() <= self@.limit && in_order(self@.candidates)
    }

    /// No candidates yet.
    pub fn new(limit: usize) -> (r: Self)
        ensures
            r.wf(),
            r@ == (CandidateSetView { limit, candidates: Seq::empty() }),
    {
        let r = CandidateSet { limit, candidates: Vec::new() };
        assert(r@.candidates =~= Seq::empty());
        r
    }

    /// Takes a candidate among the best, if it is one of them.
    pub fn consider(&mut self, candidate: SchedulingCandidate)
        requires
            old(self).wf(),
        ensures
            final(self).wf(),
            final(self)@.limit == old(self)@.limit,
            final(self)@.candidates == limited(
                ranked(old(self)@.candidates, candidate),
                old(self)@.limit,
            ),
    {
        let ghost before = self.candidates@;
        proof {
            lemma_ranked(before, candidate);
        }
        let mut at: usize = self.candidates.len();
        assert(before.take(before.len() as int) =~= before);
        while at > 0 && precedes(&candidate, &self.candidates[at - 1])
            invariant
                at <= self.candidates@.len(),
                self.candidates@ == before,
                ranked(before, candidate) == ranked(before.take(at as int), candidate)
                    + before.skip(at as int),
            decreases at,
        {
            proof {
                let prefix = before.take(at as int);
                assert(prefix.drop_last() =~= before.take(at - 1));
                assert(prefix.last() == before[at - 1]);
                assert(ranked(before.take(at - 1), candidate).push(before[at - 1]) + before.skip(
                    at as int,
                ) =~= ranked(before.take(at - 1), candidate) + before.skip(at - 1));
            }
            at = at - 1;
        }
        self.candidates.insert(at, candidate);
        assert(self.candidates@ =~= ranked(before, candidate));
        if self.candidates.len() > self.limit {
            let ghost full = self.candidates@;
            self.candidates.truncate(self.limit);
            assert(self.candidates@ =~= full.take(self.limit as int));
        }
    }

    /// The tables of the best candidates, in the order in which they are to be
    /// tried.
    pub fn into_relations(self) -> (r: Vec<Oid>)
        ensures
            r@ == self@.candidates.map_values(|c: SchedulingCandidate| c.relid),
    {
        let mut relations: Vec<Oid> = Vec::new();
        let mut i: usize = 0;
        while i < self.candidates.len()
            invariant
                i <= self.candidates@.len(),
                relations@.len() == i,
                forall|k: int| 0 <= k < i ==> #[trigger] relations@[k] == self.candidates@[k].relid,
            decreases self.candidates@.len() - i,
        {
            relations.push(self.candidates[i].relid);
            i = i + 1;
        }
        assert(relations@ =~= self@.candidates.map_values(|c: SchedulingCandidate| c.relid));
        relations
    }
}

proof fn lemma_order(a: SchedulingCandidate, b: SchedulingCandidate, c: SchedulingCandidate)
    ensures
        !candidate_less(a, a),
        candidate_less(a, b) ==> !candidate_less(b, a),
        a != b ==> candidate_less(a, b) || candidate_less(b, a),
        candidate_less(a, b) && candidate_less(b, c) ==> candidate_less(a, c),
        !candidate_less(b, a) && !candidate_less(c, b) ==> !candidate_less(c, a),
{
}

/// What a candidate's arrival does: it joins the others, and order is kept.
proof fn lemma_ranked(candidates: Seq<SchedulingCandidate>, candidate: SchedulingCandidate)
    requires
        in_order(candidates),
    ensures
        in_order(ranked(candidates, candidate)),
        ranked(candidates, candidate).len() == candidates.len() + 1,
        forall|c: SchedulingCandidate|
            #[trigger] ranked(candidates, candidate).contains(c) <==> (candidates.contains(c) || c
                == candidate),
        ranked(candidates, candidate).last() == candidate || (candidates.len() > 0 && ranked(
            candidates,
            candidate,
        ).last() == candidates.last()),
    decreases candidates.len(),
{
    let after = ranked(candidates, candidate);
    if candidates.len() == 0 || !candidate_less(candidate, candidates.last()) {
        assert forall|i: int, j: int| 0 <= i < j < after.len() implies !candidate_less(
            #[trigger] after[j],
            #[trigger] after[i],
        ) by {
            if j == candidates.len() {
                lemma_order(candidates[i], candidates.last(), candidate);
                if i < candidates.len() - 1 {
                    assert(!candidate_less(candidates[candidates.len() - 1], candidates[i]));
                }
            } else {
                assert(!candidate_less(candidates[j], candidates[i]));
            }
        }
        assert forall|c: SchedulingCandidate| #[trigger] after.contains(c) <==> (candidates.contains(c)
            || c == candidate) by {
            lemma_push_contains(candidates, candidate, c);
        }
    } else {
        let shorter = candidates.drop_last();
        assert(in_order(shorter));
        lemma_ranked(shorter, candidate);
        let inner = ranked(shorter, candidate);
        let last = candidates.last();
        assert forall|i: int, j: int| 0 <= i < j < after.len() implies !candidate_less(
            #[trigger] after[j],
            #[trigger] after[i],
        ) by {
            if j == inner.len() {
                assert(inner.contains(inner[i]));
                if inner[i] == candidate {
                    lemma_order(candidate, last, last);
                } else {
                    let k = choose|k: int| 0 <= k < shorter.len() && shorter[k] == inner[i];
                    assert(!candidate_less(candidates[candidates.len() - 1], candidates[k]));
                }
            } else {
                assert(!candidate_less(inner[j], inner[i]));
            }
        }
        assert forall|c: SchedulingCandidate| #[trigger] after.contains(c) <==> (candidates.contains(c)
            || c == candidate) by {
            lemma_push_contains(inner, last, c);
            lemma_push_contains(shorter, last, c);
            assert(shorter.push(last) =~= candidates);
        }
    }
}

proof fn lemma_push_contains(
    candidates: Seq<SchedulingCandidate>,
    candidate: SchedulingCandidate,
    c: SchedulingCandidate,
)
    ensures
        candidates.push(candidate).contains(c) <==> (candidates.contains(c) || c == candidate),
{
    let after = candidates.push(candidate);
    if candidates.contains(c) {
        let k = choose|k: int| 0 <= k < candidates.len() && candidates[k] == c;
        assert(after[k] == c);
    }
    if c == candidate {
        assert(after[candidates.len() as int] == c);
    }
    if after.contains(c) {
        let k = choose|k: int| 0 <= k < after.len() && after[k] == c;
        if k < candidates.len() {
            assert(candidates[k] == c);
        }
    }
}

/// A key that orders tables differently under different seeds.
pub open spec fn fairness_key_of(relid: u32, seed: u64) -> u64 {
    let value = (relid as u64) ^ seed;
    value.wrapping_add(0x9e37_79b9_7f4a_7c15u64).wrapping_mul(0xbf58_476d_1ce4_e5b9u64) ^ ((value
        << 23u64) | (value >> 41u64))
}

/// A key that orders tables differently under different seeds.
pub fn fairness_key(relid: u32, seed: u64) -> (r: u64)
    ensures
        r == fairness_key_of(relid, seed),
{
    let value: u64 = (relid as u64) ^ seed;
    value.wrapping_add(0x9e37_79b9_7f4a_7c15u64).wrapping_mul(0xbf58_476d_1ce4_e5b9u64) ^ ((value
        << 23u64) | (value >> 41u64))
}

// -- Error texts --------------------------------------------------------------

/// The longest beginning of a text whose UTF-8 form takes at most `limit` bytes.
pub open spec fn is_longest_prefix(text: Seq<char>, limit: nat, kept: Seq<char>) -> bool {
    &&& kept.len() <= text.len()
    &&& kept == text.take(kept.len() as int)
    &&& encode_utf8(kept).len() <= limit
    &&& kept.len() < text.len() ==> encode_utf8(text.take(kept.len() as int + 1)).len() > limit
}

/// An error text, cut between characters where it is too long to be kept.
#[derive(Debug, Clone, Copy)]
pub struct BoundedErrorText<'a> {
    text: &'a str,
}

impl<'a> View for BoundedErrorText<'a> {
    type V = Seq<char>;

    closed spec fn view(&self) -> Seq<char> {
        self.text@
    }
}

impl<'a> BoundedErrorText<'a> {
    /// The part of an error text that is kept.
    pub fn new(error: &'a str) -> (r: Self)
        ensures
            is_longest_prefix(error@, MAX_ERROR_BYTES as nat, r@),
    {
        let length: usize = error.as_bytes().len();
        let ghost bytes = encode_utf8(error@);
        if length <= MAX_ERROR_BYTES {
            assert(error@.take(error@.len() as int) =~= error@);
            return BoundedErrorText { text: error };
        }
        proof {
            vstd::utf8::encode_utf8_valid_utf8(error@);
            vstd::utf8::is_char_boundary_start_end_of_seq(bytes);
        }
        let mut end: usize = MAX_ERROR_BYTES;
        while !error.is_char_boundary(end)
            invariant
                end <= MAX_ERROR_BYTES,
                bytes == encode_utf8(error@),
                is_char_boundary(bytes, 0),
                forall|k: int| end < k <= MAX_ERROR_BYTES ==> !#[trigger] is_char_boundary(bytes, k),
            decreases end,
        {
            end = end - 1;
        }
        let (kept, _) = error.split_at(end);
        proof {
            lemma_boundary_is_prefix(error@, end as int, kept@);
            if kept@.len() < error@.len() {
                let longer = error@.take(kept@.len() as int + 1);
                lemma_prefix_is_boundary(error@, kept@.len() as int + 1);
                lemma_prefix_grows(error@, kept@.len() as int);
                assert(kept@ == error@.take(kept@.len() as int));
                if encode_utf8(longer).len() <= MAX_ERROR_BYTES {
                    assert(!is_char_boundary(bytes, encode_utf8(longer).len() as int));
                }
            }
        }
        BoundedErrorText { text: kept }
    }

    /// The text.
    pub fn as_str(&self) -> (r: &str)
        ensures
            r@ == self@,
    {
        self.text
    }
}

proof fn lemma_boundary_is_prefix(text: Seq<char>, end: int, kept: Seq<char>)
    requires
        is_char_boundary(encode_utf8(text), end),
        0 <= end <= encode_utf8(text).len(),
        encode_utf8(kept) == encode_utf8(text).subrange(0, end),
    ensures
        kept.len() <= text.len(),
        kept == text.take(kept.len() as int),
        encode_utf8(kept).len() == end,
{
    let bytes = encode_utf8(text);
    vstd::utf8::encode_utf8_valid_utf8(text);
    vstd::utf8::decode_utf8_split(bytes, end);
    vstd::utf8::encode_utf8_decode_utf8(text);
    vstd::utf8::encode_utf8_decode_utf8(kept);
    let rest = decode_utf8(bytes.subrange(end, bytes.len() as int));
    assert(text == kept + rest);
    assert(kept =~= text.take(kept.len() as int));
}

proof fn lemma_prefix_is_boundary(text: Seq<char>, k: int)
    requires
        0 <= k <= text.len(),
    ensures
        is_char_boundary(encode_utf8(text), encode_utf8(text.take(k)).len() as int),
    decreases k,
{
    let bytes = encode_utf8(text);
    vstd::utf8::encode_utf8_valid_utf8(text);
    if k == 0 {
        assert(text.take(0) =~= Seq::empty());
    } else {
        let rest = text.drop_first();
        let prefix = text.take(k);
        assert(prefix.drop_first() =~= rest.take(k - 1));
        lemma_prefix_is_boundary(rest, k - 1);
        vstd::utf8::encode_utf8_first_scalar(text);
        assert(vstd::utf8::pop_first_scalar(bytes) =~= encode_utf8(rest));
        assert(encode_utf8(prefix) == encode_scalar(text[0] as u32) + encode_utf8(rest.take(k - 1)));
        lemma_prefix_length(rest, k - 1);
    }
}

proof fn lemma_prefix_length(text: Seq<char>, k: int)
    requires
        0 <= k <= text.len(),
    ensures
        encode_utf8(text.take(k)).len() <= encode_utf8(text).len(),
    decreases k,
{
    if k == 0 {
        assert(text.take(0) =~= Seq::empty());
    } else {
        assert(text.take(k).drop_first() =~= text.drop_first().take(k - 1));
        lemma_prefix_length(text.drop_first(), k - 1);
    }
}

proof fn lemma_prefix_grows(text: Seq<char>, k: int)
    requires
        0 <= k < text.len(),
    ensures
        encode_utf8(text.take(k)).len() < encode_utf8(text.take(k + 1)).len(),
    decreases k,
{
    if k == 0 {
        assert(text.take(0) =~= Seq::empty());
        vstd::utf8::encode_utf8_first_scalar(text.take(1));
    } else {
        assert(text.take(k).drop_first() =~= text.drop_first().take(k - 1));
        assert(text.take(k + 1).drop_first() =~= text.drop_first().take(k));
        lemma_prefix_grows(text.drop_first(), k - 1);
    }
}

// -- State rows ---------------------------------------------------------------

/// How an attempt that did not fail ended.
#[derive(Debug, Clone, Copy, PartialEq, Eq, Structural)]
pub enum AutomaticMaintenanceOutcome {
    LockSkipped,
    NoWork,
    Maintained,
}

impl AutomaticMaintenanceOutcome {
    /// The outcome as it is recorded.
    pub open spec fn recorded(self) -> Seq<char> {
        match self {
            AutomaticMaintenanceOutcome::LockSkipped => "lock-skipped"@,
            AutomaticMaintenanceOutcome::NoWork => "not-eligible"@,
            AutomaticMaintenanceOutcome::Maintained => "maintained"@,
        }
    }

    /// The outcome as it is recorded.
    pub fn label(self) -> (r: &'static str)
        ensures
            r@ == self.recorded(),
    {
        match self {
            AutomaticMaintenanceOutcome::LockSkipped => "lock-skipped",
            AutomaticMaintenanceOutcome::NoWork => "not-eligible",
            AutomaticMaintenanceOutcome::Maintained => "maintained",
        }
    }

    /// Whether the attempt looked at the table.
    pub fn completed(self) -> (r: bool)
        ensures
            r == (self != AutomaticMaintenanceOutcome::LockSkipped),
    {
        !matches!(self, AutomaticMaintenanceOutcome::LockSkipped)
    }
}

/// What is recorded of an attempt.
#[derive(Debug)]
pub struct StateRecord<'a> {
    pub relid: Oid,
    pub consecutive_failures: i32,
    pub next_attempt_at: TimestampTz,
    pub last_attempt_at: TimestampTz,
    pub last_success_at: Option<TimestampTz>,
    pub last_outcome: &'a str,
    pub last_error: Option<&'a str>,
}

/// What is recorded of an attempt.
pub struct StateView {
    pub relid: Oid,
    pub consecutive_failures: i32,
    pub next_attempt_at: TimestampTz,
    pub last_attempt_at: TimestampTz,
    pub last_success_at: Option<TimestampTz>,
    pub last_outcome: Seq<char>,
    pub last_error: Option<Seq<char>>,
}

impl<'a> View for StateRecord<'a> {
    type V = StateView;

    open spec fn view(&self) -> StateView {
        StateView {
            relid: self.relid,
            consecutive_failures: self.consecutive_failures,
            next_attempt_at: self.next_attempt_at,
            last_attempt_at: self.last_attempt_at,
            last_success_at: self.last_success_at,
            last_outcome: self.last_outcome@,
            last_error: str_view(self.last_error),
        }
    }
}

impl StateView {
    /// The cells of this record.
    pub open spec fn row(self) -> RowView {
        with_column(
            with_column(
                with_column(
                    with_column(
                        with_column(
                            with_column(
                                with_column(
                                    null_row(COLUMN_COUNT as nat),
                                    RELID,
                                    Some(CellView::Oid(self.relid)),
                                ),
                                CONSECUTIVE_FAILURES,
                                Some(CellView::Int4(self.consecutive_failures)),
                            ),
                            NEXT_ATTEMPT_AT,
                            Some(CellView::Timestamptz(self.next_attempt_at)),
                        ),
                        LAST_ATTEMPT_AT,
                        Some(CellView::Timestamptz(self.last_attempt_at)),
                    ),
                    LAST_SUCCESS_AT,
                    timestamptz_cell_of(self.last_success_at),
                ),
                LAST_OUTCOME,
                Some(CellView::Text(self.last_outcome)),
            ),
            LAST_ERROR,
            text_cell_of(self.last_error),
        )
    }
}

/// Whether a failure says that the table has an unexpected number of columns.
pub open spec fn reports_column_count(e: IcebergError, natts: usize) -> bool {
    e matches IcebergError::AutomaticMaintenanceCatalogInvalidRecord(text) && text@
        == "expected 7 columns, found "@ + decimal(natts as nat)
}

fn check_column_count(natts: usize) -> (r: IcebergResult<()>)
    ensures
        match r {
            Ok(_) => natts == COLUMN_COUNT,
            Err(e) => natts != COLUMN_COUNT && reports_column_count(e, natts),
        },
{
    if natts == COLUMN_COUNT {
        return Ok(());
    }
    let mut text = "expected 7 columns, found ".to_owned();
    let number = decimal_text(natts as u64);
    text.append(number.as_str());
    Err(IcebergError::AutomaticMaintenanceCatalogInvalidRecord(text))
}

impl<'a> StateRecord<'a> {
    /// The cells of this record in a table of `natts` columns.
    pub fn encode(&self, natts: usize) -> (r: IcebergResult<CatalogRow>)
        ensures
            match r {
                Ok(row) => natts == COLUMN_COUNT && row@ == self@.row(),
                Err(e) => natts != COLUMN_COUNT && reports_column_count(e, natts),
            },
    {
        match check_column_count(natts) {
            Ok(_) => {},
            Err(e) => {
                return Err(e);
            },
        }
        let mut fields = TupleFields::new(natts);
        fields.set(RELID, Some(CatalogCell::Oid(self.relid)));
        fields.set(CONSECUTIVE_FAILURES, Some(CatalogCell::Int4(self.consecutive_failures)));
        fields.set(NEXT_ATTEMPT_AT, Some(CatalogCell::Timestamptz(self.next_attempt_at)));
        fields.set(LAST_ATTEMPT_AT, Some(CatalogCell::Timestamptz(self.last_attempt_at)));
        fields.set(LAST_SUCCESS_AT, timestamptz_cell(self.last_success_at));
        fields.set(LAST_OUTCOME, text_cell(Some(self.last_outcome)));
        fields.set(LAST_ERROR, text_cell(self.last_error));
        Ok(fields.form_tuple())
    }
}

/// A row of the system's list of relations.
#[derive(Debug, Clone, Copy)]
pub struct ClassRow {
    pub oid: Oid,
    pub relam: Oid,
    pub relkind: u8,
}

/// When a table may next be tried, and when it was last tried.
#[derive(Debug, Clone, Copy)]
pub struct SchedulingState {
    pub next_attempt_at: TimestampTz,
    pub last_attempt_at: Option<TimestampTz>,
}

/// Which state rows to delete, and then which tables to try in which order, or
/// why that cannot be said.
#[derive(Debug)]
pub struct EligibleRelations {
    pub stale_rows: Vec<usize>,
    pub relations: IcebergResult<Vec<Oid>>,
}

/// What is to happen to the state row of a table.
#[derive(Debug)]
pub enum StateChange {
    Nothing,
    Delete,
    Update(CatalogRow),
    Insert(CatalogRow),
}

/// Whether a failure says that a required column has no usable value.
pub open spec fn reports_invalid_column(e: IcebergError, name: Seq<char>) -> bool {
    e matches IcebergError::AutomaticMaintenanceCatalogInvalidRecord(text) && text@ == name
        + " is null or undecodable"@
}

fn invalid_column(name: &'static str) -> (r: IcebergError)
    ensures
        reports_invalid_column(r, name@),
{
    let mut text = name.to_owned();
    text.append(" is null or undecodable");
    IcebergError::AutomaticMaintenanceCatalogInvalidRecord(text)
}

/// The state table of automatic maintenance and its key.
#[derive(Debug, Clone, Copy)]
pub struct AutomaticMaintenanceCatalog {
    pub table_oid: Oid,
    pub pkey_oid: Oid,
}

impl AutomaticMaintenanceCatalog {
    /// The state table, if the schema holds it and its key.
    pub fn locate(namespace: Oid, table_oid: Oid, pkey_oid: Oid) -> (r: Option<Self>)
        ensures
            r is Some <==> namespace != INVALID_OID && table_oid != INVALID_OID && pkey_oid
                != INVALID_OID,
            r is Some ==> r->Some_0.table_oid == table_oid && r->Some_0.pkey_oid == pkey_oid,
    {
        if namespace == INVALID_OID || table_oid == INVALID_OID || pkey_oid == INVALID_OID {
            None
        } else {
            Some(AutomaticMaintenanceCatalog { table_oid, pkey_oid })
        }
    }

    /// The state table, if it is there with the expected columns.
    pub fn open_if_available(located: Option<Self>, natts: usize) -> (r: IcebergResult<Option<Self>>)
        ensures
            match r {
                Ok(catalog) => catalog == located && (located is Some ==> natts == COLUMN_COUNT),
                Err(e) => located is Some && natts != COLUMN_COUNT && reports_column_count(e, natts),
            },
    {
        if located.is_none() {
            return Ok(None);
        }
        match check_column_count(natts) {
            Ok(_) => Ok(located),
            Err(e) => Err(e),
        }
    }

    /// The state table; its absence is a failure.
    pub fn open(located: Option<Self>, natts: usize) -> (r: IcebergResult<Self>)
        ensures
            match r {
                Ok(catalog) => located == Some(catalog) && natts == COLUMN_COUNT,
                Err(e) => if located is None {
                    e matches IcebergError::AutomaticMaintenanceCatalogInvalidRecord(text) && text@
                        == "automatic maintenance catalog is unavailable"@
                } else {
                    natts != COLUMN_COUNT && reports_column_count(e, natts)
                },
            },
    {
        match Self::open_if_available(located, natts) {
            Ok(Some(catalog)) => Ok(catalog),
            Ok(None) => Err(
                IcebergError::AutomaticMaintenanceCatalogInvalidRecord(
                    "automatic maintenance catalog is unavailable".to_owned(),
                ),
            ),
            Err(e) => Err(e),
        }
    }

    /// How often maintenance of a table failed since it last succeeded.
    pub fn consecutive_failures(found: Option<&CatalogRow>) -> (r: IcebergResult<u32>)
        ensures
            match r {
                Ok(failures) => match found {
                    None => failures == 0,
                    Some(row) => int4_of(row@, CONSECUTIVE_FAILURES) is Some && failures
                        == at_least_zero(int4_of(row@, CONSECUTIVE_FAILURES)->Some_0 as int),
                },
                Err(e) => found is Some && int4_of(found->Some_0@, CONSECUTIVE_FAILURES) is None
                    && reports_invalid_column(e, "consecutive_failures"@),
            },
    {
        let row = match found {
            None => {
                return Ok(0);
            },
            Some(row) => row,
        };
        match row.int4(CONSECUTIVE_FAILURES) {
            Some(failures) => if failures < 0 {
                Ok(0)
            } else {
                Ok(failures as u32)
            },
            None => Err(invalid_column("consecutive_failures")),
        }
    }

    /// When maintenance of a table last succeeded.
    pub fn last_success_at(found: Option<&CatalogRow>) -> (r: Option<TimestampTz>)
        ensures
            r == match found {
                Some(row) => timestamptz_of(row@, LAST_SUCCESS_AT),
                None => None,
            },
    {
        match found {
            Some(row) => row.timestamptz(LAST_SUCCESS_AT),
            None => None,
        }
    }

    /// What to record of an attempt that did not fail. One that was skipped
    /// keeps the time of the last success.
    pub fn record_success(
        relid: Oid,
        outcome: AutomaticMaintenanceOutcome,
        attempted_at: TimestampTz,
        next_attempt_at: TimestampTz,
        previous: Option<&CatalogRow>,
    ) -> (r: StateRecord<'static>)
        ensures
            r@ == (StateView {
                relid,
                consecutive_failures: 0,
                next_attempt_at,
                last_attempt_at: attempted_at,
                last_success_at: if outcome == AutomaticMaintenanceOutcome::LockSkipped {
                    recorded_success(previous)
                } else {
                    Some(attempted_at)
                },
                last_outcome: outcome.recorded(),
                last_error: None,
            }),
    {
        let last_success_at = if outcome.completed() {
            Some(attempted_at)
        } else {
            Self::last_success_at(previous)
        };
        StateRecord {
            relid,
            consecutive_failures: 0,
            next_attempt_at,
            last_attempt_at: attempted_at,
            last_success_at,
            last_outcome: outcome.label(),
            last_error: None,
        }
    }

    /// What to record of an attempt that failed.
    pub fn record_failure<'e>(
        relid: Oid,
        consecutive_failures: u32,
        error: &'e str,
        attempted_at: TimestampTz,
        next_attempt_at: TimestampTz,
        previous: Option<&CatalogRow>,
    ) -> (r: StateRecord<'e>)
        ensures
            r@.relid == relid,
            r@.consecutive_failures == if consecutive_failures <= i32::MAX {
                consecutive_failures as i32
            } else {
                i32::MAX
            },
            r@.next_attempt_at == next_attempt_at,
            r@.last_attempt_at == attempted_at,
            r@.last_success_at == recorded_success(previous),
            r@.last_outcome == "failed"@,
            r@.last_error is Some,
            is_longest_prefix(error@, MAX_ERROR_BYTES as nat, r@.last_error->Some_0),
    {
        let last_success_at = Self::last_success_at(previous);
        let bounded = BoundedErrorText::new(error);
        let failures: i32 = if consecutive_failures <= 0x7fff_ffff {
            consecutive_failures as i32
        } else {
            i32::MAX
        };
        StateRecord {
            relid,
            consecutive_failures: failures,
            next_attempt_at,
            last_attempt_at: attempted_at,
            last_success_at,
            last_outcome: "failed",
            last_error: Some(bounded.text),
        }
    }

    /// Whether a relation still is an Iceberg table or materialized view.
    pub fn is_live_iceberg_relation(relkind: u8, relam: Oid, iceberg_am: Option<Oid>) -> (r: bool)
        ensures
            r == ((relkind == RELKIND_RELATION || relkind == RELKIND_MATVIEW) && iceberg_am == Some(
                relam,
            )),
    {
        (relkind == RELKIND_RELATION || relkind == RELKIND_MATVIEW) && match iceberg_am {
            Some(am) => am == relam,
            None => false,
        }
    }

    /// How to write a record. The row of a relation that is gone is deleted
    /// instead, so that no row outlives its table.
    pub fn upsert(record: &StateRecord<'_>, live: bool, row_found: bool, natts: usize) -> (r:
        IcebergResult<StateChange>)
        ensures
            match r {
                Ok(StateChange::Nothing) => !live && !row_found,
                Ok(StateChange::Delete) => !live && row_found,
                Ok(StateChange::Update(row)) => live && row_found && natts == COLUMN_COUNT && row@
                    == record@.row(),
                Ok(StateChange::Insert(row)) => live && !row_found && natts == COLUMN_COUNT && row@
                    == record@.row(),
                Err(e) => live && natts != COLUMN_COUNT && reports_column_count(e, natts),
            },
    {
        if !live {
            return Ok(Self::delete_relation(row_found));
        }
        let new_tuple = match record.encode(natts) {
            Ok(row) => row,
            Err(e) => {
                return Err(e);
            },
        };
        if row_found {
            Ok(StateChange::Update(new_tuple))
        } else {
            Ok(StateChange::Insert(new_tuple))
        }
    }

    /// How to remove the row of a table.
    pub fn delete_relation(row_found: bool) -> (r: StateChange)
        ensures
            row_found ==> r is Delete,
            !row_found ==> r is Nothing,
    {
        if row_found {
            StateChange::Delete
        } else {
            StateChange::Nothing
        }
    }
}

/// A number, or zero where it is less.
pub open spec fn at_least_zero(n: int) -> int {
    if n < 0 {
        0
    } else {
        n
    }
}

/// When maintenance last succeeded, according to a row that may be absent.
pub open spec fn recorded_success(found: Option<&CatalogRow>) -> Option<TimestampTz> {
    match found {
        Some(row) => timestamptz_of(row@, LAST_SUCCESS_AT),
        None => None,
    }
}

// -- Eligible tables ----------------------------------------------------------

/// Whether a relation is an Iceberg table that can be maintained.
pub open spec fn is_maintainable(class: ClassRow, am: Oid) -> bool {
    class.relam == am && class.relkind == RELKIND_RELATION
}

/// Whether the list of relations holds a table that can be maintained.
pub open spec fn is_live(classes: Seq<ClassRow>, am: Oid, relid: Oid) -> bool {
    exists|i: int|
        0 <= i < classes.len() && (#[trigger] classes[i]).oid == relid && is_maintainable(
            classes[i],
            am,
        )
}

/// The required column in which a state row has no usable value, if any. The
/// rows of tables that are gone need no more than their table.
pub open spec fn invalid_in(classes: Seq<ClassRow>, am: Oid, row: RowView) -> Option<Seq<char>> {
    match oid_of(row, RELID) {
        None => Some("relid"@),
        Some(relid) => if is_live(classes, am, relid) && timestamptz_of(row, NEXT_ATTEMPT_AT) is None {
            Some("next_attempt_at"@)
        } else {
            None
        },
    }
}

/// Whether a state row is of a table that is gone.
pub open spec fn is_stale(classes: Seq<ClassRow>, am: Oid, row: RowView) -> bool {
    oid_of(row, RELID) is Some && !is_live(classes, am, oid_of(row, RELID)->Some_0)
}

/// What the state rows say of a table: the last row that names it.
pub open spec fn scheduled(rows: Seq<CatalogRow>, relid: Oid) -> Option<SchedulingState>
    decreases rows.len(),
{
    if rows.len() == 0 {
        None
    } else if oid_of(rows.last()@, RELID) == Some(relid) {
        Some(
            SchedulingState {
                next_attempt_at: timestamptz_of(rows.last()@, NEXT_ATTEMPT_AT)->Some_0,
                last_attempt_at: timestamptz_of(rows.last()@, LAST_ATTEMPT_AT),
            },
        )
    } else {
        scheduled(rows.drop_last(), relid)
    }
}

/// What a schedule rests on.
pub struct SchedulingInput {
    pub classes: Seq<ClassRow>,
    pub am: Oid,
    pub rows: Seq<CatalogRow>,
    pub now: TimestampTz,
    pub seed: u64,
}

impl SchedulingInput {
    /// Whether a table may be tried now.
    pub open spec fn is_eligible(self, relid: Oid) -> bool {
        is_live(self.classes, self.am, relid) && !(scheduled(self.rows, relid) is Some && scheduled(
            self.rows,
            relid,
        )->Some_0.next_attempt_at > self.now)
    }

    /// A table's place among the candidates.
    pub open spec fn candidate(self, relid: Oid) -> SchedulingCandidate {
        SchedulingCandidate {
            last_attempt_at: match scheduled(self.rows, relid) {
                Some(state) => state.last_attempt_at,
                None => None,
            },
            fairness_key: fairness_key_of(relid, self.seed),
            relid,
        }
    }

    /// Whether some tables are the first `limit` of those that may be tried
    /// now, in the order in which they are to be tried.
    pub open spec fn is_schedule(self, relations: Seq<Oid>, limit: usize) -> bool {
        &&& relations.len() <= limit
        &&& forall|i: int| 0 <= i < relations.len() ==> self.is_eligible(#[trigger] relations[i])
        &&& forall|i: int, j: int|
            0 <= i < j < relations.len() ==> candidate_less(
                self.candidate(#[trigger] relations[i]),
                self.candidate(#[trigger] relations[j]),
            )
        &&& forall|relid: Oid| #[trigger]
            self.is_eligible(relid) && !relations.contains(relid) ==> relations.len() == limit && (forall|
                i: int,
            |
                0 <= i < relations.len() ==> candidate_less(
                    self.candidate(#[trigger] relations[i]),
                    self.candidate(relid),
                ))
    }
}

/// The best candidates after all of some were considered.
pub open spec fn considered(offered: Seq<SchedulingCandidate>, limit: usize) -> Seq<SchedulingCandidate>
    decreases offered.len(),
{
    if offered.len() == 0 {
        Seq::empty()
    } else {
        limited(ranked(considered(offered.drop_last(), limit), offered.last()), limit)
    }
}

/// However candidates arrive, those that are kept are the first of them: a
/// candidate that is not kept comes before none that is, and is left out only
/// because enough are kept.
pub proof fn kept_candidates_are_the_first(offered: Seq<SchedulingCandidate>, limit: usize)
    ensures
        considered(offered, limit).len() == if offered.len() <= limit {
            offered.len()
        } else {
            limit as nat
        },
        in_order(considered(offered, limit)),
        forall|c: SchedulingCandidate| #[trigger]
            considered(offered, limit).contains(c) ==> offered.contains(c),
        forall|c: SchedulingCandidate, kept: SchedulingCandidate|
            #![trigger offered.contains(c), considered(offered, limit).contains(kept)]
            offered.contains(c) && !considered(offered, limit).contains(c) && considered(
                offered,
                limit,
            ).contains(kept) ==> candidate_less(kept, c),
        forall|c: SchedulingCandidate| #[trigger]
            offered.contains(c) && !considered(offered, limit).contains(c) ==> considered(
                offered,
                limit,
            ).len() == limit,
    decreases offered.len(),
{
    let kept = considered(offered, limit);
    if offered.len() > 0 {
        let earlier = offered.drop_last();
        let last = offered.last();
        kept_candidates_are_the_first(earlier, limit);
        let before = considered(earlier, limit);
        let all = ranked(before, last);
        lemma_ranked(before, last);
        assert(earlier.push(last) =~= offered);
        assert forall|c: SchedulingCandidate| #[trigger] kept.contains(c) implies all.contains(c) by {
            let k = choose|k: int| 0 <= k < kept.len() && kept[k] == c;
            assert(all[k] == c);
        }
        assert forall|c: SchedulingCandidate| #[trigger] kept.contains(c) implies offered.contains(c) by {
            assert(all.contains(c));
            lemma_push_contains(earlier, last, c);
        }
        assert forall|i: int, j: int| 0 <= i < j < kept.len() implies !candidate_less(
            #[trigger] kept[j],
            #[trigger] kept[i],
        ) by {
            assert(!candidate_less(all[j], all[i]));
        }
        assert forall|c: SchedulingCandidate, k: SchedulingCandidate|
            #![trigger offered.contains(c), kept.contains(k)]
            offered.contains(c) && !kept.contains(c) && kept.contains(k) implies candidate_less(k, c) by {
            lemma_push_contains(earlier, last, c);
            let at = choose|i: int| 0 <= i < kept.len() && kept[i] == k;
            assert(all[at] == k);
            if all.contains(c) {
                let q = choose|q: int| 0 <= q < all.len() && all[q] == c;
                if q < limit {
                    assert(kept[q] == c);
                }
                assert(at < limit <= q);
                assert(!candidate_less(all[q], all[at]));
                lemma_order(k, c, c);
            } else {
                assert(earlier.contains(c) && !before.contains(c));
                assert(all.contains(k));
                assert(before.len() == limit);
                if before.len() == 0 || !candidate_less(last, before.last()) {
                    assert(kept =~= before);
                } else if !before.contains(k) {
                    assert(before.contains(before.last()));
                    lemma_order(last, before.last(), c);
                }
            }
        }
        assert forall|c: SchedulingCandidate| #[trigger]
            offered.contains(c) && !kept.contains(c) implies kept.len() == limit by {
            lemma_push_contains(earlier, last, c);
            if all.len() <= limit {
                assert(kept == all);
                if earlier.contains(c) {
                    assert(!before.contains(c));
                    assert(before.len() == limit);
                }
            }
        }
    }
}

/// All of some candidates, in order.
spec fn all_ranked(offered: Seq<SchedulingCandidate>) -> Seq<SchedulingCandidate>
    decreases offered.len(),
{
    if offered.len() == 0 {
        Seq::empty()
    } else {
        ranked(all_ranked(offered.drop_last()), offered.last())
    }
}

/// A candidate that joins others is one more of them.
proof fn lemma_ranked_adds(candidates: Seq<SchedulingCandidate>, candidate: SchedulingCandidate)
    ensures
        ranked(candidates, candidate).to_multiset() == candidates.to_multiset().insert(candidate),
    decreases candidates.len(),
{
    broadcast use vstd::seq_lib::group_to_multiset_ensures;

    if candidates.len() > 0 && candidate_less(candidate, candidates.last()) {
        let shorter = candidates.drop_last();
        lemma_ranked_adds(shorter, candidate);
        assert(shorter.push(candidates.last()) =~= candidates);
        assert(shorter.to_multiset().insert(candidate).insert(candidates.last())
            =~= shorter.to_multiset().insert(candidates.last()).insert(candidate));
    }
}

/// What is cut off before a candidate joins is cut off after it as well.
proof fn lemma_limited_ranked(
    candidates: Seq<SchedulingCandidate>,
    candidate: SchedulingCandidate,
    limit: usize,
)
    requires
        in_order(candidates),
    ensures
        limited(ranked(limited(candidates, limit), candidate), limit) == limited(
            ranked(candidates, candidate),
            limit,
        ),
    decreases candidates.len(),
{
    if candidates.len() > limit {
        let kept = candidates.take(limit as int);
        let last = candidates.last();
        assert(in_order(kept));
        lemma_ranked(candidates, candidate);
        lemma_ranked(kept, candidate);
        if !candidate_less(candidate, last) {
            if limit > 0 {
                assert(!candidate_less(candidates[candidates.len() - 1], candidates[limit - 1]));
                lemma_order(kept.last(), last, candidate);
            }
            assert(ranked(kept, candidate) == kept.push(candidate));
            assert(kept.push(candidate).take(limit as int) =~= kept);
            assert(candidates.push(candidate).take(limit as int) =~= kept);
        } else {
            let shorter = candidates.drop_last();
            assert(in_order(shorter));
            lemma_limited_ranked(shorter, candidate, limit);
            lemma_ranked(shorter, candidate);
            assert(limited(shorter, limit) =~= kept);
            assert(ranked(candidates, candidate).take(limit as int) =~= ranked(shorter, candidate).take(
                limit as int,
            ));
        }
    }
}

/// What is kept of some candidates is the beginning of all of them in order.
proof fn lemma_kept_of_all(offered: Seq<SchedulingCandidate>, limit: usize)
    ensures
        in_order(all_ranked(offered)),
        all_ranked(offered).to_multiset() == offered.to_multiset(),
        considered(offered, limit) == limited(all_ranked(offered), limit),
    decreases offered.len(),
{
    broadcast use vstd::seq_lib::group_to_multiset_ensures;

    if offered.len() == 0 {
        assert(all_ranked(offered) =~= offered);
    } else {
        let earlier = offered.drop_last();
        let last = offered.last();
        lemma_kept_of_all(earlier, limit);
        lemma_ranked(all_ranked(earlier), last);
        lemma_ranked_adds(all_ranked(earlier), last);
        lemma_limited_ranked(all_ranked(earlier), last, limit);
        assert(earlier.push(last) =~= offered);
    }
}

/// The order in which candidates arrive is without influence: the same
/// candidates lead to the same schedule.
pub proof fn order_of_arrival_does_not_matter(
    a: Seq<SchedulingCandidate>,
    b: Seq<SchedulingCandidate>,
    limit: usize,
)
    requires
        a.to_multiset() == b.to_multiset(),
    ensures
        considered(a, limit) == considered(b, limit),
{
    lemma_kept_of_all(a, limit);
    lemma_kept_of_all(b, limit);
    let not_after = |x: SchedulingCandidate, y: SchedulingCandidate| !candidate_less(y, x);
    let x = all_ranked(a);
    let y = all_ranked(b);
    assert(sorted_by(x, not_after)) by {
        assert forall|i: int, j: int| 0 <= i < j < x.len() implies #[trigger] not_after(x[i], x[j]) by {
            assert(!candidate_less(x[j], x[i]));
        }
    }
    assert(sorted_by(y, not_after)) by {
        assert forall|i: int, j: int| 0 <= i < j < y.len() implies #[trigger] not_after(y[i], y[j]) by {
            assert(!candidate_less(y[j], y[i]));
        }
    }
    lemma_sorted_unique(x, y, not_after);
}

/// The live tables, each once.
fn live_relations(classes: &Vec<ClassRow>, am: Oid) -> (r: (HashSet<Oid>, Vec<Oid>))
    ensures
        forall|relid: Oid| #[trigger] r.0@.contains(relid) <==> is_live(classes@, am, relid),
        forall|relid: Oid| #[trigger] r.1@.contains(relid) <==> is_live(classes@, am, relid),
        r.1@.no_duplicates(),
{
    let mut live: HashSet<Oid> = HashSet::new();
    let mut listed: Vec<Oid> = Vec::new();
    let mut i: usize = 0;
    while i < classes.len()
        invariant
            i <= classes@.len(),
            forall|relid: Oid| #[trigger]
                live@.contains(relid) <==> is_live(classes@.take(i as int), am, relid),
            forall|relid: Oid| #[trigger] listed@.contains(relid) <==> live@.contains(relid),
            listed@.no_duplicates(),
        decreases classes@.len() - i,
    {
        let class = classes[i];
        let ghost before = listed@;
        let ghost known = live@;
        let ghost shorter = classes@.take(i as int);
        let ghost longer = classes@.take(i + 1);
        proof {
            assert(longer =~= shorter.push(class));
            assert forall|relid: Oid| #[trigger] is_live(longer, am, relid) <==> (is_live(
                shorter,
                am,
                relid,
            ) || (relid == class.oid && is_maintainable(class, am))) by {
                if is_live(shorter, am, relid) {
                    let k = choose|k: int|
                        0 <= k < shorter.len() && (#[trigger] shorter[k]).oid == relid
                            && is_maintainable(shorter[k], am);
                    assert(longer[k] == shorter[k]);
                }
                if relid == class.oid && is_maintainable(class, am) {
                    assert(longer[i as int] == class);
                }
                if is_live(longer, am, relid) {
                    let k = choose|k: int|
                        0 <= k < longer.len() && (#[trigger] longer[k]).oid == relid
                            && is_maintainable(longer[k], am);
                    if k < i {
                        assert(shorter[k] == longer[k]);
                    }
                }
            }
        }
        if class.relam == am && class.relkind == RELKIND_RELATION {
            if live.insert(class.oid) {
                listed.push(class.oid);
                proof {
                    assert(!before.contains(class.oid));
                    assert forall|relid: Oid| #[trigger] listed@.contains(relid) <==> (before.contains(
                        relid,
                    ) || relid == class.oid) by {
                        lemma_push_has(before, class.oid, relid);
                    }
                }
            }
            assert(live@ == known.insert(class.oid));
        }
        i = i + 1;
    }
    assert(classes@.take(classes@.len() as int) =~= classes@);
    (live, listed)
}

proof fn lemma_push_has(relations: Seq<Oid>, relid: Oid, wanted: Oid)
    ensures
        relations.push(relid).contains(wanted) <==> (relations.contains(wanted) || wanted == relid),
{
    let after = relations.push(relid);
    if relations.contains(wanted) {
        let k = choose|k: int| 0 <= k < relations.len() && relations[k] == wanted;
        assert(after[k] == wanted);
    }
    if wanted == relid {
        assert(after[relations.len() as int] == wanted);
    }
    if after.contains(wanted) {
        let k = choose|k: int| 0 <= k < after.len() && after[k] == wanted;
        if k < relations.len() {
            assert(relations[k] == wanted);
        }
    }
}

/// Whether some numbers ascend and are exactly the places of the stale rows
/// among the first `upto`.
pub open spec fn are_stale_rows(
    stale: Seq<usize>,
    classes: Seq<ClassRow>,
    am: Oid,
    rows: Seq<CatalogRow>,
    upto: int,
) -> bool {
    &&& forall|i: int, j: int| 0 <= i < j < stale.len() ==> #[trigger] stale[i] < #[trigger] stale[j]
    &&& forall|i: int|
        0 <= i < stale.len() ==> (#[trigger] stale[i]) < upto && is_stale(
            classes,
            am,
            rows[stale[i] as int]@,
        )
    &&& forall|k: usize|
        k < upto && is_stale(classes, am, (#[trigger] rows[k as int])@) ==> stale.contains(k)
}

/// Whether a map holds what the state rows say of the live tables.
spec fn holds_schedule(
    states: Map<Oid, SchedulingState>,
    classes: Seq<ClassRow>,
    am: Oid,
    rows: Seq<CatalogRow>,
) -> bool {
    forall|relid: Oid|
        is_live(classes, am, relid) ==> (if (#[trigger] states.contains_key(relid)) {
            scheduled(rows, relid) == Some(states[relid])
        } else {
            scheduled(rows, relid) is None
        })
}

fn read_states(
    Ghost(classes): Ghost<Seq<ClassRow>>,
    am: Oid,
    live: &HashSet<Oid>,
    rows: &Vec<CatalogRow>,
) -> (r: (Vec<usize>, IcebergResult<HashMap<Oid, SchedulingState>>))
    requires
        forall|relid: Oid| #[trigger] live@.contains(relid) <==> is_live(classes, am, relid),
    ensures
        match r.1 {
            Ok(states) => {
                &&& holds_schedule(states@, classes, am, rows@)
                &&& are_stale_rows(r.0@, classes, am, rows@, rows@.len() as int)
                &&& forall|k: int|
                    0 <= k < rows@.len() ==> invalid_in(classes, am, (#[trigger] rows@[k])@) is None
            },
            Err(e) => exists|k: int|
                #[trigger] refuses_row(classes, am, rows@, k, e) && are_stale_rows(
                    r.0@,
                    classes,
                    am,
                    rows@,
                    k,
                ),
        },
{
    let mut states: HashMap<Oid, SchedulingState> = HashMap::new();
    let mut stale: Vec<usize> = Vec::new();
    let mut i: usize = 0;
    assert(rows@.take(0) =~= Seq::empty());
    while i < rows.len()
        invariant
            i <= rows@.len(),
            forall|relid: Oid| #[trigger] live@.contains(relid) <==> is_live(classes, am, relid),
            holds_schedule(states@, classes, am, rows@.take(i as int)),
            are_stale_rows(stale@, classes, am, rows@, i as int),
            forall|k: int| 0 <= k < i ==> invalid_in(classes, am, (#[trigger] rows@[k])@) is None,
        decreases rows@.len() - i,
    {
        let row = &rows[i];
        let ghost known = states@;
        let ghost before = stale@;
        proof {
            assert(row@ == rows@[i as int]@);
            assert(rows@.take(i + 1).drop_last() =~= rows@.take(i as int));
            assert(rows@.take(i + 1).last() == rows@[i as int]);
        }
        let relid = match row.oid(RELID) {
            Some(relid) => relid,
            None => {
                let e = invalid_column("relid");
                assert(refuses_row(classes, am, rows@, i as int, e));
                return (stale, Err(e));
            },
        };
        if live.contains(&relid) {
            let next_attempt_at = match row.timestamptz(NEXT_ATTEMPT_AT) {
                Some(next_attempt_at) => next_attempt_at,
                None => {
                    let e = invalid_column("next_attempt_at");
                    assert(refuses_row(classes, am, rows@, i as int, e));
                    return (stale, Err(e));
                },
            };
            let last_attempt_at = row.timestamptz(LAST_ATTEMPT_AT);
            states.insert(relid, SchedulingState { next_attempt_at, last_attempt_at });
            assert forall|k: usize|
                k < i + 1 && is_stale(classes, am, (#[trigger] rows@[k as int])@) implies stale@.contains(
                k,
            ) by {
                assert(k != i);
            }
        } else {
            stale.push(i);
            assert forall|k: usize|
                k < i + 1 && is_stale(classes, am, (#[trigger] rows@[k as int])@) implies stale@.contains(
                k,
            ) by {
                if k == i {
                    assert(stale@[before.len() as int] == k);
                } else {
                    assert(before.contains(k));
                    let at = choose|at: int| 0 <= at < before.len() && before[at] == k;
                    assert(stale@[at] == k);
                }
            }
        }
        assert forall|other: Oid| is_live(classes, am, other) implies (if (#[trigger]
        states@.contains_key(other)) {
            scheduled(rows@.take(i + 1), other) == Some(states@[other])
        } else {
            scheduled(rows@.take(i + 1), other) is None
        }) by {
            assert(known.contains_key(other) || !known.contains_key(other));
        }
        i = i + 1;
    }
    assert(rows@.take(rows@.len() as int) =~= rows@);
    (stale, Ok(states))
}

/// Whether a failure is that of the first invalid state row, row `k`.
pub open spec fn refuses_row(
    classes: Seq<ClassRow>,
    am: Oid,
    rows: Seq<CatalogRow>,
    k: int,
    e: IcebergError,
) -> bool {
    &&& 0 <= k < rows.len()
    &&& forall|i: int| 0 <= i < k ==> invalid_in(classes, am, (#[trigger] rows[i])@) is None
    &&& invalid_in(classes, am, rows[k]@) is Some
    &&& reports_invalid_column(e, invalid_in(classes, am, rows[k]@)->Some_0)
}

impl AutomaticMaintenanceCatalog {
    /// The tables to try now, at most `limit` of them, and the state rows of
    /// tables that are gone. Tables that were never tried come first, then those
    /// tried longest ago; the seed breaks ties. A row that cannot be read leaves
    /// the tables unsaid, and of the stale rows those before it.
    pub fn eligible_relations(
        iceberg_am: Option<Oid>,
        classes: &Vec<ClassRow>,
        rows: &Vec<CatalogRow>,
        limit: usize,
        now: TimestampTz,
        backend_seed: u64,
    ) -> (r: EligibleRelations)
        ensures
            iceberg_am is None ==> r.stale_rows@.len() == 0,
            match r.relations {
                Ok(relations) => if iceberg_am is None {
                    relations@.len() == 0
                } else {
                    let am = iceberg_am->Some_0;
                    &&& forall|k: int|
                        0 <= k < rows@.len() ==> invalid_in(classes@, am, (#[trigger] rows@[k])@) is None
                    &&& are_stale_rows(
                        r.stale_rows@,
                        classes@,
                        am,
                        rows@,
                        rows@.len() as int,
                    )
                    &&& (SchedulingInput {
                        classes: classes@,
                        am,
                        rows: rows@,
                        now,
                        seed: backend_seed,
                    }).is_schedule(relations@, limit)
                },
                Err(e) => iceberg_am is Some && exists|k: int|
                    #[trigger] refuses_row(classes@, iceberg_am->Some_0, rows@, k, e) && are_stale_rows(
                        r.stale_rows@,
                        classes@,
                        iceberg_am->Some_0,
                        rows@,
                        k,
                    ),
            },
    {
        let am = match iceberg_am {
            Some(am) => am,
            None => {
                return EligibleRelations { stale_rows: Vec::new(), relations: Ok(Vec::new()) };
            },
        };
        let (live, listed) = live_relations(classes, am);
        let (stale_rows, read) = read_states(Ghost(classes@), am, &live, rows);
        let states = match read {
            Ok(states) => states,
            Err(e) => {
                return EligibleRelations { stale_rows, relations: Err(e) };
            },
        };
        let ghost input = SchedulingInput {
            classes: classes@,
            am,
            rows: rows@,
            now,
            seed: backend_seed,
        };
        let mut candidates = CandidateSet::new(limit);
        let ghost mut offered: Seq<SchedulingCandidate> = Seq::empty();
        let mut i: usize = 0;
        while i < listed.len()
            invariant
                i <= listed@.len(),
                input == (SchedulingInput {
                    classes: classes@,
                    am,
                    rows: rows@,
                    now,
                    seed: backend_seed,
                }),
                forall|relid: Oid| #[trigger] listed@.contains(relid) <==> is_live(classes@, am, relid),
                holds_schedule(states@, classes@, am, rows@),
                candidates.wf(),
                candidates@.limit == limit,
                candidates@.candidates == considered(offered, limit),
                listed@.no_duplicates(),
                forall|k: int|
                    0 <= k < i && input.is_eligible(#[trigger] listed@[k]) ==> offered.contains(
                        input.candidate(listed@[k]),
                    ),
                forall|c: SchedulingCandidate| #[trigger]
                    offered.contains(c) ==> input.is_eligible(c.relid) && c == input.candidate(c.relid)
                        && listed@.take(i as int).contains(c.relid),
                offered.no_duplicates(),
            decreases listed@.len() - i,
        {
            let relid = listed[i];
            let ghost before = offered;
            proof {
                assert(listed@.contains(relid));
                assert(is_live(classes@, am, relid));
                assert(states@.contains_key(relid) || !states@.contains_key(relid));
                assert forall|other: Oid| #[trigger] listed@.take(i as int).contains(other) implies listed@.take(
                i + 1).contains(other) by {
                    let k = choose|k: int| 0 <= k < i && listed@.take(i as int)[k] == other;
                    assert(listed@.take(i + 1)[k] == other);
                }
                assert(listed@.take(i + 1)[i as int] == relid);
            }
            let state = match states.get(&relid) {
                Some(state) => Some(*state),
                None => None,
            };
            assert(state == scheduled(rows@, relid));
            let waits = match state {
                Some(state) => state.next_attempt_at > now,
                None => false,
            };
            if !waits {
                let candidate = SchedulingCandidate {
                    last_attempt_at: match state {
                        Some(state) => state.last_attempt_at,
                        None => None,
                    },
                    fairness_key: fairness_key(relid, backend_seed),
                    relid,
                };
                candidates.consider(candidate);
                proof {
                    offered = before.push(candidate);
                    assert(offered.drop_last() =~= before);
                    assert forall|c: SchedulingCandidate| #[trigger] offered.contains(c) implies (
                    before.contains(c) || c == candidate) by {
                        lemma_push_contains(before, candidate, c);
                    }
                    assert forall|c: SchedulingCandidate| #[trigger] before.contains(c) implies offered.contains(
                    c) by {
                        lemma_push_contains(before, candidate, c);
                    }
                    lemma_push_contains(before, candidate, candidate);
                    if before.contains(candidate) {
                        let k = choose|k: int| 0 <= k < i && listed@.take(i as int)[k] == relid;
                        assert(listed@[k] == listed@[i as int]);
                    }
                }
            }
            i = i + 1;
        }
        proof {
            assert(listed@.take(listed@.len() as int) =~= listed@);
            lemma_schedule(input, offered, listed@, limit);
        }
        let relations = candidates.into_relations();
        EligibleRelations { stale_rows, relations: Ok(relations) }
    }
}

proof fn lemma_schedule(
    input: SchedulingInput,
    offered: Seq<SchedulingCandidate>,
    listed: Seq<Oid>,
    limit: usize,
)
    requires
        forall|relid: Oid| #[trigger]
            listed.contains(relid) <==> is_live(input.classes, input.am, relid),
        forall|k: int|
            0 <= k < listed.len() && input.is_eligible(#[trigger] listed[k]) ==> offered.contains(
                input.candidate(listed[k]),
            ),
        forall|c: SchedulingCandidate| #[trigger]
            offered.contains(c) ==> input.is_eligible(c.relid) && c == input.candidate(c.relid),
        offered.no_duplicates(),
    ensures
        input.is_schedule(
            considered(offered, limit).map_values(|c: SchedulingCandidate| c.relid),
            limit,
        ),
{
    let kept = considered(offered, limit);
    let relations = kept.map_values(|c: SchedulingCandidate| c.relid);
    kept_candidates_are_the_first(offered, limit);
    lemma_kept_once(offered, limit);
    assert forall|i: int| 0 <= i < relations.len() implies input.is_eligible(#[trigger] relations[i])
        && kept[i] == input.candidate(relations[i]) by {
        assert(kept.contains(kept[i]));
    }
    assert forall|i: int, j: int| 0 <= i < j < relations.len() implies candidate_less(
        input.candidate(#[trigger] relations[i]),
        input.candidate(#[trigger] relations[j]),
    ) by {
        assert(kept.contains(kept[i]) && kept.contains(kept[j]));
        assert(!candidate_less(kept[j], kept[i]));
        assert(kept[i] != kept[j]);
        lemma_order(kept[i], kept[j], kept[j]);
    }
    assert forall|relid: Oid| #[trigger]
        input.is_eligible(relid) && !relations.contains(relid) implies relations.len() == limit && (
    forall|i: int|
        0 <= i < relations.len() ==> candidate_less(
            input.candidate(#[trigger] relations[i]),
            input.candidate(relid),
        )) by {
        let c = input.candidate(relid);
        assert(listed.contains(relid));
        let k = choose|k: int| 0 <= k < listed.len() && listed[k] == relid;
        assert(input.is_eligible(listed[k]));
        assert(offered.contains(c));
        if kept.contains(c) {
            let at = choose|at: int| 0 <= at < kept.len() && kept[at] == c;
            assert(relations[at] == relid);
        }
        assert forall|i: int| 0 <= i < relations.len() implies candidate_less(
            input.candidate(#[trigger] relations[i]),
            c,
        ) by {
            assert(kept.contains(kept[i]));
            assert(kept[i] == input.candidate(relations[i]));
        }
    }
}

proof fn lemma_kept_once(offered: Seq<SchedulingCandidate>, limit: usize)
    requires
        offered.no_duplicates(),
    ensures
        considered(offered, limit).no_duplicates(),
    decreases offered.len(),
{
    if offered.len() > 0 {
        let earlier = offered.drop_last();
        lemma_kept_once(earlier, limit);
        kept_candidates_are_the_first(earlier, limit);
        let before = considered(earlier, limit);
        if before.contains(offered.last()) {
            assert(earlier.contains(offered.last()));
            let k = choose|k: int| 0 <= k < earlier.len() && earlier[k] == offered.last();
            assert(offered[k] == offered[offered.len() - 1]);
        }
        lemma_ranked_once(before, offered.last());
    }
}

proof fn lemma_ranked_once(candidates: Seq<SchedulingCandidate>, candidate: SchedulingCandidate)
    requires
        candidates.no_duplicates(),
        !candidates.contains(candidate),
        in_order(candidates),
    ensures
        ranked(candidates, candidate).no_duplicates(),
    decreases candidates.len(),
{
    if candidates.len() > 0 && candidate_less(candidate, candidates.last()) {
        let shorter = candidates.drop_last();
        let last = candidates.last();
        if shorter.contains(candidate) {
            let k = choose|k: int| 0 <= k < shorter.len() && shorter[k] == candidate;
            assert(candidates[k] == candidate);
        }
        lemma_ranked_once(shorter, candidate);
        lemma_ranked(shorter, candidate);
        let inner = ranked(shorter, candidate);
        assert(!inner.contains(last)) by {
            if shorter.contains(last) {
                let k = choose|k: int| 0 <= k < shorter.len() && shorter[k] == last;
                assert(candidates[k] == candidates[candidates.len() - 1]);
            }
            lemma_order(candidate, last, last);
        }
        assert forall|i: int, j: int| 0 <= i < j < inner.push(last).len() implies inner.push(last)[i]
            != inner.push(last)[j] by {
            assert(inner.contains(inner[i]));
        }
    } else {
        assert forall|i: int, j: int|
            0 <= i < j < candidates.push(candidate).len() implies candidates.push(candidate)[i]
            != candidates.push(candidate)[j] by {
            assert(candidates.contains(candidates[i]));
        }
    }
}

// -- Laws ---------------------------------------------------------------------

/// A record that was written reads back as it was.
pub proof fn written_record_reads_back(record: StateView)
    ensures
        oid_of(record.row(), RELID) == Some(record.relid),
        int4_of(record.row(), CONSECUTIVE_FAILURES) == Some(record.consecutive_failures),
        timestamptz_of(record.row(), NEXT_ATTEMPT_AT) == Some(record.next_attempt_at),
        timestamptz_of(record.row(), LAST_ATTEMPT_AT) == Some(record.last_attempt_at),
        timestamptz_of(record.row(), LAST_SUCCESS_AT) == record.last_success_at,
        text_of(record.row(), LAST_OUTCOME) == Some(record.last_outcome),
        text_of(record.row(), LAST_ERROR) == record.last_error,
{
    let row = record.row();
    assert(column_of(row, RELID) == Some(CellView::Oid(record.relid)));
    assert(column_of(row, CONSECUTIVE_FAILURES) == Some(CellView::Int4(record.consecutive_failures)));
    assert(column_of(row, NEXT_ATTEMPT_AT) == Some(CellView::Timestamptz(record.next_attempt_at)));
    assert(column_of(row, LAST_ATTEMPT_AT) == Some(CellView::Timestamptz(record.last_attempt_at)));
    assert(column_of(row, LAST_SUCCESS_AT) == timestamptz_cell_of(record.last_success_at));
    assert(column_of(row, LAST_OUTCOME) == Some(CellView::Text(record.last_outcome)));
    assert(column_of(row, LAST_ERROR) == text_cell_of(record.last_error));
}

/// A table whose state row was just written is not tried again before the
/// time that the row names, and its row never makes scheduling fail.
pub proof fn recorded_attempt_waits(input: SchedulingInput, row: CatalogRow, record: StateView)
    requires
        row@ == record.row(),
        record.next_attempt_at > input.now,
    ensures
        invalid_in(input.classes, input.am, row@) is None,
        !(SchedulingInput { rows: input.rows.push(row), ..input }).is_eligible(record.relid),
{
    written_record_reads_back(record);
    let rows = input.rows.push(row);
    assert(rows.last() == row);
}

/// Two schedules for the same input are the same: nothing about the order in
/// which tables were found matters.
pub proof fn schedule_is_unique(input: SchedulingInput, a: Seq<Oid>, b: Seq<Oid>, limit: usize)
    requires
        input.is_schedule(a, limit),
        input.is_schedule(b, limit),
    ensures
        a == b,
{
    lemma_schedule_prefix(input, a, b, limit);
    lemma_schedule_prefix(input, b, a, limit);
    assert(a =~= b);
}

/// As far as both go, two schedules agree, and neither is shorter.
proof fn lemma_schedule_prefix(input: SchedulingInput, a: Seq<Oid>, b: Seq<Oid>, limit: usize)
    requires
        input.is_schedule(a, limit),
        input.is_schedule(b, limit),
    ensures
        a.len() <= b.len(),
        forall|i: int| 0 <= i < a.len() ==> a[i] == b[i],
{
    lemma_schedule_upto(input, a, b, limit, a.len());
}

proof fn lemma_schedule_upto(input: SchedulingInput, a: Seq<Oid>, b: Seq<Oid>, limit: usize, n: nat)
    requires
        input.is_schedule(a, limit),
        input.is_schedule(b, limit),
        n <= a.len(),
    ensures
        n <= b.len(),
        forall|i: int| 0 <= i < n ==> a[i] == b[i],
    decreases n,
{
    if n > 0 {
        let m = (n - 1) as nat;
        lemma_schedule_upto(input, a, b, limit, m);
        let x = a[m as int];
        assert(input.is_eligible(x));
        if b.len() <= m {
            // Every table of `b` is among the first of `a`, so `b` lacks `x`.
            if b.contains(x) {
                let k = choose|k: int| 0 <= k < b.len() && b[k] == x;
                assert(a[k] == a[m as int]);
                lemma_order(input.candidate(a[k]), input.candidate(a[m as int]), input.candidate(x));
            }
            assert(b.len() == limit);
        } else {
            let y = b[m as int];
            assert(input.is_eligible(y));
            if x != y {
                let cx = input.candidate(x);
                let cy = input.candidate(y);
                lemma_order(cx, cy, cx);
                lemma_order(cy, cx, cy);
                if candidate_less(cx, cy) {
                    if b.contains(x) {
                        let k = choose|k: int| 0 <= k < b.len() && b[k] == x;
                        if k < m {
                            assert(a[k] == a[m as int]);
                            lemma_order(
                                input.candidate(a[k]),
                                input.candidate(a[m as int]),
                                input.candidate(x),
                            );
                        } else if k > m {
                            assert(candidate_less(input.candidate(b[m as int]), input.candidate(b[k])));
                        }
                    } else {
                        assert(candidate_less(input.candidate(b[m as int]), cx));
                    }
                } else {
                    if a.contains(y) {
                        let k = choose|k: int| 0 <= k < a.len() && a[k] == y;
                        if k < m {
                            assert(b[k] == b[m as int]);
                            lemma_order(
                                input.candidate(b[k]),
                                input.candidate(b[m as int]),
                                input.candidate(y),
                            );
                        } else if k > m {
                            assert(candidate_less(input.candidate(a[m as int]), input.candidate(a[k])));
                        }
                    } else {
                        assert(candidate_less(input.candidate(a[m as int]), cy));
                    }
                }
            }
        }
    }
}

/// Tables that were never tried come before those that were, and of those that
/// were, the ones tried longest ago come first; only among equals does the key
/// decide, and the table after it.
pub proof fn longest_waiting_tables_come_first(a: SchedulingCandidate, b: SchedulingCandidate)
    ensures
        a.last_attempt_at is None && b.last_attempt_at is Some ==> candidate_less(a, b)
            && !candidate_less(b, a),
        a.last_attempt_at is Some && b.last_attempt_at is Some && a.last_attempt_at->Some_0
            < b.last_attempt_at->Some_0 ==> candidate_less(a, b) && !candidate_less(b, a),
        a.last_attempt_at == b.last_attempt_at && a.fairness_key < b.fairness_key ==> candidate_less(a, b),
        a.last_attempt_at == b.last_attempt_at && a.fairness_key == b.fairness_key && a.relid < b.relid
            ==> candidate_less(a, b),
{
}

/// A live table is tried once the time that its newest state row names has
/// come, and takes its place by when it was last tried; without a state row it
/// is tried at once, as one that was never tried.
pub proof fn waiting_tables_become_eligible(
    input: SchedulingInput,
    row: CatalogRow,
    record: StateView,
    relid: Oid,
)
    requires
        row@ == record.row(),
        is_live(input.classes, input.am, record.relid),
    ensures
        ({
            let later = SchedulingInput { rows: input.rows.push(row), ..input };
            &&& later.is_eligible(record.relid) <==> record.next_attempt_at <= input.now
            &&& later.candidate(record.relid).last_attempt_at == Some(record.last_attempt_at)
            &&& later.candidate(record.relid).relid == record.relid
            &&& relid != record.relid ==> (later.is_eligible(relid) <==> input.is_eligible(relid))
                && later.candidate(relid) == input.candidate(relid)
        }),
{
    written_record_reads_back(record);
    let rows = input.rows.push(row);
    assert(rows.last() == row);
    assert(rows.drop_last() =~= input.rows);
}

/// A live table without a state row is eligible, as one that was never tried.
pub proof fn untried_tables_are_eligible(input: SchedulingInput, relid: Oid)
    requires
        is_live(input.classes, input.am, relid),
        forall|k: int| 0 <= k < input.rows.len() ==> oid_of((#[trigger] input.rows[k])@, RELID) != Some(relid),
    ensures
        input.is_eligible(relid),
        input.candidate(relid).last_attempt_at is None,
{
    lemma_unscheduled(input.rows, relid);
}

proof fn lemma_unscheduled(rows: Seq<CatalogRow>, relid: Oid)
    requires
        forall|k: int| 0 <= k < rows.len() ==> oid_of((#[trigger] rows[k])@, RELID) != Some(relid),
    ensures
        scheduled(rows, relid) is None,
    decreases rows.len(),
{
    if rows.len() > 0 {
        assert(oid_of(rows[rows.len() - 1]@, RELID) != Some(relid));
        assert forall|k: int| 0 <= k < rows.drop_last().len() implies oid_of(
            (#[trigger] rows.drop_last()[k])@,
            RELID,
        ) != Some(relid) by {
            assert(rows.drop_last()[k] == rows[k]);
        }
        lemma_unscheduled(rows.drop_last(), relid);
    }
}

/// The state row of a table that is gone, or that is no table of the access
/// method any more, is swept; that of a live table is not.
pub proof fn only_rows_of_lost_tables_are_swept(
    classes: Seq<ClassRow>,
    am: Oid,
    row: CatalogRow,
    record: StateView,
)
    requires
        row@ == record.row(),
    ensures
        is_stale(classes, am, row@) <==> !(exists|i: int|
            0 <= i < classes.len() && (#[trigger] classes[i]).oid == record.relid && classes[i].relam == am
                && classes[i].relkind == 'r' as u8),
{
    written_record_reads_back(record);
    if is_live(classes, am, record.relid) {
        let i = choose|i: int|
            0 <= i < classes.len() && (#[trigger] classes[i]).oid == record.relid && is_maintainable(
                classes[i],
                am,
            );
        assert(classes[i].relkind == 'r' as u8);
    }
}

/// The outcomes of an attempt are recorded under different labels, none of them
/// that of a failure.
pub proof fn outcomes_can_be_told_apart(
    a: AutomaticMaintenanceOutcome,
    b: AutomaticMaintenanceOutcome,
)
    ensures
        a.recorded() == b.recorded() ==> a == b,
        a.recorded() != "failed"@,
{
    reveal_strlit("lock-skipped");
    reveal_strlit("not-eligible");
    reveal_strlit("maintained");
    reveal_strlit("failed");
    assert("lock-skipped"@[0] == 'l');
    assert("not-eligible"@[0] == 'n');
    assert("maintained"@[0] == 'm');
    assert("failed"@[0] == 'f');
}

/// The columns of a state row stand in this order: the table, its failures in a
/// row, when it may be tried, when it was tried, when that succeeded, how it
/// ended and why.
pub proof fn columns_stand_in_their_places(record: StateView)
    ensures
        record.row().len() == 7,
        record.row()[0] == Some(CellView::Oid(record.relid)),
        record.row()[1] == Some(CellView::Int4(record.consecutive_failures)),
        record.row()[2] == Some(CellView::Timestamptz(record.next_attempt_at)),
        record.row()[3] == Some(CellView::Timestamptz(record.last_attempt_at)),
        record.row()[4] == timestamptz_cell_of(record.last_success_at),
        record.row()[5] == Some(CellView::Text(record.last_outcome)),
        record.row()[6] == text_cell_of(record.last_error),
{
}

} // verus!
