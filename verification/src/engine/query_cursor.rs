//! The order in which the rows of batches are emitted.
//!
//! A call for the next row alternates between decisions and outside work:
//! fetching a batch, emitting a row. The cursor decides; its driver performs
//! what it asks for and hands back what came of it, until the cursor says what
//! the call returns.

use vstd::prelude::*;

verus! {

/// What happened to a cursor.
#[derive(Debug)]
pub enum CursorEvent<E> {
    /// The next row is asked for.
    Called,
    /// The row was emitted, or that failed.
    Emitted(Result<(), E>),
    /// The next batch with this many rows was fetched, there was none, or that
    /// failed.
    Fetched(Result<Option<usize>, E>),
}

/// What to do next.
#[derive(Debug)]
pub enum CursorAction<E> {
    /// Emit this row of the current batch.
    Emit { row: usize },
    /// Fetch the next batch; the current one is used up.
    Fetch,
    /// The call is over: whether a row was emitted, or why it failed.
    Return(Result<bool, E>),
}

/// A cursor over batches: how many rows the current batch has, and which of
/// them is next.
#[derive(Debug, Clone, Copy)]
pub struct IcebergQueryCursor {
    current: Option<usize>,
    row_index: usize,
}

/// A cursor over batches.
pub struct CursorView {
    pub current: Option<usize>,
    pub row_index: usize,
}

impl View for IcebergQueryCursor {
    type V = CursorView;

    closed spec fn view(&self) -> CursorView {
        CursorView { current: self.current, row_index: self.row_index }
    }
}

impl CursorView {
    /// A cursor before its first batch.
    pub open spec fn blank() -> CursorView {
        CursorView { current: None, row_index: 0 }
    }

    /// Whether the current batch has a row left.
    pub open spec fn has_row(self) -> bool {
        self.current is Some && self.row_index < self.current->Some_0
    }

    /// What the cursor needs next, and the cursor that then waits for it.
    pub open spec fn stepped<E>(self) -> (CursorView, CursorAction<E>) {
        if self.has_row() {
            (self, CursorAction::Emit { row: self.row_index })
        } else {
            (CursorView { current: None, ..self }, CursorAction::Fetch)
        }
    }

    /// The cursor at the start of a batch.
    pub open spec fn bound(rows: usize) -> CursorView {
        CursorView { current: Some(rows), row_index: 0 }
    }

    /// The cursor after a row was emitted.
    pub open spec fn passed(self) -> CursorView {
        CursorView { row_index: (self.row_index + 1) as usize, ..self }
    }

    /// The cursor after an event, and what to do then. A row counts as emitted
    /// only where that succeeded; a failure ends the call.
    pub open spec fn answered<E>(self, event: CursorEvent<E>) -> (CursorView, CursorAction<E>) {
        match event {
            CursorEvent::Called => self.stepped(),
            CursorEvent::Emitted(Ok(_)) => (self.passed(), CursorAction::Return(Ok(true))),
            CursorEvent::Emitted(Err(e)) => (self, CursorAction::Return(Err(e))),
            CursorEvent::Fetched(Ok(Some(rows))) => CursorView::bound(rows).stepped(),
            CursorEvent::Fetched(Ok(None)) => (self, CursorAction::Return(Ok(false))),
            CursorEvent::Fetched(Err(e)) => (self, CursorAction::Return(Err(e))),
        }
    }
}

impl IcebergQueryCursor {
    /// A cursor before its first batch.
    pub fn new() -> (r: Self)
        ensures
            r@ == CursorView::blank(),
    {
        IcebergQueryCursor { current: None, row_index: 0 }
    }

    fn step<E>(&mut self) -> (r: CursorAction<E>)
        ensures
            (final(self)@, r) == old(self)@.stepped::<E>(),
    {
        if let Some(rows) = self.current {
            if self.row_index < rows {
                return CursorAction::Emit { row: self.row_index };
            }
        }
        self.current = None;
        CursorAction::Fetch
    }

    /// Takes what happened and says what to do next. A row can be emitted only
    /// where there is one.
    pub fn next_with<E>(&mut self, event: CursorEvent<E>) -> (r: CursorAction<E>)
        requires
            event is Emitted ==> old(self)@.has_row(),
        ensures
            (final(self)@, r) == old(self)@.answered(event),
    {
        match event {
            CursorEvent::Called => self.step(),
            CursorEvent::Emitted(Ok(_)) => {
                self.row_index = self.row_index + 1;
                CursorAction::Return(Ok(true))
            },
            CursorEvent::Emitted(Err(e)) => CursorAction::Return(Err(e)),
            CursorEvent::Fetched(Ok(Some(rows))) => {
                self.current = Some(rows);
                self.row_index = 0;
                self.step()
            },
            CursorEvent::Fetched(Ok(None)) => CursorAction::Return(Ok(false)),
            CursorEvent::Fetched(Err(e)) => CursorAction::Return(Err(e)),
        }
    }
}

// -- Laws ---------------------------------------------------------------------

/// Whether an event answers what the cursor asked for before it. A call comes
/// first or after another call returned.
pub open spec fn answers<E>(asked: Option<CursorAction<E>>, event: CursorEvent<E>) -> bool {
    match event {
        CursorEvent::Called => asked is None || asked->Some_0 is Return,
        CursorEvent::Emitted(_) => asked is Some && asked->Some_0 is Emit,
        CursorEvent::Fetched(_) => asked is Some && asked->Some_0 is Fetch,
    }
}

/// A scan: a cursor from its start on, the state before each event and after
/// the last, and what each event led to.
pub open spec fn is_scan<E>(
    states: Seq<CursorView>,
    events: Seq<CursorEvent<E>>,
    actions: Seq<CursorAction<E>>,
) -> bool {
    &&& states.len() == events.len() + 1
    &&& actions.len() == events.len()
    &&& states[0] == CursorView::blank()
    &&& forall|i: int|
        0 <= i < events.len() ==> (states[i + 1], actions[i]) == (#[trigger] states[i]).answered(
            events[i],
        )
    &&& forall|i: int|
        0 <= i < events.len() ==> answers(
            if i == 0 {
                None
            } else {
                Some(actions[i - 1])
            },
            #[trigger] events[i],
        )
}

/// How many rows each of the batches has that were fetched in the first `n`
/// events.
pub open spec fn fetched_batches<E>(events: Seq<CursorEvent<E>>, n: int) -> Seq<usize>
    decreases n,
{
    if n <= 0 {
        Seq::empty()
    } else {
        match events[n - 1] {
            CursorEvent::Fetched(Ok(Some(rows))) => fetched_batches(events, n - 1).push(rows),
            _ => fetched_batches(events, n - 1),
        }
    }
}

/// The rows that were emitted in the first `n` events, each by the number of
/// its batch and its place there.
pub open spec fn emitted_rows<E>(
    events: Seq<CursorEvent<E>>,
    actions: Seq<CursorAction<E>>,
    n: int,
) -> Seq<(int, int)>
    decreases n,
{
    if n <= 0 {
        Seq::empty()
    } else {
        match events[n - 1] {
            CursorEvent::Emitted(Ok(_)) => emitted_rows(events, actions, n - 1).push(
                (fetched_batches(events, n - 1).len() - 1, actions[n - 2]->row as int),
            ),
            _ => emitted_rows(events, actions, n - 1),
        }
    }
}

/// The first `n` rows of a batch.
pub open spec fn rows_of(batch: int, n: int) -> Seq<(int, int)>
    decreases n,
{
    if n <= 0 {
        Seq::empty()
    } else {
        rows_of(batch, n - 1).push((batch, n - 1))
    }
}

/// Every row of some batches, in order.
pub open spec fn all_rows(batches: Seq<usize>) -> Seq<(int, int)>
    decreases batches.len(),
{
    if batches.len() == 0 {
        Seq::empty()
    } else {
        all_rows(batches.drop_last()) + rows_of(batches.len() - 1, batches.last() as int)
    }
}

/// The rows that a cursor has emitted by the time it stands in the last of the
/// batches.
pub open spec fn rows_before(cursor: CursorView, batches: Seq<usize>) -> Seq<(int, int)> {
    if cursor.current is Some {
        all_rows(batches.drop_last()) + rows_of(batches.len() - 1, cursor.row_index as int)
    } else {
        all_rows(batches)
    }
}

/// Whether a cursor stands where the batches and the last action leave it.
spec fn stands_in<E>(cursor: CursorView, batches: Seq<usize>, asked: Option<CursorAction<E>>) -> bool {
    &&& cursor.current is Some ==> batches.len() > 0 && cursor.current->Some_0 == batches.last()
        && cursor.row_index <= batches.last()
    &&& asked matches Some(CursorAction::Emit { row }) ==> cursor.has_row() && row == cursor.row_index
    &&& asked matches Some(CursorAction::Fetch) ==> cursor.current is None
    &&& asked == Some(CursorAction::<E>::Return(Ok(false))) ==> cursor.current is None
}

proof fn lemma_scan<E>(
    states: Seq<CursorView>,
    events: Seq<CursorEvent<E>>,
    actions: Seq<CursorAction<E>>,
    n: int,
)
    requires
        is_scan(states, events, actions),
        0 <= n <= events.len(),
    ensures
        stands_in(
            states[n],
            fetched_batches(events, n),
            if n == 0 {
                None
            } else {
                Some(actions[n - 1])
            },
        ),
        emitted_rows(events, actions, n) == rows_before(states[n], fetched_batches(events, n)),
    decreases n,
{
    if n > 0 {
        lemma_scan(states, events, actions, n - 1);
        let before = states[n - 1];
        let event = events[n - 1];
        let batches = fetched_batches(events, n - 1);
        assert((states[n], actions[n - 1]) == before.answered(event));
        assert(answers(
            if n - 1 == 0 {
                None
            } else {
                Some(actions[n - 2])
            },
            event,
        ));
        match event {
            CursorEvent::Called => {
                if before.current is Some && !before.has_row() {
                    assert(rows_before(before, batches) =~= all_rows(batches));
                }
            },
            CursorEvent::Emitted(Ok(_)) => {
                assert(rows_before(before, batches).push((batches.len() - 1, before.row_index as int))
                    =~= rows_before(before.passed(), batches));
            },
            CursorEvent::Fetched(Ok(Some(rows))) => {
                let more = batches.push(rows);
                assert(more.drop_last() =~= batches);
                assert(rows_before(CursorView::bound(rows), more) =~= all_rows(batches));
                if rows == 0 {
                    assert(all_rows(more) =~= all_rows(batches));
                }
            },
            _ => {},
        }
    }
}

/// Over a whole scan, whatever fails and is called again, the rows of the
/// batches are emitted in order, each once, up to where the cursor stands. A
/// batch is left, and the end of the scan reached, only when all of them were
/// emitted; batches without rows are passed over.
pub proof fn each_row_is_emitted_once<E>(
    states: Seq<CursorView>,
    events: Seq<CursorEvent<E>>,
    actions: Seq<CursorAction<E>>,
    n: int,
)
    requires
        is_scan(states, events, actions),
        0 < n <= events.len(),
    ensures
        emitted_rows(events, actions, n) == rows_before(states[n], fetched_batches(events, n)),
        emitted_rows(events, actions, n).is_prefix_of(all_rows(fetched_batches(events, n))),
        actions[n - 1] is Fetch || actions[n - 1] == CursorAction::<E>::Return(Ok(false))
            ==> emitted_rows(events, actions, n) == all_rows(fetched_batches(events, n)),
        actions[n - 1] matches CursorAction::Emit { row } ==> {
            let next = emitted_rows(events, actions, n).len() as int;
            &&& next < all_rows(fetched_batches(events, n)).len()
            &&& all_rows(fetched_batches(events, n))[next] == (
                fetched_batches(events, n).len() - 1,
                row as int,
            )
        },
{
    lemma_scan(states, events, actions, n);
    let cursor = states[n];
    let batches = fetched_batches(events, n);
    if cursor.current is Some {
        lemma_rows_of(batches.len() - 1, cursor.row_index as int, batches.last() as int);
    }
}

/// Fewer rows of a batch are the beginning of more of them.
proof fn lemma_rows_of(batch: int, few: int, many: int)
    requires
        0 <= few <= many,
    ensures
        rows_of(batch, few).len() == few,
        rows_of(batch, many).len() == many,
        rows_of(batch, few) == rows_of(batch, many).take(few),
        few < many ==> rows_of(batch, many)[few] == (batch, few),
    decreases many,
{
    if few < many {
        lemma_rows_of(batch, few, many - 1);
        assert(rows_of(batch, few) =~= rows_of(batch, many).take(few));
    } else if many > 0 {
        lemma_rows_of(batch, many - 1, many - 1);
        assert(rows_of(batch, few) =~= rows_of(batch, many).take(few));
    } else {
        assert(rows_of(batch, few) =~= rows_of(batch, many).take(few));
    }
}

/// Whether some events are one call: it begins, everything that the cursor
/// asks for is answered, and it returns at the end and not before.
pub open spec fn is_call<E>(
    states: Seq<CursorView>,
    events: Seq<CursorEvent<E>>,
    actions: Seq<CursorAction<E>>,
) -> bool {
    &&& events.len() > 0
    &&& states.len() == events.len() + 1
    &&& actions.len() == events.len()
    &&& events[0] is Called
    &&& forall|i: int|
        0 <= i < events.len() ==> (states[i + 1], actions[i]) == (#[trigger] states[i]).answered(
            events[i],
        )
    &&& forall|i: int|
        0 < i < events.len() ==> answers(Some(actions[i - 1]), #[trigger] events[i]) && !(
        actions[i - 1] is Return)
    &&& actions.last() is Return
}

/// One call emits at most one row, as the last thing it does. It returns that
/// a row was emitted exactly when one was; at the end of the scan it emitted
/// none; and a failure is handed on as it came.
pub proof fn a_call_emits_at_most_one_row<E>(
    states: Seq<CursorView>,
    events: Seq<CursorEvent<E>>,
    actions: Seq<CursorAction<E>>,
)
    requires
        is_call(states, events, actions),
    ensures
        events.len() >= 2,
        forall|i: int|
            0 <= i < actions.len() && (#[trigger] actions[i]) is Emit ==> i == actions.len() - 2,
        match actions.last()->Return_0 {
            Ok(more) => if more {
                actions[actions.len() - 2] is Emit && events.last() matches CursorEvent::Emitted(Ok(_))
            } else {
                events.last() matches CursorEvent::Fetched(Ok(None)) && forall|i: int|
                    0 <= i < actions.len() ==> !((#[trigger] actions[i]) is Emit)
            },
            Err(e) => events.last() == CursorEvent::<E>::Emitted(Err(e)) || events.last()
                == CursorEvent::<E>::Fetched(Err(e)),
        },
        events.last() is Emitted <==> actions[actions.len() - 2] is Emit,
{
    let n = actions.len() as int;
    assert((states[1], actions[0]) == states[0].answered(events[0]));
    assert((states[n], actions[n - 1]) == states[n - 1].answered(events[n - 1]));
    assert(n >= 2);
    assert(answers(Some(actions[n - 2]), events[n - 1]));
    assert forall|i: int| 0 <= i < n && (#[trigger] actions[i]) is Emit implies i == n - 2 by {
        if i + 1 < n {
            assert(answers(Some(actions[i]), events[i + 1]));
            assert((states[i + 2], actions[i + 1]) == states[i + 1].answered(events[i + 1]));
            if i + 2 < n {
                assert(answers(Some(actions[i + 1]), events[i + 2]) && !(actions[i + 1] is Return));
            }
        }
    }
}

/// A row whose emission failed is emitted again by the next call.
pub proof fn a_failed_row_comes_again<E>(cursor: CursorView, error: E)
    requires
        cursor.has_row(),
    ensures
        ({
            let (after, action) = cursor.answered(CursorEvent::Emitted(Err(error)));
            &&& action == CursorAction::<E>::Return(Err(error))
            &&& after.answered(CursorEvent::<E>::Called) == (
                cursor,
                CursorAction::<E>::Emit { row: cursor.row_index },
            )
        }),
{
}

} // verus!
