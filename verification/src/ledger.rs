//! The mathematical journal: a sequence of workflow logs, what each operation
//! makes of it, and the laws that every reachable journal obeys.

use crate::event::{EventView, PayloadView};
use crate::llm::ResponseView;
use crate::row::{ChangeView, LogView, RowView, WorkflowStatus};
use serde_json::Value;
use vstd::prelude::*;

verus! {

// ---------------------------------------------------------------------------
// Well-formed ledgers
// ---------------------------------------------------------------------------

/// Whether the ledger has a workflow of this id.
pub open spec fn holds(ledger: Seq<LogView>, id: Seq<char>) -> bool {
    exists|i: int| 0 <= i < ledger.len() && (#[trigger] ledger[i]).row.id == id
}

/// The place of the workflow of this id.
pub open spec fn slot(ledger: Seq<LogView>, id: Seq<char>) -> int {
    choose|i: int| 0 <= i < ledger.len() && (#[trigger] ledger[i]).row.id == id
}

/// The log of a workflow, where the ledger has one.
pub open spec fn log_of(ledger: Seq<LogView>, id: Seq<char>) -> Option<LogView> {
    if holds(ledger, id) {
        Some(ledger[slot(ledger, id)])
    } else {
        None
    }
}

/// The events of a workflow; none where the ledger does not have it.
pub open spec fn events_of(ledger: Seq<LogView>, id: Seq<char>) -> Seq<EventView> {
    match log_of(ledger, id) {
        Some(log) => log.events,
        None => Seq::empty(),
    }
}

/// Sequence numbers strictly increase along the log.
pub open spec fn ordered(events: Seq<EventView>) -> bool {
    forall|a: int, b: int|
        0 <= a < b < events.len() ==> (#[trigger] events[a]).sequence < (
        #[trigger] events[b]).sequence
}

/// The log is ordered, its events are those of its workflow, and their
/// sequence numbers are 64-bit integers.
pub open spec fn log_ok(log: LogView) -> bool {
    &&& ordered(log.events)
    &&& forall|k: int|
        0 <= k < log.events.len() ==> (#[trigger] log.events[k]).workflow_id == log.row.id
            && i64::MIN <= log.events[k].sequence <= i64::MAX
}

/// No two workflows have the same id.
pub open spec fn distinct_ids(ledger: Seq<LogView>) -> bool {
    forall|a: int, b: int|
        0 <= a < b < ledger.len() ==> (#[trigger] ledger[a]).row.id != (#[trigger] ledger[b]).row.id
}

/// Every log is well formed, and no two workflows have the same id.
pub open spec fn ledger_ok(ledger: Seq<LogView>) -> bool {
    &&& forall|i: int| 0 <= i < ledger.len() ==> log_ok(#[trigger] ledger[i])
    &&& distinct_ids(ledger)
}

/// Ids are unique, so whoever has the id sits in its slot.
pub proof fn lemma_slot(ledger: Seq<LogView>, id: Seq<char>, i: int)
    requires
        distinct_ids(ledger),
        0 <= i < ledger.len(),
        ledger[i].row.id == id,
    ensures
        holds(ledger, id),
        slot(ledger, id) == i,
{
    let k = slot(ledger, id);
    assert(0 <= k < ledger.len() && ledger[k].row.id == id);
    if k < i {
        assert(ledger[k].row.id != ledger[i].row.id);
    } else if i < k {
        assert(ledger[i].row.id != ledger[k].row.id);
    }
}

// ---------------------------------------------------------------------------
// Operations
// ---------------------------------------------------------------------------

/// The sequence number of the next event: one above the highest, from one.
pub open spec fn next_sequence(events: Seq<EventView>) -> int {
    if events.len() == 0 {
        1
    } else {
        events.last().sequence + 1
    }
}

/// The status of a workflow once an event is in its log: the terminal events
/// set it, the others leave it.
pub open spec fn status_after(status: WorkflowStatus, payload: PayloadView) -> WorkflowStatus {
    match payload {
        PayloadView::WorkflowCompleted { .. } => WorkflowStatus::Completed,
        PayloadView::WorkflowFailed { .. } => WorkflowStatus::Failed,
        _ => status,
    }
}

/// The row with another status and time of update.
pub open spec fn updated(row: RowView, status: WorkflowStatus, now: i64) -> RowView {
    RowView { status, updated_at_ms: now, ..row }
}

/// The event that an append adds to a log.
pub open spec fn next_event(log: LogView, payload: PayloadView, now: i64) -> EventView {
    EventView {
        sequence: next_sequence(log.events),
        workflow_id: log.row.id,
        created_at_ms: now,
        payload,
    }
}

/// The log with one more event.
pub open spec fn appended(log: LogView, payload: PayloadView, now: i64) -> LogView {
    LogView {
        row: updated(log.row, status_after(log.row.status, payload), now),
        events: log.events.push(next_event(log, payload, now)),
    }
}

/// A new workflow, whose log holds its `WorkflowStarted` event.
pub open spec fn opened(row: RowView) -> LogView {
    LogView {
        row,
        events: seq![
            EventView {
                sequence: 1,
                workflow_id: row.id,
                created_at_ms: row.created_at_ms,
                payload: PayloadView::WorkflowStarted {
                    name: row.name,
                    input_hash: row.input_hash,
                },
            },
        ],
    }
}

/// Whether an event can be appended: the workflow exists, and the next
/// sequence number is a 64-bit integer.
pub open spec fn can_append(ledger: Seq<LogView>, id: Seq<char>) -> bool {
    holds(ledger, id) && next_sequence(ledger[slot(ledger, id)].events) <= i64::MAX
}

/// Whether the log at `i` is the first that waits to be claimed.
pub open spec fn first_pending(ledger: Seq<LogView>, i: int) -> bool {
    &&& 0 <= i < ledger.len()
    &&& ledger[i].row.status == WorkflowStatus::Pending
    &&& forall|k: int| 0 <= k < i ==> (#[trigger] ledger[k]).row.status != WorkflowStatus::Pending
}

/// Whether some workflow waits to be claimed.
pub open spec fn any_pending(ledger: Seq<LogView>) -> bool {
    exists|i: int|
        0 <= i < ledger.len() && (#[trigger] ledger[i]).row.status == WorkflowStatus::Pending
}

/// The log with another status and time of update.
pub open spec fn with_status(log: LogView, status: WorkflowStatus, now: i64) -> LogView {
    LogView { row: updated(log.row, status, now), ..log }
}

/// A mutation of the journal.
pub enum Op {
    /// Add a new workflow.
    Open(RowView),
    /// Append an event.
    Append { id: Seq<char>, payload: PayloadView, now: i64 },
    /// Hand out the first workflow that waits.
    Claim { now: i64 },
    /// Put every running workflow back into the queue.
    Recover { now: i64 },
}

/// What an operation makes of a ledger. One that is refused changes nothing.
pub open spec fn next(ledger: Seq<LogView>, op: Op) -> Seq<LogView> {
    match op {
        Op::Open(row) => if holds(ledger, row.id) {
            ledger
        } else {
            ledger.push(opened(row))
        },
        Op::Append { id, payload, now } => if can_append(ledger, id) {
            let i = slot(ledger, id);
            ledger.update(i, appended(ledger[i], payload, now))
        } else {
            ledger
        },
        Op::Claim { now } => if any_pending(ledger) {
            let i = choose|i: int| first_pending(ledger, i);
            ledger.update(i, with_status(ledger[i], WorkflowStatus::Running, now))
        } else {
            ledger
        },
        Op::Recover { now } => Seq::new(
            ledger.len(),
            |i: int|
                if ledger[i].row.status == WorkflowStatus::Running {
                    with_status(ledger[i], WorkflowStatus::Pending, now)
                } else {
                    ledger[i]
                },
        ),
    }
}

/// What a history of operations makes of a ledger.
pub open spec fn run(ledger: Seq<LogView>, history: Seq<Op>) -> Seq<LogView>
    decreases history.len(),
{
    if history.len() == 0 {
        ledger
    } else {
        next(run(ledger, history.drop_last()), history.last())
    }
}

/// Where some workflow waits, one of them is the first.
pub proof fn lemma_first_pending(ledger: Seq<LogView>, bound: int)
    requires
        0 <= bound < ledger.len(),
        ledger[bound].row.status == WorkflowStatus::Pending,
    ensures
        exists|i: int| first_pending(ledger, i),
    decreases bound,
{
    if forall|k: int|
        0 <= k < bound ==> (#[trigger] ledger[k]).row.status != WorkflowStatus::Pending {
        assert(first_pending(ledger, bound));
    } else {
        let k = choose|k: int|
            0 <= k < bound && (#[trigger] ledger[k]).row.status == WorkflowStatus::Pending;
        lemma_first_pending(ledger, k);
    }
}

/// There is at most one first workflow that waits.
pub proof fn lemma_first_pending_unique(ledger: Seq<LogView>, a: int, b: int)
    requires
        first_pending(ledger, a),
        first_pending(ledger, b),
    ensures
        a == b,
{
    if a < b {
        assert(ledger[a].row.status != WorkflowStatus::Pending);
    } else if b < a {
        assert(ledger[b].row.status != WorkflowStatus::Pending);
    }
}

/// What a claim picks is the first workflow that waits.
pub proof fn lemma_claim_slot(ledger: Seq<LogView>)
    requires
        any_pending(ledger),
    ensures
        first_pending(ledger, choose|i: int| first_pending(ledger, i)),
{
    let w = choose|i: int|
        0 <= i < ledger.len() && (#[trigger] ledger[i]).row.status == WorkflowStatus::Pending;
    lemma_first_pending(ledger, w);
}

/// Every operation keeps the ledger well formed.
pub proof fn law_operations_keep_the_ledger_well_formed(ledger: Seq<LogView>, op: Op)
    requires
        ledger_ok(ledger),
    ensures
        ledger_ok(next(ledger, op)),
{
    let after = next(ledger, op);
    match op {
        Op::Open(row) => {
            assert forall|a: int, b: int| 0 <= a < b < after.len() implies (#[trigger] after[a]).row.id
                != (#[trigger] after[b]).row.id by {
                if b == ledger.len() && !holds(ledger, row.id) {
                    assert(ledger[a].row.id != row.id);
                }
            }
        },
        Op::Append { id, payload, now } => {
            if can_append(ledger, id) {
                let i = slot(ledger, id);
                assert(0 <= i < ledger.len() && log_ok(ledger[i]));
                let log = appended(ledger[i], payload, now);
                assert(log_ok(log)) by {
                    assert forall|a: int, b: int| 0 <= a < b < log.events.len() implies (
                    #[trigger] log.events[a]).sequence < (#[trigger] log.events[b]).sequence by {
                        if b == ledger[i].events.len() && a < b - 1 {
                            assert(ledger[i].events[a].sequence < ledger[i].events[b - 1].sequence);
                        }
                    }
                }
            }
        },
        Op::Claim { now } => {
            if any_pending(ledger) {
                lemma_claim_slot(ledger);
                let i = choose|i: int| first_pending(ledger, i);
                assert(log_ok(ledger[i]));
            }
        },
        Op::Recover { now } => {
            assert forall|i: int| 0 <= i < after.len() implies log_ok(#[trigger] after[i]) by {
                assert(log_ok(ledger[i]));
            }
        },
    }
}

/// Where an operation leaves the log of one workflow: the log is unchanged, or
/// it got another status, or one more event.
pub open spec fn log_step(before: LogView, after: LogView) -> bool {
    ||| after == before
    ||| exists|payload: PayloadView, now: i64| after == #[trigger] appended(before, payload, now)
    ||| before.row.status == WorkflowStatus::Pending && exists|now: i64|
        after == #[trigger] with_status(before, WorkflowStatus::Running, now)
    ||| before.row.status == WorkflowStatus::Running && exists|now: i64|
        after == #[trigger] with_status(before, WorkflowStatus::Pending, now)
}

/// An operation keeps every workflow in its place, and takes its log one step
/// further at most.
pub proof fn lemma_step(ledger: Seq<LogView>, op: Op, i: int)
    requires
        ledger_ok(ledger),
        0 <= i < ledger.len(),
    ensures
        next(ledger, op).len() >= ledger.len(),
        next(ledger, op)[i].row.id == ledger[i].row.id,
        log_step(ledger[i], next(ledger, op)[i]),
{
    match op {
        Op::Open(row) => {},
        Op::Append { id, payload, now } => {
            if can_append(ledger, id) && slot(ledger, id) == i {
                assert(next(ledger, op)[i] == appended(ledger[i], payload, now));
            }
        },
        Op::Claim { now } => {
            if any_pending(ledger) {
                lemma_claim_slot(ledger);
                let k = choose|k: int| first_pending(ledger, k);
                if k == i {
                    assert(next(ledger, op)[i] == with_status(
                        ledger[i],
                        WorkflowStatus::Running,
                        now,
                    ));
                }
            }
        },
        Op::Recover { now } => {
            if ledger[i].row.status == WorkflowStatus::Running {
                assert(next(ledger, op)[i] == with_status(ledger[i], WorkflowStatus::Pending, now));
            }
        },
    }
}

/// Only opening a workflow makes the ledger longer, and by that workflow.
pub proof fn lemma_new_log(ledger: Seq<LogView>, op: Op, i: int)
    requires
        ledger.len() <= i < next(ledger, op).len(),
    ensures
        op matches Op::Open(row) && next(ledger, op)[i] == opened(row),
{
    match op {
        Op::Open(row) => {},
        Op::Append { id, payload, now } => {
            assert(next(ledger, op).len() == ledger.len());
        },
        Op::Claim { now } => {
            if any_pending(ledger) {
                lemma_claim_slot(ledger);
            }
        },
        Op::Recover { now } => {},
    }
}

/// A workflow that is there stays there, and its log goes at most one step
/// further.
pub proof fn lemma_step_of(ledger: Seq<LogView>, op: Op, id: Seq<char>)
    requires
        ledger_ok(ledger),
        holds(ledger, id),
    ensures
        ledger_ok(next(ledger, op)),
        holds(next(ledger, op), id),
        log_step(ledger[slot(ledger, id)], next(ledger, op)[slot(next(ledger, op), id)]),
{
    let i = slot(ledger, id);
    law_operations_keep_the_ledger_well_formed(ledger, op);
    lemma_step(ledger, op, i);
    lemma_slot(next(ledger, op), id, i);
}

/// A history keeps the ledger well formed.
pub proof fn lemma_run_ok(ledger: Seq<LogView>, history: Seq<Op>)
    requires
        ledger_ok(ledger),
    ensures
        ledger_ok(run(ledger, history)),
    decreases history.len(),
{
    if history.len() > 0 {
        lemma_run_ok(ledger, history.drop_last());
        law_operations_keep_the_ledger_well_formed(
            run(ledger, history.drop_last()),
            history.last(),
        );
    }
}

// ---------------------------------------------------------------------------
// Reading
// ---------------------------------------------------------------------------

/// What `pick` finds in the first event in which it finds something.
pub open spec fn first_match<T>(
    events: Seq<EventView>,
    pick: spec_fn(PayloadView) -> Option<T>,
) -> Option<T>
    decreases events.len(),
{
    if events.len() == 0 {
        None
    } else {
        match first_match(events.drop_last(), pick) {
            Some(found) => Some(found),
            None => pick(events.last().payload),
        }
    }
}

/// Finds the output of a completed call of the step.
pub open spec fn tool_output(step_id: Seq<char>) -> spec_fn(PayloadView) -> Option<Value> {
    |payload: PayloadView|
        match payload {
            PayloadView::ToolCallCompleted { step_id: id, output, .. } => if id == step_id {
                Some(output)
            } else {
                None
            },
            _ => None,
        }
}

/// Finds the output of a completed workflow.
pub open spec fn final_output() -> spec_fn(PayloadView) -> Option<Value> {
    |payload: PayloadView|
        match payload {
            PayloadView::WorkflowCompleted { output } => Some(output),
            _ => None,
        }
}

/// Finds the recorded answer to a prompt.
pub open spec fn llm_answer(prompt_hash: Seq<char>) -> spec_fn(PayloadView) -> Option<
    ResponseView,
> {
    |payload: PayloadView|
        match payload {
            PayloadView::LlmCallCompleted {
                step_id,
                model,
                prompt_hash: hash,
                response,
                tokens_in,
                tokens_out,
            } => if hash == prompt_hash {
                Some(ResponseView { model, content: response, tokens_in, tokens_out })
            } else {
                None
            },
            _ => None,
        }
}

/// What is found in a part of a log is found in the whole.
pub proof fn lemma_first_match_of_prefix<T>(
    events: Seq<EventView>,
    pick: spec_fn(PayloadView) -> Option<T>,
    n: int,
)
    requires
        0 <= n <= events.len(),
        first_match(events.take(n), pick) is Some,
    ensures
        first_match(events, pick) == first_match(events.take(n), pick),
    decreases events.len() - n,
{
    if n < events.len() {
        assert(events.take(n + 1).drop_last() =~= events.take(n));
        lemma_first_match_of_prefix(events, pick, n + 1);
    } else {
        assert(events.take(n) =~= events);
    }
}

/// One more event is looked at only where the log held no match.
pub proof fn lemma_first_match_of_push<T>(
    events: Seq<EventView>,
    event: EventView,
    pick: spec_fn(PayloadView) -> Option<T>,
)
    ensures
        first_match(events.push(event), pick) == match first_match(events, pick) {
            Some(found) => Some(found),
            None => pick(event.payload),
        },
{
    assert(events.push(event).drop_last() =~= events);
}

/// The replay guarantee: what a lookup has found once, be it the output of a
/// step, a model's answer or the final output, every later lookup finds, after
/// any history of operations on the journal.
pub proof fn law_found_once_found_forever<T>(
    ledger: Seq<LogView>,
    history: Seq<Op>,
    id: Seq<char>,
    pick: spec_fn(PayloadView) -> Option<T>,
)
    requires
        ledger_ok(ledger),
        first_match(events_of(ledger, id), pick) is Some,
    ensures
        first_match(events_of(run(ledger, history), id), pick) == first_match(
            events_of(ledger, id),
            pick,
        ),
    decreases history.len(),
{
    if history.len() > 0 {
        let before = run(ledger, history.drop_last());
        let op = history.last();
        law_found_once_found_forever(ledger, history.drop_last(), id, pick);
        lemma_run_ok(ledger, history.drop_last());
        lemma_step_of(before, op, id);
        let old_log = before[slot(before, id)];
        let new_log = next(before, op)[slot(next(before, op), id)];
        assert(first_match(new_log.events, pick) == first_match(old_log.events, pick)) by {
            if exists|payload: PayloadView, now: i64|
                new_log == #[trigger] appended(old_log, payload, now) {
                let (payload, now) = choose|payload: PayloadView, now: i64|
                    new_log == #[trigger] appended(old_log, payload, now);
                lemma_first_match_of_push(
                    old_log.events,
                    next_event(old_log, payload, now),
                    pick,
                );
            }
        }
    }
}

/// Only an event in which the lookup finds something can change its result.
/// So a failed attempt, for one, is never what a step is replayed from.
pub proof fn law_other_events_do_not_answer_a_lookup<T>(
    ledger: Seq<LogView>,
    id: Seq<char>,
    payload: PayloadView,
    now: i64,
    asked: Seq<char>,
    pick: spec_fn(PayloadView) -> Option<T>,
)
    requires
        ledger_ok(ledger),
        pick(payload) is None,
    ensures
        first_match(events_of(next(ledger, Op::Append { id, payload, now }), asked), pick)
            == first_match(events_of(ledger, asked), pick),
{
    law_append_is_scoped(ledger, id, payload, now, asked);
    if asked == id && can_append(ledger, id) {
        lemma_first_match_of_push(
            events_of(ledger, id),
            next_event(ledger[slot(ledger, id)], payload, now),
            pick,
        );
    }
}

/// A failed attempt is not cached: neither it nor the start of an attempt
/// changes what a step is replayed from.
pub proof fn law_failures_are_not_cached(
    ledger: Seq<LogView>,
    id: Seq<char>,
    payload: PayloadView,
    now: i64,
    asked: Seq<char>,
    step_id: Seq<char>,
)
    requires
        ledger_ok(ledger),
        payload is ToolCallFailed || payload is ToolCallStarted,
    ensures
        first_match(
            events_of(next(ledger, Op::Append { id, payload, now }), asked),
            tool_output(step_id),
        ) == first_match(events_of(ledger, asked), tool_output(step_id)),
{
    law_other_events_do_not_answer_a_lookup(ledger, id, payload, now, asked, tool_output(step_id));
}

/// An append that is accepted adds its event to the end of the log of its
/// workflow, and touches no other workflow.
pub proof fn law_append_is_scoped(
    ledger: Seq<LogView>,
    id: Seq<char>,
    payload: PayloadView,
    now: i64,
    other: Seq<char>,
)
    requires
        ledger_ok(ledger),
    ensures
        ({
            let after = next(ledger, Op::Append { id, payload, now });
            if other == id && can_append(ledger, id) {
                log_of(after, id) == Some(appended(ledger[slot(ledger, id)], payload, now))
            } else {
                log_of(after, other) == log_of(ledger, other)
            }
        }),
{
    let op = Op::Append { id, payload, now };
    let after = next(ledger, op);
    law_operations_keep_the_ledger_well_formed(ledger, op);
    if can_append(ledger, id) {
        let i = slot(ledger, id);
        assert(after[i].row.id == id);
        lemma_slot(after, id, i);
        if other != id {
            if holds(ledger, other) {
                let k = slot(ledger, other);
                assert(k != i);
                assert(after[k] == ledger[k]);
                lemma_slot(after, other, k);
            } else if holds(after, other) {
                let k = slot(after, other);
                assert(ledger[k].row.id == after[k].row.id);
            }
        }
    }
}

/// What was appended is read back: it is the last event of its workflow, under
/// the next sequence number, and the events before it are as they were.
pub proof fn law_what_is_appended_is_read_back(
    ledger: Seq<LogView>,
    id: Seq<char>,
    payload: PayloadView,
    now: i64,
)
    requires
        ledger_ok(ledger),
        can_append(ledger, id),
    ensures
        events_of(next(ledger, Op::Append { id, payload, now }), id) == events_of(ledger, id).push(
            EventView {
                sequence: next_sequence(events_of(ledger, id)),
                workflow_id: id,
                created_at_ms: now,
                payload,
            },
        ),
{
    law_append_is_scoped(ledger, id, payload, now, id);
}

/// The log is append-only: whatever happens to the journal, the events that a
/// workflow had stay in their places, unchanged.
pub proof fn law_the_log_is_append_only(ledger: Seq<LogView>, history: Seq<Op>, id: Seq<char>)
    requires
        ledger_ok(ledger),
        holds(ledger, id),
    ensures
        holds(run(ledger, history), id),
        events_of(ledger, id).len() <= events_of(run(ledger, history), id).len(),
        events_of(run(ledger, history), id).take(events_of(ledger, id).len() as int) == events_of(
            ledger,
            id,
        ),
    decreases history.len(),
{
    let first = events_of(ledger, id);
    if history.len() > 0 {
        let before = run(ledger, history.drop_last());
        law_the_log_is_append_only(ledger, history.drop_last(), id);
        lemma_run_ok(ledger, history.drop_last());
        lemma_step_of(before, history.last(), id);
        let old_events = events_of(before, id);
        let new_events = events_of(run(ledger, history), id);
        assert(new_events.take(old_events.len() as int) =~= old_events);
        assert(new_events.take(first.len() as int) =~= old_events.take(first.len() as int));
    } else {
        assert(first.take(first.len() as int) =~= first);
    }
}

/// Whether the log begins with the event that its workflow started.
pub open spec fn begun(log: LogView) -> bool {
    log.events.len() > 0 && log.events[0].payload is WorkflowStarted
}

/// The first event of every workflow is that it started.
pub proof fn law_every_log_begins_with_its_start(ledger: Seq<LogView>, history: Seq<Op>, i: int)
    requires
        ledger_ok(ledger),
        forall|k: int| 0 <= k < ledger.len() ==> begun(#[trigger] ledger[k]),
        0 <= i < run(ledger, history).len(),
    ensures
        begun(run(ledger, history)[i]),
    decreases history.len(),
{
    if history.len() > 0 {
        let before = run(ledger, history.drop_last());
        let op = history.last();
        lemma_run_ok(ledger, history.drop_last());
        if i < before.len() {
            law_every_log_begins_with_its_start(ledger, history.drop_last(), i);
            lemma_step(before, op, i);
        } else {
            lemma_new_log(before, op, i);
        }
    }
}

// ---------------------------------------------------------------------------
// Sequence numbers
// ---------------------------------------------------------------------------

/// The events of the log are numbered from one, without gaps.
pub open spec fn numbered(log: LogView) -> bool {
    forall|k: int| 0 <= k < log.events.len() ==> (#[trigger] log.events[k]).sequence == k + 1
}

/// Every log is numbered from one, without gaps.
pub open spec fn all_numbered(ledger: Seq<LogView>) -> bool {
    forall|i: int| 0 <= i < ledger.len() ==> numbered(#[trigger] ledger[i])
}

/// Sequence numbers are per workflow: each log counts its own events from one,
/// whatever happens to the others.
pub proof fn law_every_log_counts_from_one(ledger: Seq<LogView>, history: Seq<Op>)
    requires
        ledger_ok(ledger),
        all_numbered(ledger),
    ensures
        all_numbered(run(ledger, history)),
    decreases history.len(),
{
    if history.len() > 0 {
        let before = run(ledger, history.drop_last());
        let op = history.last();
        law_every_log_counts_from_one(ledger, history.drop_last());
        lemma_run_ok(ledger, history.drop_last());
        let after = next(before, op);
        assert forall|i: int| 0 <= i < after.len() implies numbered(#[trigger] after[i]) by {
            if i < before.len() {
                assert(numbered(before[i]));
                lemma_step(before, op, i);
            } else {
                lemma_new_log(before, op, i);
            }
        }
    }
}

// ---------------------------------------------------------------------------
// Status
// ---------------------------------------------------------------------------

/// How the log says that its workflow ended: by its last terminal event.
pub open spec fn ended_as(events: Seq<EventView>) -> Option<WorkflowStatus>
    decreases events.len(),
{
    if events.len() == 0 {
        None
    } else {
        match events.last().payload {
            PayloadView::WorkflowCompleted { .. } => Some(WorkflowStatus::Completed),
            PayloadView::WorkflowFailed { .. } => Some(WorkflowStatus::Failed),
            _ => ended_as(events.drop_last()),
        }
    }
}

/// Whether a status says that the workflow has ended.
pub open spec fn terminal(status: WorkflowStatus) -> bool {
    status == WorkflowStatus::Completed || status == WorkflowStatus::Failed
}

/// A log says that its workflow ended by completion or by failure.
pub proof fn lemma_ended_as_terminal(events: Seq<EventView>)
    ensures
        ended_as(events) matches Some(status) ==> terminal(status),
    decreases events.len(),
{
    if events.len() > 0 {
        lemma_ended_as_terminal(events.drop_last());
    }
}

/// The status says what the log says: that the workflow ended, and how, where
/// the log holds a terminal event; that it has not, where it holds none.
pub open spec fn in_step(log: LogView) -> bool {
    match ended_as(log.events) {
        Some(status) => log.row.status == status,
        None => !terminal(log.row.status),
    }
}

/// Every status says what its log says.
pub open spec fn all_in_step(ledger: Seq<LogView>) -> bool {
    forall|i: int| 0 <= i < ledger.len() ==> in_step(#[trigger] ledger[i])
}

/// A workflow enters the journal waiting or running.
pub open spec fn enters_unended(op: Op) -> bool {
    op matches Op::Open(row) ==> !terminal(row.status)
}

/// That a workflow is done, and that its terminal event is in the log, are the
/// same observation, after any history.
pub proof fn law_status_tells_what_the_log_tells(ledger: Seq<LogView>, history: Seq<Op>)
    requires
        ledger_ok(ledger),
        all_in_step(ledger),
        forall|k: int| 0 <= k < history.len() ==> enters_unended(#[trigger] history[k]),
    ensures
        all_in_step(run(ledger, history)),
    decreases history.len(),
{
    if history.len() > 0 {
        let before = run(ledger, history.drop_last());
        let op = history.last();
        assert(enters_unended(history[history.len() - 1]));
        assert forall|k: int| 0 <= k < history.drop_last().len() implies enters_unended(
            #[trigger] history.drop_last()[k],
        ) by {
            assert(enters_unended(history[k]));
        }
        law_status_tells_what_the_log_tells(ledger, history.drop_last());
        lemma_run_ok(ledger, history.drop_last());
        let after = next(before, op);
        assert forall|i: int| 0 <= i < after.len() implies in_step(#[trigger] after[i]) by {
            if i < before.len() {
                assert(in_step(before[i]));
                lemma_step(before, op, i);
                lemma_ended_as_terminal(before[i].events);
                assert forall|payload: PayloadView, now: i64| in_step(
                    #[trigger] appended(before[i], payload, now),
                ) by {
                    let log = appended(before[i], payload, now);
                    assert(log.events.drop_last() =~= before[i].events);
                }
            } else {
                lemma_new_log(before, op, i);
                assert(after[i].events.drop_last() =~= Seq::<EventView>::empty());
                assert(ended_as(Seq::<EventView>::empty()) is None);
            }
        }
    }
}

/// A workflow that has ended stays ended: no operation puts it back to work.
pub proof fn law_ended_stays_ended(ledger: Seq<LogView>, history: Seq<Op>, id: Seq<char>)
    requires
        ledger_ok(ledger),
        holds(ledger, id),
        terminal(ledger[slot(ledger, id)].row.status),
    ensures
        holds(run(ledger, history), id),
        terminal(run(ledger, history)[slot(run(ledger, history), id)].row.status),
    decreases history.len(),
{
    if history.len() > 0 {
        law_ended_stays_ended(ledger, history.drop_last(), id);
        lemma_run_ok(ledger, history.drop_last());
        lemma_step_of(run(ledger, history.drop_last()), history.last(), id);
    }
}

// ---------------------------------------------------------------------------
// The queue
// ---------------------------------------------------------------------------

/// The number of workflows of a status.
pub open spec fn count(ledger: Seq<LogView>, status: WorkflowStatus) -> nat {
    ledger.filter(|log: LogView| log.row.status == status).len()
}

/// One more workflow counts where it has the status.
pub proof fn lemma_count_of_push(ledger: Seq<LogView>, log: LogView, status: WorkflowStatus)
    ensures
        count(ledger.push(log), status) == count(ledger, status) + if log.row.status == status {
            1nat
        } else {
            0nat
        },
{
    let keep = |log: LogView| log.row.status == status;
    assert(ledger.push(log).drop_last() =~= ledger);
    reveal(Seq::filter);
    assert(ledger.push(log).filter(keep) == {
        let rest = ledger.filter(keep);
        if keep(log) {
            rest.push(log)
        } else {
            rest
        }
    });
}

/// Another log in the same place counts for the one that was there.
pub proof fn lemma_count_of_update(
    ledger: Seq<LogView>,
    i: int,
    log: LogView,
    status: WorkflowStatus,
)
    requires
        0 <= i < ledger.len(),
    ensures
        count(ledger.update(i, log), status) + (if ledger[i].row.status == status {
            1nat
        } else {
            0nat
        }) == count(ledger, status) + (if log.row.status == status {
            1nat
        } else {
            0nat
        }),
    decreases ledger.len(),
{
    let rest = ledger.drop_last();
    assert(ledger =~= rest.push(ledger.last()));
    if i == ledger.len() - 1 {
        assert(ledger.update(i, log) =~= rest.push(log));
        lemma_count_of_push(rest, ledger.last(), status);
        lemma_count_of_push(rest, log, status);
    } else {
        assert(ledger.update(i, log) =~= rest.update(i, log).push(ledger.last()));
        lemma_count_of_push(rest, ledger.last(), status);
        lemma_count_of_push(rest.update(i, log), ledger.last(), status);
        lemma_count_of_update(rest, i, log, status);
    }
}

/// Each claim takes exactly one workflow out of the queue and sets it running,
/// so as many claims as there are workflows waiting empty the queue.
pub proof fn law_a_claim_shortens_the_queue(ledger: Seq<LogView>, now: i64)
    requires
        any_pending(ledger),
    ensures
        count(next(ledger, Op::Claim { now }), WorkflowStatus::Pending) + 1 == count(
            ledger,
            WorkflowStatus::Pending,
        ),
        count(next(ledger, Op::Claim { now }), WorkflowStatus::Running) == count(
            ledger,
            WorkflowStatus::Running,
        ) + 1,
{
    lemma_claim_slot(ledger);
    let i = choose|i: int| first_pending(ledger, i);
    let log = with_status(ledger[i], WorkflowStatus::Running, now);
    lemma_count_of_update(ledger, i, log, WorkflowStatus::Pending);
    lemma_count_of_update(ledger, i, log, WorkflowStatus::Running);
}

/// Recovery leaves no workflow running: each one that a former process left
/// behind waits again, and every other workflow is as it was.
pub proof fn law_recovery_requeues_the_abandoned(ledger: Seq<LogView>, now: i64, i: int)
    requires
        0 <= i < ledger.len(),
    ensures
        ({
            let after = next(ledger, Op::Recover { now });
            &&& after[i].row.status != WorkflowStatus::Running
            &&& after[i].events == ledger[i].events
            &&& ledger[i].row.status == WorkflowStatus::Running ==> after[i].row.status
                == WorkflowStatus::Pending
            &&& ledger[i].row.status != WorkflowStatus::Running ==> after[i] == ledger[i]
        }),
{
}

// ---------------------------------------------------------------------------
// Storage
// ---------------------------------------------------------------------------

/// What a change makes of the stored ledger.
pub open spec fn apply(ledger: Seq<LogView>, change: ChangeView) -> Seq<LogView> {
    match change {
        ChangeView::InsertWorkflow(row) => ledger.push(LogView { row, events: Seq::empty() }),
        ChangeView::InsertEvent(event) => {
            let i = slot(ledger, event.workflow_id);
            ledger.update(i, LogView { events: ledger[i].events.push(event), ..ledger[i] })
        },
        ChangeView::UpdateWorkflow { id, status, updated_at_ms } => {
            let i = slot(ledger, id);
            ledger.update(i, with_status(ledger[i], status, updated_at_ms))
        },
    }
}

/// What a list of changes, carried out in order, makes of the stored ledger.
pub open spec fn replay(ledger: Seq<LogView>, changes: Seq<ChangeView>) -> Seq<LogView>
    decreases changes.len(),
{
    if changes.len() == 0 {
        ledger
    } else {
        apply(replay(ledger, changes.drop_last()), changes.last())
    }
}

/// One more change is carried out last.
pub proof fn lemma_replay_of_push(
    ledger: Seq<LogView>,
    changes: Seq<ChangeView>,
    change: ChangeView,
)
    ensures
        replay(ledger, changes.push(change)) == apply(replay(ledger, changes), change),
{
    assert(changes.push(change).drop_last() =~= changes);
}

/// The two changes of an append bring storage to where the journal is.
pub proof fn lemma_replay_of_append(
    saved: Seq<LogView>,
    changes: Seq<ChangeView>,
    ledger: Seq<LogView>,
    id: Seq<char>,
    payload: PayloadView,
    now: i64,
)
    requires
        ledger_ok(ledger),
        replay(saved, changes) == ledger,
        can_append(ledger, id),
    ensures
        ({
            let log = ledger[slot(ledger, id)];
            replay(
                saved,
                changes.push(ChangeView::InsertEvent(next_event(log, payload, now))).push(
                    ChangeView::UpdateWorkflow {
                        id,
                        status: status_after(log.row.status, payload),
                        updated_at_ms: now,
                    },
                ),
            ) == next(ledger, Op::Append { id, payload, now })
        }),
{
    let i = slot(ledger, id);
    let log = ledger[i];
    let insert = ChangeView::InsertEvent(next_event(log, payload, now));
    let update = ChangeView::UpdateWorkflow {
        id,
        status: status_after(log.row.status, payload),
        updated_at_ms: now,
    };
    lemma_replay_of_push(saved, changes, insert);
    lemma_replay_of_push(saved, changes.push(insert), update);
    let between = apply(ledger, insert);
    assert(between[i].row == log.row);
    assert(distinct_ids(between)) by {
        assert forall|a: int, b: int| 0 <= a < b < between.len() implies (
        #[trigger] between[a]).row.id != (#[trigger] between[b]).row.id by {
            assert(ledger[a].row.id != ledger[b].row.id);
        }
    }
    lemma_slot(between, id, i);
    assert(apply(between, update) =~= next(ledger, Op::Append { id, payload, now }));
}

/// The two changes that open a workflow bring storage to where the journal is.
pub proof fn lemma_replay_of_open(
    saved: Seq<LogView>,
    changes: Seq<ChangeView>,
    ledger: Seq<LogView>,
    row: RowView,
)
    requires
        ledger_ok(ledger),
        replay(saved, changes) == ledger,
        !holds(ledger, row.id),
    ensures
        replay(
            saved,
            changes.push(ChangeView::InsertWorkflow(row)).push(
                ChangeView::InsertEvent(opened(row).events[0]),
            ),
        ) == next(ledger, Op::Open(row)),
{
    let insert = ChangeView::InsertWorkflow(row);
    let start = ChangeView::InsertEvent(opened(row).events[0]);
    lemma_replay_of_push(saved, changes, insert);
    lemma_replay_of_push(saved, changes.push(insert), start);
    let between = apply(ledger, insert);
    let i = ledger.len() as int;
    assert(between[i].row == row);
    assert(distinct_ids(between)) by {
        assert forall|a: int, b: int| 0 <= a < b < between.len() implies (
        #[trigger] between[a]).row.id != (#[trigger] between[b]).row.id by {
            assert(ledger[a].row.id != row.id);
        }
    }
    lemma_slot(between, row.id, i);
    assert(Seq::<EventView>::empty().push(opened(row).events[0]) =~= opened(row).events);
    assert(apply(between, start) =~= next(ledger, Op::Open(row)));
}

/// A change of status brings storage to where the journal is.
pub proof fn lemma_replay_of_status(
    saved: Seq<LogView>,
    changes: Seq<ChangeView>,
    ledger: Seq<LogView>,
    i: int,
    status: WorkflowStatus,
    now: i64,
)
    requires
        distinct_ids(ledger),
        replay(saved, changes) == ledger,
        0 <= i < ledger.len(),
    ensures
        replay(
            saved,
            changes.push(
                ChangeView::UpdateWorkflow {
                    id: ledger[i].row.id,
                    status,
                    updated_at_ms: now,
                },
            ),
        ) == ledger.update(i, with_status(ledger[i], status, now)),
{
    let update = ChangeView::UpdateWorkflow { id: ledger[i].row.id, status, updated_at_ms: now };
    lemma_replay_of_push(saved, changes, update);
    lemma_slot(ledger, ledger[i].row.id, i);
}

/// The first `n` workflows recovered, the others as they are.
pub open spec fn recovered_upto(ledger: Seq<LogView>, n: int, now: i64) -> Seq<LogView> {
    Seq::new(
        ledger.len(),
        |i: int|
            if i < n && ledger[i].row.status == WorkflowStatus::Running {
                with_status(ledger[i], WorkflowStatus::Pending, now)
            } else {
                ledger[i]
            },
    )
}

// ---------------------------------------------------------------------------
// Each operation, row by row
// ---------------------------------------------------------------------------

/// What makes a ledger well formed: no two workflows share an id, every event
/// belongs to the workflow in whose log it is, and sequence numbers are 64-bit
/// integers that strictly increase along each log. Nothing else is asked.
pub proof fn law_what_makes_a_ledger_well_formed(ledger: Seq<LogView>)
    ensures
        ledger_ok(ledger) <==> {
            &&& forall|a: int, b: int|
                0 <= a < b < ledger.len() ==> (#[trigger] ledger[a]).row.id != (
                #[trigger] ledger[b]).row.id
            &&& forall|i: int, k: int|
                0 <= i < ledger.len() && 0 <= k < ledger[i].events.len() ==> {
                    let event = #[trigger] ledger[i].events[k];
                    &&& event.workflow_id == ledger[i].row.id
                    &&& -0x8000_0000_0000_0000 <= event.sequence <= 0x7fff_ffff_ffff_ffff
                }
            &&& forall|i: int, j: int, k: int|
                0 <= i < ledger.len() && 0 <= j < k < ledger[i].events.len() ==> (
                #[trigger] ledger[i].events[j]).sequence < (
                #[trigger] ledger[i].events[k]).sequence
        },
{
    if ledger_ok(ledger) {
        assert forall|i: int, k: int|
            0 <= i < ledger.len() && 0 <= k < ledger[i].events.len() implies {
            let event = #[trigger] ledger[i].events[k];
            &&& event.workflow_id == ledger[i].row.id
            &&& -0x8000_0000_0000_0000 <= event.sequence <= 0x7fff_ffff_ffff_ffff
        } by {
            assert(log_ok(ledger[i]));
        }
        assert forall|i: int, j: int, k: int|
            0 <= i < ledger.len() && 0 <= j < k < ledger[i].events.len() implies (
        #[trigger] ledger[i].events[j]).sequence < (#[trigger] ledger[i].events[k]).sequence by {
            assert(log_ok(ledger[i]));
        }
    }
}

/// Who is in the ledger is found by id, with exactly the events of its log; who
/// is not has no log and no events.
pub proof fn law_a_log_is_found_by_its_id(ledger: Seq<LogView>, id: Seq<char>, i: int)
    requires
        ledger_ok(ledger),
    ensures
        0 <= i < ledger.len() && ledger[i].row.id == id ==> {
            &&& log_of(ledger, id) == Some(ledger[i])
            &&& events_of(ledger, id) == ledger[i].events
        },
        (forall|k: int| 0 <= k < ledger.len() ==> (#[trigger] ledger[k]).row.id != id) ==> {
            &&& log_of(ledger, id) is None
            &&& events_of(ledger, id) == Seq::<EventView>::empty()
        },
{
    if 0 <= i < ledger.len() && ledger[i].row.id == id {
        lemma_slot(ledger, id, i);
    }
}

/// An append to a workflow of the ledger changes that workflow alone. One event
/// is added, one above the last sequence number, or number one, at the given
/// time; the row gets that time of update and, by a terminal event, the status
/// that this event says; all else of the row stays.
pub proof fn law_append_changes_one_log(
    ledger: Seq<LogView>,
    i: int,
    payload: PayloadView,
    now: i64,
)
    requires
        ledger_ok(ledger),
        0 <= i < ledger.len(),
        ledger[i].events.len() > 0 ==> ledger[i].events.last().sequence < 0x7fff_ffff_ffff_ffff,
    ensures
        can_append(ledger, ledger[i].row.id),
        ({
            let before = ledger[i];
            let after = next(ledger, Op::Append { id: before.row.id, payload, now });
            &&& after.len() == ledger.len()
            &&& forall|k: int| 0 <= k < ledger.len() && k != i ==> #[trigger] after[k] == ledger[k]
            &&& after[i].events.len() == before.events.len() + 1
            &&& after[i].events.drop_last() == before.events
            &&& after[i].events.last() == (EventView {
                sequence: if before.events.len() == 0 {
                    1
                } else {
                    before.events.last().sequence + 1
                },
                workflow_id: before.row.id,
                created_at_ms: now,
                payload,
            })
            &&& after[i].row.status == (match payload {
                PayloadView::WorkflowCompleted { .. } => WorkflowStatus::Completed,
                PayloadView::WorkflowFailed { .. } => WorkflowStatus::Failed,
                PayloadView::WorkflowStarted { .. } => before.row.status,
                PayloadView::ToolCallStarted { .. } => before.row.status,
                PayloadView::ToolCallCompleted { .. } => before.row.status,
                PayloadView::ToolCallFailed { .. } => before.row.status,
                PayloadView::LlmCallCompleted { .. } => before.row.status,
                PayloadView::StepCompleted { .. } => before.row.status,
            })
            &&& after[i].row == (RowView {
                status: after[i].row.status,
                updated_at_ms: now,
                ..before.row
            })
        }),
{
    lemma_slot(ledger, ledger[i].row.id, i);
    let after = next(ledger, Op::Append { id: ledger[i].row.id, payload, now });
    assert(after[i].events.drop_last() =~= ledger[i].events);
}

/// An append to a workflow that the ledger does not have, or whose sequence
/// numbers are used up, changes nothing.
pub proof fn law_refused_append_changes_nothing(
    ledger: Seq<LogView>,
    id: Seq<char>,
    payload: PayloadView,
    now: i64,
)
    requires
        ledger_ok(ledger),
        forall|k: int|
            0 <= k < ledger.len() && (#[trigger] ledger[k]).row.id == id ==> ledger[k].events.len()
                > 0 && ledger[k].events.last().sequence == 0x7fff_ffff_ffff_ffff,
    ensures
        !can_append(ledger, id),
        next(ledger, Op::Append { id, payload, now }) == ledger,
{
    if holds(ledger, id) {
        let i = slot(ledger, id);
        assert(ledger[i].row.id == id);
    }
}

/// A workflow under a new id is added behind all others, with its row as given
/// and a log of one event: that it started, under number one, at the time of its
/// creation. Under an id that is taken, nothing changes.
pub proof fn law_open_adds_one_workflow(ledger: Seq<LogView>, row: RowView)
    ensures
        (forall|k: int| 0 <= k < ledger.len() ==> (#[trigger] ledger[k]).row.id != row.id) ==> {
            let after = next(ledger, Op::Open(row));
            &&& after.len() == ledger.len() + 1
            &&& after.drop_last() == ledger
            &&& after.last().row == row
            &&& after.last().events.len() == 1
            &&& after.last().events[0] == (EventView {
                sequence: 1,
                workflow_id: row.id,
                created_at_ms: row.created_at_ms,
                payload: PayloadView::WorkflowStarted {
                    name: row.name,
                    input_hash: row.input_hash,
                },
            })
        },
        (exists|k: int| 0 <= k < ledger.len() && (#[trigger] ledger[k]).row.id == row.id)
            ==> next(ledger, Op::Open(row)) == ledger,
{
    if forall|k: int| 0 <= k < ledger.len() ==> (#[trigger] ledger[k]).row.id != row.id {
        assert(next(ledger, Op::Open(row)).drop_last() =~= ledger);
    }
}

/// A claim sets the first workflow that waits running, at the given time, and
/// leaves all else as it is; without one that waits, nothing changes.
pub proof fn law_claim_takes_the_first_that_waits(ledger: Seq<LogView>, now: i64, i: int)
    ensures
        ({
            &&& 0 <= i < ledger.len()
            &&& ledger[i].row.status == WorkflowStatus::Pending
            &&& forall|k: int|
                0 <= k < i ==> (#[trigger] ledger[k]).row.status != WorkflowStatus::Pending
        }) ==> {
            let after = next(ledger, Op::Claim { now });
            &&& after.len() == ledger.len()
            &&& forall|k: int| 0 <= k < ledger.len() && k != i ==> #[trigger] after[k] == ledger[k]
            &&& after[i].events == ledger[i].events
            &&& after[i].row == (RowView {
                status: WorkflowStatus::Running,
                updated_at_ms: now,
                ..ledger[i].row
            })
        },
        (forall|k: int|
            0 <= k < ledger.len() ==> (#[trigger] ledger[k]).row.status != WorkflowStatus::Pending)
            ==> next(ledger, Op::Claim { now }) == ledger,
{
    if first_pending(ledger, i) {
        assert(any_pending(ledger));
        lemma_claim_slot(ledger);
        lemma_first_pending_unique(ledger, i, choose|k: int| first_pending(ledger, k));
    }
}

/// Recovery makes every workflow that runs wait again, at the given time, and
/// leaves all else as it is.
pub proof fn law_recovery_changes_what_runs(ledger: Seq<LogView>, now: i64, i: int)
    requires
        0 <= i < ledger.len(),
    ensures
        next(ledger, Op::Recover { now }).len() == ledger.len(),
        ledger[i].row.status == WorkflowStatus::Running ==> next(ledger, Op::Recover { now })[i]
            == (LogView {
            row: RowView {
                status: WorkflowStatus::Pending,
                updated_at_ms: now,
                ..ledger[i].row
            },
            events: ledger[i].events,
        }),
        ledger[i].row.status != WorkflowStatus::Running ==> next(ledger, Op::Recover { now })[i]
            == ledger[i],
{
}

// ---------------------------------------------------------------------------
// Each lookup, event by event
// ---------------------------------------------------------------------------

proof fn lemma_first_match_is_the_first<T>(
    events: Seq<EventView>,
    pick: spec_fn(PayloadView) -> Option<T>,
)
    ensures
        match first_match(events, pick) {
            Some(found) => exists|i: int|
                {
                    &&& 0 <= i < events.len()
                    &&& pick((#[trigger] events[i]).payload) == Some(found)
                    &&& forall|k: int| 0 <= k < i ==> pick((#[trigger] events[k]).payload) is None
                },
            None => forall|k: int|
                0 <= k < events.len() ==> pick((#[trigger] events[k]).payload) is None,
        },
    decreases events.len(),
{
    if events.len() > 0 {
        let rest = events.drop_last();
        lemma_first_match_is_the_first(rest, pick);
        match first_match(rest, pick) {
            Some(found) => {
                let i = choose|i: int|
                    {
                        &&& 0 <= i < rest.len()
                        &&& pick((#[trigger] rest[i]).payload) == Some(found)
                        &&& forall|k: int| 0 <= k < i ==> pick((#[trigger] rest[k]).payload) is None
                    };
                assert(pick(events[i].payload) == Some(found));
                assert forall|k: int| 0 <= k < i implies pick(
                    (#[trigger] events[k]).payload,
                ) is None by {
                    assert(events[k] == rest[k]);
                }
            },
            None => {
                assert forall|k: int| 0 <= k < rest.len() implies pick(
                    (#[trigger] events[k]).payload,
                ) is None by {
                    assert(events[k] == rest[k]);
                }
                if let Some(found) = first_match(events, pick) {
                    let i = events.len() - 1;
                    assert(pick(events[i].payload) == Some(found));
                }
            },
        }
    }
}

/// Whether an event says that a call of the step completed.
pub open spec fn completes(event: EventView, step_id: Seq<char>) -> bool {
    event.payload matches PayloadView::ToolCallCompleted { step_id: id, .. } && id == step_id
}

/// The output of a step is that of the first event that says it completed, and
/// there is none exactly where no event says so. Which other events there are,
/// how many and how long they took, makes no difference.
pub proof fn law_step_lookup_finds_the_first_completion(
    events: Seq<EventView>,
    step_id: Seq<char>,
)
    ensures
        match first_match(events, tool_output(step_id)) {
            Some(output) => exists|i: int|
                {
                    &&& 0 <= i < events.len()
                    &&& completes(#[trigger] events[i], step_id)
                    &&& events[i].payload->ToolCallCompleted_output == output
                    &&& forall|k: int| 0 <= k < i ==> !completes(#[trigger] events[k], step_id)
                },
            None => forall|k: int|
                0 <= k < events.len() ==> !completes(#[trigger] events[k], step_id),
        },
{
    let pick = tool_output(step_id);
    lemma_first_match_is_the_first(events, pick);
    if let Some(output) = first_match(events, pick) {
        let i = choose|i: int|
            {
                &&& 0 <= i < events.len()
                &&& pick((#[trigger] events[i]).payload) == Some(output)
                &&& forall|k: int| 0 <= k < i ==> pick((#[trigger] events[k]).payload) is None
            };
        assert(completes(events[i], step_id));
        assert forall|k: int| 0 <= k < i implies !completes(#[trigger] events[k], step_id) by {
            assert(pick(events[k].payload) is None);
        }
    } else {
        assert forall|k: int| 0 <= k < events.len() implies !completes(
            #[trigger] events[k],
            step_id,
        ) by {
            assert(pick(events[k].payload) is None);
        }
    }
}

/// Whether an event holds an answer to the prompt.
pub open spec fn answers(event: EventView, prompt_hash: Seq<char>) -> bool {
    event.payload matches PayloadView::LlmCallCompleted { prompt_hash: hash, .. } && hash
        == prompt_hash
}

/// The answer to a prompt is that of the first event that holds one under its
/// hash, with the model, text and tokens of that event; and there is none
/// exactly where no event holds one.
pub proof fn law_prompt_lookup_finds_the_first_answer(
    events: Seq<EventView>,
    prompt_hash: Seq<char>,
)
    ensures
        match first_match(events, llm_answer(prompt_hash)) {
            Some(answer) => exists|i: int|
                {
                    &&& 0 <= i < events.len()
                    &&& answers(#[trigger] events[i], prompt_hash)
                    &&& events[i].payload->LlmCallCompleted_model == answer.model
                    &&& events[i].payload->LlmCallCompleted_response == answer.content
                    &&& events[i].payload->LlmCallCompleted_tokens_in == answer.tokens_in
                    &&& events[i].payload->LlmCallCompleted_tokens_out == answer.tokens_out
                    &&& forall|k: int| 0 <= k < i ==> !answers(#[trigger] events[k], prompt_hash)
                },
            None => forall|k: int|
                0 <= k < events.len() ==> !answers(#[trigger] events[k], prompt_hash),
        },
{
    let pick = llm_answer(prompt_hash);
    lemma_first_match_is_the_first(events, pick);
    if let Some(answer) = first_match(events, pick) {
        let i = choose|i: int|
            {
                &&& 0 <= i < events.len()
                &&& pick((#[trigger] events[i]).payload) == Some(answer)
                &&& forall|k: int| 0 <= k < i ==> pick((#[trigger] events[k]).payload) is None
            };
        assert(answers(events[i], prompt_hash));
        assert forall|k: int| 0 <= k < i implies !answers(#[trigger] events[k], prompt_hash) by {
            assert(pick(events[k].payload) is None);
        }
    } else {
        assert forall|k: int| 0 <= k < events.len() implies !answers(
            #[trigger] events[k],
            prompt_hash,
        ) by {
            assert(pick(events[k].payload) is None);
        }
    }
}

/// The final output is that of the first event that says that the workflow
/// completed, and there is none exactly where no event says so.
pub proof fn law_final_lookup_finds_the_first_completion(events: Seq<EventView>)
    ensures
        match first_match(events, final_output()) {
            Some(output) => exists|i: int|
                {
                    &&& 0 <= i < events.len()
                    &&& (#[trigger] events[i]).payload == (PayloadView::WorkflowCompleted {
                        output,
                    })
                    &&& forall|k: int|
                        0 <= k < i ==> !((#[trigger] events[k]).payload is WorkflowCompleted)
                },
            None => forall|k: int|
                0 <= k < events.len() ==> !((#[trigger] events[k]).payload is WorkflowCompleted),
        },
{
    let pick = final_output();
    lemma_first_match_is_the_first(events, pick);
    if let Some(output) = first_match(events, pick) {
        let i = choose|i: int|
            {
                &&& 0 <= i < events.len()
                &&& pick((#[trigger] events[i]).payload) == Some(output)
                &&& forall|k: int| 0 <= k < i ==> pick((#[trigger] events[k]).payload) is None
            };
        assert(events[i].payload == (PayloadView::WorkflowCompleted { output }));
        assert forall|k: int| 0 <= k < i implies !((
        #[trigger] events[k]).payload is WorkflowCompleted) by {
            assert(pick(events[k].payload) is None);
        }
    } else {
        assert forall|k: int| 0 <= k < events.len() implies !((
        #[trigger] events[k]).payload is WorkflowCompleted) by {
            assert(pick(events[k].payload) is None);
        }
    }
}

/// The number of workflows of a status grows by one with each workflow of that
/// status, and with no other.
pub proof fn law_count_counts_each_workflow_once(
    ledger: Seq<LogView>,
    log: LogView,
    status: WorkflowStatus,
)
    ensures
        count(Seq::<LogView>::empty(), status) == 0,
        log.row.status == status ==> count(ledger.push(log), status) == count(ledger, status) + 1,
        log.row.status != status ==> count(ledger.push(log), status) == count(ledger, status),
{
    lemma_count_of_push(ledger, log, status);
    reveal(Seq::filter);
}

/// Storage carries out a change on the workflow that it names, and on no other:
/// a workflow is added without events, an event goes behind those of its
/// workflow, or a row gets its status and time of update.
pub proof fn law_each_change_is_scoped(ledger: Seq<LogView>, i: int, change: ChangeView)
    requires
        ledger_ok(ledger),
    ensures
        change matches ChangeView::InsertWorkflow(row) ==> {
            &&& apply(ledger, change).len() == ledger.len() + 1
            &&& apply(ledger, change).drop_last() == ledger
            &&& apply(ledger, change).last() == (LogView { row, events: Seq::empty() })
        },
        change matches ChangeView::InsertEvent(event) ==> 0 <= i < ledger.len()
            && ledger[i].row.id == event.workflow_id ==> apply(ledger, change) == ledger.update(
            i,
            LogView { row: ledger[i].row, events: ledger[i].events.push(event) },
        ),
        change matches ChangeView::UpdateWorkflow { id, status, updated_at_ms } ==> 0 <= i
            < ledger.len() && ledger[i].row.id == id ==> apply(ledger, change) == ledger.update(
            i,
            LogView {
                row: RowView { status, updated_at_ms, ..ledger[i].row },
                events: ledger[i].events,
            },
        ),
{
    match change {
        ChangeView::InsertWorkflow(row) => {
            assert(apply(ledger, change).drop_last() =~= ledger);
        },
        ChangeView::InsertEvent(event) => {
            if 0 <= i < ledger.len() && ledger[i].row.id == event.workflow_id {
                lemma_slot(ledger, event.workflow_id, i);
            }
        },
        ChangeView::UpdateWorkflow { id, .. } => {
            if 0 <= i < ledger.len() && ledger[i].row.id == id {
                lemma_slot(ledger, id, i);
            }
        },
    }
}

/// Changes are carried out one after the other, in order, and none is no change.
pub proof fn law_changes_are_carried_out_in_order(
    ledger: Seq<LogView>,
    changes: Seq<ChangeView>,
    change: ChangeView,
)
    ensures
        replay(ledger, Seq::empty()) == ledger,
        replay(ledger, changes.push(change)) == apply(replay(ledger, changes), change),
{
    lemma_replay_of_push(ledger, changes, change);
}

/// Every event of a completed call counts for its step, whatever it holds, and no
/// other event does; every event of an answered prompt counts for its hash, and
/// no other event does.
pub proof fn law_which_events_are_looked_up(event: EventView, text: Seq<char>)
    ensures
        completes(event, text) <==> {
            &&& event.payload is ToolCallCompleted
            &&& event.payload->ToolCallCompleted_step_id == text
        },
        answers(event, text) <==> {
            &&& event.payload is LlmCallCompleted
            &&& event.payload->LlmCallCompleted_prompt_hash == text
        },
{
}

} // verus!
