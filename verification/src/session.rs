//! The mathematical context of a running workflow: what each step of a tool or
//! model call makes of it, and the laws of replay, retries and budgets.

use crate::budget::{breach, law_breach_is_permanent, Budget, BudgetUsage};
use crate::error::ErrorView;
use crate::event::{EventView, PayloadView};
use crate::journal::{append_refusal, started_row};
use crate::ledger::{
    answers, can_append, completes, events_of, final_output, first_match, holds,
    law_a_log_is_found_by_its_id, law_append_changes_one_log, law_append_is_scoped,
    law_failures_are_not_cached, law_found_once_found_forever, law_open_adds_one_workflow,
    law_operations_keep_the_ledger_well_formed, law_prompt_lookup_finds_the_first_answer,
    law_step_lookup_finds_the_first_completion, ledger_ok, lemma_first_match_of_push, lemma_slot,
    llm_answer, log_ok, next, next_event, next_sequence, run, slot, tool_output, Op,
};
use crate::llm::{
    cache_key, law_different_requests_hash_different_bytes, request_text, sha256, RequestView,
    ResponseView,
};
use crate::retry::{law_backoff_is_bounded, RetryPolicy, ONE};
use crate::row::{LogView, RowView, WorkflowStatus};
use crate::text::{duration_text, hex_text, law_hex_text_is_injective};
use serde_json::Value;
use vstd::prelude::*;
use vstd::utf8::encode_utf8;

verus! {

/// A workflow that runs: the journal that it works on, and its budget.
pub struct Session {
    pub id: Seq<char>,
    pub ledger: Seq<LogView>,
    pub budget: Budget,
    pub usage: BudgetUsage,
}

/// A tool call that is under way, at the attempt of this number, from one.
pub struct PendingView {
    pub step_id: Seq<char>,
    pub policy: RetryPolicy,
    pub attempt: u32,
}

/// How a call begins.
pub enum StartView {
    /// The step has completed before; this is its output.
    Cached(Value),
    /// The tool is to be run.
    Attempt(PendingView),
}

/// How an attempt went.
pub enum AttemptView {
    /// The tool returned.
    Output(Value),
    /// The tool failed.
    Failure(Seq<char>),
    /// The tool did not return in time.
    TimedOut,
}

/// How a call goes on after an attempt.
pub enum EndView {
    /// The call is done; this is its output.
    Done(Value),
    /// The tool is to be run again, after a pause in nanoseconds.
    Retry { call: PendingView, pause: u128 },
}

/// How a model call begins.
pub enum PromptView {
    /// The model has been asked this before; this is what it answered.
    Cached(ResponseView),
    /// The model is to be asked; the answer goes under this hash.
    Ask(Seq<char>),
}

/// `used` and `more` together, or the highest number where they exceed it.
pub open spec fn saturated(used: u64, more: u64) -> u64 {
    if used + more <= u64::MAX {
        (used + more) as u64
    } else {
        u64::MAX
    }
}

impl PendingView {
    /// The first attempt is always made; a later one only where the policy
    /// allows that many.
    pub open spec fn is_allowed(self) -> bool {
        self.attempt >= 1 && (self.attempt == 1 || self.attempt <= self.policy.max_attempts)
    }

    /// The call at its next attempt.
    pub open spec fn again(self) -> PendingView {
        PendingView { attempt: (self.attempt + 1) as u32, ..self }
    }

    /// The event that records the start of the attempt.
    pub open spec fn start_event(self) -> PayloadView {
        PayloadView::ToolCallStarted {
            step_id: self.step_id,
            name: self.step_id,
            input_hash: Seq::empty(),
            attempt: self.attempt,
        }
    }

    /// The event that records how the attempt went.
    pub open spec fn end_event(self, result: AttemptView, duration_ms: u64) -> PayloadView {
        match result {
            AttemptView::Output(output) => PayloadView::ToolCallCompleted {
                step_id: self.step_id,
                output,
                duration_ms,
            },
            _ => PayloadView::ToolCallFailed {
                step_id: self.step_id,
                error: self.failure(result),
                duration_ms,
            },
        }
    }

    /// The message of an attempt that failed.
    pub open spec fn failure(self, result: AttemptView) -> Seq<char> {
        match result {
            AttemptView::Failure(message) => message,
            _ => timeout_message(self.policy.timeout),
        }
    }
}

/// The message of an attempt that did not return in time.
pub open spec fn timeout_message(timeout: Option<u128>) -> Seq<char> {
    let ns: u128 = match timeout {
        Some(ns) => ns,
        None => 0,
    };
    "timeout after "@ + duration_text(ns as nat)
}

/// The policy of a call that is attempted once.
pub open spec fn one_attempt() -> RetryPolicy {
    RetryPolicy {
        max_attempts: 1,
        initial_backoff: 0,
        max_backoff: 0,
        backoff_multiplier: ONE,
        timeout: None,
    }
}

impl Session {
    /// A session on a journal: the workflow is added where the journal does not
    /// have it.
    pub open spec fn opened(
        ledger: Seq<LogView>,
        id: Seq<char>,
        name: Seq<char>,
        input_hash: Seq<char>,
        now: i64,
    ) -> Session {
        Session {
            id,
            ledger: next(ledger, Op::Open(started_row(id, name, input_hash, None, now))),
            budget: Budget { max_tokens: None, max_usd_micros: None, max_wallclock_ms: None },
            usage: BudgetUsage { tokens: 0, usd_micros: 0, wallclock_ms: 0 },
        }
    }

    /// The output of a step, where it has completed.
    pub open spec fn output_of(self, step_id: Seq<char>) -> Option<Value> {
        first_match(events_of(self.ledger, self.id), tool_output(step_id))
    }

    /// What a model answered under a hash, where it has been asked.
    pub open spec fn answer_to(self, prompt_hash: Seq<char>) -> Option<ResponseView> {
        first_match(events_of(self.ledger, self.id), llm_answer(prompt_hash))
    }

    /// The output of the workflow, where it has completed.
    pub open spec fn final_output(self) -> Option<Value> {
        first_match(events_of(self.ledger, self.id), final_output())
    }

    /// Whether the journal takes another event of the workflow.
    pub open spec fn can_record(self) -> bool {
        can_append(self.ledger, self.id)
    }

    /// The session with one more event in the journal.
    pub open spec fn recorded(self, payload: PayloadView, now: i64) -> Session {
        Session { ledger: next(self.ledger, Op::Append { id: self.id, payload, now }), ..self }
    }

    /// The session once time was used.
    pub open spec fn charged_ms(self, ms: u64) -> Session {
        Session {
            usage: BudgetUsage {
                wallclock_ms: saturated(self.usage.wallclock_ms, ms),
                ..self.usage
            },
            ..self
        }
    }

    /// The session once tokens were used.
    pub open spec fn charged_tokens(self, n: u64) -> Session {
        Session {
            usage: BudgetUsage { tokens: saturated(self.usage.tokens, n), ..self.usage },
            ..self
        }
    }

    /// The session once money was spent.
    pub open spec fn charged_usd_micros(self, n: u64) -> Session {
        Session {
            usage: BudgetUsage { usd_micros: saturated(self.usage.usd_micros, n), ..self.usage },
            ..self
        }
    }

    /// Why no attempt may be made: the workflow is cancelled, or a cap is
    /// exceeded.
    pub open spec fn refusal(self, cancelled: bool) -> Option<ErrorView> {
        if cancelled {
            Some(ErrorView::Cancelled)
        } else {
            match breach(self.usage, self.budget) {
                Some(field) => Some(ErrorView::BudgetExceeded(field)),
                None => None,
            }
        }
    }

    /// Records the start of an attempt.
    pub open spec fn launched(self, call: PendingView, now: i64) -> (
        Session,
        std::result::Result<PendingView, ErrorView>,
    ) {
        if self.can_record() {
            (self.recorded(call.start_event(), now), Ok(call))
        } else {
            (self, Err(append_refusal(self.ledger, self.id)))
        }
    }

    /// Begins a call: a step that has completed is answered from the journal;
    /// else the call is refused, or its first attempt starts.
    pub open spec fn begun(
        self,
        step_id: Seq<char>,
        policy: RetryPolicy,
        cancelled: bool,
        now: i64,
    ) -> (Session, std::result::Result<StartView, ErrorView>) {
        match self.output_of(step_id) {
            Some(output) => (self, Ok(StartView::Cached(output))),
            None => match self.refusal(cancelled) {
                Some(error) => (self, Err(error)),
                None => {
                    let (after, started) = self.launched(
                        PendingView { step_id, policy, attempt: 1 },
                        now,
                    );
                    match started {
                        Ok(call) => (after, Ok(StartView::Attempt(call))),
                        Err(error) => (after, Err(error)),
                    }
                },
            },
        }
    }

    /// Starts an attempt after the pause.
    pub open spec fn resumed(self, call: PendingView, cancelled: bool, now: i64) -> (
        Session,
        std::result::Result<PendingView, ErrorView>,
    ) {
        if cancelled {
            (self, Err(ErrorView::Cancelled))
        } else {
            self.launched(call, now)
        }
    }

    /// Ends an attempt. Its time is charged, and how it went is recorded. An
    /// output ends the call. After a failure the tool is run again, where the
    /// policy allows one more attempt and nothing speaks against it.
    pub open spec fn ended(
        self,
        call: PendingView,
        result: AttemptView,
        duration_ms: u64,
        cancelled: bool,
        now: i64,
    ) -> (Session, std::result::Result<EndView, ErrorView>) {
        let spent = self.charged_ms(duration_ms);
        let after = spent.recorded(call.end_event(result, duration_ms), now);
        if !spent.can_record() {
            (spent, Err(append_refusal(self.ledger, self.id)))
        } else if let AttemptView::Output(output) = result {
            (after, Ok(EndView::Done(output)))
        } else if call.attempt >= call.policy.max_attempts {
            (after, Err(ErrorView::Tool(call.failure(result))))
        } else {
            match after.refusal(cancelled) {
                Some(error) => (after, Err(error)),
                None => (
                    after,
                    Ok(
                        EndView::Retry {
                            call: call.again(),
                            pause: call.policy.backoff(call.attempt as nat),
                        },
                    ),
                ),
            }
        }
    }

    /// A call with a single attempt: answered from the journal, refused, or
    /// begun and ended by how the tool went.
    pub open spec fn called(
        self,
        step_id: Seq<char>,
        started: (bool, i64),
        result: AttemptView,
        duration_ms: u64,
        ended: (bool, i64),
    ) -> (Session, std::result::Result<Value, ErrorView>) {
        let (after, start) = self.begun(step_id, one_attempt(), started.0, started.1);
        match start {
            Ok(StartView::Cached(output)) => (after, Ok(output)),
            Ok(StartView::Attempt(call)) => {
                let (done, end) = after.ended(call, result, duration_ms, ended.0, ended.1);
                match end {
                    Ok(EndView::Done(output)) => (done, Ok(output)),
                    // The policy allows no second attempt.
                    Ok(EndView::Retry { .. }) => arbitrary(),
                    Err(error) => (done, Err(error)),
                }
            },
            Err(error) => (after, Err(error)),
        }
    }

    /// Begins a model call: a prompt that has been answered is answered from
    /// the journal.
    pub open spec fn prompted(self, request: RequestView) -> PromptView {
        match self.answer_to(cache_key(request)) {
            Some(response) => PromptView::Cached(response),
            None => PromptView::Ask(cache_key(request)),
        }
    }

    /// Ends a model call: its tokens are charged, and the answer is recorded.
    pub open spec fn answered(
        self,
        step_id: Seq<char>,
        prompt_hash: Seq<char>,
        response: ResponseView,
        now: i64,
    ) -> (Session, std::result::Result<ResponseView, ErrorView>) {
        let spent = self.charged_tokens((response.tokens_in + response.tokens_out) as u64);
        if spent.can_record() {
            (
                spent.recorded(
                    PayloadView::LlmCallCompleted {
                        step_id,
                        model: response.model,
                        prompt_hash,
                        response: response.content,
                        tokens_in: response.tokens_in,
                        tokens_out: response.tokens_out,
                    },
                    now,
                ),
                Ok(response),
            )
        } else {
            (spent, Err(append_refusal(self.ledger, self.id)))
        }
    }

    /// Ends a model call with what the model replied: an error is passed on.
    pub open spec fn replied(
        self,
        step_id: Seq<char>,
        prompt_hash: Seq<char>,
        reply: std::result::Result<ResponseView, ErrorView>,
        now: i64,
    ) -> (Session, std::result::Result<ResponseView, ErrorView>) {
        match reply {
            Ok(response) => self.answered(step_id, prompt_hash, response, now),
            Err(error) => (self, Err(error)),
        }
    }

    /// Completes the workflow.
    pub open spec fn completed(self, output: Value, now: i64) -> (
        Session,
        std::result::Result<(), ErrorView>,
    ) {
        if self.can_record() {
            (self.recorded(PayloadView::WorkflowCompleted { output }, now), Ok(()))
        } else {
            (self, Err(append_refusal(self.ledger, self.id)))
        }
    }
}

// ---------------------------------------------------------------------------
// Replay
// ---------------------------------------------------------------------------

/// The core guarantee: once a step has produced an output, every later call of
/// that step observes that output, the first where there are several, and the
/// tool is not run. Whatever happened to the journal since, whichever process
/// asks, and whatever its budget or token says.
pub proof fn law_completed_step_replays(
    before: Session,
    call: PendingView,
    output: Value,
    duration_ms: u64,
    cancelled: bool,
    now: i64,
    history: Seq<Op>,
    later: Session,
    later_policy: RetryPolicy,
    later_cancelled: bool,
    later_now: i64,
)
    requires
        ledger_ok(before.ledger),
        before.can_record(),
        later.id == before.id,
        later.ledger == run(
            before.ended(call, AttemptView::Output(output), duration_ms, cancelled, now).0.ledger,
            history,
        ),
    ensures
        before.ended(call, AttemptView::Output(output), duration_ms, cancelled, now).1 == Ok::<
            EndView,
            ErrorView,
        >(EndView::Done(output)),
        later.begun(call.step_id, later_policy, later_cancelled, later_now) == (
            later,
            Ok::<StartView, ErrorView>(
                StartView::Cached(
                    match before.output_of(call.step_id) {
                        Some(first) => first,
                        None => output,
                    },
                ),
            ),
        ),
{
    let payload = call.end_event(AttemptView::Output(output), duration_ms);
    let after = before.ended(call, AttemptView::Output(output), duration_ms, cancelled, now).0;
    let pick = tool_output(call.step_id);
    law_operations_keep_the_ledger_well_formed(
        before.ledger,
        Op::Append { id: before.id, payload, now },
    );
    lemma_recorded_is_found(before, payload, now, pick);
    law_found_once_found_forever(after.ledger, history, before.id, pick);
}

/// What a lookup did not find, it finds in an event that is recorded.
proof fn lemma_recorded_is_found<T>(
    before: Session,
    payload: PayloadView,
    now: i64,
    pick: spec_fn(PayloadView) -> Option<T>,
)
    requires
        ledger_ok(before.ledger),
        before.can_record(),
    ensures
        first_match(events_of(before.recorded(payload, now).ledger, before.id), pick) == (
        match first_match(events_of(before.ledger, before.id), pick) {
            Some(found) => Some(found),
            None => pick(payload),
        }),
{
    law_append_is_scoped(before.ledger, before.id, payload, now, before.id);
    let log = before.ledger[slot(before.ledger, before.id)];
    lemma_first_match_of_push(log.events, next_event(log, payload, now), pick);
}

impl Session {
    /// What the first steps of a workflow observe, where all of them have
    /// completed. A workflow is what its next step is, given the outputs so
    /// far; it has none where it is done.
    pub open spec fn observed(
        self,
        workflow: spec_fn(Seq<Value>) -> Option<Seq<char>>,
        steps: nat,
    ) -> Option<Seq<Value>>
        decreases steps,
    {
        if steps == 0 {
            Some(Seq::empty())
        } else {
            match self.observed(workflow, (steps - 1) as nat) {
                Some(outputs) => match workflow(outputs) {
                    Some(step_id) => match self.output_of(step_id) {
                        Some(output) => Some(outputs.push(output)),
                        None => None,
                    },
                    None => None,
                },
                None => None,
            }
        }
    }
}

/// Replay is deterministic: a workflow whose next step follows from the outputs
/// so far takes the same steps and observes the same outputs when it is run
/// again, as far as it had come, whatever happened to the journal since.
pub proof fn law_workflow_replays(
    before: Session,
    workflow: spec_fn(Seq<Value>) -> Option<Seq<char>>,
    steps: nat,
    history: Seq<Op>,
    later: Session,
)
    requires
        ledger_ok(before.ledger),
        before.observed(workflow, steps) is Some,
        later.id == before.id,
        later.ledger == run(before.ledger, history),
    ensures
        later.observed(workflow, steps) == before.observed(workflow, steps),
    decreases steps,
{
    if steps > 0 {
        law_workflow_replays(before, workflow, (steps - 1) as nat, history, later);
        let outputs = before.observed(workflow, (steps - 1) as nat)->0;
        let step_id = workflow(outputs)->0;
        law_found_once_found_forever(before.ledger, history, before.id, tool_output(step_id));
    }
}

/// A call that is answered from the journal changes nothing and costs nothing,
/// even where the workflow is cancelled or its budget exceeded.
pub proof fn law_cached_call_is_free(
    session: Session,
    step_id: Seq<char>,
    policy: RetryPolicy,
    cancelled: bool,
    now: i64,
)
    requires
        session.output_of(step_id) is Some,
    ensures
        session.begun(step_id, policy, cancelled, now) == (
            session,
            Ok::<StartView, ErrorView>(StartView::Cached(session.output_of(step_id)->0)),
        ),
{
}

/// Failures are not cached: neither the start nor the failure of an attempt
/// changes what any step is answered with, so a step that failed is run again.
pub proof fn law_failed_attempt_is_not_replayed(
    before: Session,
    call: PendingView,
    result: AttemptView,
    duration_ms: u64,
    cancelled: bool,
    now: i64,
    step_id: Seq<char>,
)
    requires
        ledger_ok(before.ledger),
        !(result is Output),
    ensures
        before.launched(call, now).0.output_of(step_id) == before.output_of(step_id),
        before.ended(call, result, duration_ms, cancelled, now).0.output_of(step_id)
            == before.output_of(step_id),
{
    law_failures_are_not_cached(
        before.ledger,
        before.id,
        call.start_event(),
        now,
        before.id,
        step_id,
    );
    law_failures_are_not_cached(
        before.ledger,
        before.id,
        call.end_event(result, duration_ms),
        now,
        before.id,
        step_id,
    );
}

/// Once a model has answered a prompt, every later call with the same request,
/// from whichever step, observes that answer, the first where there are several,
/// and the model is not asked.
pub proof fn law_answered_prompt_replays(
    before: Session,
    step_id: Seq<char>,
    request: RequestView,
    response: ResponseView,
    now: i64,
    history: Seq<Op>,
    later: Session,
)
    requires
        ledger_ok(before.ledger),
        before.can_record(),
        later.id == before.id,
        later.ledger == run(
            before.answered(step_id, cache_key(request), response, now).0.ledger,
            history,
        ),
    ensures
        later.prompted(request) == PromptView::Cached(
            match before.answer_to(cache_key(request)) {
                Some(first) => first,
                None => response,
            },
        ),
{
    let hash = cache_key(request);
    let payload = PayloadView::LlmCallCompleted {
        step_id,
        model: response.model,
        prompt_hash: hash,
        response: response.content,
        tokens_in: response.tokens_in,
        tokens_out: response.tokens_out,
    };
    let pick = llm_answer(hash);
    law_operations_keep_the_ledger_well_formed(
        before.ledger,
        Op::Append { id: before.id, payload, now },
    );
    lemma_recorded_is_found(before, payload, now, pick);
    law_found_once_found_forever(
        before.answered(step_id, hash, response, now).0.ledger,
        history,
        before.id,
        pick,
    );
}

/// A workflow that has completed keeps the output with which it first did.
pub proof fn law_final_output_stays(
    before: Session,
    output: Value,
    now: i64,
    history: Seq<Op>,
    later: Session,
)
    requires
        ledger_ok(before.ledger),
        before.can_record(),
        later.id == before.id,
        later.ledger == run(before.completed(output, now).0.ledger, history),
    ensures
        later.final_output() == Some(
            match before.final_output() {
                Some(first) => first,
                None => output,
            },
        ),
{
    let payload = PayloadView::WorkflowCompleted { output };
    law_operations_keep_the_ledger_well_formed(
        before.ledger,
        Op::Append { id: before.id, payload, now },
    );
    lemma_recorded_is_found(before, payload, now, final_output());
    law_found_once_found_forever(
        before.completed(output, now).0.ledger,
        history,
        before.id,
        final_output(),
    );
}

/// Opening a workflow that the journal has leaves the journal as it is: a
/// restart resumes from what was recorded.
pub proof fn law_reopening_resumes(
    ledger: Seq<LogView>,
    id: Seq<char>,
    name: Seq<char>,
    input_hash: Seq<char>,
    now: i64,
)
    requires
        holds(ledger, id),
    ensures
        Session::opened(ledger, id, name, input_hash, now).ledger == ledger,
        Session::opened(ledger, id, name, input_hash, now).usage == (BudgetUsage {
            tokens: 0,
            usd_micros: 0,
            wallclock_ms: 0,
        }),
{
}

// ---------------------------------------------------------------------------
// Retries
// ---------------------------------------------------------------------------

/// A timeout is recorded and handled as any other failure.
pub proof fn law_timeout_is_a_failure(
    session: Session,
    call: PendingView,
    duration_ms: u64,
    cancelled: bool,
    now: i64,
)
    ensures
        session.ended(call, AttemptView::TimedOut, duration_ms, cancelled, now) == session.ended(
            call,
            AttemptView::Failure(timeout_message(call.policy.timeout)),
            duration_ms,
            cancelled,
            now,
        ),
{
}

/// A tool is run again only after a failure, only while the policy allows
/// another attempt, and after a pause of at most the maximum.
pub proof fn law_retries_are_bounded(
    session: Session,
    call: PendingView,
    result: AttemptView,
    duration_ms: u64,
    cancelled: bool,
    now: i64,
)
    requires
        call.is_allowed(),
    ensures
        session.ended(call, result, duration_ms, cancelled, now).1 matches Ok(
            EndView::Retry { call: again, pause },
        ) ==> {
            &&& !(result is Output)
            &&& again.is_allowed()
            &&& again.step_id == call.step_id
            &&& again.policy == call.policy
            &&& again.attempt == call.attempt + 1
            &&& again.attempt <= call.policy.max_attempts
            &&& pause == call.policy.backoff(call.attempt as nat)
            &&& pause <= call.policy.max_backoff
        },
{
    law_backoff_is_bounded(call.policy, call.attempt as nat);
}

/// With a policy of one attempt, a failure ends the call with the tool's
/// message.
pub proof fn law_no_retry_with_one_attempt(
    session: Session,
    call: PendingView,
    message: Seq<char>,
    duration_ms: u64,
    cancelled: bool,
    now: i64,
)
    requires
        call.is_allowed(),
        call.policy.max_attempts <= 1,
        session.can_record(),
    ensures
        session.ended(call, AttemptView::Failure(message), duration_ms, cancelled, now).1 == Err::<
            EndView,
            ErrorView,
        >(ErrorView::Tool(message)),
{
}

/// An attempt that was made: how it went, how long it took, and when it started
/// and ended.
pub struct PastAttempt {
    pub result: AttemptView,
    pub duration_ms: u64,
    pub started: i64,
    pub ended: i64,
}

/// The call of a step at an attempt.
pub open spec fn attempt_of(step_id: Seq<char>, policy: RetryPolicy, attempt: int) -> PendingView {
    PendingView { step_id, policy, attempt: attempt as u32 }
}

impl Session {
    /// The session once each of these attempts of a call has been made.
    pub open spec fn attempted(
        self,
        step_id: Seq<char>,
        policy: RetryPolicy,
        attempts: Seq<PastAttempt>,
    ) -> Session
        decreases attempts.len(),
    {
        if attempts.len() == 0 {
            self
        } else {
            let before = self.attempted(step_id, policy, attempts.drop_last());
            let call = attempt_of(step_id, policy, attempts.len() as int);
            let last = attempts.last();
            before.launched(call, last.started).0.ended(
                call,
                last.result,
                last.duration_ms,
                false,
                last.ended,
            ).0
        }
    }

    /// The payloads of the workflow's events.
    pub open spec fn payloads(self) -> Seq<PayloadView> {
        events_of(self.ledger, self.id).map_values(|event: EventView| event.payload)
    }
}

/// The journal keeps the whole history of a call: each attempt adds its start,
/// under its own number, and how it went.
pub proof fn law_attempts_are_all_recorded(
    before: Session,
    step_id: Seq<char>,
    policy: RetryPolicy,
    attempts: Seq<PastAttempt>,
)
    requires
        ledger_ok(before.ledger),
        holds(before.ledger, before.id),
        next_sequence(events_of(before.ledger, before.id)) + 2 * attempts.len() <= i64::MAX,
    ensures
        ({
            let old_log = before.payloads();
            let new_log = before.attempted(step_id, policy, attempts).payloads();
            &&& new_log.len() == old_log.len() + 2 * attempts.len()
            &&& new_log.take(old_log.len() as int) == old_log
            &&& forall|i: int|
                0 <= i < attempts.len() ==> {
                    let call = #[trigger] attempt_of(step_id, policy, i + 1);
                    &&& new_log[old_log.len() + 2 * i] == call.start_event()
                    &&& new_log[old_log.len() + 2 * i + 1] == call.end_event(
                        attempts[i].result,
                        attempts[i].duration_ms,
                    )
                }
        }),
{
    lemma_attempted(before, step_id, policy, attempts);
}

proof fn lemma_attempted(
    before: Session,
    step_id: Seq<char>,
    policy: RetryPolicy,
    attempts: Seq<PastAttempt>,
)
    requires
        ledger_ok(before.ledger),
        holds(before.ledger, before.id),
        next_sequence(events_of(before.ledger, before.id)) + 2 * attempts.len() <= i64::MAX,
    ensures
        ({
            let after = before.attempted(step_id, policy, attempts);
            let old_log = before.payloads();
            let new_log = after.payloads();
            &&& ledger_ok(after.ledger)
            &&& holds(after.ledger, after.id)
            &&& after.id == before.id
            &&& next_sequence(events_of(after.ledger, after.id)) == next_sequence(
                events_of(before.ledger, before.id),
            ) + 2 * attempts.len()
            &&& new_log.len() == old_log.len() + 2 * attempts.len()
            &&& new_log.take(old_log.len() as int) == old_log
            &&& forall|i: int|
                0 <= i < attempts.len() ==> {
                    let call = #[trigger] attempt_of(step_id, policy, i + 1);
                    &&& new_log[old_log.len() + 2 * i] == call.start_event()
                    &&& new_log[old_log.len() + 2 * i + 1] == call.end_event(
                        attempts[i].result,
                        attempts[i].duration_ms,
                    )
                }
        }),
    decreases attempts.len(),
{
    let old_log = before.payloads();
    if attempts.len() == 0 {
        assert(old_log.take(old_log.len() as int) =~= old_log);
    } else {
        lemma_attempted(before, step_id, policy, attempts.drop_last());
        let n = attempts.len() - 1;
        let mid = before.attempted(step_id, policy, attempts.drop_last());
        let call = attempt_of(step_id, policy, attempts.len() as int);
        let last = attempts.last();
        let started = mid.launched(call, last.started).0;
        let spent = started.charged_ms(last.duration_ms);
        let ended = started.ended(call, last.result, last.duration_ms, false, last.ended).0;
        lemma_recorded(mid, call.start_event(), last.started);
        lemma_recorded(spent, call.end_event(last.result, last.duration_ms), last.ended);
        let new_log = ended.payloads();
        assert(new_log =~= mid.payloads().push(call.start_event()).push(
            call.end_event(last.result, last.duration_ms),
        ));
        assert(new_log.take(old_log.len() as int) =~= mid.payloads().take(old_log.len() as int));
        assert forall|i: int| 0 <= i < attempts.len() implies {
            let call = #[trigger] attempt_of(step_id, policy, i + 1);
            &&& new_log[old_log.len() + 2 * i] == call.start_event()
            &&& new_log[old_log.len() + 2 * i + 1] == call.end_event(
                attempts[i].result,
                attempts[i].duration_ms,
            )
        } by {
            if i < n {
                assert(attempts.drop_last()[i] == attempts[i]);
                assert(mid.payloads()[old_log.len() + 2 * i] == new_log[old_log.len() + 2 * i]);
                assert(mid.payloads()[old_log.len() + 2 * i + 1] == new_log[old_log.len() + 2 * i
                    + 1]);
            }
        }
    }
}

/// What recording an event makes of a session.
proof fn lemma_recorded(session: Session, payload: PayloadView, now: i64)
    requires
        ledger_ok(session.ledger),
        session.can_record(),
    ensures
        ledger_ok(session.recorded(payload, now).ledger),
        holds(session.recorded(payload, now).ledger, session.id),
        session.recorded(payload, now).payloads() == session.payloads().push(payload),
        next_sequence(events_of(session.recorded(payload, now).ledger, session.id))
            == next_sequence(events_of(session.ledger, session.id)) + 1,
{
    let after = session.recorded(payload, now);
    let log = session.ledger[slot(session.ledger, session.id)];
    law_operations_keep_the_ledger_well_formed(
        session.ledger,
        Op::Append { id: session.id, payload, now },
    );
    law_append_is_scoped(session.ledger, session.id, payload, now, session.id);
    assert(events_of(after.ledger, session.id) == log.events.push(next_event(log, payload, now)));
    assert(after.payloads() =~= session.payloads().push(payload));
}

// ---------------------------------------------------------------------------
// Budgets and cancellation
// ---------------------------------------------------------------------------

/// A call that would run a tool is refused before anything is journaled, where
/// the workflow is cancelled or a cap is exceeded.
pub proof fn law_refused_call_journals_nothing(
    session: Session,
    step_id: Seq<char>,
    policy: RetryPolicy,
    cancelled: bool,
    now: i64,
)
    requires
        session.output_of(step_id) is None,
        cancelled || breach(session.usage, session.budget) is Some,
    ensures
        session.begun(step_id, policy, cancelled, now) == (
            session,
            Err::<StartView, ErrorView>(
                if cancelled {
                    ErrorView::Cancelled
                } else {
                    ErrorView::BudgetExceeded(breach(session.usage, session.budget)->0)
                },
            ),
        ),
{
}

/// A call that completes gets its output, even where its own time exceeds the
/// cap or the workflow has been cancelled meanwhile.
pub proof fn law_success_is_never_refused(
    session: Session,
    call: PendingView,
    output: Value,
    duration_ms: u64,
    cancelled: bool,
    now: i64,
)
    requires
        session.can_record(),
    ensures
        session.ended(call, AttemptView::Output(output), duration_ms, cancelled, now).1 == Ok::<
            EndView,
            ErrorView,
        >(EndView::Done(output)),
{
}

/// After a failure there is no retry where the workflow is cancelled or a cap
/// is exceeded; the failure is journaled all the same.
pub proof fn law_no_retry_when_refused(
    session: Session,
    call: PendingView,
    message: Seq<char>,
    duration_ms: u64,
    cancelled: bool,
    now: i64,
)
    requires
        session.can_record(),
        call.attempt < call.policy.max_attempts,
        cancelled || breach(session.usage, session.budget) is Some,
    ensures
        session.ended(call, AttemptView::Failure(message), duration_ms, cancelled, now).1 is Err,
        session.ended(call, AttemptView::Failure(message), duration_ms, cancelled, now).0
            == session.charged_ms(duration_ms).recorded(
            call.end_event(AttemptView::Failure(message), duration_ms),
            now,
        ),
{
    if !cancelled {
        law_breach_is_permanent(
            session.usage,
            session.charged_ms(duration_ms).usage,
            session.budget,
        );
    }
}

/// Once a cap is exceeded, every charge leaves it exceeded.
pub proof fn law_charges_do_not_lift_a_breach(session: Session, n: u64)
    requires
        breach(session.usage, session.budget) is Some,
    ensures
        breach(session.charged_tokens(n).usage, session.budget) is Some,
        breach(session.charged_usd_micros(n).usage, session.budget) is Some,
        breach(session.charged_ms(n).usage, session.budget) is Some,
{
    law_breach_is_permanent(session.usage, session.charged_tokens(n).usage, session.budget);
    law_breach_is_permanent(session.usage, session.charged_usd_micros(n).usage, session.budget);
    law_breach_is_permanent(session.usage, session.charged_ms(n).usage, session.budget);
}

/// A fresh answer of a model is charged with its tokens in both directions.
pub proof fn law_fresh_answer_is_charged(
    session: Session,
    step_id: Seq<char>,
    prompt_hash: Seq<char>,
    response: ResponseView,
    now: i64,
)
    requires
        session.usage.tokens + response.tokens_in + response.tokens_out <= u64::MAX,
    ensures
        session.answered(step_id, prompt_hash, response, now).0.usage == (BudgetUsage {
            tokens: (session.usage.tokens + response.tokens_in + response.tokens_out) as u64,
            ..session.usage
        }),
{
}

// ---------------------------------------------------------------------------
// Each step, in full
// ---------------------------------------------------------------------------

/// Why an attempt may not be made, over what was used and the caps alone: each
/// cap counts, whichever others are set.
pub proof fn law_refusal_by_token_or_cap(session: Session, cancelled: bool)
    ensures
        cancelled ==> session.refusal(cancelled) == Some(ErrorView::Cancelled),
        session.refusal(cancelled) is None <==> {
            &&& !cancelled
            &&& session.budget.max_tokens is Some ==> session.usage.tokens
                <= session.budget.max_tokens->0
            &&& session.budget.max_usd_micros is Some ==> session.usage.usd_micros
                <= session.budget.max_usd_micros->0
            &&& session.budget.max_wallclock_ms is Some ==> session.usage.wallclock_ms
                <= session.budget.max_wallclock_ms->0
        },
        session.refusal(cancelled) matches Some(error) ==> !cancelled ==> error
            == ErrorView::BudgetExceeded(
            if session.budget.max_tokens is Some && session.usage.tokens
                > session.budget.max_tokens->0 {
                "tokens"@
            } else if session.budget.max_usd_micros is Some && session.usage.usd_micros
                > session.budget.max_usd_micros->0 {
                "usd"@
            } else {
                "wallclock"@
            },
        ),
{
}

/// What is charged is added to what was used, up to the highest number, and
/// nothing else of the session changes.
pub proof fn law_charges_add_up(session: Session, n: u64)
    ensures
        session.charged_tokens(n).usage.tokens == (if session.usage.tokens + n
            <= 0xffff_ffff_ffff_ffff {
            session.usage.tokens + n
        } else {
            0xffff_ffff_ffff_ffff
        }),
        session.charged_tokens(n) == (Session {
            usage: BudgetUsage {
                tokens: session.charged_tokens(n).usage.tokens,
                usd_micros: session.usage.usd_micros,
                wallclock_ms: session.usage.wallclock_ms,
            },
            ..session
        }),
        session.charged_usd_micros(n).usage.usd_micros == (if session.usage.usd_micros + n
            <= 0xffff_ffff_ffff_ffff {
            session.usage.usd_micros + n
        } else {
            0xffff_ffff_ffff_ffff
        }),
        session.charged_usd_micros(n) == (Session {
            usage: BudgetUsage {
                tokens: session.usage.tokens,
                usd_micros: session.charged_usd_micros(n).usage.usd_micros,
                wallclock_ms: session.usage.wallclock_ms,
            },
            ..session
        }),
        session.charged_ms(n).usage.wallclock_ms == (if session.usage.wallclock_ms + n
            <= 0xffff_ffff_ffff_ffff {
            session.usage.wallclock_ms + n
        } else {
            0xffff_ffff_ffff_ffff
        }),
        session.charged_ms(n) == (Session {
            usage: BudgetUsage {
                tokens: session.usage.tokens,
                usd_micros: session.usage.usd_micros,
                wallclock_ms: session.charged_ms(n).usage.wallclock_ms,
            },
            ..session
        }),
{
}

/// A new session has no caps and has used nothing. Its journal is the one that it
/// was given, with the workflow added, running, where the journal did not have
/// it.
pub proof fn law_new_session_starts_fresh(
    ledger: Seq<LogView>,
    id: Seq<char>,
    name: Seq<char>,
    input_hash: Seq<char>,
    now: i64,
)
    ensures
        ({
            let session = Session::opened(ledger, id, name, input_hash, now);
            &&& session.id == id
            &&& session.budget.max_tokens is None
            &&& session.budget.max_usd_micros is None
            &&& session.budget.max_wallclock_ms is None
            &&& session.usage.tokens == 0
            &&& session.usage.usd_micros == 0
            &&& session.usage.wallclock_ms == 0
            &&& (exists|k: int| 0 <= k < ledger.len() && (#[trigger] ledger[k]).row.id == id)
                ==> session.ledger == ledger
            &&& (forall|k: int| 0 <= k < ledger.len() ==> (#[trigger] ledger[k]).row.id != id) ==> {
                &&& session.ledger.drop_last() == ledger
                &&& session.ledger.len() == ledger.len() + 1
                &&& session.ledger.last().row == (RowView {
                    id,
                    name,
                    input_hash,
                    parent_id: None,
                    input: None,
                    status: WorkflowStatus::Running,
                    created_at_ms: now,
                    updated_at_ms: now,
                })
                &&& session.ledger.last().events.len() == 1
                &&& session.ledger.last().events[0] == (EventView {
                    sequence: 1,
                    workflow_id: id,
                    created_at_ms: now,
                    payload: PayloadView::WorkflowStarted { name, input_hash },
                })
            }
        }),
{
    law_open_adds_one_workflow(ledger, started_row(id, name, input_hash, None, now));
}

/// What a session finds in the journal is found in the events of its own
/// workflow, and in all of them.
pub proof fn law_lookups_search_the_own_log(
    session: Session,
    i: int,
    step_id: Seq<char>,
    prompt_hash: Seq<char>,
)
    requires
        ledger_ok(session.ledger),
        0 <= i < session.ledger.len(),
        session.ledger[i].row.id == session.id,
    ensures
        session.output_of(step_id) == first_match(session.ledger[i].events, tool_output(step_id)),
        session.answer_to(prompt_hash) == first_match(
            session.ledger[i].events,
            llm_answer(prompt_hash),
        ),
        session.final_output() == first_match(session.ledger[i].events, final_output()),
{
    law_a_log_is_found_by_its_id(session.ledger, session.id, i);
}

/// A call of a step that has not completed starts the tool wherever it may: the
/// journal has room, the workflow is not cancelled and no cap is exceeded. It is
/// the first attempt, under the policy that was given, and its start is recorded.
pub proof fn law_call_starts_whenever_it_may(
    session: Session,
    i: int,
    step_id: Seq<char>,
    policy: RetryPolicy,
    now: i64,
)
    requires
        ledger_ok(session.ledger),
        0 <= i < session.ledger.len(),
        session.ledger[i].row.id == session.id,
        session.ledger[i].events.len() > 0 ==> session.ledger[i].events.last().sequence
            < 0x7fff_ffff_ffff_ffff,
        forall|k: int|
            0 <= k < session.ledger[i].events.len() ==> !completes(
                #[trigger] session.ledger[i].events[k],
                step_id,
            ),
        session.budget.max_tokens is Some ==> session.usage.tokens <= session.budget.max_tokens->0,
        session.budget.max_usd_micros is Some ==> session.usage.usd_micros
            <= session.budget.max_usd_micros->0,
        session.budget.max_wallclock_ms is Some ==> session.usage.wallclock_ms
            <= session.budget.max_wallclock_ms->0,
    ensures
        session.begun(step_id, policy, false, now).1 == Ok::<StartView, ErrorView>(
            StartView::Attempt(PendingView { step_id, policy, attempt: 1 }),
        ),
        session.begun(step_id, policy, false, now).0 == (Session {
            ledger: next(
                session.ledger,
                Op::Append {
                    id: session.id,
                    payload: PayloadView::ToolCallStarted {
                        step_id,
                        name: step_id,
                        input_hash: Seq::empty(),
                        attempt: 1,
                    },
                    now,
                },
            ),
            ..session
        }),
{
    law_lookups_search_the_own_log(session, i, step_id, step_id);
    law_step_lookup_finds_the_first_completion(session.ledger[i].events, step_id);
    lemma_slot(session.ledger, session.id, i);
}

/// A call of a step that has completed is answered with the output that its first
/// completion recorded, and changes nothing: not the journal, nor what was used.
pub proof fn law_completed_step_is_answered_from_the_journal(
    session: Session,
    i: int,
    k: int,
    step_id: Seq<char>,
    policy: RetryPolicy,
    cancelled: bool,
    now: i64,
)
    requires
        ledger_ok(session.ledger),
        0 <= i < session.ledger.len(),
        session.ledger[i].row.id == session.id,
        0 <= k < session.ledger[i].events.len(),
        completes(session.ledger[i].events[k], step_id),
        forall|j: int|
            0 <= j < k ==> !completes(#[trigger] session.ledger[i].events[j], step_id),
    ensures
        session.begun(step_id, policy, cancelled, now) == (
            session,
            Ok::<StartView, ErrorView>(
                StartView::Cached(session.ledger[i].events[k].payload->ToolCallCompleted_output),
            ),
        ),
{
    let events = session.ledger[i].events;
    law_lookups_search_the_own_log(session, i, step_id, step_id);
    law_step_lookup_finds_the_first_completion(events, step_id);
    let output = first_match(events, tool_output(step_id))->0;
    let found = choose|j: int|
        {
            &&& 0 <= j < events.len()
            &&& completes(#[trigger] events[j], step_id)
            &&& events[j].payload->ToolCallCompleted_output == output
            &&& forall|m: int| 0 <= m < j ==> !completes(#[trigger] events[m], step_id)
        };
    assert(found == k);
}

/// After the pause an attempt starts, as it was handed over, wherever the journal
/// has room and the workflow is not cancelled; its start is recorded. A cancelled
/// one does not start, and nothing is recorded.
pub proof fn law_attempt_starts_after_the_pause(
    session: Session,
    i: int,
    call: PendingView,
    now: i64,
)
    requires
        ledger_ok(session.ledger),
        0 <= i < session.ledger.len(),
        session.ledger[i].row.id == session.id,
        session.ledger[i].events.len() > 0 ==> session.ledger[i].events.last().sequence
            < 0x7fff_ffff_ffff_ffff,
    ensures
        session.resumed(call, true, now) == (
            session,
            Err::<PendingView, ErrorView>(ErrorView::Cancelled),
        ),
        session.resumed(call, false, now).1 == Ok::<PendingView, ErrorView>(call),
        session.resumed(call, false, now).0 == (Session {
            ledger: next(
                session.ledger,
                Op::Append {
                    id: session.id,
                    payload: PayloadView::ToolCallStarted {
                        step_id: call.step_id,
                        name: call.step_id,
                        input_hash: Seq::empty(),
                        attempt: call.attempt,
                    },
                    now,
                },
            ),
            ..session
        }),
{
    lemma_slot(session.ledger, session.id, i);
}

/// A retry is made whenever it may be. Where the journal has room, the attempt
/// failed or timed out, the policy allows a further one, the workflow is not
/// cancelled and no cap is exceeded once the time of the attempt is added, the
/// same step is attempted again, under the same policy and the next number, after
/// the pause that the policy asks for.
pub proof fn law_retry_is_made_whenever_it_may_be(
    session: Session,
    i: int,
    call: PendingView,
    result: AttemptView,
    duration_ms: u64,
    now: i64,
)
    requires
        ledger_ok(session.ledger),
        0 <= i < session.ledger.len(),
        session.ledger[i].row.id == session.id,
        session.ledger[i].events.len() > 0 ==> session.ledger[i].events.last().sequence
            < 0x7fff_ffff_ffff_ffff,
        !(result is Output),
        call.attempt < call.policy.max_attempts,
        session.budget.max_tokens is Some ==> session.usage.tokens <= session.budget.max_tokens->0,
        session.budget.max_usd_micros is Some ==> session.usage.usd_micros
            <= session.budget.max_usd_micros->0,
        session.budget.max_wallclock_ms is Some ==> session.usage.wallclock_ms + duration_ms
            <= session.budget.max_wallclock_ms->0 || session.budget.max_wallclock_ms->0
            == 0xffff_ffff_ffff_ffff,
    ensures
        session.ended(call, result, duration_ms, false, now).1 == Ok::<EndView, ErrorView>(
            EndView::Retry {
                call: PendingView {
                    step_id: call.step_id,
                    policy: call.policy,
                    attempt: (call.attempt + 1) as u32,
                },
                pause: call.policy.backoff(call.attempt as nat),
            },
        ),
{
    lemma_slot(session.ledger, session.id, i);
}

/// Every attempt that fails is recorded as a failure and its time is added,
/// whether there is a retry or not.
pub proof fn law_failed_attempt_is_recorded(
    session: Session,
    i: int,
    call: PendingView,
    result: AttemptView,
    duration_ms: u64,
    cancelled: bool,
    now: i64,
)
    requires
        ledger_ok(session.ledger),
        0 <= i < session.ledger.len(),
        session.ledger[i].row.id == session.id,
        session.ledger[i].events.len() > 0 ==> session.ledger[i].events.last().sequence
            < 0x7fff_ffff_ffff_ffff,
        !(result is Output),
    ensures
        session.ended(call, result, duration_ms, cancelled, now).0 == (Session {
            ledger: next(
                session.ledger,
                Op::Append {
                    id: session.id,
                    payload: PayloadView::ToolCallFailed {
                        step_id: call.step_id,
                        error: match result {
                            AttemptView::Failure(message) => message,
                            _ => "timeout after "@ + duration_text(
                                match call.policy.timeout {
                                    Some(ns) => ns as nat,
                                    None => 0,
                                },
                            ),
                        },
                        duration_ms,
                    },
                    now,
                },
            ),
            usage: BudgetUsage {
                tokens: session.usage.tokens,
                usd_micros: session.usage.usd_micros,
                wallclock_ms: if session.usage.wallclock_ms + duration_ms
                    <= 0xffff_ffff_ffff_ffff {
                    (session.usage.wallclock_ms + duration_ms) as u64
                } else {
                    0xffff_ffff_ffff_ffff
                },
            },
            ..session
        }),
{
    lemma_slot(session.ledger, session.id, i);
}

/// The last attempt that the policy allows hands its failure to the caller, and
/// an earlier one does only what speaks against a retry: that the workflow is
/// cancelled, or the cap that is exceeded.
pub proof fn law_last_failure_is_handed_over(
    session: Session,
    i: int,
    call: PendingView,
    result: AttemptView,
    duration_ms: u64,
    cancelled: bool,
    now: i64,
)
    requires
        ledger_ok(session.ledger),
        0 <= i < session.ledger.len(),
        session.ledger[i].row.id == session.id,
        session.ledger[i].events.len() > 0 ==> session.ledger[i].events.last().sequence
            < 0x7fff_ffff_ffff_ffff,
        !(result is Output),
    ensures
        call.attempt >= call.policy.max_attempts ==> session.ended(
            call,
            result,
            duration_ms,
            cancelled,
            now,
        ).1 == Err::<EndView, ErrorView>(
            ErrorView::Tool(
                match result {
                    AttemptView::Failure(message) => message,
                    _ => "timeout after "@ + duration_text(
                        match call.policy.timeout {
                            Some(ns) => ns as nat,
                            None => 0,
                        },
                    ),
                },
            ),
        ),
        call.attempt < call.policy.max_attempts && cancelled ==> session.ended(
            call,
            result,
            duration_ms,
            cancelled,
            now,
        ).1 == Err::<EndView, ErrorView>(ErrorView::Cancelled),
        call.attempt < call.policy.max_attempts && !cancelled && session.budget.max_tokens is Some
            && session.usage.tokens > session.budget.max_tokens->0 ==> session.ended(
            call,
            result,
            duration_ms,
            cancelled,
            now,
        ).1 == Err::<EndView, ErrorView>(ErrorView::BudgetExceeded("tokens"@)),
        call.attempt < call.policy.max_attempts && !cancelled && (
        session.budget.max_tokens is Some ==> session.usage.tokens <= session.budget.max_tokens->0)
            && session.budget.max_usd_micros is Some && session.usage.usd_micros
            > session.budget.max_usd_micros->0 ==> session.ended(
            call,
            result,
            duration_ms,
            cancelled,
            now,
        ).1 == Err::<EndView, ErrorView>(ErrorView::BudgetExceeded("usd"@)),
        call.attempt < call.policy.max_attempts && !cancelled && (
        session.budget.max_tokens is Some ==> session.usage.tokens <= session.budget.max_tokens->0)
            && (session.budget.max_usd_micros is Some ==> session.usage.usd_micros
            <= session.budget.max_usd_micros->0) && session.budget.max_wallclock_ms is Some
            && session.usage.wallclock_ms + duration_ms > session.budget.max_wallclock_ms->0
            && session.budget.max_wallclock_ms->0 < 0xffff_ffff_ffff_ffff ==> session.ended(
            call,
            result,
            duration_ms,
            cancelled,
            now,
        ).1 == Err::<EndView, ErrorView>(ErrorView::BudgetExceeded("wallclock"@)),
{
    lemma_slot(session.ledger, session.id, i);
}

/// An attempt that returns ends the call with its output, at whichever attempt
/// and whatever the budget or the token says. Its time is added, and its output is
/// recorded.
pub proof fn law_output_ends_the_call(
    session: Session,
    i: int,
    call: PendingView,
    output: Value,
    duration_ms: u64,
    cancelled: bool,
    now: i64,
)
    requires
        ledger_ok(session.ledger),
        0 <= i < session.ledger.len(),
        session.ledger[i].row.id == session.id,
        session.ledger[i].events.len() > 0 ==> session.ledger[i].events.last().sequence
            < 0x7fff_ffff_ffff_ffff,
    ensures
        session.ended(call, AttemptView::Output(output), duration_ms, cancelled, now) == (
            Session {
                ledger: next(
                    session.ledger,
                    Op::Append {
                        id: session.id,
                        payload: PayloadView::ToolCallCompleted {
                            step_id: call.step_id,
                            output,
                            duration_ms,
                        },
                        now,
                    },
                ),
                usage: BudgetUsage {
                    tokens: session.usage.tokens,
                    usd_micros: session.usage.usd_micros,
                    wallclock_ms: if session.usage.wallclock_ms + duration_ms
                        <= 0xffff_ffff_ffff_ffff {
                        (session.usage.wallclock_ms + duration_ms) as u64
                    } else {
                        0xffff_ffff_ffff_ffff
                    },
                },
                ..session
            },
            Ok::<EndView, ErrorView>(EndView::Done(output)),
        ),
{
    lemma_slot(session.ledger, session.id, i);
}

/// A call with a single attempt of a step that has not completed, where nothing
/// speaks against it, records the start of the tool and how it went, and hands
/// over just that: the output of the tool, or its failure.
pub proof fn law_single_call_runs_the_tool_once(
    session: Session,
    i: int,
    step_id: Seq<char>,
    started: i64,
    result: AttemptView,
    duration_ms: u64,
    ended: (bool, i64),
)
    requires
        ledger_ok(session.ledger),
        0 <= i < session.ledger.len(),
        session.ledger[i].row.id == session.id,
        session.ledger[i].events.len() > 0 ==> session.ledger[i].events.last().sequence
            < 0x7fff_ffff_ffff_fffe,
        forall|k: int|
            0 <= k < session.ledger[i].events.len() ==> !completes(
                #[trigger] session.ledger[i].events[k],
                step_id,
            ),
        session.budget.max_tokens is Some ==> session.usage.tokens <= session.budget.max_tokens->0,
        session.budget.max_usd_micros is Some ==> session.usage.usd_micros
            <= session.budget.max_usd_micros->0,
        session.budget.max_wallclock_ms is Some ==> session.usage.wallclock_ms
            <= session.budget.max_wallclock_ms->0,
    ensures
        session.called(step_id, (false, started), result, duration_ms, ended).1 == (match result {
            AttemptView::Output(output) => Ok::<Value, ErrorView>(output),
            AttemptView::Failure(message) => Err(ErrorView::Tool(message)),
            AttemptView::TimedOut => Err(
                ErrorView::Tool("timeout after "@ + duration_text(0)),
            ),
        }),
        session.called(step_id, (false, started), result, duration_ms, ended).0.payloads()
            == session.payloads().push(
            PayloadView::ToolCallStarted {
                step_id,
                name: step_id,
                input_hash: Seq::empty(),
                attempt: 1,
            },
        ).push(
            match result {
                AttemptView::Output(output) => PayloadView::ToolCallCompleted {
                    step_id,
                    output,
                    duration_ms,
                },
                AttemptView::Failure(error) => PayloadView::ToolCallFailed {
                    step_id,
                    error,
                    duration_ms,
                },
                AttemptView::TimedOut => PayloadView::ToolCallFailed {
                    step_id,
                    error: "timeout after "@ + duration_text(0),
                    duration_ms,
                },
            },
        ),
{
    let policy = one_attempt();
    law_call_starts_whenever_it_may(session, i, step_id, policy, started);
    lemma_slot(session.ledger, session.id, i);
    let call = PendingView { step_id, policy, attempt: 1 };
    lemma_recorded(session, call.start_event(), started);
    let after = session.begun(step_id, policy, false, started).0;
    assert(after.can_record());
    let spent = after.charged_ms(duration_ms);
    lemma_recorded(spent, call.end_event(result, duration_ms), ended.1);
    assert(spent.payloads() == after.payloads());
}

/// What is recorded is the next event of the workflow, where the journal has
/// room; else nothing is, and the journal says why.
pub proof fn law_room_decides_what_is_recorded(
    session: Session,
    i: int,
    payload: PayloadView,
    now: i64,
)
    requires
        ledger_ok(session.ledger),
        0 <= i < session.ledger.len(),
        session.ledger[i].row.id == session.id,
    ensures
        session.can_record() <==> session.ledger[i].events.len() == 0
            || session.ledger[i].events.last().sequence < 0x7fff_ffff_ffff_ffff,
        session.recorded(payload, now) == (Session {
            ledger: next(session.ledger, Op::Append { id: session.id, payload, now }),
            ..session
        }),
        session.can_record() ==> session.recorded(payload, now).payloads()
            == session.payloads().push(payload),
        session.payloads().len() == session.ledger[i].events.len(),
        forall|k: int|
            0 <= k < session.ledger[i].events.len() ==> #[trigger] session.payloads()[k]
                == session.ledger[i].events[k].payload,
{
    lemma_slot(session.ledger, session.id, i);
    assert(log_ok(session.ledger[i]));
    if session.can_record() {
        lemma_recorded(session, payload, now);
    }
}

/// Where the journal has no room, whatever is to be recorded is refused, for the
/// one reason, and the journal stays as it is. Time and tokens that were used are
/// charged all the same.
pub proof fn law_full_journal_refuses(
    session: Session,
    i: int,
    call: PendingView,
    result: AttemptView,
    duration_ms: u64,
    prompt_hash: Seq<char>,
    response: ResponseView,
    output: Value,
    now: i64,
)
    requires
        ledger_ok(session.ledger),
        0 <= i < session.ledger.len(),
        session.ledger[i].row.id == session.id,
        session.ledger[i].events.len() > 0,
        session.ledger[i].events.last().sequence == 0x7fff_ffff_ffff_ffff,
    ensures
        !session.can_record(),
        ({
            let full = ErrorView::Journal("sequence numbers are exhausted"@);
            &&& session.resumed(call, false, now) == (session, Err::<PendingView, ErrorView>(full))
            &&& forall|cancelled: bool|
                #[trigger] session.ended(call, result, duration_ms, cancelled, now) == (
                    session.charged_ms(duration_ms),
                    Err::<EndView, ErrorView>(full),
                )
            &&& session.answered(call.step_id, prompt_hash, response, now) == (
                session.charged_tokens((response.tokens_in + response.tokens_out) as u64),
                Err::<ResponseView, ErrorView>(full),
            )
            &&& session.completed(output, now) == (session, Err::<(), ErrorView>(full))
            &&& session.output_of(call.step_id) is None && session.refusal(false) is None
                ==> session.begun(call.step_id, call.policy, false, now) == (
                session,
                Err::<StartView, ErrorView>(full),
            )
        }),
{
    lemma_slot(session.ledger, session.id, i);
}

/// An answer of a model is recorded with its step, hash, model, text and tokens,
/// its tokens are added to those used, and it is handed over as it came.
pub proof fn law_answer_is_recorded_in_full(
    session: Session,
    i: int,
    step_id: Seq<char>,
    prompt_hash: Seq<char>,
    response: ResponseView,
    now: i64,
)
    requires
        ledger_ok(session.ledger),
        0 <= i < session.ledger.len(),
        session.ledger[i].row.id == session.id,
        session.ledger[i].events.len() > 0 ==> session.ledger[i].events.last().sequence
            < 0x7fff_ffff_ffff_ffff,
    ensures
        session.answered(step_id, prompt_hash, response, now) == (
            Session {
                ledger: next(
                    session.ledger,
                    Op::Append {
                        id: session.id,
                        payload: PayloadView::LlmCallCompleted {
                            step_id,
                            model: response.model,
                            prompt_hash,
                            response: response.content,
                            tokens_in: response.tokens_in,
                            tokens_out: response.tokens_out,
                        },
                        now,
                    },
                ),
                usage: BudgetUsage {
                    tokens: if session.usage.tokens + response.tokens_in + response.tokens_out
                        <= 0xffff_ffff_ffff_ffff {
                        (session.usage.tokens + response.tokens_in + response.tokens_out) as u64
                    } else {
                        0xffff_ffff_ffff_ffff
                    },
                    usd_micros: session.usage.usd_micros,
                    wallclock_ms: session.usage.wallclock_ms,
                },
                ..session
            },
            Ok::<ResponseView, ErrorView>(response),
        ),
{
    lemma_slot(session.ledger, session.id, i);
}

/// A model that fails is not recorded and not charged: its error is handed over,
/// and nothing changes. One that answers is treated as an answer.
pub proof fn law_reply_is_handed_over(
    session: Session,
    step_id: Seq<char>,
    prompt_hash: Seq<char>,
    response: ResponseView,
    error: ErrorView,
    now: i64,
)
    ensures
        session.replied(step_id, prompt_hash, Err(error), now) == (
            session,
            Err::<ResponseView, ErrorView>(error),
        ),
        session.replied(step_id, prompt_hash, Ok(response), now) == session.answered(
            step_id,
            prompt_hash,
            response,
            now,
        ),
{
}

/// A prompt is answered from the journal exactly where an event of the workflow
/// has an answer under the digest of the whole of its JSON; the first such event
/// gives it. Else the model is asked, and its answer goes under this digest.
pub proof fn law_prompt_is_asked_unless_answered(session: Session, i: int, request: RequestView)
    requires
        ledger_ok(session.ledger),
        0 <= i < session.ledger.len(),
        session.ledger[i].row.id == session.id,
    ensures
        ({
            let events = session.ledger[i].events;
            let hash = hex_text(sha256(encode_utf8(request_text(request))));
            match session.prompted(request) {
                PromptView::Ask(asked) => asked == hash && forall|k: int|
                    0 <= k < events.len() ==> !answers(#[trigger] events[k], hash),
                PromptView::Cached(answer) => exists|k: int|
                    {
                        &&& 0 <= k < events.len()
                        &&& answers(#[trigger] events[k], hash)
                        &&& events[k].payload->LlmCallCompleted_model == answer.model
                        &&& events[k].payload->LlmCallCompleted_response == answer.content
                        &&& events[k].payload->LlmCallCompleted_tokens_in == answer.tokens_in
                        &&& events[k].payload->LlmCallCompleted_tokens_out == answer.tokens_out
                        &&& forall|j: int| 0 <= j < k ==> !answers(#[trigger] events[j], hash)
                    },
            }
        }),
{
    let hash = hex_text(sha256(encode_utf8(request_text(request))));
    law_lookups_search_the_own_log(session, i, hash, hash);
    law_prompt_lookup_finds_the_first_answer(session.ledger[i].events, hash);
}

/// Where only one request was answered, one that differs from it anywhere is
/// asked of the model, unless SHA-256 gives the two the same digest.
pub proof fn law_different_prompt_is_asked(
    session: Session,
    i: int,
    a: RequestView,
    b: RequestView,
    step_id: Seq<char>,
    response: ResponseView,
    now: i64,
)
    requires
        ledger_ok(session.ledger),
        0 <= i < session.ledger.len(),
        session.ledger[i].row.id == session.id,
        session.ledger[i].events.len() > 0 ==> session.ledger[i].events.last().sequence
            < 0x7fff_ffff_ffff_ffff,
        forall|k: int|
            0 <= k < session.ledger[i].events.len() ==> !((
            #[trigger] session.ledger[i].events[k]).payload is LlmCallCompleted),
        ({
            ||| a.model != b.model
            ||| a.messages != b.messages
            ||| a.temperature != b.temperature
            ||| a.max_tokens != b.max_tokens
        }),
        sha256(encode_utf8(request_text(a))) == sha256(encode_utf8(request_text(b)))
            ==> encode_utf8(request_text(a)) == encode_utf8(request_text(b)),
    ensures
        ({
            let after = session.answered(step_id, cache_key(a), response, now).0;
            &&& after.prompted(a) == PromptView::Cached(response)
            &&& after.prompted(b) is Ask
        }),
{
    let hash_a = hex_text(sha256(encode_utf8(request_text(a))));
    let hash_b = hex_text(sha256(encode_utf8(request_text(b))));
    let after = session.answered(step_id, cache_key(a), response, now).0;
    let payload = PayloadView::LlmCallCompleted {
        step_id,
        model: response.model,
        prompt_hash: cache_key(a),
        response: response.content,
        tokens_in: response.tokens_in,
        tokens_out: response.tokens_out,
    };
    law_answer_is_recorded_in_full(session, i, step_id, cache_key(a), response, now);
    law_append_changes_one_log(session.ledger, i, payload, now);
    law_operations_keep_the_ledger_well_formed(
        session.ledger,
        Op::Append { id: session.id, payload, now },
    );
    let before = session.ledger[i].events;
    let events = after.ledger[i].events;
    assert forall|k: int| 0 <= k < before.len() implies #[trigger] events[k] == before[k] by {
        assert(events.drop_last()[k] == before[k]);
    }
    law_different_requests_hash_different_bytes(a, b);
    if hash_a == hash_b {
        law_hex_text_is_injective(
            sha256(encode_utf8(request_text(a))),
            sha256(encode_utf8(request_text(b))),
        );
    }
    law_prompt_is_asked_unless_answered(after, i, a);
    law_prompt_is_asked_unless_answered(after, i, b);
    assert(events[before.len() as int] == events.last());
    assert(answers(events[before.len() as int], hash_a));
}

/// Completing a workflow records its output, and changes nothing else of the
/// session.
pub proof fn law_completion_is_recorded(session: Session, i: int, output: Value, now: i64)
    requires
        ledger_ok(session.ledger),
        0 <= i < session.ledger.len(),
        session.ledger[i].row.id == session.id,
        session.ledger[i].events.len() > 0 ==> session.ledger[i].events.last().sequence
            < 0x7fff_ffff_ffff_ffff,
    ensures
        session.completed(output, now) == (
            Session {
                ledger: next(
                    session.ledger,
                    Op::Append {
                        id: session.id,
                        payload: PayloadView::WorkflowCompleted { output },
                        now,
                    },
                ),
                ..session
            },
            Ok::<(), ErrorView>(()),
        ),
{
    lemma_slot(session.ledger, session.id, i);
}

/// Where the journal no longer has the workflow, whatever is to be recorded is
/// refused, and the journal stays as it is; nothing is found in it.
pub proof fn law_missing_workflow_refuses(
    session: Session,
    call: PendingView,
    result: AttemptView,
    duration_ms: u64,
    prompt_hash: Seq<char>,
    response: ResponseView,
    output: Value,
    now: i64,
)
    requires
        forall|k: int|
            0 <= k < session.ledger.len() ==> (#[trigger] session.ledger[k]).row.id != session.id,
    ensures
        ({
            let missing = ErrorView::Journal("FOREIGN KEY constraint failed"@);
            &&& session.resumed(call, false, now) == (
                session,
                Err::<PendingView, ErrorView>(missing),
            )
            &&& forall|cancelled: bool|
                #[trigger] session.ended(call, result, duration_ms, cancelled, now) == (
                    session.charged_ms(duration_ms),
                    Err::<EndView, ErrorView>(missing),
                )
            &&& session.answered(call.step_id, prompt_hash, response, now) == (
                session.charged_tokens((response.tokens_in + response.tokens_out) as u64),
                Err::<ResponseView, ErrorView>(missing),
            )
            &&& session.completed(output, now) == (session, Err::<(), ErrorView>(missing))
            &&& session.output_of(call.step_id) is None
            &&& session.answer_to(prompt_hash) is None
            &&& session.final_output() is None
            &&& session.refusal(false) is None ==> session.begun(
                call.step_id,
                call.policy,
                false,
                now,
            ) == (session, Err::<StartView, ErrorView>(missing))
        }),
{
}

/// A call that would run a tool is refused before anything is journaled or
/// charged, exactly where the workflow is cancelled or some cap is set and
/// exceeded, whichever the policy.
pub proof fn law_call_is_refused_by_token_or_cap(
    session: Session,
    i: int,
    step_id: Seq<char>,
    policy: RetryPolicy,
    cancelled: bool,
    now: i64,
)
    requires
        ledger_ok(session.ledger),
        0 <= i < session.ledger.len(),
        session.ledger[i].row.id == session.id,
        forall|k: int|
            0 <= k < session.ledger[i].events.len() ==> !completes(
                #[trigger] session.ledger[i].events[k],
                step_id,
            ),
        ({
            ||| cancelled
            ||| session.budget.max_tokens is Some && session.usage.tokens
                > session.budget.max_tokens->0
            ||| session.budget.max_usd_micros is Some && session.usage.usd_micros
                > session.budget.max_usd_micros->0
            ||| session.budget.max_wallclock_ms is Some && session.usage.wallclock_ms
                > session.budget.max_wallclock_ms->0
        }),
    ensures
        session.begun(step_id, policy, cancelled, now).0 == session,
        session.begun(step_id, policy, cancelled, now).1 == Err::<StartView, ErrorView>(
            if cancelled {
                ErrorView::Cancelled
            } else {
                ErrorView::BudgetExceeded(
                    if session.budget.max_tokens is Some && session.usage.tokens
                        > session.budget.max_tokens->0 {
                        "tokens"@
                    } else if session.budget.max_usd_micros is Some && session.usage.usd_micros
                        > session.budget.max_usd_micros->0 {
                        "usd"@
                    } else {
                        "wallclock"@
                    },
                )
            },
        ),
{
    law_lookups_search_the_own_log(session, i, step_id, step_id);
    law_step_lookup_finds_the_first_completion(session.ledger[i].events, step_id);
}

/// The first attempt may always be made, and a later one exactly where the policy
/// allows that many.
pub proof fn law_which_attempts_are_allowed(call: PendingView)
    ensures
        call.is_allowed() <==> call.attempt == 1 || 1 < call.attempt <= call.policy.max_attempts,
{
}

/// A call with a single attempt begins like any other, under a policy of one
/// attempt, and ends as that attempt does; one that does not begin changes
/// nothing more.
pub proof fn law_single_call_begins_and_ends_an_attempt(
    session: Session,
    step_id: Seq<char>,
    started: (bool, i64),
    result: AttemptView,
    duration_ms: u64,
    ended: (bool, i64),
)
    ensures
        ({
            let policy = RetryPolicy {
                max_attempts: 1,
                initial_backoff: 0,
                max_backoff: 0,
                backoff_multiplier: 0x3f80_0000,
                timeout: None,
            };
            let (after, start) = session.begun(step_id, policy, started.0, started.1);
            let (done, outcome) = session.called(step_id, started, result, duration_ms, ended);
            match start {
                Ok(StartView::Cached(output)) => done == after && outcome == Ok::<
                    Value,
                    ErrorView,
                >(output),
                Ok(StartView::Attempt(call)) => {
                    let (last, end) = after.ended(call, result, duration_ms, ended.0, ended.1);
                    &&& call == (PendingView { step_id, policy, attempt: 1 })
                    &&& done == last
                    &&& match end {
                        Ok(EndView::Done(output)) => outcome == Ok::<Value, ErrorView>(output),
                        Ok(EndView::Retry { .. }) => false,
                        Err(error) => outcome == Err::<Value, ErrorView>(error),
                    }
                },
                Err(error) => done == after && outcome == Err::<Value, ErrorView>(error),
            }
        }),
{
}

} // verus!
