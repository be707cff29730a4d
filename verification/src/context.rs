//! The context of a running workflow.
//!
//! Whoever runs a workflow drives a tool call through a [`Context`]:
//! [`Context::begin_call`] answers from the journal or starts the first
//! attempt, [`Context::finish_attempt`] takes how an attempt went and says how
//! to go on, and [`Context::start_attempt`] starts the next one after the
//! pause. A model call is [`Context::begin_llm`] and [`Context::finish_llm`].

use crate::budget::{Budget, BudgetUsage};
use crate::cancel::CancelToken;
use crate::clock::{can_be_now, can_have_taken, now_ms, start_timer, timer_ms};
use crate::error::{viewed, Error, ErrorView, Result};
use crate::event::EventPayload;
use crate::journal::{append_refusal, Journal};
use crate::ledger::{ledger_ok, replay};
use crate::llm::{cache_key, LlmRequest, LlmResponse, ResponseView};
use crate::provider::LlmProvider;
use crate::retry::{law_backoff_is_bounded, RetryPolicy};
use crate::row::{changes_view, Change, ChangeView};
use crate::session::{
    AttemptView, EndView, PendingView, PromptView, Session, StartView,
};
use crate::text::push_duration;
use serde_json::Value;
use vstd::prelude::*;

verus! {

/// A tool call that is under way.
#[derive(Debug)]
pub struct PendingCall {
    step_id: String,
    policy: RetryPolicy,
    attempt: u32,
    /// How long to pause should this attempt fail.
    pause: u128,
}

impl View for PendingCall {
    type V = PendingView;

    closed spec fn view(&self) -> PendingView {
        PendingView { step_id: self.step_id@, policy: self.policy, attempt: self.attempt }
    }
}

impl PendingCall {
    #[verifier::type_invariant]
    spec fn inv(self) -> bool {
        &&& self@.is_allowed()
        &&& self.pause == self.policy.backoff(self.attempt as nat)
    }

    /// The number of the attempt, from one.
    pub fn attempt(&self) -> (attempt: u32)
        ensures
            attempt == self@.attempt,
            self@.is_allowed(),
    {
        proof {
            use_type_invariant(self);
        }
        self.attempt
    }

    /// How long the attempt may take, in nanoseconds.
    pub fn timeout(&self) -> (timeout: Option<u128>)
        ensures
            timeout == self@.policy.timeout,
    {
        self.policy.timeout
    }

    /// The message of a failed attempt.
    fn failure(&self, result: &AttemptResult) -> (message: String)
        requires
            !(result is Output),
        ensures
            message@ == self@.failure(result@),
    {
        match result {
            AttemptResult::Failure(message) => message.clone(),
            _ => {
                let ns: u128 = match self.policy.timeout {
                    Some(ns) => ns,
                    None => 0,
                };
                let mut message = "timeout after ".to_owned();
                push_duration(&mut message, ns);
                message
            },
        }
    }
}

/// How a call begins.
#[derive(Debug)]
pub enum CallStart {
    /// The step has completed before; this is its output.
    Cached(Value),
    /// The tool is to be run.
    Attempt(PendingCall),
}

impl View for CallStart {
    type V = StartView;

    open spec fn view(&self) -> StartView {
        match self {
            CallStart::Cached(output) => StartView::Cached(*output),
            CallStart::Attempt(call) => StartView::Attempt(call@),
        }
    }
}

/// How an attempt went.
#[derive(Debug)]
pub enum AttemptResult {
    /// The tool returned.
    Output(Value),
    /// The tool failed.
    Failure(String),
    /// The tool did not return in time.
    TimedOut,
}

impl View for AttemptResult {
    type V = AttemptView;

    open spec fn view(&self) -> AttemptView {
        match self {
            AttemptResult::Output(output) => AttemptView::Output(*output),
            AttemptResult::Failure(message) => AttemptView::Failure(message@),
            AttemptResult::TimedOut => AttemptView::TimedOut,
        }
    }
}

/// How a call goes on after an attempt.
#[derive(Debug)]
pub enum AttemptEnd {
    /// The call is done; this is its output.
    Done(Value),
    /// The tool is to be run again, after a pause in nanoseconds.
    Retry { call: PendingCall, pause: u128 },
}

impl View for AttemptEnd {
    type V = EndView;

    open spec fn view(&self) -> EndView {
        match self {
            AttemptEnd::Done(output) => EndView::Done(*output),
            AttemptEnd::Retry { call, pause } => EndView::Retry { call: call@, pause: *pause },
        }
    }
}

/// How a model call begins.
#[derive(Debug)]
pub enum LlmStart {
    /// The model has been asked this before; this is what it answered.
    Cached(LlmResponse),
    /// The model is to be asked; the answer goes under this hash.
    Ask { prompt_hash: String },
}

impl View for LlmStart {
    type V = PromptView;

    open spec fn view(&self) -> PromptView {
        match self {
            LlmStart::Cached(response) => PromptView::Cached(response@),
            LlmStart::Ask { prompt_hash } => PromptView::Ask(prompt_hash@),
        }
    }
}

/// What the result of a call holds.
pub open spec fn value_outcome(outcome: Result<Value>) -> std::result::Result<Value, ErrorView> {
    match outcome {
        Ok(value) => Ok(value),
        Err(error) => Err(error@),
    }
}

/// How an attempt went, by what the tool returned.
pub open spec fn tool_result(result: std::result::Result<Value, String>) -> AttemptView {
    match result {
        Ok(output) => AttemptView::Output(output),
        Err(message) => AttemptView::Failure(message@),
    }
}

/// A workflow that runs.
pub struct Context {
    workflow_id: String,
    journal: Journal,
    budget: Budget,
    usage: BudgetUsage,
    cancel: Option<CancelToken>,
}

impl View for Context {
    type V = Session;

    closed spec fn view(&self) -> Session {
        Session {
            id: self.workflow_id@,
            ledger: self.journal@,
            budget: self.budget,
            usage: self.usage,
        }
    }
}

impl Context {
    /// The journal that the workflow works on.
    pub closed spec fn ledger(&self) -> Journal {
        self.journal
    }

    /// The token that cancels the workflow.
    pub closed spec fn token(&self) -> Option<CancelToken> {
        self.cancel
    }

    /// Whether polling the token can have given this answer: it is what was
    /// read from the token, and that there is no cancellation without one.
    pub open spec fn polls(&self, cancelled: bool) -> bool {
        match self.token() {
            Some(token) => token.reads(cancelled),
            None => !cancelled,
        }
    }

    /// The journal is well formed.
    pub open spec fn wf(&self) -> bool {
        &&& self.ledger().wf()
        &&& self@.ledger == self.ledger()@
    }

    /// What a call leaves alone: which rows storage holds, and the token.
    pub open spec fn keeps(&self, before: &Context) -> bool {
        &&& self.wf()
        &&& self.ledger().saved() == before.ledger().saved()
        &&& self.token() == before.token()
    }

    /// Opens an existing workflow, or starts a new one at the given time.
    pub fn open_or_start_at(
        journal: Journal,
        workflow_id: &str,
        name: &str,
        input_hash: &str,
        now: i64,
    ) -> (outcome: Result<Context>)
        requires
            journal.wf(),
        ensures
            outcome matches Ok(cx) && {
                &&& cx.wf()
                &&& cx@ == Session::opened(journal@, workflow_id@, name@, input_hash@, now)
                &&& cx.ledger().saved() == journal.saved()
                &&& cx.token() is None
            },
    {
        let mut journal = journal;
        let known: bool = match journal.workflow_status(workflow_id) {
            Ok(status) => status.is_some(),
            Err(error) => {
                return Err(error);
            },
        };
        if !known {
            match journal.start_workflow_at(workflow_id, name, input_hash, None, now) {
                Ok(_) => {},
                Err(error) => {
                    return Err(error);
                },
            }
        }
        Ok(
            Context {
                workflow_id: workflow_id.to_owned(),
                journal,
                budget: Budget::unlimited(),
                usage: BudgetUsage::zero(),
                cancel: None,
            },
        )
    }

    /// Opens an existing workflow, or starts a new one.
    ///
    /// Where the journal has the workflow, it is reused as it is: the steps
    /// that have completed are answered from it.
    pub fn open_or_start(journal: Journal, workflow_id: &str, name: &str, input_hash: &str) -> (
    outcome: Result<Context>)
        requires
            journal.wf(),
        ensures
            outcome matches Ok(cx) && {
                &&& cx.wf()
                &&& exists|now: i64|
                    can_be_now(now) && cx@ == #[trigger] Session::opened(
                        journal@,
                        workflow_id@,
                        name@,
                        input_hash@,
                        now,
                    )
                &&& cx.ledger().saved() == journal.saved()
                &&& cx.token() is None
            },
    {
        let now: i64 = now_ms();
        Context::open_or_start_at(journal, workflow_id, name, input_hash, now)
    }

    /// Appends an event of the workflow.
    fn record(&mut self, payload: &EventPayload, now: i64) -> (outcome: Result<()>)
        requires
            old(self).wf(),
        ensures
            final(self).keeps(old(self)),
            match outcome {
                Ok(_) => old(self)@.can_record() && final(self)@ == old(self)@.recorded(
                    payload@,
                    now,
                ),
                Err(error) => !old(self)@.can_record() && final(self)@ == old(self)@ && error@
                    == append_refusal(old(self)@.ledger, old(self)@.id),
            },
    {
        match self.journal.append_at(&self.workflow_id, payload, now) {
            Ok(_) => Ok(()),
            Err(error) => Err(error),
        }
    }

    pub fn workflow_id(&self) -> (id: &str)
        ensures
            id@ == self@.id,
    {
        &self.workflow_id
    }

    /// The journal that the workflow works on.
    pub fn journal(&self) -> (journal: &Journal)
        ensures
            *journal == self.ledger(),
    {
        &self.journal
    }

    /// Hands over the changes that storage has to carry out, in order.
    pub fn take_changes(&mut self) -> (changes: Vec<Change>)
        requires
            old(self).wf(),
        ensures
            final(self).wf(),
            final(self)@ == old(self)@,
            final(self).token() == old(self).token(),
            changes_view(changes@) == old(self).ledger().unsaved(),
            replay(old(self).ledger().saved(), changes_view(changes@)) == final(self)@.ledger,
            final(self).ledger().saved() == final(self)@.ledger,
            final(self).ledger().unsaved() == Seq::<ChangeView>::empty(),
    {
        self.journal.take_changes()
    }

    /// Goes on with what storage holds by now.
    pub fn reload(&mut self, journal: Journal)
        requires
            journal.wf(),
        ensures
            final(self).wf(),
            final(self)@ == (Session { ledger: journal@, ..old(self)@ }),
            final(self).ledger() == journal,
            final(self).token() == old(self).token(),
    {
        self.journal = journal;
    }

    /// Attaches caps on tokens, money and time.
    pub fn with_budget(self, budget: Budget) -> (cx: Context)
        requires
            self.wf(),
        ensures
            cx.keeps(&self),
            cx@ == (Session { budget, ..self@ }),
    {
        Context { budget, ..self }
    }

    /// Attaches a token that cancels the workflow.
    pub fn with_cancel_token(self, token: CancelToken) -> (cx: Context)
        requires
            self.wf(),
        ensures
            cx.wf(),
            cx@ == self@,
            cx.ledger() == self.ledger(),
            cx.token() == Some(token),
    {
        Context { cancel: Some(token), ..self }
    }

    /// What the workflow has used so far in this process.
    pub fn usage(&self) -> (usage: BudgetUsage)
        ensures
            usage == self@.usage,
    {
        self.usage
    }

    /// Charges tokens against the budget.
    pub fn charge_tokens(&mut self, n: u64)
        requires
            old(self).wf(),
        ensures
            final(self).keeps(old(self)),
            final(self)@ == old(self)@.charged_tokens(n),
    {
        self.usage.tokens = self.usage.tokens.saturating_add(n);
    }

    /// Charges money against the budget, in millionths of a dollar.
    pub fn charge_usd_micros(&mut self, n: u64)
        requires
            old(self).wf(),
        ensures
            final(self).keeps(old(self)),
            final(self)@ == old(self)@.charged_usd_micros(n),
    {
        self.usage.usd_micros = self.usage.usd_micros.saturating_add(n);
    }

    /// Charges time against the budget.
    fn charge_wallclock_ms(&mut self, ms: u64)
        requires
            old(self).wf(),
        ensures
            final(self).keeps(old(self)),
            final(self)@ == old(self)@.charged_ms(ms),
    {
        self.usage.wallclock_ms = self.usage.wallclock_ms.saturating_add(ms);
    }

    /// Whether the token, where there is one, has been cancelled.
    fn poll_cancelled(&self) -> (cancelled: bool)
        ensures
            self.polls(cancelled),
    {
        match &self.cancel {
            Some(token) => token.is_cancelled(),
            None => false,
        }
    }

    /// Why no attempt may be made.
    fn refuse(&self, cancelled: bool) -> (outcome: Result<()>)
        ensures
            match self@.refusal(cancelled) {
                Some(error) => outcome matches Err(e) && e@ == error,
                None => outcome is Ok,
            },
    {
        if cancelled {
            return Err(Error::Cancelled);
        }
        match self.usage.exceeds(&self.budget) {
            Some(field) => Err(Error::BudgetExceeded(field)),
            None => Ok(()),
        }
    }

    /// Records the start of an attempt.
    fn launch(&mut self, call: PendingCall, now: i64) -> (outcome: Result<PendingCall>)
        requires
            old(self).wf(),
        ensures
            final(self).keeps(old(self)),
            (final(self)@, viewed(outcome)) == old(self)@.launched(call@, now),
    {
        let started = EventPayload::ToolCallStarted {
            step_id: call.step_id.clone(),
            name: call.step_id.clone(),
            input_hash: String::new(),
            attempt: call.attempt,
        };
        assert(started@ == call@.start_event());
        match self.record(&started, now) {
            Ok(_) => Ok(call),
            Err(error) => Err(error),
        }
    }

    /// Begins a tool call, given whether the workflow is cancelled, at the
    /// given time.
    pub fn begin_call_at(
        &mut self,
        step_id: &str,
        policy: RetryPolicy,
        cancelled: bool,
        now: i64,
    ) -> (outcome: Result<CallStart>)
        requires
            old(self).wf(),
        ensures
            final(self).keeps(old(self)),
            (final(self)@, viewed(outcome)) == old(self)@.begun(step_id@, policy, cancelled, now),
    {
        match self.journal.lookup_completed_tool_call(&self.workflow_id, step_id) {
            Ok(Some(output)) => {
                return Ok(CallStart::Cached(output));
            },
            Ok(None) => {},
            Err(error) => {
                return Err(error);
            },
        }
        match self.refuse(cancelled) {
            Ok(_) => {},
            Err(error) => {
                return Err(error);
            },
        }
        let call = PendingCall {
            step_id: step_id.to_owned(),
            policy,
            attempt: 1,
            pause: policy.first_backoff(),
        };
        match self.launch(call, now) {
            Ok(call) => Ok(CallStart::Attempt(call)),
            Err(error) => Err(error),
        }
    }

    /// Begins a tool call.
    ///
    /// The `step_id` is the idempotency key: the unit by which work that has
    /// completed is recognised. It has to be stable across restarts and unique
    /// per call site (for example `"dex_fetch:{mint}"`).
    pub fn begin_call(&mut self, step_id: &str, policy: RetryPolicy) -> (outcome: Result<CallStart>)
        requires
            old(self).wf(),
        ensures
            final(self).keeps(old(self)),
            exists|cancelled: bool, now: i64|
                {
                    &&& old(self).polls(cancelled)
                    &&& can_be_now(now)
                    &&& (final(self)@, viewed(outcome)) == #[trigger] old(self)@.begun(
                        step_id@,
                        policy,
                        cancelled,
                        now,
                    )
                },
    {
        let cancelled: bool = self.poll_cancelled();
        let now: i64 = now_ms();
        self.begin_call_at(step_id, policy, cancelled, now)
    }

    /// Starts an attempt after the pause, given whether the workflow is
    /// cancelled, at the given time.
    pub fn start_attempt_at(&mut self, call: PendingCall, cancelled: bool, now: i64) -> (outcome:
        Result<PendingCall>)
        requires
            old(self).wf(),
        ensures
            final(self).keeps(old(self)),
            (final(self)@, viewed(outcome)) == old(self)@.resumed(call@, cancelled, now),
    {
        if cancelled {
            return Err(Error::Cancelled);
        }
        self.launch(call, now)
    }

    /// Starts an attempt after the pause.
    pub fn start_attempt(&mut self, call: PendingCall) -> (outcome: Result<PendingCall>)
        requires
            old(self).wf(),
        ensures
            final(self).keeps(old(self)),
            exists|cancelled: bool, now: i64|
                {
                    &&& old(self).polls(cancelled)
                    &&& can_be_now(now)
                    &&& (final(self)@, viewed(outcome)) == #[trigger] old(self)@.resumed(
                        call@,
                        cancelled,
                        now,
                    )
                },
    {
        let cancelled: bool = self.poll_cancelled();
        let now: i64 = now_ms();
        self.start_attempt_at(call, cancelled, now)
    }

    /// Ends an attempt, given whether the workflow is cancelled, at the given
    /// time.
    pub fn finish_attempt_at(
        &mut self,
        call: PendingCall,
        result: AttemptResult,
        duration_ms: u64,
        cancelled: bool,
        now: i64,
    ) -> (outcome: Result<AttemptEnd>)
        requires
            old(self).wf(),
        ensures
            final(self).keeps(old(self)),
            (final(self)@, viewed(outcome)) == old(self)@.ended(
                call@,
                result@,
                duration_ms,
                cancelled,
                now,
            ),
    {
        proof {
            use_type_invariant(&call);
            law_backoff_is_bounded(call.policy, call.attempt as nat);
        }
        self.charge_wallclock_ms(duration_ms);
        if let AttemptResult::Output(output) = result {
            let completed = EventPayload::ToolCallCompleted {
                step_id: call.step_id.clone(),
                output: output.clone(),
                duration_ms,
            };
            return match self.record(&completed, now) {
                Ok(_) => Ok(AttemptEnd::Done(output)),
                Err(error) => Err(error),
            };
        }
        let message = call.failure(&result);
        let failed = EventPayload::ToolCallFailed {
            step_id: call.step_id.clone(),
            error: message.clone(),
            duration_ms,
        };
        match self.record(&failed, now) {
            Ok(_) => {},
            Err(error) => {
                return Err(error);
            },
        }
        if call.attempt >= call.policy.max_attempts {
            return Err(Error::Tool(message));
        }
        match self.refuse(cancelled) {
            Ok(_) => {},
            Err(error) => {
                return Err(error);
            },
        }
        let pause: u128 = call.pause;
        let next_pause: u128 = call.policy.next_backoff(pause);
        let again = PendingCall {
            step_id: call.step_id,
            policy: call.policy,
            attempt: call.attempt + 1,
            pause: next_pause,
        };
        Ok(AttemptEnd::Retry { call: again, pause })
    }

    /// Ends an attempt.
    pub fn finish_attempt(&mut self, call: PendingCall, result: AttemptResult, duration_ms: u64) -> (
    outcome: Result<AttemptEnd>)
        requires
            old(self).wf(),
        ensures
            final(self).keeps(old(self)),
            exists|cancelled: bool, now: i64|
                {
                    &&& old(self).polls(cancelled)
                    &&& can_be_now(now)
                    &&& (final(self)@, viewed(outcome)) == #[trigger] old(self)@.ended(
                        call@,
                        result@,
                        duration_ms,
                        cancelled,
                        now,
                    )
                },
    {
        let cancelled: bool = self.poll_cancelled();
        let now: i64 = now_ms();
        self.finish_attempt_at(call, result, duration_ms, cancelled, now)
    }

    /// Executes a tool call, journaling start and outcome. The tool runs at
    /// most once, and not at all where the step has completed before.
    ///
    /// This is for a tool that returns when it is done; any other is driven
    /// with [`Context::begin_call`] and [`Context::finish_attempt`].
    pub fn call<F>(&mut self, step_id: &str, tool: F) -> (outcome: Result<Value>)
        where F: FnOnce() -> std::result::Result<Value, String>

        requires
            old(self).wf(),
            tool.requires(()),
        ensures
            final(self).keeps(old(self)),
            match old(self)@.output_of(step_id@) {
                Some(output) => final(self)@ == old(self)@ && outcome == Ok::<Value, Error>(output),
                None => exists|
                    started: (bool, i64),
                    result: std::result::Result<Value, String>,
                    duration_ms: u64,
                    ended: (bool, i64),
                |
                    {
                        &&& old(self).polls(started.0)
                        &&& can_be_now(started.1)
                        &&& old(self)@.refusal(started.0) is None && old(self)@.can_record() ==> {
                            &&& tool.ensures((), result)
                            &&& can_have_taken(duration_ms)
                            &&& old(self).polls(ended.0)
                            &&& can_be_now(ended.1)
                        }
                        &&& (final(self)@, value_outcome(outcome)) == #[trigger] old(self)@.called(
                            step_id@,
                            started,
                            tool_result(result),
                            duration_ms,
                            ended,
                        )
                    },
            },
    {
        let cancelled: bool = self.poll_cancelled();
        let now: i64 = now_ms();
        let ghost before = self@;
        let ghost nothing: std::result::Result<Value, String> = arbitrary();
        let pending: PendingCall = match self.begin_call_at(
            step_id,
            RetryPolicy::none(),
            cancelled,
            now,
        ) {
            Ok(CallStart::Cached(output)) => {
                return Ok(output);
            },
            Ok(CallStart::Attempt(pending)) => pending,
            Err(error) => {
                proof {
                    let started = (cancelled, now);
                    let ended = (false, 0i64);
                    assert((self@, Err::<Value, ErrorView>(error@)) == before.called(
                        step_id@,
                        started,
                        tool_result(nothing),
                        0,
                        ended,
                    ));
                }
                return Err(error);
            },
        };
        let start = start_timer();
        let returned = tool();
        let duration_ms: u64 = timer_ms(&start);
        let ghost result = returned;
        let attempt: AttemptResult = match returned {
            Ok(output) => AttemptResult::Output(output),
            Err(message) => AttemptResult::Failure(message),
        };
        let cancelled_since: bool = self.poll_cancelled();
        let later: i64 = now_ms();
        let end = self.finish_attempt_at(pending, attempt, duration_ms, cancelled_since, later);
        let outcome: Result<Value> = match end {
            Ok(AttemptEnd::Done(output)) => Ok(output),
            Ok(AttemptEnd::Retry { .. }) => {
                assert(false);
                Err(Error::Cancelled)
            },
            Err(error) => Err(error),
        };
        assert((self@, value_outcome(outcome)) == before.called(
            step_id@,
            (cancelled, now),
            tool_result(result),
            duration_ms,
            (cancelled_since, later),
        ));
        outcome
    }

    /// Begins a model call.
    pub fn begin_llm(&self, request: &LlmRequest) -> (outcome: Result<LlmStart>)
        requires
            self.wf(),
        ensures
            outcome matches Ok(start) && start@ == self@.prompted(request@),
    {
        let prompt_hash = request.prompt_hash();
        match self.journal.lookup_completed_llm_call(&self.workflow_id, &prompt_hash) {
            Ok(Some(response)) => Ok(LlmStart::Cached(response)),
            Ok(None) => Ok(LlmStart::Ask { prompt_hash }),
            Err(error) => Err(error),
        }
    }

    /// Ends a model call at the given time.
    pub fn finish_llm_at(
        &mut self,
        step_id: &str,
        prompt_hash: &str,
        response: LlmResponse,
        now: i64,
    ) -> (outcome: Result<LlmResponse>)
        requires
            old(self).wf(),
        ensures
            final(self).keeps(old(self)),
            (final(self)@, viewed(outcome)) == old(self)@.answered(
                step_id@,
                prompt_hash@,
                response@,
                now,
            ),
    {
        self.charge_tokens(response.tokens_in as u64 + response.tokens_out as u64);
        let completed = EventPayload::LlmCallCompleted {
            step_id: step_id.to_owned(),
            model: response.model.clone(),
            prompt_hash: prompt_hash.to_owned(),
            response: response.content.clone(),
            tokens_in: response.tokens_in,
            tokens_out: response.tokens_out,
        };
        match self.record(&completed, now) {
            Ok(_) => Ok(response),
            Err(error) => Err(error),
        }
    }

    /// Ends a model call.
    ///
    /// The `step_id` is informational: the prompt hash is what the answer is
    /// found by.
    pub fn finish_llm(&mut self, step_id: &str, prompt_hash: &str, response: LlmResponse) -> (
    outcome: Result<LlmResponse>)
        requires
            old(self).wf(),
        ensures
            final(self).keeps(old(self)),
            exists|now: i64|
                can_be_now(now) && (final(self)@, viewed(outcome)) == #[trigger] old(self)@.answered(
                    step_id@,
                    prompt_hash@,
                    response@,
                    now,
                ),
    {
        let now: i64 = now_ms();
        self.finish_llm_at(step_id, prompt_hash, response, now)
    }

    /// Ends a model call with what the model replied, at the given time.
    pub fn take_reply_at(
        &mut self,
        step_id: &str,
        prompt_hash: &str,
        reply: Result<LlmResponse>,
        now: i64,
    ) -> (outcome: Result<LlmResponse>)
        requires
            old(self).wf(),
        ensures
            final(self).keeps(old(self)),
            (final(self)@, viewed(outcome)) == old(self)@.replied(
                step_id@,
                prompt_hash@,
                viewed(reply),
                now,
            ),
    {
        match reply {
            Ok(response) => self.finish_llm_at(step_id, prompt_hash, response, now),
            Err(error) => Err(error),
        }
    }

    /// Asks a language model, unless the journal has the answer: then the
    /// provider is not touched.
    pub fn complete_llm<P: LlmProvider>(
        &mut self,
        step_id: &str,
        provider: &mut P,
        request: &LlmRequest,
    ) -> (outcome: Result<LlmResponse>)
        requires
            old(self).wf(),
        ensures
            final(self).keeps(old(self)),
            old(self)@.prompted(request@) matches PromptView::Cached(response) ==> {
                &&& *final(provider) == *old(provider)
                &&& final(self)@ == old(self)@
                &&& viewed(outcome) == Ok::<ResponseView, ErrorView>(response)
            },
            old(self)@.prompted(request@) is Ask ==> exists|
                reply: std::result::Result<ResponseView, ErrorView>,
                now: i64,
            |
                {
                    &&& old(provider).gives(request@, final(provider), reply)
                    &&& can_be_now(now)
                    &&& (final(self)@, viewed(outcome)) == #[trigger] old(self)@.replied(
                        step_id@,
                        cache_key(request@),
                        reply,
                        now,
                    )
                },
    {
        let prompt_hash: String = match self.begin_llm(request) {
            Ok(LlmStart::Cached(response)) => {
                return Ok(response);
            },
            Ok(LlmStart::Ask { prompt_hash }) => prompt_hash,
            Err(error) => {
                return Err(error);
            },
        };
        let ghost before = self@;
        let reply = provider.complete(request);
        let ghost replied = viewed(reply);
        let now: i64 = now_ms();
        let outcome = self.take_reply_at(step_id, &prompt_hash, reply, now);
        assert((self@, viewed(outcome)) == before.replied(
            step_id@,
            cache_key(request@),
            replied,
            now,
        ));
        outcome
    }

    /// Completes the workflow at the given time.
    pub fn complete_at(&mut self, output: &Value, now: i64) -> (outcome: Result<()>)
        requires
            old(self).wf(),
        ensures
            final(self).keeps(old(self)),
            (final(self)@, viewed(outcome)) == old(self)@.completed(*output, now),
    {
        self.record(&EventPayload::WorkflowCompleted { output: output.clone() }, now)
    }

    /// Completes the workflow.
    pub fn complete(&mut self, output: &Value) -> (outcome: Result<()>)
        requires
            old(self).wf(),
        ensures
            final(self).keeps(old(self)),
            exists|now: i64|
                can_be_now(now) && (final(self)@, viewed(outcome)) == #[trigger] old(
                    self,
                )@.completed(*output, now),
    {
        let now: i64 = now_ms();
        self.complete_at(output, now)
    }

    /// The output of the workflow, where it has completed.
    pub fn cached_final_output(&self) -> (outcome: Result<Option<Value>>)
        requires
            self.wf(),
        ensures
            outcome matches Ok(output) && output == self@.final_output(),
    {
        self.journal.lookup_final_output(&self.workflow_id)
    }
}

// ---------------------------------------------------------------------------
// Laws
// ---------------------------------------------------------------------------

/// Without a token a workflow is not cancelled; with one, it is exactly where
/// the token was read so.
pub proof fn law_token_decides_on_cancellation(cx: Context, cancelled: bool)
    ensures
        cx.token() is None ==> (cx.polls(cancelled) <==> !cancelled),
        cx.token() matches Some(token) ==> (cx.polls(cancelled) <==> token.reads(cancelled)),
{
}

/// What a call leaves alone: the token stays attached, storage holds what it
/// held, and the journal still is what storage holds once it has carried out the
/// unsaved changes.
pub proof fn law_calls_keep_token_and_storage(after: Context, before: Context)
    requires
        after.keeps(&before),
    ensures
        after.token() == before.token(),
        after.ledger().saved() == before.ledger().saved(),
        after@.ledger == after.ledger()@,
        ledger_ok(after@.ledger),
        replay(after.ledger().saved(), after.ledger().unsaved()) == after@.ledger,
{
}

/// How a call begins, how an attempt went, how it goes on and how a model call
/// begins are taken for all that they hold.
pub proof fn law_call_views_keep_every_field(
    start: CallStart,
    result: AttemptResult,
    end: AttemptEnd,
    prompt: LlmStart,
)
    ensures
        match start {
            CallStart::Cached(output) => start@ == StartView::Cached(output),
            CallStart::Attempt(call) => start@ == StartView::Attempt(call@),
        },
        match result {
            AttemptResult::Output(output) => result@ == AttemptView::Output(output),
            AttemptResult::Failure(message) => result@ == AttemptView::Failure(message@),
            AttemptResult::TimedOut => result@ == AttemptView::TimedOut,
        },
        match end {
            AttemptEnd::Done(output) => end@ == EndView::Done(output),
            AttemptEnd::Retry { call, pause } => end@ == (EndView::Retry { call: call@, pause }),
        },
        match prompt {
            LlmStart::Cached(response) => prompt@ == PromptView::Cached(response@),
            LlmStart::Ask { prompt_hash } => prompt@ == PromptView::Ask(prompt_hash@),
        },
{
}

/// What a tool returned is the output of the attempt, or its failure under the
/// message that it gave; and what a call returns is taken as it is.
pub proof fn law_tool_result_is_the_attempt(
    result: std::result::Result<Value, String>,
    outcome: Result<Value>,
)
    ensures
        match result {
            Ok(output) => tool_result(result) == AttemptView::Output(output),
            Err(message) => tool_result(result) == AttemptView::Failure(message@),
        },
        match outcome {
            Ok(output) => value_outcome(outcome) == Ok::<Value, ErrorView>(output),
            Err(error) => value_outcome(outcome) == Err::<Value, ErrorView>(error@),
        },
{
}

} // verus!
