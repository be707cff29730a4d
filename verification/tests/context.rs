use clawnicle::{
    AttemptEnd, AttemptResult, Budget, CallStart, CancelToken, Change, Context, Error,
    EventPayload, Journal, LlmMessage, LlmRequest, LlmResponse, LlmStart, MockProvider, Result,
    RetryPolicy, WorkflowLog,
};
use serde_json::Value;

/// Rows as storage holds them.
struct Store {
    rows: Vec<WorkflowLog>,
}

impl Store {
    fn new() -> Store {
        Store { rows: Vec::new() }
    }

    fn open(&self) -> Journal {
        let rows = self
            .rows
            .iter()
            .map(|log| WorkflowLog {
                row: log.row.clone(),
                events: log.events.clone(),
            })
            .collect();
        Journal::open(rows).unwrap()
    }

    fn save(&mut self, changes: Vec<Change>) {
        for change in changes {
            match change {
                Change::InsertWorkflow(row) => self.rows.push(WorkflowLog {
                    row,
                    events: Vec::new(),
                }),
                Change::InsertEvent(event) => {
                    let log = self
                        .rows
                        .iter_mut()
                        .find(|log| log.row.id == event.workflow_id)
                        .unwrap();
                    log.events.push(event);
                }
                Change::UpdateWorkflow {
                    id,
                    status,
                    updated_at_ms,
                } => {
                    let log = self.rows.iter_mut().find(|log| log.row.id == id).unwrap();
                    log.row.status = status;
                    log.row.updated_at_ms = updated_at_ms;
                }
            }
        }
    }
}

fn context(store: &Store) -> Context {
    Context::open_or_start(store.open(), "wf", "demo", "h").unwrap()
}

/// Runs a tool call to its end, without pauses.
fn call_with_retry(
    cx: &mut Context,
    step_id: &str,
    policy: RetryPolicy,
    mut tool: impl FnMut(u32) -> AttemptResult,
) -> Result<Value> {
    let mut call = match cx.begin_call(step_id, policy)? {
        CallStart::Cached(output) => return Ok(output),
        CallStart::Attempt(call) => call,
    };
    loop {
        let result = tool(call.attempt());
        match cx.finish_attempt(call, result, 5)? {
            AttemptEnd::Done(output) => return Ok(output),
            AttemptEnd::Retry { call: again, .. } => call = cx.start_attempt(again)?,
        }
    }
}

fn call(
    cx: &mut Context,
    step_id: &str,
    tool: impl FnMut(u32) -> AttemptResult,
) -> Result<Value> {
    call_with_retry(cx, step_id, RetryPolicy::none(), tool)
}

fn kinds(journal: &Journal) -> Vec<&'static str> {
    journal
        .read_all("wf")
        .unwrap()
        .iter()
        .map(|ev| ev.payload.kind())
        .collect()
}

fn response(content: &str) -> LlmResponse {
    LlmResponse {
        model: "m-1".into(),
        content: content.into(),
        tokens_in: 30,
        tokens_out: 12,
    }
}

#[test]
fn call_journals_start_and_completion() {
    let mut store = Store::new();
    let mut cx = context(&store);
    let out = cx.call("add", || Ok(Value::from(3 + 4))).unwrap();
    assert_eq!(out, Value::from(7));
    store.save(cx.take_changes());

    let events = store.open().read_all("wf").unwrap();
    // WorkflowStarted + ToolCallStarted + ToolCallCompleted
    assert_eq!(events.len(), 3);
    assert!(matches!(
        events[1].payload,
        EventPayload::ToolCallStarted { .. }
    ));
    assert!(matches!(
        events[2].payload,
        EventPayload::ToolCallCompleted { .. }
    ));
}

#[test]
fn call_short_circuits_on_replay() {
    let mut store = Store::new();
    let mut calls = 0;
    {
        let mut cx = context(&store);
        let out = cx
            .call("expensive", || {
                calls += 1;
                Ok(Value::from(42))
            })
            .unwrap();
        assert_eq!(out, Value::from(42));
        store.save(cx.take_changes());
    }

    // Reopen the journal (simulating a restart) and call again with the
    // same step_id: the tool must NOT run again.
    let mut cx = context(&store);
    let out = cx
        .call("expensive", || {
            calls += 1;
            Ok(Value::from(99)) // different value; replay must return the cached 42
        })
        .unwrap();

    assert_eq!(
        out,
        Value::from(42),
        "replay must return cached output, not re-execute"
    );
    assert_eq!(calls, 1, "closure ran exactly once");
    assert!(cx.take_changes().is_empty());
}

#[test]
fn call_journals_failure_as_tool_call_failed() {
    let mut store = Store::new();
    let mut cx = context(&store);
    let res = cx.call("flaky", || Err("boom".to_string()));
    assert!(matches!(res, Err(Error::Tool(text)) if text == "boom"));
    store.save(cx.take_changes());

    let events = store.open().read_all("wf").unwrap();
    assert!(matches!(
        &events.last().unwrap().payload,
        EventPayload::ToolCallFailed { step_id, error, .. }
            if step_id == "flaky" && error == "boom"
    ));
}

#[test]
fn failures_are_not_cached() {
    let store = Store::new();
    let mut cx = context(&store);
    let mut runs = 0;
    for _ in 0..2 {
        let res = call(&mut cx, "flaky", |_| {
            runs += 1;
            AttemptResult::Failure("boom".into())
        });
        assert!(res.is_err());
    }
    assert_eq!(runs, 2);
    let out = call(&mut cx, "flaky", |_| AttemptResult::Output(Value::from(1))).unwrap();
    assert_eq!(out, Value::from(1));
}

#[test]
fn retries_are_numbered_and_all_recorded() {
    let store = Store::new();
    let mut cx = context(&store);
    let out = call_with_retry(&mut cx, "s", RetryPolicy::exponential_3(), |attempt| {
        if attempt < 3 {
            AttemptResult::Failure(format!("no {attempt}"))
        } else {
            AttemptResult::Output(Value::from("yes"))
        }
    })
    .unwrap();
    assert_eq!(out, Value::from("yes"));
    assert_eq!(
        kinds(cx.journal()),
        vec![
            "workflow_started",
            "tool_call_started",
            "tool_call_failed",
            "tool_call_started",
            "tool_call_failed",
            "tool_call_started",
            "tool_call_completed",
        ]
    );
    let attempts: Vec<u32> = cx
        .journal()
        .read_all("wf")
        .unwrap()
        .iter()
        .filter_map(|ev| match &ev.payload {
            EventPayload::ToolCallStarted {
                attempt,
                name,
                input_hash,
                ..
            } => {
                assert_eq!(name, "s");
                assert_eq!(input_hash, "");
                Some(*attempt)
            }
            _ => None,
        })
        .collect();
    assert_eq!(attempts, vec![1, 2, 3]);
}

#[test]
fn the_last_attempt_decides() {
    let store = Store::new();
    let mut cx = context(&store);
    let res = call_with_retry(&mut cx, "s", RetryPolicy::exponential_3(), |attempt| {
        AttemptResult::Failure(format!("no {attempt}"))
    });
    assert!(matches!(res, Err(Error::Tool(text)) if text == "no 3"));
    assert_eq!(kinds(cx.journal()).len(), 7);
}

#[test]
fn pauses_grow_between_attempts() {
    let store = Store::new();
    let mut cx = context(&store);
    let policy = RetryPolicy::exponential_3();
    let CallStart::Attempt(call) = cx.begin_call("s", policy).unwrap() else {
        panic!("nothing is cached");
    };
    assert_eq!(call.timeout(), None);
    let end = cx
        .finish_attempt(call, AttemptResult::Failure("x".into()), 1)
        .unwrap();
    let AttemptEnd::Retry { call, pause } = end else {
        panic!("two attempts are left");
    };
    assert_eq!(pause, 100_000_000);
    let call = cx.start_attempt(call).unwrap();
    assert_eq!(call.attempt(), 2);
    let end = cx
        .finish_attempt(call, AttemptResult::Failure("x".into()), 1)
        .unwrap();
    let AttemptEnd::Retry { call, pause } = end else {
        panic!("one attempt is left");
    };
    assert_eq!(pause, 200_000_000);
    let call = cx.start_attempt(call).unwrap();
    assert_eq!(call.attempt(), 3);
}

#[test]
fn a_policy_without_attempts_still_tries_once() {
    let store = Store::new();
    let mut cx = context(&store);
    let policy = RetryPolicy::none().with_max_attempts(0);
    let mut runs = 0;
    let res = call_with_retry(&mut cx, "s", policy, |_| {
        runs += 1;
        AttemptResult::Failure("x".into())
    });
    assert!(res.is_err());
    assert_eq!(runs, 1);
}

#[test]
fn a_timeout_is_a_failure_like_any_other() {
    let store = Store::new();
    let mut cx = context(&store);
    let policy = RetryPolicy::none().with_timeout(5_000_000_000);
    let res = call_with_retry(&mut cx, "slow", policy, |_| AttemptResult::TimedOut);
    assert!(matches!(res, Err(Error::Tool(text)) if text == "timeout after 5s"));
    let events = cx.journal().read_all("wf").unwrap();
    assert!(matches!(
        &events.last().unwrap().payload,
        EventPayload::ToolCallFailed { error, .. } if error == "timeout after 5s"
    ));
}

#[test]
fn an_exceeded_budget_refuses_a_new_call_before_journaling() {
    let store = Store::new();
    let mut cx = context(&store).with_budget(Budget::unlimited().with_max_tokens(100));
    cx.charge_tokens(100);
    call(&mut cx, "fits", |_| AttemptResult::Output(Value::from(1))).unwrap();
    cx.charge_tokens(1);
    let before = kinds(cx.journal());
    let res = call(&mut cx, "next", |_| panic!("the tool must not run"));
    assert!(matches!(res, Err(Error::BudgetExceeded("tokens"))));
    assert_eq!(kinds(cx.journal()), before);
    // What has completed is still answered.
    let out = call(&mut cx, "fits", |_| panic!("the tool must not run")).unwrap();
    assert_eq!(out, Value::from(1));
}

#[test]
fn money_and_time_have_caps_too() {
    let store = Store::new();
    let mut cx = context(&store).with_budget(Budget::unlimited().with_max_usd_micros(10));
    cx.charge_usd_micros(11);
    let res = call(&mut cx, "s", |_| panic!("the tool must not run"));
    assert!(matches!(res, Err(Error::BudgetExceeded("usd"))));

    let mut cx = context(&store).with_budget(Budget::unlimited().with_max_wallclock_ms(4));
    let out = call(&mut cx, "s", |_| AttemptResult::Output(Value::from(2))).unwrap();
    assert_eq!(out, Value::from(2), "a call that completes gets its output");
    assert_eq!(cx.usage().wallclock_ms, 5);
    let res = call(&mut cx, "t", |_| panic!("the tool must not run"));
    assert!(matches!(res, Err(Error::BudgetExceeded("wallclock"))));
}

#[test]
fn an_exceeded_budget_stops_the_retries() {
    let store = Store::new();
    let mut cx = context(&store).with_budget(Budget::unlimited().with_max_wallclock_ms(7));
    let mut runs = 0;
    let res = call_with_retry(
        &mut cx,
        "s",
        RetryPolicy::exponential_3().with_max_attempts(5),
        |_| {
            runs += 1;
            AttemptResult::Failure("x".into())
        },
    );
    assert!(matches!(res, Err(Error::BudgetExceeded("wallclock"))));
    assert_eq!(runs, 2);
    assert_eq!(cx.usage().wallclock_ms, 10);
}

#[test]
fn charges_do_not_wrap() {
    let store = Store::new();
    let mut cx = context(&store);
    cx.charge_tokens(u64::MAX);
    cx.charge_tokens(5);
    cx.charge_usd_micros(u64::MAX - 1);
    cx.charge_usd_micros(1);
    assert_eq!(cx.usage().tokens, u64::MAX);
    assert_eq!(cx.usage().usd_micros, u64::MAX);
}

#[test]
fn cancellation_is_polled_before_a_call() {
    let store = Store::new();
    let token = CancelToken::new();
    let mut cx = context(&store).with_cancel_token(token.clone());
    call(&mut cx, "a", |_| AttemptResult::Output(Value::from(1))).unwrap();
    token.cancel();
    let before = kinds(cx.journal());
    let res = call(&mut cx, "b", |_| panic!("the tool must not run"));
    assert!(matches!(res, Err(Error::Cancelled)));
    assert_eq!(kinds(cx.journal()), before);
    let out = call(&mut cx, "a", |_| panic!("the tool must not run")).unwrap();
    assert_eq!(out, Value::from(1));
}

#[test]
fn cancellation_is_polled_between_attempts() {
    let store = Store::new();
    let token = CancelToken::new();
    let mut cx = context(&store).with_cancel_token(token.clone());
    let res = call_with_retry(&mut cx, "s", RetryPolicy::exponential_3(), |_| {
        token.cancel();
        AttemptResult::Failure("x".into())
    });
    assert!(matches!(res, Err(Error::Cancelled)));
    assert_eq!(
        kinds(cx.journal()),
        vec!["workflow_started", "tool_call_started", "tool_call_failed"]
    );
}

#[test]
fn cancellation_during_the_pause_stops_the_next_attempt() {
    let store = Store::new();
    let token = CancelToken::new();
    let mut cx = context(&store).with_cancel_token(token.clone());
    let CallStart::Attempt(call) = cx.begin_call("s", RetryPolicy::exponential_3()).unwrap() else {
        panic!("nothing is cached");
    };
    let end = cx
        .finish_attempt(call, AttemptResult::Failure("x".into()), 1)
        .unwrap();
    let AttemptEnd::Retry { call, .. } = end else {
        panic!("two attempts are left");
    };
    token.cancel();
    assert!(matches!(cx.start_attempt(call), Err(Error::Cancelled)));
}

#[test]
fn a_tool_that_completes_is_not_cancelled() {
    let store = Store::new();
    let token = CancelToken::new();
    let mut cx = context(&store).with_cancel_token(token.clone());
    let out = call(&mut cx, "s", |_| {
        token.cancel();
        AttemptResult::Output(Value::from(3))
    })
    .unwrap();
    assert_eq!(out, Value::from(3));
}

#[test]
fn model_answers_are_cached_by_prompt() {
    let mut store = Store::new();
    let request = LlmRequest::new("m", vec![LlmMessage::user("hi")]);
    let mut provider = MockProvider::new(vec![response("first"), response("second")]);
    let mut cx = context(&store);
    let fresh = cx.complete_llm("a", &mut provider, &request).unwrap();
    assert_eq!(fresh.content, "first");
    assert_eq!(cx.usage().tokens, 42);
    // Another call site with the identical request shares the answer.
    let again = cx.complete_llm("b", &mut provider, &request).unwrap();
    assert_eq!(again.content, "first");
    assert_eq!(again.model, "m-1");
    assert_eq!((again.tokens_in, again.tokens_out), (30, 12));
    assert_eq!(cx.usage().tokens, 42, "a cache hit is not charged");
    assert_eq!(provider.call_count(), 1);
    store.save(cx.take_changes());

    let mut cx = context(&store);
    let after = cx.complete_llm("a", &mut provider, &request).unwrap();
    assert_eq!(after.content, "first");
    assert_eq!(provider.call_count(), 1);
    assert_eq!(cx.usage().tokens, 0);

    let other = LlmRequest::new("m", vec![LlmMessage::user("bye")]);
    let answer = cx.complete_llm("a", &mut provider, &other).unwrap();
    assert_eq!(answer.content, "second");
    assert_eq!(provider.call_count(), 2);
}

#[test]
fn a_failing_model_leaves_no_answer() {
    let store = Store::new();
    let request = LlmRequest::new("m", vec![LlmMessage::user("hi")]);
    let mut provider = MockProvider::new(vec![]);
    let mut cx = context(&store);
    let before = kinds(cx.journal());
    let res = cx.complete_llm("a", &mut provider, &request);
    assert!(matches!(res, Err(Error::Tool(text)) if text == "mock provider exhausted"));
    assert_eq!(kinds(cx.journal()), before);
    assert_eq!(cx.usage().tokens, 0);
}

#[test]
fn a_model_call_can_be_driven_step_by_step() {
    let store = Store::new();
    let request = LlmRequest::new("m", vec![LlmMessage::user("hi")]);
    let mut cx = context(&store);
    let LlmStart::Ask { prompt_hash } = cx.begin_llm(&request).unwrap() else {
        panic!("nothing is cached");
    };
    assert_eq!(prompt_hash, request.prompt_hash());
    cx.finish_llm("a", &prompt_hash, response("later")).unwrap();
    assert!(matches!(
        cx.begin_llm(&request).unwrap(),
        LlmStart::Cached(found) if found.content == "later"
    ));
}

#[test]
fn a_single_call_measures_its_time() {
    let store = Store::new();
    let mut cx = context(&store);
    let start = std::time::Instant::now();
    cx.call("spin", || {
        while start.elapsed().as_millis() < 20 {}
        Ok(Value::Null)
    })
    .unwrap();
    assert!(cx.usage().wallclock_ms >= 19);
    let events = cx.journal().read_all("wf").unwrap();
    assert!(matches!(
        &events[2].payload,
        EventPayload::ToolCallCompleted { duration_ms, .. } if *duration_ms == cx.usage().wallclock_ms
    ));
}

#[test]
fn model_calls_are_journaled_with_their_figures() {
    let store = Store::new();
    let request = LlmRequest::new("m", vec![LlmMessage::user("hi")]);
    let mut provider = MockProvider::new(vec![response("first")]);
    let mut cx = context(&store);
    cx.complete_llm("a", &mut provider, &request).unwrap();
    let events = cx.journal().read_all("wf").unwrap();
    assert!(matches!(
        &events[1].payload,
        EventPayload::LlmCallCompleted { step_id, model, prompt_hash, response, tokens_in, tokens_out }
            if step_id == "a" && model == "m-1" && *prompt_hash == request.prompt_hash()
                && response == "first" && *tokens_in == 30 && *tokens_out == 12
    ));
}

#[test]
fn a_completed_workflow_has_a_final_output() {
    let mut store = Store::new();
    let mut cx = context(&store);
    assert_eq!(cx.workflow_id(), "wf");
    assert_eq!(cx.cached_final_output().unwrap(), None);
    cx.complete(&Value::from(7)).unwrap();
    store.save(cx.take_changes());
    let cx = context(&store);
    assert_eq!(cx.cached_final_output().unwrap(), Some(Value::from(7)));
    assert_eq!(
        cx.journal().workflow_status("wf").unwrap().as_deref(),
        Some("completed")
    );
}

#[test]
fn reopening_changes_nothing() {
    let mut store = Store::new();
    store.save(context(&store).take_changes());
    assert!(context(&store).take_changes().is_empty());
    assert_eq!(kinds(&store.open()), vec!["workflow_started"]);
}

#[test]
fn a_context_goes_on_with_what_storage_holds() {
    let mut store = Store::new();
    let mut one = context(&store);
    store.save(one.take_changes());
    let mut two = context(&store);
    call(&mut two, "s", |_| AttemptResult::Output(Value::from(1))).unwrap();
    store.save(two.take_changes());
    one.reload(store.open());
    let out = call(&mut one, "s", |_| panic!("the tool must not run")).unwrap();
    assert_eq!(out, Value::from(1));
}

#[test]
fn a_context_without_its_workflow_reports_the_journal() {
    let store = Store::new();
    let mut cx = context(&store);
    cx.reload(Journal::open(Vec::new()).unwrap());
    let res = cx.begin_call("s", RetryPolicy::none());
    assert!(matches!(
        res,
        Err(Error::Journal(text)) if text == "FOREIGN KEY constraint failed"
    ));
    assert!(matches!(
        cx.complete(&Value::Null),
        Err(Error::Journal(_))
    ));
}
