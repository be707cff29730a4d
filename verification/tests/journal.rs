use clawnicle::{
    Change, Error, Event, EventPayload, Journal, WorkflowLog, WorkflowRow, WorkflowStatus,
};
use serde_json::Value;

/// Rows as storage holds them.
struct Store {
    rows: Vec<WorkflowLog>,
}

impl Store {
    fn new() -> Store {
        Store { rows: Vec::new() }
    }

    fn open(&self) -> Journal {
        let rows = self
            .rows
            .iter()
            .map(|log| WorkflowLog {
                row: log.row.clone(),
                events: log.events.clone(),
            })
            .collect();
        Journal::open(rows).unwrap()
    }

    fn save(&mut self, journal: &mut Journal) {
        for change in journal.take_changes() {
            match change {
                Change::InsertWorkflow(row) => self.rows.push(WorkflowLog {
                    row,
                    events: Vec::new(),
                }),
                Change::InsertEvent(event) => {
                    let log = self
                        .rows
                        .iter_mut()
                        .find(|log| log.row.id == event.workflow_id)
                        .unwrap();
                    log.events.push(event);
                }
                Change::UpdateWorkflow {
                    id,
                    status,
                    updated_at_ms,
                } => {
                    let log = self.rows.iter_mut().find(|log| log.row.id == id).unwrap();
                    log.row.status = status;
                    log.row.updated_at_ms = updated_at_ms;
                }
            }
        }
    }
}

fn json(text: &str) -> Value {
    serde_json::from_str(text).unwrap()
}

fn completed() -> EventPayload {
    EventPayload::WorkflowCompleted { output: json("{}") }
}

fn empty_journal() -> Journal {
    Journal::open(Vec::new()).unwrap()
}

#[test]
fn writes_and_reads_two_events() {
    let mut journal = empty_journal();
    journal
        .start_workflow("wf-1", "hello", "hash-0", None)
        .unwrap();
    journal
        .append(
            "wf-1",
            &EventPayload::WorkflowCompleted {
                output: json("{\"ok\": true}"),
            },
        )
        .unwrap();

    let events = journal.read_all("wf-1").unwrap();
    assert_eq!(events.len(), 2);
    assert!(matches!(
        events[0].payload,
        EventPayload::WorkflowStarted { .. }
    ));
    assert!(matches!(
        events[1].payload,
        EventPayload::WorkflowCompleted { .. }
    ));
    assert_eq!(events[0].sequence, 1);
    assert_eq!(events[1].sequence, 2);
}

#[test]
fn sequence_is_per_workflow() {
    let mut journal = empty_journal();
    journal.start_workflow("a", "a", "h", None).unwrap();
    journal.start_workflow("b", "b", "h", None).unwrap();
    journal.append("a", &completed()).unwrap();
    journal.append("b", &completed()).unwrap();

    let a = journal.read_all("a").unwrap();
    let b = journal.read_all("b").unwrap();
    assert_eq!(a.len(), 2);
    assert_eq!(b.len(), 2);
    assert_eq!(a[0].sequence, 1);
    assert_eq!(a[1].sequence, 2);
    assert_eq!(b[0].sequence, 1);
    assert_eq!(b[1].sequence, 2);
}

#[test]
fn workflow_status_reflects_terminal_events() {
    let mut journal = empty_journal();
    assert_eq!(journal.workflow_status("missing").unwrap(), None);

    journal.start_workflow("wf", "test", "h", None).unwrap();
    assert_eq!(
        journal.workflow_status("wf").unwrap().as_deref(),
        Some("running")
    );

    journal.append("wf", &completed()).unwrap();
    assert_eq!(
        journal.workflow_status("wf").unwrap().as_deref(),
        Some("completed")
    );
}

#[test]
fn lookup_completed_tool_call_returns_cached_output() {
    let mut journal = empty_journal();
    journal.start_workflow("wf", "t", "h", None).unwrap();

    assert_eq!(
        journal.lookup_completed_tool_call("wf", "fetch-1").unwrap(),
        None
    );

    journal
        .append(
            "wf",
            &EventPayload::ToolCallCompleted {
                step_id: "fetch-1".into(),
                output: json("{\"price\": 42}"),
                duration_ms: 11,
            },
        )
        .unwrap();

    let cached = journal.lookup_completed_tool_call("wf", "fetch-1").unwrap();
    assert_eq!(cached, Some(json("{\"price\": 42}")));

    assert_eq!(
        journal.lookup_completed_tool_call("wf", "fetch-2").unwrap(),
        None
    );
}

#[test]
fn lookup_scoped_to_workflow() {
    let mut journal = empty_journal();
    journal.start_workflow("a", "t", "h", None).unwrap();
    journal.start_workflow("b", "t", "h", None).unwrap();
    journal
        .append(
            "a",
            &EventPayload::ToolCallCompleted {
                step_id: "shared-key".into(),
                output: json("\"from-a\""),
                duration_ms: 1,
            },
        )
        .unwrap();

    assert_eq!(
        journal
            .lookup_completed_tool_call("a", "shared-key")
            .unwrap(),
        Some(json("\"from-a\""))
    );
    assert_eq!(
        journal
            .lookup_completed_tool_call("b", "shared-key")
            .unwrap(),
        None
    );
}

#[test]
fn reopen_preserves_events() {
    let mut store = Store::new();
    {
        let mut journal = store.open();
        journal.start_workflow("wf", "hello", "h", None).unwrap();
        store.save(&mut journal);
    }
    let journal = store.open();
    let events = journal.read_all("wf").unwrap();
    assert_eq!(events.len(), 1);
}

#[test]
fn append_returns_the_sequence_number() {
    let mut journal = empty_journal();
    journal
        .start_workflow_at("wf", "t", "h", Some("parent"), 100)
        .unwrap();
    let failed = EventPayload::WorkflowFailed {
        error: "x".into(),
    };
    assert_eq!(journal.append_at("wf", &failed, 200).unwrap(), 2);
    assert_eq!(journal.append_at("wf", &failed, 300).unwrap(), 3);
    let events = journal.read_all("wf").unwrap();
    assert_eq!(events[2].created_at_ms, 300);
    assert_eq!(events[2].workflow_id, "wf");
    let summary = journal.workflow_summary("wf").unwrap().unwrap();
    assert_eq!(summary.status, WorkflowStatus::Failed);
    assert_eq!(summary.event_count, 3);
    assert_eq!(summary.created_at_ms, 100);
    assert_eq!(summary.updated_at_ms, 300);
}

#[test]
fn append_to_a_missing_workflow_is_refused() {
    let mut journal = empty_journal();
    let refused = journal.append("nobody", &completed());
    assert!(matches!(
        refused,
        Err(Error::Journal(text)) if text == "FOREIGN KEY constraint failed"
    ));
    assert!(journal.take_changes().is_empty());
}

#[test]
fn append_after_the_last_sequence_number_is_refused() {
    let row = WorkflowRow {
        id: "wf".into(),
        name: "t".into(),
        status: WorkflowStatus::Running,
        input_hash: "h".into(),
        parent_id: None,
        input: None,
        created_at_ms: 1,
        updated_at_ms: 1,
    };
    let last = Event {
        sequence: i64::MAX,
        workflow_id: "wf".into(),
        created_at_ms: 1,
        payload: completed(),
    };
    let mut journal = Journal::open(vec![WorkflowLog {
        row,
        events: vec![last],
    }])
    .unwrap();
    let refused = journal.append("wf", &completed());
    assert!(matches!(
        refused,
        Err(Error::Journal(text)) if text == "sequence numbers are exhausted"
    ));
    assert_eq!(journal.read_all("wf").unwrap().len(), 1);
}

#[test]
fn an_id_is_taken_once() {
    let mut journal = empty_journal();
    journal.start_workflow("wf", "t", "h", None).unwrap();
    let again = journal.start_workflow("wf", "other", "h", None);
    assert!(matches!(
        again,
        Err(Error::Journal(text)) if text == "UNIQUE constraint failed: workflows.id"
    ));
    let submitted = journal.submit_pending("other", "wf", &json("1"));
    assert!(matches!(submitted, Err(Error::Journal(_))));
    assert_eq!(journal.read_all("wf").unwrap().len(), 1);
}

#[test]
fn rows_that_are_no_journal_are_refused() {
    let row = |id: &str| WorkflowRow {
        id: id.into(),
        name: "t".into(),
        status: WorkflowStatus::Running,
        input_hash: "h".into(),
        parent_id: None,
        input: None,
        created_at_ms: 1,
        updated_at_ms: 1,
    };
    let event = |id: &str, sequence: i64| Event {
        sequence,
        workflow_id: id.into(),
        created_at_ms: 1,
        payload: completed(),
    };
    let log = |id: &str, events: Vec<Event>| WorkflowLog {
        row: row(id),
        events,
    };
    assert!(Journal::open(vec![log("a", vec![]), log("b", vec![])]).is_ok());
    assert!(Journal::open(vec![log("a", vec![event("a", 1), event("a", 3)])]).is_ok());
    for rows in [
        vec![log("a", vec![]), log("a", vec![])],
        vec![log("a", vec![event("b", 1)])],
        vec![log("a", vec![event("a", 2), event("a", 2)])],
        vec![log("a", vec![event("a", 2), event("a", 1)])],
    ] {
        assert!(matches!(
            Journal::open(rows),
            Err(Error::Journal(text)) if text == "stored rows are not a journal"
        ));
    }
}

#[test]
fn lookup_finds_the_first_of_several() {
    let mut journal = empty_journal();
    journal.start_workflow("wf", "t", "h", None).unwrap();
    for output in ["1", "2"] {
        journal
            .append(
                "wf",
                &EventPayload::ToolCallCompleted {
                    step_id: "s".into(),
                    output: json(output),
                    duration_ms: 1,
                },
            )
            .unwrap();
    }
    assert_eq!(
        journal.lookup_completed_tool_call("wf", "s").unwrap(),
        Some(json("1"))
    );
}

#[test]
fn failures_and_starts_answer_no_lookup() {
    let mut journal = empty_journal();
    journal.start_workflow("wf", "t", "h", None).unwrap();
    journal
        .append(
            "wf",
            &EventPayload::ToolCallStarted {
                step_id: "s".into(),
                name: "s".into(),
                input_hash: "".into(),
                attempt: 1,
            },
        )
        .unwrap();
    journal
        .append(
            "wf",
            &EventPayload::ToolCallFailed {
                step_id: "s".into(),
                error: "boom".into(),
                duration_ms: 3,
            },
        )
        .unwrap();
    journal
        .append(
            "wf",
            &EventPayload::StepCompleted {
                step_id: "s".into(),
                name: "s".into(),
                output: json("9"),
            },
        )
        .unwrap();
    assert_eq!(journal.lookup_completed_tool_call("wf", "s").unwrap(), None);
}

#[test]
fn model_answers_are_found_by_prompt_hash() {
    let mut journal = empty_journal();
    journal.start_workflow("wf", "t", "h", None).unwrap();
    journal
        .append(
            "wf",
            &EventPayload::LlmCallCompleted {
                step_id: "any".into(),
                model: "m".into(),
                prompt_hash: "abc".into(),
                response: "hello".into(),
                tokens_in: 3,
                tokens_out: 4,
            },
        )
        .unwrap();
    let found = journal
        .lookup_completed_llm_call("wf", "abc")
        .unwrap()
        .unwrap();
    assert_eq!(found.model, "m");
    assert_eq!(found.content, "hello");
    assert_eq!((found.tokens_in, found.tokens_out), (3, 4));
    assert!(journal
        .lookup_completed_llm_call("wf", "abd")
        .unwrap()
        .is_none());
    assert!(journal
        .lookup_completed_llm_call("other", "abc")
        .unwrap()
        .is_none());
}

#[test]
fn final_output_is_that_of_the_first_completion() {
    let mut journal = empty_journal();
    journal.start_workflow("wf", "t", "h", None).unwrap();
    assert_eq!(journal.lookup_final_output("wf").unwrap(), None);
    for output in ["1", "2"] {
        journal
            .append(
                "wf",
                &EventPayload::WorkflowCompleted {
                    output: json(output),
                },
            )
            .unwrap();
    }
    assert_eq!(journal.lookup_final_output("wf").unwrap(), Some(json("1")));
}

#[test]
fn workflows_are_listed_in_the_order_in_which_they_came() {
    let mut journal = empty_journal();
    assert!(journal.list_workflows().unwrap().is_empty());
    journal.start_workflow("b", "first", "h", None).unwrap();
    journal.submit_pending("second", "a", &json("5")).unwrap();
    let list = journal.list_workflows().unwrap();
    assert_eq!(list.len(), 2);
    assert_eq!(list[0].id, "b");
    assert_eq!(list[0].status, WorkflowStatus::Running);
    assert_eq!(list[1].id, "a");
    assert_eq!(list[1].name, "second");
    assert_eq!(list[1].status, WorkflowStatus::Pending);
    assert!(journal.workflow_summary("c").unwrap().is_none());
}

#[test]
fn claims_come_in_order_and_empty_the_queue() {
    let mut journal = empty_journal();
    journal.submit_pending("t", "one", &json("1")).unwrap();
    journal.start_workflow("direct", "t", "h", None).unwrap();
    journal.submit_pending("t", "two", &json("2")).unwrap();

    let one = journal.claim_next_pending().unwrap().unwrap();
    assert_eq!(one.id, "one");
    assert_eq!(one.name, "t");
    assert_eq!(one.input, Some(json("1")));
    assert_eq!(
        journal.workflow_status("one").unwrap().as_deref(),
        Some("running")
    );
    let two = journal.claim_next_pending().unwrap().unwrap();
    assert_eq!(two.id, "two");
    assert!(journal.claim_next_pending().unwrap().is_none());
}

#[test]
fn recovery_puts_running_workflows_back() {
    let mut journal = empty_journal();
    journal.submit_pending("t", "one", &json("1")).unwrap();
    journal.submit_pending("t", "two", &json("2")).unwrap();
    journal.submit_pending("t", "done", &json("3")).unwrap();
    for _ in 0..3 {
        journal.claim_next_pending().unwrap();
    }
    journal.append("done", &completed()).unwrap();
    assert_eq!(journal.recover_abandoned().unwrap(), 2);
    assert_eq!(
        journal.workflow_status("one").unwrap().as_deref(),
        Some("pending")
    );
    assert_eq!(
        journal.workflow_status("done").unwrap().as_deref(),
        Some("completed")
    );
    assert_eq!(journal.recover_abandoned().unwrap(), 0);
}

#[test]
fn carried_out_changes_bring_storage_up_to_date() {
    let mut store = Store::new();
    let mut journal = store.open();
    journal.submit_pending("t", "one", &json("1")).unwrap();
    store.save(&mut journal);
    journal.claim_next_pending().unwrap();
    journal
        .append(
            "one",
            &EventPayload::WorkflowFailed {
                error: "x".into(),
            },
        )
        .unwrap();
    journal.start_workflow("two", "u", "h", None).unwrap();
    journal.recover_abandoned().unwrap();
    store.save(&mut journal);
    assert!(journal.take_changes().is_empty());

    let reopened = store.open();
    for id in ["one", "two", "three"] {
        assert_eq!(
            reopened.workflow_status(id).unwrap(),
            journal.workflow_status(id).unwrap()
        );
        let ours = journal.read_all(id).unwrap();
        let theirs = reopened.read_all(id).unwrap();
        assert_eq!(format!("{ours:?}"), format!("{theirs:?}"));
    }
    assert_eq!(
        reopened.workflow_status("one").unwrap().as_deref(),
        Some("failed")
    );
    assert_eq!(
        reopened.workflow_status("two").unwrap().as_deref(),
        Some("pending")
    );
}

#[test]
fn status_names_are_read_back() {
    for status in [
        WorkflowStatus::Pending,
        WorkflowStatus::Running,
        WorkflowStatus::Completed,
        WorkflowStatus::Failed,
    ] {
        assert_eq!(WorkflowStatus::parse(status.as_str()), Some(status));
    }
    assert_eq!(WorkflowStatus::parse("Running"), None);
    assert_eq!(WorkflowStatus::parse(""), None);
}

#[test]
fn every_payload_has_its_kind() {
    let kinds = [
        EventPayload::WorkflowStarted {
            name: "".into(),
            input_hash: "".into(),
        },
        EventPayload::ToolCallStarted {
            step_id: "".into(),
            name: "".into(),
            input_hash: "".into(),
            attempt: 1,
        },
        EventPayload::ToolCallCompleted {
            step_id: "".into(),
            output: Value::Null,
            duration_ms: 0,
        },
        EventPayload::ToolCallFailed {
            step_id: "".into(),
            error: "".into(),
            duration_ms: 0,
        },
        EventPayload::LlmCallCompleted {
            step_id: "".into(),
            model: "".into(),
            prompt_hash: "".into(),
            response: "".into(),
            tokens_in: 0,
            tokens_out: 0,
        },
        EventPayload::StepCompleted {
            step_id: "".into(),
            name: "".into(),
            output: Value::Null,
        },
        EventPayload::WorkflowCompleted {
            output: Value::Null,
        },
        EventPayload::WorkflowFailed { error: "".into() },
    ]
    .map(|payload| payload.kind());
    assert_eq!(
        kinds,
        [
            "workflow_started",
            "tool_call_started",
            "tool_call_completed",
            "tool_call_failed",
            "llm_call_completed",
            "step_completed",
            "workflow_completed",
            "workflow_failed",
        ]
    );
}

#[test]
fn the_log_is_append_only() {
    let mut journal = empty_journal();
    journal.start_workflow("wf", "t", "h", None).unwrap();
    journal.append("wf", &completed()).unwrap();
    let before = format!("{:?}", journal.read_all("wf").unwrap());
    journal
        .append("wf", &EventPayload::WorkflowFailed { error: "late".into() })
        .unwrap();
    journal.recover_abandoned().unwrap();
    let after = journal.read_all("wf").unwrap();
    assert_eq!(after.len(), 3);
    assert_eq!(format!("{:?}", &after[..2]), before);
}
