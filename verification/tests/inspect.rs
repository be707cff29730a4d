use clawnicle::inspect::{events, is_listable, list, show};
use clawnicle::{EventPayload, Journal};
use serde_json::Value;

fn journal() -> Journal {
    let mut journal = Journal::open(Vec::new()).unwrap();
    journal
        .start_workflow_at("wf-1", "hello", "h", None, 1_000)
        .unwrap();
    for (now, payload) in [
        (
            2_000,
            EventPayload::ToolCallStarted {
                step_id: "s".into(),
                name: "s".into(),
                input_hash: "".into(),
                attempt: 1,
            },
        ),
        (
            2_500,
            EventPayload::ToolCallFailed {
                step_id: "s".into(),
                error: "boom".into(),
                duration_ms: 17,
            },
        ),
        (
            3_000,
            EventPayload::ToolCallCompleted {
                step_id: "s".into(),
                output: Value::from(1),
                duration_ms: 4,
            },
        ),
        (
            3_100,
            EventPayload::LlmCallCompleted {
                step_id: "l".into(),
                model: "m".into(),
                prompt_hash: "p".into(),
                response: "r".into(),
                tokens_in: 12,
                tokens_out: 34,
            },
        ),
        (
            3_200,
            EventPayload::StepCompleted {
                step_id: "local".into(),
                name: "n".into(),
                output: Value::Null,
            },
        ),
        (
            3_300,
            EventPayload::WorkflowCompleted {
                output: Value::Null,
            },
        ),
        (
            4_042,
            EventPayload::WorkflowFailed {
                error: "late".into(),
            },
        ),
    ] {
        journal.append_at("wf-1", &payload, now).unwrap();
    }
    journal
}

#[test]
fn an_empty_journal_lists_no_workflows() {
    let empty = Journal::open(Vec::new()).unwrap();
    assert!(is_listable(&empty));
    assert_eq!(list(&empty), vec!["no workflows".to_string()]);
}

#[test]
fn workflows_are_listed_in_columns() {
    let mut journal = journal();
    journal
        .submit_pending_at(
            "a-rather-long-workflow-name",
            "an-id-that-is-longer-than-its-column",
            &Value::Null,
            -7,
        )
        .unwrap();
    assert!(is_listable(&journal));
    let lines = list(&journal);
    assert_eq!(lines.len(), 4);
    assert_eq!(
        lines[0],
        format!(
            "{:<28} {:<14} {:<10} {:>8}  updated",
            "id", "name", "status", "events"
        )
    );
    assert_eq!(lines[1], "-".repeat(80));
    assert_eq!(
        lines[2],
        format!(
            "{:<28} {:<14} {:<10} {:>8}  {}",
            "wf-1", "hello", "failed", 8, "4.042s"
        )
    );
    assert_eq!(
        lines[3],
        format!(
            "{:<28} {:<14} {:<10} {:>8}  {}",
            "an-id-that-is-longer-than-i\u{2026}", "a-rather-long\u{2026}", "pending", 1, "-0.007s"
        )
    );
}

#[test]
fn a_list_does_not_cut_within_a_character() {
    let mut journal = Journal::open(Vec::new()).unwrap();
    journal
        .start_workflow("wf", "\u{e9}\u{e9}\u{e9}\u{e9}\u{e9}\u{e9}\u{e9}\u{e9}", "h", None)
        .unwrap();
    assert!(!is_listable(&journal));
}

#[test]
fn a_workflow_is_shown_with_its_key_figures() {
    assert_eq!(
        show(&journal(), "wf-1").unwrap(),
        vec![
            "id:         wf-1",
            "name:       hello",
            "status:     failed",
            "created:    1.000s",
            "updated:    4.042s",
            "events:     8",
            "tool calls: 1",
            "llm calls:  1",
            "failures:   2",
            "last event: workflow_failed",
        ]
    );
}

#[test]
fn a_missing_workflow_cannot_be_shown() {
    assert_eq!(
        show(&journal(), "nobody").unwrap_err(),
        "workflow not found: nobody"
    );
    assert_eq!(
        events(&journal(), "nobody").unwrap_err(),
        "no events for workflow nobody (does it exist?)"
    );
}

#[test]
fn events_are_shown_as_a_timeline() {
    let lines = events(&journal(), "wf-1").unwrap();
    let expected = [
        (1, "1.000s", "workflow_started", "name=hello"),
        (2, "2.000s", "tool_call_started", "step=s attempt=1"),
        (3, "2.500s", "tool_call_failed", "step=s duration=17ms error=boom"),
        (4, "3.000s", "tool_call_completed", "step=s duration=4ms"),
        (5, "3.100s", "llm_call_completed", "model=m tokens=12\u{2192}34"),
        (6, "3.200s", "step_completed", "step=local"),
        (7, "3.300s", "workflow_completed", "completed"),
        (8, "4.042s", "workflow_failed", "error=late"),
    ]
    .map(|(sequence, at, kind, text)| format!("{sequence:>4}  {at}  {kind:<22}  {text}"));
    assert_eq!(lines, expected);
}
