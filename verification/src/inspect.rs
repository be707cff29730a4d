//! What the command line shows of a journal.

use crate::error::labelled;
use crate::event::{Event, EventPayload, EventView, PayloadView};
use crate::journal::Journal;
use crate::ledger::{events_of, log_of};
use crate::row::{events_view, LogView, SummaryView, WorkflowStatus, WorkflowSummary};
use crate::text::{
    can_truncate, decimal, format_ts, is_truncatable, law_run_repeats_one_character, left_aligned,
    push_decimal,
    push_left_aligned, push_right_aligned, push_run, push_signed, right_aligned, run_of,
    signed_decimal, timestamp, truncate, truncated,
};
use vstd::prelude::*;
use vstd::string::StringExecFns;

verus! {

/// What a list of lines holds.
pub open spec fn lines_view(lines: Seq<String>) -> Seq<Seq<char>> {
    lines.map_values(|line: String| line@)
}

// ---------------------------------------------------------------------------
// All workflows
// ---------------------------------------------------------------------------

/// The width of the column of the ids.
pub const ID_WIDTH: usize = 28;

/// The width of the column of the names.
pub const NAME_WIDTH: usize = 14;

/// A row of the list of workflows.
pub open spec fn list_row(
    id: Seq<char>,
    name: Seq<char>,
    status: Seq<char>,
    events: Seq<char>,
    updated: Seq<char>,
) -> Seq<char> {
    left_aligned(id, ID_WIDTH as int) + " "@ + left_aligned(name, NAME_WIDTH as int) + " "@
        + left_aligned(status, 10) + " "@ + right_aligned(events, 8) + "  "@ + updated
}

/// The line of a workflow in the list of workflows.
pub open spec fn list_line(summary: SummaryView) -> Seq<char> {
    list_row(
        truncated(summary.id, ID_WIDTH as int),
        truncated(summary.name, NAME_WIDTH as int),
        summary.status.name(),
        decimal(summary.event_count),
        timestamp(summary.updated_at_ms as int),
    )
}

/// The list of workflows: a heading, a rule and a line for each, or a remark
/// that there are none.
pub open spec fn list_lines(ledger: Seq<LogView>) -> Seq<Seq<char>> {
    if ledger.len() == 0 {
        seq!["no workflows"@]
    } else {
        seq![list_row("id"@, "name"@, "status"@, "events"@, "updated"@), run_of('-', 80)]
            + Seq::new(ledger.len(), |i: int| list_line(ledger[i].summary()))
    }
}

/// Whether no id or name would have to be cut within a character.
pub open spec fn can_list(ledger: Seq<LogView>) -> bool {
    forall|i: int|
        0 <= i < ledger.len() ==> can_truncate((#[trigger] ledger[i]).row.id, ID_WIDTH as int)
            && can_truncate(ledger[i].row.name, NAME_WIDTH as int)
}

fn row_text(id: &str, name: &str, status: &str, events: &str, updated: &str) -> (line: String)
    ensures
        line@ == list_row(id@, name@, status@, events@, updated@),
{
    let mut line = String::new();
    push_left_aligned(&mut line, id, ID_WIDTH);
    line.append(" ");
    push_left_aligned(&mut line, name, NAME_WIDTH);
    line.append(" ");
    push_left_aligned(&mut line, status, 10);
    line.append(" ");
    push_right_aligned(&mut line, events, 8);
    line.append("  ");
    line.append(updated);
    assert(line@ =~= list_row(id@, name@, status@, events@, updated@));
    line
}

fn summary_text(summary: &WorkflowSummary) -> (line: String)
    requires
        can_truncate(summary.id@, ID_WIDTH as int),
        can_truncate(summary.name@, NAME_WIDTH as int),
    ensures
        line@ == list_line(summary@),
{
    let id = truncate(&summary.id, ID_WIDTH);
    let name = truncate(&summary.name, NAME_WIDTH);
    let mut events = String::new();
    push_decimal(&mut events, summary.event_count as u128);
    assert(events@ =~= decimal(summary@.event_count));
    let updated = format_ts(summary.updated_at_ms);
    row_text(&id, &name, summary.status.as_str(), &events, &updated)
}

/// Whether [`list`] can show the journal: no id or name would have to be cut
/// within a character.
pub fn is_listable(journal: &Journal) -> (yes: bool)
    requires
        journal.wf(),
    ensures
        yes == can_list(journal@),
{
    let summaries: Vec<WorkflowSummary> = match journal.list_workflows() {
        Ok(summaries) => summaries,
        Err(_) => {
            return false;
        },
    };
    let mut i: usize = 0;
    while i < summaries.len()
        invariant
            i <= summaries@.len(),
            summaries@.len() == journal@.len(),
            forall|k: int|
                0 <= k < summaries@.len() ==> (#[trigger] summaries@[k])@ == journal@[k].summary(),
            forall|k: int|
                0 <= k < i ==> can_truncate((#[trigger] journal@[k]).row.id, ID_WIDTH as int)
                    && can_truncate(journal@[k].row.name, NAME_WIDTH as int),
        decreases summaries@.len() - i,
    {
        assert(summaries@[i as int]@ == journal@[i as int].summary());
        if !is_truncatable(&summaries[i].id, ID_WIDTH) {
            return false;
        }
        if !is_truncatable(&summaries[i].name, NAME_WIDTH) {
            return false;
        }
        i = i + 1;
    }
    true
}

/// The list of all workflows.
pub fn list(journal: &Journal) -> (lines: Vec<String>)
    requires
        journal.wf(),
        can_list(journal@),
    ensures
        lines_view(lines@) == list_lines(journal@),
{
    let mut lines: Vec<String> = Vec::new();
    let summaries: Vec<WorkflowSummary> = match journal.list_workflows() {
        Ok(summaries) => summaries,
        Err(_) => Vec::new(),
    };
    if summaries.len() == 0 {
        lines.push("no workflows".to_owned());
        assert(lines_view(lines@) =~= list_lines(journal@));
        return lines;
    }
    lines.push(row_text("id", "name", "status", "events", "updated"));
    let mut rule = String::new();
    push_run(&mut rule, '-', 80);
    assert(rule@ =~= run_of('-', 80));
    lines.push(rule);
    let mut i: usize = 0;
    while i < summaries.len()
        invariant
            i <= summaries@.len(),
            summaries@.len() == journal@.len(),
            can_list(journal@),
            forall|k: int|
                0 <= k < summaries@.len() ==> (#[trigger] summaries@[k])@ == journal@[k].summary(),
            lines@.len() == i + 2,
            lines@[0]@ == list_row("id"@, "name"@, "status"@, "events"@, "updated"@),
            lines@[1]@ == run_of('-', 80),
            forall|k: int| 0 <= k < i ==> (#[trigger] lines@[k + 2])@ == list_line(
                journal@[k].summary(),
            ),
        decreases summaries@.len() - i,
    {
        assert(summaries@[i as int]@ == journal@[i as int].summary());
        let line = summary_text(&summaries[i]);
        lines.push(line);
        i = i + 1;
    }
    proof {
        let expected = list_lines(journal@);
        assert forall|k: int| 0 <= k < lines@.len() implies #[trigger] lines_view(lines@)[k]
            == expected[k] by {
            if k >= 2 {
                assert(lines@[(k - 2) + 2]@ == list_line(journal@[k - 2].summary()));
            }
        }
        assert(lines_view(lines@) =~= expected);
    }
    lines
}

// ---------------------------------------------------------------------------
// One workflow
// ---------------------------------------------------------------------------

/// How many events are of some kind.
pub open spec fn count_events(
    events: Seq<EventView>,
    counts: spec_fn(PayloadView) -> bool,
) -> nat
    decreases events.len(),
{
    if events.len() == 0 {
        0
    } else {
        count_events(events.drop_last(), counts) + (if counts(events.last().payload) {
            1nat
        } else {
            0nat
        })
    }
}

/// Counts the tool calls that completed.
pub open spec fn tool_calls() -> spec_fn(PayloadView) -> bool {
    |payload: PayloadView| payload is ToolCallCompleted
}

/// Counts the model calls that completed.
pub open spec fn llm_calls() -> spec_fn(PayloadView) -> bool {
    |payload: PayloadView| payload is LlmCallCompleted
}

/// Counts the attempts that failed, and the failure of the workflow.
pub open spec fn failures() -> spec_fn(PayloadView) -> bool {
    |payload: PayloadView| payload is ToolCallFailed || payload is WorkflowFailed
}

/// What is shown of a workflow: its row, its key figures, and the kind of its
/// last event where it has one.
pub open spec fn show_lines(log: LogView) -> Seq<Seq<char>> {
    let summary = log.summary();
    let lines = seq![
        "id:         "@ + summary.id,
        "name:       "@ + summary.name,
        "status:     "@ + summary.status.name(),
        "created:    "@ + timestamp(summary.created_at_ms as int),
        "updated:    "@ + timestamp(summary.updated_at_ms as int),
        "events:     "@ + decimal(summary.event_count),
        "tool calls: "@ + decimal(count_events(log.events, tool_calls())),
        "llm calls:  "@ + decimal(count_events(log.events, llm_calls())),
        "failures:   "@ + decimal(count_events(log.events, failures())),
    ];
    if log.events.len() == 0 {
        lines
    } else {
        lines.push("last event: "@ + log.events.last().payload.kind())
    }
}

fn numbered_line(label: &str, n: u64) -> (line: String)
    ensures
        line@ == label@ + decimal(n as nat),
{
    let mut line = label.to_owned();
    push_decimal(&mut line, n as u128);
    line
}

/// The key figures of a log: the tool calls and the model calls that completed,
/// and the failures.
fn key_figures(events: &Vec<Event>) -> (figures: (u64, u64, u64))
    ensures
        figures.0 == count_events(events_view(events@), tool_calls()),
        figures.1 == count_events(events_view(events@), llm_calls()),
        figures.2 == count_events(events_view(events@), failures()),
{
    let ghost log = events_view(events@);
    let mut completed: u64 = 0;
    let mut answered: u64 = 0;
    let mut failed: u64 = 0;
    let mut i: usize = 0;
    assert(log.take(0) =~= Seq::empty());
    while i < events.len()
        invariant
            log == events_view(events@),
            i <= events@.len(),
            completed <= i && answered <= i && failed <= i,
            completed == count_events(log.take(i as int), tool_calls()),
            answered == count_events(log.take(i as int), llm_calls()),
            failed == count_events(log.take(i as int), failures()),
        decreases events@.len() - i,
    {
        proof {
            assert(log.take(i + 1).drop_last() =~= log.take(i as int));
            assert(log.take(i + 1).last() == events@[i as int]@);
        }
        match &events[i].payload {
            EventPayload::ToolCallCompleted { .. } => {
                completed = completed + 1;
            },
            EventPayload::ToolCallFailed { .. } => {
                failed = failed + 1;
            },
            EventPayload::LlmCallCompleted { .. } => {
                answered = answered + 1;
            },
            EventPayload::WorkflowFailed { .. } => {
                failed = failed + 1;
            },
            _ => {},
        }
        i = i + 1;
    }
    assert(log.take(i as int) =~= log);
    (completed, answered, failed)
}

/// What is shown of one workflow, or why it cannot be shown.
pub fn show(journal: &Journal, id: &str) -> (outcome: std::result::Result<Vec<String>, String>)
    requires
        journal.wf(),
    ensures
        match log_of(journal@, id@) {
            Some(log) => outcome matches Ok(lines) && lines_view(lines@) == show_lines(log),
            None => outcome matches Err(reason) && reason@ == "workflow not found: "@ + id@,
        },
{
    let summary: WorkflowSummary = match journal.workflow_summary(id) {
        Ok(Some(summary)) => summary,
        _ => {
            return Err(labelled("workflow not found: ", id));
        },
    };
    let events: Vec<Event> = match journal.read_all(id) {
        Ok(events) => events,
        Err(_) => Vec::new(),
    };
    let ghost log = log_of(journal@, id@)->0;
    assert(events_view(events@) == log.events);
    let figures = key_figures(&events);
    let mut lines: Vec<String> = Vec::new();
    lines.push(labelled("id:         ", &summary.id));
    lines.push(labelled("name:       ", &summary.name));
    lines.push(labelled("status:     ", summary.status.as_str()));
    lines.push(labelled("created:    ", &format_ts(summary.created_at_ms)));
    lines.push(labelled("updated:    ", &format_ts(summary.updated_at_ms)));
    lines.push(numbered_line("events:     ", summary.event_count));
    lines.push(numbered_line("tool calls: ", figures.0));
    lines.push(numbered_line("llm calls:  ", figures.1));
    lines.push(numbered_line("failures:   ", figures.2));
    assert(events@.len() == log.events.len());
    if events.len() > 0 {
        let last: usize = events.len() - 1;
        assert(log.events.last() == events@[last as int]@);
        lines.push(labelled("last event: ", events[last].payload.kind()));
    }
    assert(lines_view(lines@) =~= show_lines(log));
    Ok(lines)
}

// ---------------------------------------------------------------------------
// The events of a workflow
// ---------------------------------------------------------------------------

/// What is shown of the payload of an event.
pub open spec fn payload_text(payload: PayloadView) -> Seq<char> {
    match payload {
        PayloadView::WorkflowStarted { name, .. } => "name="@ + name,
        PayloadView::ToolCallStarted { step_id, attempt, .. } => "step="@ + step_id + " attempt="@
            + decimal(attempt as nat),
        PayloadView::ToolCallCompleted { step_id, duration_ms, .. } => "step="@ + step_id
            + " duration="@ + decimal(duration_ms as nat) + "ms"@,
        PayloadView::ToolCallFailed { step_id, error, duration_ms } => "step="@ + step_id
            + " duration="@ + decimal(duration_ms as nat) + "ms error="@ + error,
        PayloadView::LlmCallCompleted { model, tokens_in, tokens_out, .. } => "model="@ + model
            + " tokens="@ + decimal(tokens_in as nat) + "\u{2192}"@ + decimal(tokens_out as nat),
        PayloadView::StepCompleted { step_id, .. } => "step="@ + step_id,
        PayloadView::WorkflowCompleted { .. } => "completed"@,
        PayloadView::WorkflowFailed { error } => "error="@ + error,
    }
}

/// The line of an event in the timeline.
pub open spec fn event_line(event: EventView) -> Seq<char> {
    right_aligned(signed_decimal(event.sequence), 4) + "  "@ + timestamp(event.created_at_ms as int)
        + "  "@ + left_aligned(event.payload.kind(), 22) + "  "@ + payload_text(event.payload)
}

fn show_payload(payload: &EventPayload) -> (text: String)
    ensures
        text@ == payload_text(payload@),
{
    match payload {
        EventPayload::WorkflowStarted { name, .. } => labelled("name=", name),
        EventPayload::ToolCallStarted { step_id, attempt, .. } => {
            let mut text = labelled("step=", step_id);
            text.append(" attempt=");
            push_decimal(&mut text, *attempt as u128);
            text
        },
        EventPayload::ToolCallCompleted { step_id, duration_ms, .. } => {
            let mut text = labelled("step=", step_id);
            text.append(" duration=");
            push_decimal(&mut text, *duration_ms as u128);
            text.append("ms");
            text
        },
        EventPayload::ToolCallFailed { step_id, error, duration_ms } => {
            let mut text = labelled("step=", step_id);
            text.append(" duration=");
            push_decimal(&mut text, *duration_ms as u128);
            text.append("ms error=");
            text.append(error);
            text
        },
        EventPayload::LlmCallCompleted { model, tokens_in, tokens_out, .. } => {
            let mut text = labelled("model=", model);
            text.append(" tokens=");
            push_decimal(&mut text, *tokens_in as u128);
            text.append("\u{2192}");
            push_decimal(&mut text, *tokens_out as u128);
            text
        },
        EventPayload::StepCompleted { step_id, .. } => labelled("step=", step_id),
        EventPayload::WorkflowCompleted { .. } => "completed".to_owned(),
        EventPayload::WorkflowFailed { error } => labelled("error=", error),
    }
}

fn show_event(event: &Event) -> (line: String)
    ensures
        line@ == event_line(event@),
{
    let mut sequence = String::new();
    push_signed(&mut sequence, event.sequence);
    assert(sequence@ =~= signed_decimal(event@.sequence));
    let created = format_ts(event.created_at_ms);
    let payload = show_payload(&event.payload);
    let mut line = String::new();
    push_right_aligned(&mut line, &sequence, 4);
    line.append("  ");
    line.append(&created);
    line.append("  ");
    push_left_aligned(&mut line, event.payload.kind(), 22);
    line.append("  ");
    line.append(&payload);
    assert(line@ =~= event_line(event@));
    line
}

/// The timeline of one workflow, or why there is none.
pub fn events(journal: &Journal, id: &str) -> (outcome: std::result::Result<Vec<String>, String>)
    requires
        journal.wf(),
    ensures
        if events_of(journal@, id@).len() == 0 {
            outcome matches Err(reason) && reason@ == "no events for workflow "@ + id@
                + " (does it exist?)"@
        } else {
            outcome matches Ok(lines) && lines_view(lines@) == events_of(journal@, id@).map_values(
                |event: EventView| event_line(event),
            )
        },
{
    let log: Vec<Event> = match journal.read_all(id) {
        Ok(log) => log,
        Err(_) => Vec::new(),
    };
    let ghost views = events_of(journal@, id@);
    assert(log@.len() == views.len());
    if log.len() == 0 {
        let mut reason = labelled("no events for workflow ", id);
        reason.append(" (does it exist?)");
        return Err(reason);
    }
    let mut lines: Vec<String> = Vec::new();
    let mut i: usize = 0;
    while i < log.len()
        invariant
            i <= log@.len(),
            views == events_view(log@),
            lines@.len() == i,
            forall|k: int| 0 <= k < i ==> (#[trigger] lines@[k])@ == event_line(views[k]),
        decreases log@.len() - i,
    {
        assert(views[i as int] == log@[i as int]@);
        let line = show_event(&log[i]);
        lines.push(line);
        i = i + 1;
    }
    assert(lines_view(lines@) =~= views.map_values(|event: EventView| event_line(event)));
    Ok(lines)
}

// ---------------------------------------------------------------------------
// Laws
// ---------------------------------------------------------------------------

/// Every workflow of the journal has its line in the list, in the order in
/// which the workflows were added.
pub proof fn law_every_workflow_is_listed(ledger: Seq<LogView>, i: int)
    requires
        0 <= i < ledger.len(),
    ensures
        list_lines(ledger).len() == ledger.len() + 2,
        list_lines(ledger)[i + 2] == list_line(ledger[i].summary()),
{
}

/// The key figures of a log never exceed the number of its events, and no event
/// is counted twice.
pub proof fn law_key_figures_are_disjoint(events: Seq<EventView>)
    ensures
        count_events(events, tool_calls()) + count_events(events, llm_calls()) + count_events(
            events,
            failures(),
        ) <= events.len(),
    decreases events.len(),
{
    if events.len() > 0 {
        law_key_figures_are_disjoint(events.drop_last());
    }
}

/// Appending any event adds one to the figure of its kind, whatever it holds, and
/// to no other; an empty log has no figures.
pub proof fn law_each_event_adds_to_its_figure(events: Seq<EventView>, event: EventView)
    ensures
        count_events(Seq::<EventView>::empty(), tool_calls()) == 0,
        count_events(Seq::<EventView>::empty(), llm_calls()) == 0,
        count_events(Seq::<EventView>::empty(), failures()) == 0,
        count_events(events.push(event), tool_calls()) == count_events(events, tool_calls()) + (
        if event.payload is ToolCallCompleted {
            1int
        } else {
            0
        }),
        count_events(events.push(event), llm_calls()) == count_events(events, llm_calls()) + (
        if event.payload is LlmCallCompleted {
            1int
        } else {
            0
        }),
        count_events(events.push(event), failures()) == count_events(events, failures()) + (
        if event.payload is ToolCallFailed || event.payload is WorkflowFailed {
            1int
        } else {
            0
        }),
{
    assert(events.push(event).drop_last() =~= events);
}

proof fn lemma_count_is_of_a_filter(
    events: Seq<EventView>,
    counts: spec_fn(PayloadView) -> bool,
    keep: spec_fn(EventView) -> bool,
)
    requires
        forall|event: EventView| #[trigger] keep(event) == counts(event.payload),
    ensures
        count_events(events, counts) == events.filter(keep).len(),
    decreases events.len(),
{
    reveal(Seq::filter);
    if events.len() > 0 {
        lemma_count_is_of_a_filter(events.drop_last(), counts, keep);
    }
}

/// What is shown of a workflow, line by line. The figures are the numbers of the
/// events of their kind, and of all of them.
pub proof fn law_show_gives_the_figures_of_the_log(log: LogView)
    ensures
        show_lines(log).len() == (if log.events.len() == 0 {
            9int
        } else {
            10
        }),
        show_lines(log)[0] == "id:         "@ + log.row.id,
        show_lines(log)[1] == "name:       "@ + log.row.name,
        show_lines(log)[2] == "status:     "@ + (match log.row.status {
            WorkflowStatus::Pending => "pending"@,
            WorkflowStatus::Running => "running"@,
            WorkflowStatus::Completed => "completed"@,
            WorkflowStatus::Failed => "failed"@,
        }),
        show_lines(log)[3] == "created:    "@ + timestamp(log.row.created_at_ms as int),
        show_lines(log)[4] == "updated:    "@ + timestamp(log.row.updated_at_ms as int),
        show_lines(log)[5] == "events:     "@ + decimal(log.events.len()),
        show_lines(log)[6] == "tool calls: "@ + decimal(
            log.events.filter(|event: EventView| event.payload is ToolCallCompleted).len(),
        ),
        show_lines(log)[7] == "llm calls:  "@ + decimal(
            log.events.filter(|event: EventView| event.payload is LlmCallCompleted).len(),
        ),
        show_lines(log)[8] == "failures:   "@ + decimal(
            log.events.filter(
                |event: EventView|
                    event.payload is ToolCallFailed || event.payload is WorkflowFailed,
            ).len(),
        ),
        log.events.len() > 0 ==> show_lines(log)[9] == "last event: "@
            + log.events.last().payload.kind(),
{
    lemma_count_is_of_a_filter(
        log.events,
        tool_calls(),
        |event: EventView| event.payload is ToolCallCompleted,
    );
    lemma_count_is_of_a_filter(
        log.events,
        llm_calls(),
        |event: EventView| event.payload is LlmCallCompleted,
    );
    lemma_count_is_of_a_filter(
        log.events,
        failures(),
        |event: EventView| event.payload is ToolCallFailed || event.payload is WorkflowFailed,
    );
}

/// The tool calls, model calls and failures that are shown are the events whose
/// kind is stored under these names.
pub proof fn law_figures_go_by_the_stored_kind(payload: PayloadView)
    ensures
        tool_calls()(payload) <==> payload.kind() == "tool_call_completed"@,
        llm_calls()(payload) <==> payload.kind() == "llm_call_completed"@,
        failures()(payload) <==> payload.kind() == "tool_call_failed"@ || payload.kind()
            == "workflow_failed"@,
{
    reveal_strlit("workflow_started");
    reveal_strlit("tool_call_started");
    reveal_strlit("tool_call_completed");
    reveal_strlit("tool_call_failed");
    reveal_strlit("llm_call_completed");
    reveal_strlit("step_completed");
    reveal_strlit("workflow_completed");
    reveal_strlit("workflow_failed");
    let kind = payload.kind();
    assert("tool_call_completed"@[10] == 'c' && "tool_call_started"@[10] == 's');
    assert("tool_call_failed"@[10] == 'f' && "llm_call_completed"@[0] == 'l');
    assert("workflow_started"@[0] == 'w' && "workflow_completed"@[0] == 'w');
    assert("workflow_failed"@.len() == 15 && "step_completed"@.len() == 14);
}

/// The line of a workflow has its id and name, each cut to its column, its
/// status, the number of its events and when it was updated.
pub proof fn law_list_line_is_made_of_columns(log: LogView)
    ensures
        list_line(log.summary()) == left_aligned(truncated(log.row.id, 28), 28) + " "@
            + left_aligned(truncated(log.row.name, 14), 14) + " "@ + left_aligned(
            match log.row.status {
                WorkflowStatus::Pending => "pending"@,
                WorkflowStatus::Running => "running"@,
                WorkflowStatus::Completed => "completed"@,
                WorkflowStatus::Failed => "failed"@,
            },
            10,
        ) + " "@ + right_aligned(decimal(log.events.len()), 8) + "  "@ + timestamp(
            log.row.updated_at_ms as int,
        ),
{
}

/// The list has a heading, a rule and one line for each workflow, or says that
/// there are none.
pub proof fn law_list_is_headed(ledger: Seq<LogView>)
    ensures
        ledger.len() == 0 ==> list_lines(ledger) == seq!["no workflows"@],
        ledger.len() > 0 ==> {
            &&& list_lines(ledger).len() == ledger.len() + 2
            &&& list_lines(ledger)[0] == left_aligned("id"@, 28) + " "@ + left_aligned("name"@, 14)
                + " "@ + left_aligned("status"@, 10) + " "@ + right_aligned("events"@, 8) + "  "@
                + "updated"@
            &&& list_lines(ledger)[1].len() == 80
            &&& forall|k: int| 0 <= k < 80 ==> #[trigger] list_lines(ledger)[1][k] == '-'
            &&& forall|i: int|
                0 <= i < ledger.len() ==> list_lines(ledger)[i + 2] == list_line(
                    (#[trigger] ledger[i]).summary(),
                )
        },
        can_list(ledger) <==> forall|i: int|
            0 <= i < ledger.len() ==> can_truncate((#[trigger] ledger[i]).row.id, 28)
                && can_truncate(ledger[i].row.name, 14),
{
    law_run_repeats_one_character('-', 80);
}

/// What is shown of an event: its number, when it was recorded, its kind and, by
/// its kind, what it holds.
pub proof fn law_event_line_shows_the_event(event: EventView)
    ensures
        event_line(event) == right_aligned(signed_decimal(event.sequence), 4) + "  "@ + timestamp(
            event.created_at_ms as int,
        ) + "  "@ + left_aligned(event.payload.kind(), 22) + "  "@ + (match event.payload {
            PayloadView::WorkflowStarted { name, .. } => "name="@ + name,
            PayloadView::ToolCallStarted { step_id, attempt, .. } => "step="@ + step_id
                + " attempt="@ + decimal(attempt as nat),
            PayloadView::ToolCallCompleted { step_id, duration_ms, .. } => "step="@ + step_id
                + " duration="@ + decimal(duration_ms as nat) + "ms"@,
            PayloadView::ToolCallFailed { step_id, error, duration_ms } => "step="@ + step_id
                + " duration="@ + decimal(duration_ms as nat) + "ms error="@ + error,
            PayloadView::LlmCallCompleted { model, tokens_in, tokens_out, .. } => "model="@ + model
                + " tokens="@ + decimal(tokens_in as nat) + "\u{2192}"@ + decimal(
                tokens_out as nat,
            ),
            PayloadView::StepCompleted { step_id, .. } => "step="@ + step_id,
            PayloadView::WorkflowCompleted { .. } => "completed"@,
            PayloadView::WorkflowFailed { error } => "error="@ + error,
        }),
{
}

/// Every line that is handed out is taken for its text, in order.
pub proof fn law_lines_view_keeps_every_line(lines: Seq<String>)
    ensures
        lines_view(lines).len() == lines.len(),
        forall|i: int| 0 <= i < lines.len() ==> #[trigger] lines_view(lines)[i] == lines[i]@,
{
}

} // verus!
