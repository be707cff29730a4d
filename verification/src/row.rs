//! The rows that a journal is made of, and the changes that storage has to
//! take over.

use crate::event::{Event, EventView, WorkflowId};
use crate::text::{optional_text, same};
use serde_json::Value;
use vstd::prelude::*;

verus! {

/// Where a workflow stands.
#[derive(Debug, Clone, Copy, PartialEq, Eq, Structural)]
pub enum WorkflowStatus {
    /// Submitted, and waiting to be claimed.
    Pending,
    /// Started or claimed, and not ended.
    Running,
    /// Ended by a `WorkflowCompleted` event.
    Completed,
    /// Ended by a `WorkflowFailed` event.
    Failed,
}

impl WorkflowStatus {
    /// The name under which a status is stored and shown.
    pub open spec fn name(self) -> Seq<char> {
        match self {
            WorkflowStatus::Pending => "pending"@,
            WorkflowStatus::Running => "running"@,
            WorkflowStatus::Completed => "completed"@,
            WorkflowStatus::Failed => "failed"@,
        }
    }

    /// The name under which the status is stored and shown.
    pub fn as_str(self) -> (text: &'static str)
        ensures
            text@ == self.name(),
    {
        match self {
            WorkflowStatus::Pending => "pending",
            WorkflowStatus::Running => "running",
            WorkflowStatus::Completed => "completed",
            WorkflowStatus::Failed => "failed",
        }
    }

    /// The status of a stored name.
    pub fn parse(text: &str) -> (status: Option<WorkflowStatus>)
        ensures
            forall|s: WorkflowStatus| status == Some(s) <==> #[trigger] s.name() == text@,
    {
        proof {
            assert forall|a: WorkflowStatus, b: WorkflowStatus| #[trigger]
                a.name() == #[trigger] b.name() implies a == b by {
                law_status_names_differ(a, b);
            }
            assert(WorkflowStatus::Pending.name() == "pending"@);
            assert(WorkflowStatus::Running.name() == "running"@);
            assert(WorkflowStatus::Completed.name() == "completed"@);
            assert(WorkflowStatus::Failed.name() == "failed"@);
        }
        if same(text, "pending") {
            Some(WorkflowStatus::Pending)
        } else if same(text, "running") {
            Some(WorkflowStatus::Running)
        } else if same(text, "completed") {
            Some(WorkflowStatus::Completed)
        } else if same(text, "failed") {
            Some(WorkflowStatus::Failed)
        } else {
            None
        }
    }
}

/// No two statuses have the same name, so a stored name gives back the status
/// that was stored.
pub proof fn law_status_names_differ(a: WorkflowStatus, b: WorkflowStatus)
    requires
        a.name() == b.name(),
    ensures
        a == b,
{
    reveal_strlit("pending");
    reveal_strlit("running");
    reveal_strlit("completed");
    reveal_strlit("failed");
    assert("pending"@[0] == 'p' && "running"@[0] == 'r');
    assert("completed"@[0] == 'c' && "failed"@[0] == 'f');
    assert(a.name()[0] == b.name()[0]);
}

/// One workflow.
#[derive(Debug)]
pub struct WorkflowRow {
    pub id: WorkflowId,
    pub name: String,
    pub status: WorkflowStatus,
    pub input_hash: String,
    /// The workflow that spawned this one.
    pub parent_id: Option<WorkflowId>,
    /// What the workflow was submitted with; `None` where it was started
    /// directly.
    pub input: Option<Value>,
    pub created_at_ms: i64,
    pub updated_at_ms: i64,
}

/// One workflow with its events, in the order of their sequence numbers.
#[derive(Debug)]
pub struct WorkflowLog {
    pub row: WorkflowRow,
    pub events: Vec<Event>,
}

/// One statement that storage has to carry out.
#[derive(Debug)]
pub enum Change {
    /// Add a workflow without events.
    InsertWorkflow(WorkflowRow),
    /// Add an event to the end of the log of its workflow.
    InsertEvent(Event),
    /// Set a workflow's status and the time of its last update.
    UpdateWorkflow { id: WorkflowId, status: WorkflowStatus, updated_at_ms: i64 },
}

/// What a [`WorkflowRow`] holds.
pub struct RowView {
    pub id: Seq<char>,
    pub name: Seq<char>,
    pub status: WorkflowStatus,
    pub input_hash: Seq<char>,
    pub parent_id: Option<Seq<char>>,
    pub input: Option<Value>,
    pub created_at_ms: i64,
    pub updated_at_ms: i64,
}

/// What a [`WorkflowLog`] holds.
pub struct LogView {
    pub row: RowView,
    pub events: Seq<EventView>,
}

/// What a [`Change`] holds.
pub enum ChangeView {
    InsertWorkflow(RowView),
    InsertEvent(EventView),
    UpdateWorkflow { id: Seq<char>, status: WorkflowStatus, updated_at_ms: i64 },
}

/// What a vector of events holds.
pub open spec fn events_view(events: Seq<Event>) -> Seq<EventView> {
    Seq::new(events.len(), |i: int| events[i]@)
}

/// What a vector of logs holds.
pub open spec fn logs_view(logs: Seq<WorkflowLog>) -> Seq<LogView> {
    Seq::new(logs.len(), |i: int| logs[i]@)
}

/// What a vector of changes holds.
pub open spec fn changes_view(changes: Seq<Change>) -> Seq<ChangeView> {
    Seq::new(changes.len(), |i: int| changes[i]@)
}

impl View for WorkflowRow {
    type V = RowView;

    open spec fn view(&self) -> RowView {
        RowView {
            id: self.id@,
            name: self.name@,
            status: self.status,
            input_hash: self.input_hash@,
            parent_id: optional_text(self.parent_id),
            input: self.input,
            created_at_ms: self.created_at_ms,
            updated_at_ms: self.updated_at_ms,
        }
    }
}

impl View for WorkflowLog {
    type V = LogView;

    open spec fn view(&self) -> LogView {
        LogView { row: self.row@, events: events_view(self.events@) }
    }
}

impl View for Change {
    type V = ChangeView;

    open spec fn view(&self) -> ChangeView {
        match self {
            Change::InsertWorkflow(row) => ChangeView::InsertWorkflow(row@),
            Change::InsertEvent(event) => ChangeView::InsertEvent(event@),
            Change::UpdateWorkflow { id, status, updated_at_ms } => ChangeView::UpdateWorkflow {
                id: id@,
                status: *status,
                updated_at_ms: *updated_at_ms,
            },
        }
    }
}

impl Clone for WorkflowRow {
    fn clone(&self) -> (copy: Self)
        ensures
            copy == *self,
    {
        WorkflowRow {
            id: self.id.clone(),
            name: self.name.clone(),
            status: self.status,
            input_hash: self.input_hash.clone(),
            parent_id: match &self.parent_id {
                Some(id) => Some(id.clone()),
                None => None,
            },
            input: match &self.input {
                Some(value) => Some(value.clone()),
                None => None,
            },
            created_at_ms: self.created_at_ms,
            updated_at_ms: self.updated_at_ms,
        }
    }
}

/// A workflow handed out to a worker.
#[derive(Debug)]
pub struct ClaimedWorkflow {
    pub id: WorkflowId,
    pub name: String,
    /// What the workflow was submitted with; `None` where it was started
    /// directly.
    pub input: Option<Value>,
}

impl ClaimedWorkflow {
    /// Whether this hands out the workflow of a row.
    pub open spec fn is_for(&self, row: RowView) -> bool {
        &&& self.id@ == row.id
        &&& self.name@ == row.name
        &&& self.input == row.input
    }
}

/// A workflow in short.
#[derive(Debug)]
pub struct WorkflowSummary {
    pub id: WorkflowId,
    pub name: String,
    pub status: WorkflowStatus,
    pub event_count: u64,
    pub created_at_ms: i64,
    pub updated_at_ms: i64,
}

/// What a [`WorkflowSummary`] holds.
pub struct SummaryView {
    pub id: Seq<char>,
    pub name: Seq<char>,
    pub status: WorkflowStatus,
    pub event_count: nat,
    pub created_at_ms: i64,
    pub updated_at_ms: i64,
}

impl View for WorkflowSummary {
    type V = SummaryView;

    open spec fn view(&self) -> SummaryView {
        SummaryView {
            id: self.id@,
            name: self.name@,
            status: self.status,
            event_count: self.event_count as nat,
            created_at_ms: self.created_at_ms,
            updated_at_ms: self.updated_at_ms,
        }
    }
}

impl LogView {
    /// The workflow in short.
    pub open spec fn summary(self) -> SummaryView {
        SummaryView {
            id: self.row.id,
            name: self.row.name,
            status: self.row.status,
            event_count: self.events.len(),
            created_at_ms: self.row.created_at_ms,
            updated_at_ms: self.row.updated_at_ms,
        }
    }
}

impl WorkflowLog {
    /// The workflow in short.
    pub fn summary(&self) -> (summary: WorkflowSummary)
        ensures
            summary@ == self@.summary(),
    {
        WorkflowSummary {
            id: self.row.id.clone(),
            name: self.row.name.clone(),
            status: self.row.status,
            event_count: self.events.len() as u64,
            created_at_ms: self.row.created_at_ms,
            updated_at_ms: self.row.updated_at_ms,
        }
    }
}

/// The names under which the statuses are stored and shown.
pub proof fn law_status_names()
    ensures
        WorkflowStatus::Pending.name() == "pending"@,
        WorkflowStatus::Running.name() == "running"@,
        WorkflowStatus::Completed.name() == "completed"@,
        WorkflowStatus::Failed.name() == "failed"@,
{
}

/// What a row, a log and a summary are taken for is all that they hold.
pub proof fn law_row_views_keep_every_field(
    row: WorkflowRow,
    log: WorkflowLog,
    summary: WorkflowSummary,
)
    ensures
        row@.id == row.id@,
        row@.name == row.name@,
        row@.status == row.status,
        row@.input_hash == row.input_hash@,
        match row.parent_id {
            Some(id) => row@.parent_id == Some(id@),
            None => row@.parent_id is None,
        },
        row@.input == row.input,
        row@.created_at_ms == row.created_at_ms,
        row@.updated_at_ms == row.updated_at_ms,
        log@.row == log.row@,
        log@.events.len() == log.events@.len(),
        forall|i: int| 0 <= i < log.events@.len() ==> #[trigger] log@.events[i] == log.events@[i]@,
        summary@.id == summary.id@,
        summary@.name == summary.name@,
        summary@.status == summary.status,
        summary@.event_count == summary.event_count,
        summary@.created_at_ms == summary.created_at_ms,
        summary@.updated_at_ms == summary.updated_at_ms,
{
}

/// What a change is taken for is all that it holds.
pub proof fn law_change_view_keeps_every_field(change: Change)
    ensures
        match change {
            Change::InsertWorkflow(row) => change@ == ChangeView::InsertWorkflow(row@),
            Change::InsertEvent(event) => change@ == ChangeView::InsertEvent(event@),
            Change::UpdateWorkflow { id, status, updated_at_ms } => change@
                == (ChangeView::UpdateWorkflow { id: id@, status, updated_at_ms }),
        },
{
}

/// Lists of events, logs and changes are taken for all that they hold, in order.
pub proof fn law_list_views_keep_every_item(
    events: Seq<Event>,
    logs: Seq<WorkflowLog>,
    changes: Seq<Change>,
)
    ensures
        events_view(events).len() == events.len(),
        forall|i: int| 0 <= i < events.len() ==> #[trigger] events_view(events)[i] == events[i]@,
        logs_view(logs).len() == logs.len(),
        forall|i: int| 0 <= i < logs.len() ==> #[trigger] logs_view(logs)[i] == logs[i]@,
        changes_view(changes).len() == changes.len(),
        forall|i: int|
            0 <= i < changes.len() ==> #[trigger] changes_view(changes)[i] == changes[i]@,
{
}

/// A summary has the row of its workflow and counts all of its events; what is
/// handed to a worker has the row's id, name and input.
pub proof fn law_summary_has_the_row_and_counts_every_event(log: LogView, claimed: ClaimedWorkflow)
    ensures
        log.summary().id == log.row.id,
        log.summary().name == log.row.name,
        log.summary().status == log.row.status,
        log.summary().event_count == log.events.len(),
        log.summary().created_at_ms == log.row.created_at_ms,
        log.summary().updated_at_ms == log.row.updated_at_ms,
        claimed.is_for(log.row) <==> {
            &&& claimed.id@ == log.row.id
            &&& claimed.name@ == log.row.name
            &&& claimed.input == log.row.input
        },
{
}

} // verus!
