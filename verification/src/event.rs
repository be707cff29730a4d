//! The event model: what a workflow's log is made of.

use serde_json::Value;
use vstd::prelude::*;

verus! {

/// Declares `serde_json::Value`, a JSON value. The runtime carries such values
/// from tools to the journal and back, and never looks inside.
#[verifier::external_type_specification]
#[verifier::external_body]
pub struct ExValue(serde_json::Value);

/// Specifies the derived `clone` of `serde_json::Value`: the copy is the same
/// JSON value.
pub assume_specification[ <serde_json::Value as Clone>::clone ](value: &serde_json::Value) -> (copy:
    serde_json::Value)
    ensures
        copy == *value,
;

/// Names a workflow; unique in a journal.
pub type WorkflowId = String;

/// One row of a workflow's log.
#[derive(Debug)]
pub struct Event {
    /// Position in the log of its workflow.
    pub sequence: i64,
    pub workflow_id: WorkflowId,
    pub created_at_ms: i64,
    pub payload: EventPayload,
}

/// What happened.
#[derive(Debug)]
pub enum EventPayload {
    WorkflowStarted { name: String, input_hash: String },
    ToolCallStarted { step_id: String, name: String, input_hash: String, attempt: u32 },
    ToolCallCompleted { step_id: String, output: Value, duration_ms: u64 },
    ToolCallFailed { step_id: String, error: String, duration_ms: u64 },
    LlmCallCompleted {
        step_id: String,
        model: String,
        prompt_hash: String,
        response: String,
        tokens_in: u32,
        tokens_out: u32,
    },
    StepCompleted { step_id: String, name: String, output: Value },
    WorkflowCompleted { output: Value },
    WorkflowFailed { error: String },
}

/// What an [`Event`] holds.
pub struct EventView {
    pub sequence: int,
    pub workflow_id: Seq<char>,
    pub created_at_ms: i64,
    pub payload: PayloadView,
}

/// What an [`EventPayload`] holds.
pub enum PayloadView {
    WorkflowStarted { name: Seq<char>, input_hash: Seq<char> },
    ToolCallStarted {
        step_id: Seq<char>,
        name: Seq<char>,
        input_hash: Seq<char>,
        attempt: u32,
    },
    ToolCallCompleted { step_id: Seq<char>, output: Value, duration_ms: u64 },
    ToolCallFailed { step_id: Seq<char>, error: Seq<char>, duration_ms: u64 },
    LlmCallCompleted {
        step_id: Seq<char>,
        model: Seq<char>,
        prompt_hash: Seq<char>,
        response: Seq<char>,
        tokens_in: u32,
        tokens_out: u32,
    },
    StepCompleted { step_id: Seq<char>, name: Seq<char>, output: Value },
    WorkflowCompleted { output: Value },
    WorkflowFailed { error: Seq<char> },
}

impl View for Event {
    type V = EventView;

    open spec fn view(&self) -> EventView {
        EventView {
            sequence: self.sequence as int,
            workflow_id: self.workflow_id@,
            created_at_ms: self.created_at_ms,
            payload: self.payload@,
        }
    }
}

impl View for EventPayload {
    type V = PayloadView;

    open spec fn view(&self) -> PayloadView {
        match self {
            EventPayload::WorkflowStarted { name, input_hash } => PayloadView::WorkflowStarted {
                name: name@,
                input_hash: input_hash@,
            },
            EventPayload::ToolCallStarted { step_id, name, input_hash, attempt } =>
                PayloadView::ToolCallStarted {
                step_id: step_id@,
                name: name@,
                input_hash: input_hash@,
                attempt: *attempt,
            },
            EventPayload::ToolCallCompleted { step_id, output, duration_ms } =>
                PayloadView::ToolCallCompleted {
                step_id: step_id@,
                output: *output,
                duration_ms: *duration_ms,
            },
            EventPayload::ToolCallFailed { step_id, error, duration_ms } =>
                PayloadView::ToolCallFailed {
                step_id: step_id@,
                error: error@,
                duration_ms: *duration_ms,
            },
            EventPayload::LlmCallCompleted {
                step_id,
                model,
                prompt_hash,
                response,
                tokens_in,
                tokens_out,
            } => PayloadView::LlmCallCompleted {
                step_id: step_id@,
                model: model@,
                prompt_hash: prompt_hash@,
                response: response@,
                tokens_in: *tokens_in,
                tokens_out: *tokens_out,
            },
            EventPayload::StepCompleted { step_id, name, output } => PayloadView::StepCompleted {
                step_id: step_id@,
                name: name@,
                output: *output,
            },
            EventPayload::WorkflowCompleted { output } => PayloadView::WorkflowCompleted {
                output: *output,
            },
            EventPayload::WorkflowFailed { error } => PayloadView::WorkflowFailed {
                error: error@,
            },
        }
    }
}

impl PayloadView {
    /// The name under which events of this variant are stored and listed.
    pub open spec fn kind(self) -> Seq<char> {
        match self {
            PayloadView::WorkflowStarted { .. } => "workflow_started"@,
            PayloadView::ToolCallStarted { .. } => "tool_call_started"@,
            PayloadView::ToolCallCompleted { .. } => "tool_call_completed"@,
            PayloadView::ToolCallFailed { .. } => "tool_call_failed"@,
            PayloadView::LlmCallCompleted { .. } => "llm_call_completed"@,
            PayloadView::StepCompleted { .. } => "step_completed"@,
            PayloadView::WorkflowCompleted { .. } => "workflow_completed"@,
            PayloadView::WorkflowFailed { .. } => "workflow_failed"@,
        }
    }
}

impl EventPayload {
    /// The name under which events of this variant are stored and listed.
    pub fn kind(&self) -> (name: &'static str)
        ensures
            name@ == self@.kind(),
    {
        match self {
            EventPayload::WorkflowStarted { .. } => "workflow_started",
            EventPayload::ToolCallStarted { .. } => "tool_call_started",
            EventPayload::ToolCallCompleted { .. } => "tool_call_completed",
            EventPayload::ToolCallFailed { .. } => "tool_call_failed",
            EventPayload::LlmCallCompleted { .. } => "llm_call_completed",
            EventPayload::StepCompleted { .. } => "step_completed",
            EventPayload::WorkflowCompleted { .. } => "workflow_completed",
            EventPayload::WorkflowFailed { .. } => "workflow_failed",
        }
    }
}

impl Clone for EventPayload {
    fn clone(&self) -> (copy: Self)
        ensures
            copy == *self,
    {
        match self {
            EventPayload::WorkflowStarted { name, input_hash } => EventPayload::WorkflowStarted {
                name: name.clone(),
                input_hash: input_hash.clone(),
            },
            EventPayload::ToolCallStarted { step_id, name, input_hash, attempt } =>
                EventPayload::ToolCallStarted {
                step_id: step_id.clone(),
                name: name.clone(),
                input_hash: input_hash.clone(),
                attempt: *attempt,
            },
            EventPayload::ToolCallCompleted { step_id, output, duration_ms } =>
                EventPayload::ToolCallCompleted {
                step_id: step_id.clone(),
                output: output.clone(),
                duration_ms: *duration_ms,
            },
            EventPayload::ToolCallFailed { step_id, error, duration_ms } =>
                EventPayload::ToolCallFailed {
                step_id: step_id.clone(),
                error: error.clone(),
                duration_ms: *duration_ms,
            },
            EventPayload::LlmCallCompleted {
                step_id,
                model,
                prompt_hash,
                response,
                tokens_in,
                tokens_out,
            } => EventPayload::LlmCallCompleted {
                step_id: step_id.clone(),
                model: model.clone(),
                prompt_hash: prompt_hash.clone(),
                response: response.clone(),
                tokens_in: *tokens_in,
                tokens_out: *tokens_out,
            },
            EventPayload::StepCompleted { step_id, name, output } => EventPayload::StepCompleted {
                step_id: step_id.clone(),
                name: name.clone(),
                output: output.clone(),
            },
            EventPayload::WorkflowCompleted { output } => EventPayload::WorkflowCompleted {
                output: output.clone(),
            },
            EventPayload::WorkflowFailed { error } => EventPayload::WorkflowFailed {
                error: error.clone(),
            },
        }
    }
}

impl Clone for Event {
    fn clone(&self) -> (copy: Self)
        ensures
            copy == *self,
    {
        Event {
            sequence: self.sequence,
            workflow_id: self.workflow_id.clone(),
            created_at_ms: self.created_at_ms,
            payload: self.payload.clone(),
        }
    }
}

/// The names under which the events are stored and listed, by what happened and
/// nothing else.
pub proof fn law_kind_is_the_name_of_what_happened(payload: PayloadView)
    ensures
        payload is WorkflowStarted ==> payload.kind() == "workflow_started"@,
        payload is ToolCallStarted ==> payload.kind() == "tool_call_started"@,
        payload is ToolCallCompleted ==> payload.kind() == "tool_call_completed"@,
        payload is ToolCallFailed ==> payload.kind() == "tool_call_failed"@,
        payload is LlmCallCompleted ==> payload.kind() == "llm_call_completed"@,
        payload is StepCompleted ==> payload.kind() == "step_completed"@,
        payload is WorkflowCompleted ==> payload.kind() == "workflow_completed"@,
        payload is WorkflowFailed ==> payload.kind() == "workflow_failed"@,
{
}

/// What an event is taken for is all that it holds.
pub proof fn law_event_view_keeps_every_field(event: Event)
    ensures
        event@.sequence == event.sequence,
        event@.workflow_id == event.workflow_id@,
        event@.created_at_ms == event.created_at_ms,
        event@.payload == event.payload@,
        match event.payload {
            EventPayload::WorkflowStarted { name, input_hash } => event@.payload
                == (PayloadView::WorkflowStarted { name: name@, input_hash: input_hash@ }),
            EventPayload::ToolCallStarted { step_id, name, input_hash, attempt } => event@.payload
                == (PayloadView::ToolCallStarted {
                step_id: step_id@,
                name: name@,
                input_hash: input_hash@,
                attempt,
            }),
            EventPayload::ToolCallCompleted { step_id, output, duration_ms } => event@.payload
                == (PayloadView::ToolCallCompleted { step_id: step_id@, output, duration_ms }),
            EventPayload::ToolCallFailed { step_id, error, duration_ms } => event@.payload
                == (PayloadView::ToolCallFailed {
                step_id: step_id@,
                error: error@,
                duration_ms,
            }),
            EventPayload::LlmCallCompleted {
                step_id,
                model,
                prompt_hash,
                response,
                tokens_in,
                tokens_out,
            } => event@.payload == (PayloadView::LlmCallCompleted {
                step_id: step_id@,
                model: model@,
                prompt_hash: prompt_hash@,
                response: response@,
                tokens_in,
                tokens_out,
            }),
            EventPayload::StepCompleted { step_id, name, output } => event@.payload
                == (PayloadView::StepCompleted { step_id: step_id@, name: name@, output }),
            EventPayload::WorkflowCompleted { output } => event@.payload
                == (PayloadView::WorkflowCompleted { output }),
            EventPayload::WorkflowFailed { error } => event@.payload
                == (PayloadView::WorkflowFailed { error: error@ }),
        },
{
}

} // verus!
