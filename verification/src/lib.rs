//! Durable workflow runtime for LLM agents.
//!
//! A workflow goes through its [`Context`] for every tool and model call. Each
//! call is journaled; when the workflow is run again, what has completed is
//! answered from the journal. The modules:
//!
//! - [`event`], [`row`]: what a journal is made of.
//! - [`ledger`]: the mathematical journal, its operations and their laws.
//! - [`journal`]: the journal itself.
//! - [`session`]: the mathematical context of a workflow, and the laws of
//!   replay, retries and budgets.
//! - [`context`]: the context itself.
//! - [`scheduler`]: the queue of workflows, and how it is drained.
//! - [`budget`], [`cancel`], [`retry`]: caps, cancellation and retry policies.
//! - [`llm`], [`provider`], [`anthropic`], [`mock`]: language models.
//! - [`inspect`]: what the command line shows of a journal.
//! - [`clock`], [`error`], [`json`], [`text`]: time, errors and text.

pub mod anthropic;
pub mod budget;
pub mod cancel;
pub mod clock;
pub mod context;
pub mod error;
pub mod event;
pub mod inspect;
pub mod journal;
pub mod json;
pub mod ledger;
pub mod llm;
pub mod mock;
pub mod provider;
pub mod retry;
pub mod row;
pub mod scheduler;
pub mod session;
pub mod text;

pub use anthropic::AnthropicProvider;
pub use budget::{Budget, BudgetUsage};
pub use cancel::CancelToken;
pub use context::{AttemptEnd, AttemptResult, CallStart, Context, LlmStart, PendingCall};
pub use error::{Error, Result};
pub use event::{Event, EventPayload, WorkflowId};
pub use journal::Journal;
pub use llm::{LlmMessage, LlmRequest, LlmResponse, LlmRole};
pub use mock::MockProvider;
pub use provider::LlmProvider;
pub use retry::RetryPolicy;
pub use row::{Change, ClaimedWorkflow, WorkflowLog, WorkflowRow, WorkflowStatus, WorkflowSummary};
pub use scheduler::{Action, Drain, RunStats, Scheduler, TaskEnd};
