//! The journal: an append-only event log per workflow.
//!
//! A [`Journal`] holds the rows that storage holds, and the changes that
//! storage has not taken over yet. Reading and writing the rows is left to the
//! storage layer: it opens a journal over what it has read, performs an
//! operation, and carries out the changes that [`Journal::take_changes`] hands
//! it, in one transaction.

use crate::clock::{can_be_now, now_ms};
use crate::error::{Error, ErrorView, Result};
use crate::event::{Event, EventPayload};
use crate::ledger::{
    any_pending, appended, can_append, count, events_of, final_output, first_match, first_pending,
    holds, law_operations_keep_the_ledger_well_formed, ledger_ok, lemma_claim_slot,
    lemma_count_of_push, lemma_first_match_of_prefix, lemma_first_pending_unique,
    lemma_replay_of_append, lemma_replay_of_open, lemma_replay_of_status, lemma_slot, llm_answer,
    log_of, log_ok, next, next_event, next_sequence, opened, ordered, recovered_upto, replay, slot,
    tool_output, with_status, Op,
};
use crate::llm::LlmResponse;
use crate::row::{
    changes_view, events_view, logs_view, Change, ChangeView, ClaimedWorkflow, LogView, RowView,
    WorkflowLog, WorkflowRow, WorkflowStatus, WorkflowSummary,
};
use crate::text::same;
use serde_json::Value;
use vstd::prelude::*;

verus! {

/// An append-only event log per workflow.
pub struct Journal {
    logs: Vec<WorkflowLog>,
    unsaved: Vec<Change>,
    saved: Ghost<Seq<LogView>>,
}

impl View for Journal {
    type V = Seq<LogView>;

    closed spec fn view(&self) -> Seq<LogView> {
        logs_view(self.logs@)
    }
}

impl Journal {
    /// The rows that storage holds.
    pub closed spec fn saved(&self) -> Seq<LogView> {
        self.saved@
    }

    /// The changes that storage has not taken over yet.
    pub closed spec fn unsaved(&self) -> Seq<ChangeView> {
        changes_view(self.unsaved@)
    }

    /// The journal is a well-formed ledger, and it is what storage holds once
    /// it has carried out the unsaved changes.
    pub open spec fn wf(&self) -> bool {
        &&& ledger_ok(self@)
        &&& replay(self.saved(), self.unsaved()) == self@
    }

    /// The place of a workflow.
    fn find(&self, workflow_id: &str) -> (place: Option<usize>)
        requires
            self.wf(),
        ensures
            match place {
                Some(i) => {
                    &&& i < self.logs@.len()
                    &&& holds(self@, workflow_id@)
                    &&& slot(self@, workflow_id@) == i
                    &&& self.logs@[i as int].row.id@ == workflow_id@
                },
                None => !holds(self@, workflow_id@),
            },
    {
        let mut i: usize = 0;
        while i < self.logs.len()
            invariant
                self.wf(),
                i <= self.logs@.len(),
                forall|k: int| 0 <= k < i ==> (#[trigger] self@[k]).row.id != workflow_id@,
            decreases self.logs@.len() - i,
        {
            if same(&self.logs[i].row.id, workflow_id) {
                proof {
                    assert(self@[i as int].row.id == workflow_id@);
                    lemma_slot(self@, workflow_id@, i as int);
                }
                return Some(i);
            }
            assert(self@[i as int].row.id != workflow_id@);
            i = i + 1;
        }
        None
    }

    /// Appends an event at the given time, and returns its sequence number.
    pub fn append_at(&mut self, workflow_id: &str, payload: &EventPayload, now: i64) -> (outcome:
        Result<i64>)
        requires
            old(self).wf(),
        ensures
            final(self).wf(),
            final(self).saved() == old(self).saved(),
            final(self)@ == next(
                old(self)@,
                Op::Append { id: workflow_id@, payload: payload@, now },
            ),
            append_outcome(old(self)@, workflow_id@, outcome),
    {
        let i: usize = match self.find(workflow_id) {
            Some(i) => i,
            None => {
                return Err(Error::Journal("FOREIGN KEY constraint failed".to_owned()));
            },
        };
        let ghost before = self@;
        let ghost queued = self.unsaved();
        let count: usize = self.logs[i].events.len();
        let sequence: i64 = if count == 0 {
            1
        } else {
            let highest: i64 = self.logs[i].events[count - 1].sequence;
            if highest == i64::MAX {
                assert(before[i as int].events.last().sequence == i64::MAX);
                return Err(Error::Journal("sequence numbers are exhausted".to_owned()));
            }
            highest + 1
        };
        assert(before[i as int].events.len() == count);
        assert(sequence == next_sequence(before[i as int].events));
        let status: WorkflowStatus = match payload {
            EventPayload::WorkflowCompleted { .. } => WorkflowStatus::Completed,
            EventPayload::WorkflowFailed { .. } => WorkflowStatus::Failed,
            _ => self.logs[i].row.status,
        };
        let event = Event {
            sequence,
            workflow_id: workflow_id.to_owned(),
            created_at_ms: now,
            payload: payload.clone(),
        };
        self.unsaved.push(Change::InsertEvent(event.clone()));
        self.unsaved.push(
            Change::UpdateWorkflow { id: workflow_id.to_owned(), status, updated_at_ms: now },
        );
        self.logs[i].events.push(event);
        self.logs[i].row.status = status;
        self.logs[i].row.updated_at_ms = now;
        proof {
            let op = Op::Append { id: workflow_id@, payload: payload@, now };
            let log = before[i as int];
            assert(event@ == next_event(log, payload@, now));
            assert(self.logs@[i as int]@.events =~= log.events.push(event@));
            assert(self.logs@[i as int]@ == appended(log, payload@, now));
            assert(self@ =~= next(before, op));
            law_operations_keep_the_ledger_well_formed(before, op);
            lemma_replay_of_append(self.saved(), queued, before, workflow_id@, payload@, now);
            assert(self.unsaved() =~= queued.push(ChangeView::InsertEvent(event@)).push(
                ChangeView::UpdateWorkflow { id: workflow_id@, status, updated_at_ms: now },
            ));
        }
        Ok(sequence)
    }

    /// Appends an event, and returns its sequence number.
    pub fn append(&mut self, workflow_id: &str, payload: &EventPayload) -> (outcome: Result<i64>)
        requires
            old(self).wf(),
        ensures
            final(self).wf(),
            final(self).saved() == old(self).saved(),
            exists|now: i64|
                can_be_now(now) && final(self)@ == #[trigger] next(
                    old(self)@,
                    Op::Append { id: workflow_id@, payload: payload@, now },
                ),
            append_outcome(old(self)@, workflow_id@, outcome),
    {
        let now: i64 = now_ms();
        self.append_at(workflow_id, payload, now)
    }

    /// Adds a workflow and its `WorkflowStarted` event.
    fn open_workflow(&mut self, row: WorkflowRow) -> (outcome: Result<()>)
        requires
            old(self).wf(),
        ensures
            final(self).wf(),
            final(self).saved() == old(self).saved(),
            final(self)@ == next(old(self)@, Op::Open(row@)),
            open_outcome(old(self)@, row.id@, outcome),
    {
        match self.find(&row.id) {
            Some(_) => {
                return Err(Error::Journal("UNIQUE constraint failed: workflows.id".to_owned()));
            },
            None => {},
        }
        let ghost before = self@;
        let ghost queued = self.unsaved();
        let event = Event {
            sequence: 1,
            workflow_id: row.id.clone(),
            created_at_ms: row.created_at_ms,
            payload: EventPayload::WorkflowStarted {
                name: row.name.clone(),
                input_hash: row.input_hash.clone(),
            },
        };
        self.unsaved.push(Change::InsertWorkflow(row.clone()));
        self.unsaved.push(Change::InsertEvent(event.clone()));
        let mut events: Vec<Event> = Vec::new();
        events.push(event);
        self.logs.push(WorkflowLog { row, events });
        proof {
            let op = Op::Open(row@);
            assert(events_view(events@) =~= opened(row@).events);
            assert(self@ =~= next(before, op));
            law_operations_keep_the_ledger_well_formed(before, op);
            lemma_replay_of_open(self.saved(), queued, before, row@);
            assert(self.unsaved() =~= queued.push(ChangeView::InsertWorkflow(row@)).push(
                ChangeView::InsertEvent(opened(row@).events[0]),
            ));
        }
        Ok(())
    }

    /// Adds a running workflow at the given time.
    pub fn start_workflow_at(
        &mut self,
        workflow_id: &str,
        name: &str,
        input_hash: &str,
        parent_id: Option<&str>,
        now: i64,
    ) -> (outcome: Result<()>)
        requires
            old(self).wf(),
        ensures
            final(self).wf(),
            final(self).saved() == old(self).saved(),
            final(self)@ == next(
                old(self)@,
                Op::Open(started_row(workflow_id@, name@, input_hash@, parent_text(parent_id), now)),
            ),
            open_outcome(old(self)@, workflow_id@, outcome),
    {
        let parent: Option<String> = match parent_id {
            Some(id) => Some(id.to_owned()),
            None => None,
        };
        let row = WorkflowRow {
            id: workflow_id.to_owned(),
            name: name.to_owned(),
            status: WorkflowStatus::Running,
            input_hash: input_hash.to_owned(),
            parent_id: parent,
            input: None,
            created_at_ms: now,
            updated_at_ms: now,
        };
        self.open_workflow(row)
    }

    /// Adds a running workflow.
    pub fn start_workflow(
        &mut self,
        workflow_id: &str,
        name: &str,
        input_hash: &str,
        parent_id: Option<&str>,
    ) -> (outcome: Result<()>)
        requires
            old(self).wf(),
        ensures
            final(self).wf(),
            final(self).saved() == old(self).saved(),
            exists|now: i64|
                can_be_now(now) && final(self)@ == next(
                    old(self)@,
                    Op::Open(
                        #[trigger] started_row(
                            workflow_id@,
                            name@,
                            input_hash@,
                            parent_text(parent_id),
                            now,
                        ),
                    ),
                ),
            open_outcome(old(self)@, workflow_id@, outcome),
    {
        let now: i64 = now_ms();
        self.start_workflow_at(workflow_id, name, input_hash, parent_id, now)
    }

    /// Adds a workflow to the queue at the given time.
    pub fn submit_pending_at(&mut self, name: &str, workflow_id: &str, input: &Value, now: i64) -> (
    outcome: Result<()>)
        requires
            old(self).wf(),
        ensures
            final(self).wf(),
            final(self).saved() == old(self).saved(),
            final(self)@ == next(
                old(self)@,
                Op::Open(submitted_row(workflow_id@, name@, *input, now)),
            ),
            open_outcome(old(self)@, workflow_id@, outcome),
    {
        let row = WorkflowRow {
            id: workflow_id.to_owned(),
            name: name.to_owned(),
            status: WorkflowStatus::Pending,
            input_hash: String::new(),
            parent_id: None,
            input: Some(input.clone()),
            created_at_ms: now,
            updated_at_ms: now,
        };
        assert(row@ == submitted_row(workflow_id@, name@, *input, now));
        self.open_workflow(row)
    }

    /// Adds a workflow to the queue.
    pub fn submit_pending(&mut self, name: &str, workflow_id: &str, input: &Value) -> (outcome:
        Result<()>)
        requires
            old(self).wf(),
        ensures
            final(self).wf(),
            final(self).saved() == old(self).saved(),
            exists|now: i64|
                can_be_now(now) && final(self)@ == next(
                    old(self)@,
                    Op::Open(#[trigger] submitted_row(workflow_id@, name@, *input, now)),
                ),
            open_outcome(old(self)@, workflow_id@, outcome),
    {
        let now: i64 = now_ms();
        self.submit_pending_at(name, workflow_id, input, now)
    }

    /// Hands out, at the given time, the first workflow that waits.
    pub fn claim_next_pending_at(&mut self, now: i64) -> (outcome: Result<Option<ClaimedWorkflow>>)
        requires
            old(self).wf(),
        ensures
            final(self).wf(),
            final(self).saved() == old(self).saved(),
            final(self)@ == next(old(self)@, Op::Claim { now }),
            claim_outcome(old(self)@, outcome),
    {
        let ghost before = self@;
        let ghost queued = self.unsaved();
        let mut i: usize = 0;
        while i < self.logs.len()
            invariant
                self.wf(),
                self@ == before,
                i <= self.logs@.len(),
                forall|k: int|
                    0 <= k < i ==> (#[trigger] before[k]).row.status != WorkflowStatus::Pending,
            ensures
                i < self.logs@.len() ==> before[i as int].row.status == WorkflowStatus::Pending,
            decreases self.logs@.len() - i,
        {
            assert(before[i as int].row.status == self.logs@[i as int].row.status);
            if self.logs[i].row.status == WorkflowStatus::Pending {
                break;
            }
            i = i + 1;
        }
        if i == self.logs.len() {
            assert(!any_pending(before));
            return Ok(None);
        }
        proof {
            assert(first_pending(before, i as int));
            lemma_claim_slot(before);
            lemma_first_pending_unique(before, i as int, choose|k: int| first_pending(before, k));
        }
        let claimed = ClaimedWorkflow {
            id: self.logs[i].row.id.clone(),
            name: self.logs[i].row.name.clone(),
            input: match &self.logs[i].row.input {
                Some(value) => Some(value.clone()),
                None => None,
            },
        };
        self.set_status(i, WorkflowStatus::Running, now);
        proof {
            law_operations_keep_the_ledger_well_formed(before, Op::Claim { now });
        }
        Ok(Some(claimed))
    }

    /// Hands out the first workflow that waits.
    pub fn claim_next_pending(&mut self) -> (outcome: Result<Option<ClaimedWorkflow>>)
        requires
            old(self).wf(),
        ensures
            final(self).wf(),
            final(self).saved() == old(self).saved(),
            exists|now: i64|
                can_be_now(now) && final(self)@ == #[trigger] next(old(self)@, Op::Claim { now }),
            claim_outcome(old(self)@, outcome),
    {
        let now: i64 = now_ms();
        self.claim_next_pending_at(now)
    }

    /// Puts every running workflow back into the queue, at the given time, and
    /// returns their number.
    pub fn recover_abandoned_at(&mut self, now: i64) -> (outcome: Result<u64>)
        requires
            old(self).wf(),
        ensures
            final(self).wf(),
            final(self).saved() == old(self).saved(),
            final(self)@ == next(old(self)@, Op::Recover { now }),
            outcome matches Ok(n) && n == count(old(self)@, WorkflowStatus::Running),
    {
        let ghost before = self@;
        let mut recovered: u64 = 0;
        let mut i: usize = 0;
        assert(recovered_upto(before, 0, now) =~= before);
        assert(before.take(0).filter(|log: LogView| log.row.status == WorkflowStatus::Running)
            =~= Seq::empty()) by {
            reveal(Seq::filter);
        }
        while i < self.logs.len()
            invariant
                ledger_ok(before),
                self.wf(),
                self.saved() == old(self).saved(),
                self.logs@.len() == before.len(),
                i <= self.logs@.len(),
                self@ == recovered_upto(before, i as int, now),
                recovered == count(before.take(i as int), WorkflowStatus::Running),
                recovered <= i,
            decreases self.logs@.len() - i,
        {
            let ghost current = self@;
            assert(current[i as int] == before[i as int]);
            assert(current[i as int].row.status == self.logs@[i as int].row.status);
            proof {
                assert(before.take(i + 1) =~= before.take(i as int).push(before[i as int]));
                lemma_count_of_push(
                    before.take(i as int),
                    before[i as int],
                    WorkflowStatus::Running,
                );
            }
            if self.logs[i].row.status == WorkflowStatus::Running {
                self.set_status(i, WorkflowStatus::Pending, now);
                recovered = recovered + 1;
            }
            assert(self@ =~= recovered_upto(before, i + 1, now));
            i = i + 1;
        }
        proof {
            assert(before.take(i as int) =~= before);
            assert(self@ =~= next(before, Op::Recover { now }));
        }
        Ok(recovered)
    }

    /// Puts every running workflow back into the queue, and returns their
    /// number.
    pub fn recover_abandoned(&mut self) -> (outcome: Result<u64>)
        requires
            old(self).wf(),
        ensures
            final(self).wf(),
            final(self).saved() == old(self).saved(),
            exists|now: i64|
                can_be_now(now) && final(self)@ == #[trigger] next(old(self)@, Op::Recover { now }),
            outcome matches Ok(n) && n == count(old(self)@, WorkflowStatus::Running),
    {
        let now: i64 = now_ms();
        self.recover_abandoned_at(now)
    }

    /// Sets the status of the workflow at a place.
    fn set_status(&mut self, i: usize, status: WorkflowStatus, now: i64)
        requires
            old(self).wf(),
            i < old(self)@.len(),
        ensures
            final(self).wf(),
            final(self).saved() == old(self).saved(),
            final(self)@ == old(self)@.update(
                i as int,
                with_status(old(self)@[i as int], status, now),
            ),
    {
        let ghost before = self@;
        let ghost queued = self.unsaved();
        self.unsaved.push(
            Change::UpdateWorkflow {
                id: self.logs[i].row.id.clone(),
                status,
                updated_at_ms: now,
            },
        );
        self.logs[i].row.status = status;
        self.logs[i].row.updated_at_ms = now;
        proof {
            let log = with_status(before[i as int], status, now);
            assert(self@ =~= before.update(i as int, log));
            assert(log_ok(before[i as int]));
            assert(ledger_ok(self@)) by {
                assert forall|k: int| 0 <= k < self@.len() implies log_ok(#[trigger] self@[k]) by {
                    assert(log_ok(before[k]));
                }
                assert forall|a: int, b: int| 0 <= a < b < self@.len() implies (
                #[trigger] self@[a]).row.id != (#[trigger] self@[b]).row.id by {
                    assert(before[a].row.id != before[b].row.id);
                }
            }
            lemma_replay_of_status(self.saved(), queued, before, i as int, status, now);
            assert(self.unsaved() =~= queued.push(
                ChangeView::UpdateWorkflow {
                    id: before[i as int].row.id,
                    status,
                    updated_at_ms: now,
                },
            ));
        }
    }

    /// The status of a workflow, by name.
    pub fn workflow_status(&self, workflow_id: &str) -> (outcome: Result<Option<String>>)
        requires
            self.wf(),
        ensures
            outcome matches Ok(status) && match log_of(self@, workflow_id@) {
                Some(log) => status matches Some(name) && name@ == log.row.status.name(),
                None => status is None,
            },
    {
        match self.find(workflow_id) {
            Some(i) => {
                let status: WorkflowStatus = self.logs[i].row.status;
                Ok(Some(status.as_str().to_owned()))
            },
            None => Ok(None),
        }
    }

    /// The output of a step of a workflow, where a call of that step has
    /// completed: the first, if there are several.
    pub fn lookup_completed_tool_call(&self, workflow_id: &str, step_id: &str) -> (outcome: Result<
        Option<Value>,
    >)
        requires
            self.wf(),
        ensures
            outcome matches Ok(output) && output == first_match(
                events_of(self@, workflow_id@),
                tool_output(step_id@),
            ),
    {
        let i: usize = match self.find(workflow_id) {
            Some(i) => i,
            None => {
                return Ok(None);
            },
        };
        let events = &self.logs[i].events;
        let ghost log = events_view(events@);
        let ghost pick = tool_output(step_id@);
        let mut k: usize = 0;
        assert(log.take(0) =~= Seq::empty());
        while k < events.len()
            invariant
                log == events_view(events@),
                log == events_of(self@, workflow_id@),
                pick == tool_output(step_id@),
                k <= events@.len(),
                first_match(log.take(k as int), pick) is None,
            decreases events@.len() - k,
        {
            proof {
                assert(log.take(k + 1).drop_last() =~= log.take(k as int));
                assert(log.take(k + 1).last() == events@[k as int]@);
            }
            if let EventPayload::ToolCallCompleted { step_id: id, output, .. } = &events[k].payload {
                if same(id, step_id) {
                    proof {
                        assert(first_match(log.take(k + 1), pick) == Some(*output));
                        lemma_first_match_of_prefix(log, pick, k + 1);
                    }
                    return Ok(Some(output.clone()));
                }
            }
            assert(first_match(log.take(k + 1), pick) is None);
            k = k + 1;
        }
        assert(log.take(k as int) =~= log);
        Ok(None)
    }

    /// The recorded answer to a prompt of a workflow: the first, if there are
    /// several.
    pub fn lookup_completed_llm_call(&self, workflow_id: &str, prompt_hash: &str) -> (outcome:
        Result<Option<LlmResponse>>)
        requires
            self.wf(),
        ensures
            outcome matches Ok(answer) && match first_match(
                events_of(self@, workflow_id@),
                llm_answer(prompt_hash@),
            ) {
                Some(found) => answer matches Some(response) && response@ == found,
                None => answer is None,
            },
    {
        let i: usize = match self.find(workflow_id) {
            Some(i) => i,
            None => {
                return Ok(None);
            },
        };
        let events = &self.logs[i].events;
        let ghost log = events_view(events@);
        let ghost pick = llm_answer(prompt_hash@);
        let mut k: usize = 0;
        assert(log.take(0) =~= Seq::empty());
        while k < events.len()
            invariant
                log == events_view(events@),
                log == events_of(self@, workflow_id@),
                pick == llm_answer(prompt_hash@),
                k <= events@.len(),
                first_match(log.take(k as int), pick) is None,
            decreases events@.len() - k,
        {
            proof {
                assert(log.take(k + 1).drop_last() =~= log.take(k as int));
                assert(log.take(k + 1).last() == events@[k as int]@);
            }
            if let EventPayload::LlmCallCompleted {
                model,
                prompt_hash: hash,
                response,
                tokens_in,
                tokens_out,
                ..
            } = &events[k].payload {
                if same(hash, prompt_hash) {
                    let answer = LlmResponse {
                        model: model.clone(),
                        content: response.clone(),
                        tokens_in: *tokens_in,
                        tokens_out: *tokens_out,
                    };
                    proof {
                        assert(first_match(log.take(k + 1), pick) == Some(answer@));
                        lemma_first_match_of_prefix(log, pick, k + 1);
                    }
                    return Ok(Some(answer));
                }
            }
            assert(first_match(log.take(k + 1), pick) is None);
            k = k + 1;
        }
        assert(log.take(k as int) =~= log);
        Ok(None)
    }

    /// The output with which a workflow completed: the first, if it did so
    /// more than once.
    pub fn lookup_final_output(&self, workflow_id: &str) -> (outcome: Result<Option<Value>>)
        requires
            self.wf(),
        ensures
            outcome matches Ok(output) && output == first_match(
                events_of(self@, workflow_id@),
                final_output(),
            ),
    {
        let i: usize = match self.find(workflow_id) {
            Some(i) => i,
            None => {
                return Ok(None);
            },
        };
        let events = &self.logs[i].events;
        let ghost log = events_view(events@);
        let ghost pick = final_output();
        let mut k: usize = 0;
        assert(log.take(0) =~= Seq::empty());
        while k < events.len()
            invariant
                log == events_view(events@),
                log == events_of(self@, workflow_id@),
                pick == final_output(),
                k <= events@.len(),
                first_match(log.take(k as int), pick) is None,
            decreases events@.len() - k,
        {
            proof {
                assert(log.take(k + 1).drop_last() =~= log.take(k as int));
                assert(log.take(k + 1).last() == events@[k as int]@);
            }
            if let EventPayload::WorkflowCompleted { output } = &events[k].payload {
                proof {
                    assert(first_match(log.take(k + 1), pick) == Some(*output));
                    lemma_first_match_of_prefix(log, pick, k + 1);
                }
                return Ok(Some(output.clone()));
            }
            assert(first_match(log.take(k + 1), pick) is None);
            k = k + 1;
        }
        assert(log.take(k as int) =~= log);
        Ok(None)
    }

    /// The events of a workflow, in the order of their sequence numbers; none
    /// where the journal does not have the workflow.
    pub fn read_all(&self, workflow_id: &str) -> (outcome: Result<Vec<Event>>)
        requires
            self.wf(),
        ensures
            outcome matches Ok(events) && events_view(events@) == events_of(self@, workflow_id@),
    {
        let mut out: Vec<Event> = Vec::new();
        let i: usize = match self.find(workflow_id) {
            Some(i) => i,
            None => {
                assert(events_view(out@) =~= Seq::empty());
                return Ok(out);
            },
        };
        let events = &self.logs[i].events;
        let mut k: usize = 0;
        while k < events.len()
            invariant
                k <= events@.len(),
                out@ =~= events@.take(k as int),
            decreases events@.len() - k,
        {
            out.push(events[k].clone());
            k = k + 1;
        }
        assert(out@ =~= events@);
        Ok(out)
    }

    /// All workflows in short, in the order in which they were added.
    pub fn list_workflows(&self) -> (outcome: Result<Vec<WorkflowSummary>>)
        requires
            self.wf(),
        ensures
            outcome matches Ok(list) && list@.len() == self@.len() && forall|i: int|
                0 <= i < list@.len() ==> (#[trigger] list@[i])@ == self@[i].summary(),
    {
        let mut list: Vec<WorkflowSummary> = Vec::new();
        let mut i: usize = 0;
        while i < self.logs.len()
            invariant
                i <= self.logs@.len(),
                list@.len() == i,
                forall|k: int| 0 <= k < i ==> (#[trigger] list@[k])@ == self@[k].summary(),
            decreases self.logs@.len() - i,
        {
            list.push(self.logs[i].summary());
            i = i + 1;
        }
        Ok(list)
    }

    /// One workflow in short.
    pub fn workflow_summary(&self, workflow_id: &str) -> (outcome: Result<Option<WorkflowSummary>>)
        requires
            self.wf(),
        ensures
            outcome matches Ok(summary) && match log_of(self@, workflow_id@) {
                Some(log) => summary matches Some(s) && s@ == log.summary(),
                None => summary is None,
            },
    {
        match self.find(workflow_id) {
            Some(i) => Ok(Some(self.logs[i].summary())),
            None => Ok(None),
        }
    }

    /// Hands over the changes that storage has to carry out, in order. The
    /// journal takes them as saved from here on.
    pub fn take_changes(&mut self) -> (changes: Vec<Change>)
        requires
            old(self).wf(),
        ensures
            final(self).wf(),
            final(self)@ == old(self)@,
            changes_view(changes@) == old(self).unsaved(),
            replay(old(self).saved(), changes_view(changes@)) == final(self)@,
            final(self).saved() == final(self)@,
            final(self).unsaved() == Seq::<ChangeView>::empty(),
    {
        let mut changes: Vec<Change> = Vec::new();
        changes.append(&mut self.unsaved);
        self.saved = Ghost(self@);
        proof {
            assert(changes@ =~= old(self).unsaved@);
            assert(self.unsaved() =~= Seq::empty());
        }
        changes
    }

    /// Opens a journal over the rows that storage holds.
    pub fn open(logs: Vec<WorkflowLog>) -> (outcome: Result<Journal>)
        ensures
            match outcome {
                Ok(journal) => {
                    &&& ledger_ok(logs_view(logs@))
                    &&& journal.wf()
                    &&& journal@ == logs_view(logs@)
                    &&& journal.saved() == logs_view(logs@)
                    &&& journal.unsaved() == Seq::<ChangeView>::empty()
                },
                Err(error) => {
                    &&& !ledger_ok(logs_view(logs@))
                    &&& error@ == ErrorView::Journal("stored rows are not a journal"@)
                },
            },
    {
        let mut i: usize = 0;
        while i < logs.len()
            invariant
                i <= logs@.len(),
                forall|k: int| 0 <= k < i ==> log_ok(#[trigger] logs_view(logs@)[k]),
                forall|a: int, b: int|
                    0 <= a < b < i ==> (#[trigger] logs_view(logs@)[a]).row.id != (
                    #[trigger] logs_view(logs@)[b]).row.id,
            decreases logs@.len() - i,
        {
            let ghost rows = logs_view(logs@);
            if !is_log_ok(&logs[i]) {
                assert(!log_ok(rows[i as int]));
                return Err(Error::Journal("stored rows are not a journal".to_owned()));
            }
            let mut k: usize = 0;
            while k < i
                invariant
                    rows == logs_view(logs@),
                    k <= i < logs@.len(),
                    forall|a: int| 0 <= a < k ==> (#[trigger] rows[a]).row.id != rows[i as int].row.id,
                decreases i - k,
            {
                if same(&logs[k].row.id, &logs[i].row.id) {
                    assert(rows[k as int].row.id == rows[i as int].row.id);
                    return Err(Error::Journal("stored rows are not a journal".to_owned()));
                }
                k = k + 1;
            }
            i = i + 1;
        }
        let journal = Journal { logs, unsaved: Vec::new(), saved: Ghost(logs_view(logs@)) };
        assert(journal.unsaved() =~= Seq::empty());
        Ok(journal)
    }
}

/// Whether a log is ordered and holds the events of its workflow only.
fn is_log_ok(log: &WorkflowLog) -> (yes: bool)
    ensures
        yes == log_ok(log@),
{
    let ghost events = log@.events;
    let mut k: usize = 0;
    while k < log.events.len()
        invariant
            events == log@.events,
            k <= log.events@.len(),
            forall|a: int|
                0 <= a < k ==> (#[trigger] events[a]).workflow_id == log@.row.id && i64::MIN
                    <= events[a].sequence <= i64::MAX,
            forall|a: int, b: int|
                0 <= a < b < k ==> (#[trigger] events[a]).sequence < (#[trigger] events[b]).sequence,
        decreases log.events@.len() - k,
    {
        assert(events[k as int] == log.events@[k as int]@);
        if !same(&log.events[k].workflow_id, &log.row.id) {
            return false;
        }
        if k > 0 {
            assert(events[k - 1] == log.events@[k - 1]@);
            if log.events[k].sequence <= log.events[k - 1].sequence {
                assert(!ordered(events));
                return false;
            }
        }
        k = k + 1;
    }
    true
}

/// What an append reports: the sequence number of the new event, or why there
/// is none.
pub open spec fn append_outcome(
    ledger: Seq<LogView>,
    id: Seq<char>,
    outcome: Result<i64>,
) -> bool {
    match outcome {
        Ok(sequence) => can_append(ledger, id) && sequence == next_sequence(events_of(ledger, id)),
        Err(error) => !can_append(ledger, id) && error@ == append_refusal(ledger, id),
    }
}

/// Why an event cannot be appended: the workflow does not exist, or its
/// sequence numbers are used up.
pub open spec fn append_refusal(ledger: Seq<LogView>, id: Seq<char>) -> ErrorView {
    if holds(ledger, id) {
        ErrorView::Journal("sequence numbers are exhausted"@)
    } else {
        ErrorView::Journal("FOREIGN KEY constraint failed"@)
    }
}

/// What adding a workflow reports: that it is refused where its id is taken.
pub open spec fn open_outcome(ledger: Seq<LogView>, id: Seq<char>, outcome: Result<()>) -> bool {
    match outcome {
        Ok(_) => !holds(ledger, id),
        Err(error) => holds(ledger, id) && error@ == ErrorView::Journal(
            "UNIQUE constraint failed: workflows.id"@,
        ),
    }
}

/// Whether this is what a claim hands out: the first workflow that waits, or
/// nothing where none does.
pub open spec fn is_next_claim(ledger: Seq<LogView>, claim: Option<ClaimedWorkflow>) -> bool {
    match claim {
        Some(workflow) => any_pending(ledger) && workflow.is_for(
            ledger[choose|i: int| first_pending(ledger, i)].row,
        ),
        None => !any_pending(ledger),
    }
}

/// What a claim reports: the first workflow that waits, or that none does.
pub open spec fn claim_outcome(
    ledger: Seq<LogView>,
    outcome: Result<Option<ClaimedWorkflow>>,
) -> bool {
    outcome matches Ok(claim) && is_next_claim(ledger, claim)
}

/// The text of an optional parent id.
pub open spec fn parent_text(parent_id: Option<&str>) -> Option<Seq<char>> {
    match parent_id {
        Some(id) => Some(id@),
        None => None,
    }
}

/// The row of a workflow that is started directly.
pub open spec fn started_row(
    id: Seq<char>,
    name: Seq<char>,
    input_hash: Seq<char>,
    parent_id: Option<Seq<char>>,
    now: i64,
) -> RowView {
    RowView {
        id,
        name,
        status: WorkflowStatus::Running,
        input_hash,
        parent_id,
        input: None,
        created_at_ms: now,
        updated_at_ms: now,
    }
}

/// The row of a workflow that is submitted to the queue.
pub open spec fn submitted_row(id: Seq<char>, name: Seq<char>, input: Value, now: i64) -> RowView {
    RowView {
        id,
        name,
        status: WorkflowStatus::Pending,
        input_hash: Seq::empty(),
        parent_id: None,
        input: Some(input),
        created_at_ms: now,
        updated_at_ms: now,
    }
}

// ---------------------------------------------------------------------------
// Laws
// ---------------------------------------------------------------------------

/// An append is refused exactly where the journal does not have the workflow, or
/// its last event has the highest sequence number; the two are told apart. Else
/// it reports the sequence number of the new event.
pub proof fn law_append_reports_what_it_did(
    ledger: Seq<LogView>,
    id: Seq<char>,
    outcome: Result<i64>,
    i: int,
)
    requires
        ledger_ok(ledger),
        append_outcome(ledger, id, outcome),
    ensures
        (forall|k: int| 0 <= k < ledger.len() ==> (#[trigger] ledger[k]).row.id != id)
            ==> (outcome matches Err(error) && error@ == ErrorView::Journal(
            "FOREIGN KEY constraint failed"@,
        )),
        0 <= i < ledger.len() && ledger[i].row.id == id ==> if ledger[i].events.len() == 0 {
            outcome matches Ok(sequence) && sequence == 1
        } else if ledger[i].events.last().sequence == 0x7fff_ffff_ffff_ffff {
            outcome matches Err(error) && error@ == ErrorView::Journal(
                "sequence numbers are exhausted"@,
            )
        } else {
            outcome matches Ok(sequence) && sequence == ledger[i].events.last().sequence + 1
        },
{
    if 0 <= i < ledger.len() && ledger[i].row.id == id {
        lemma_slot(ledger, id, i);
        assert(log_ok(ledger[i]));
    }
}

/// Adding a workflow succeeds exactly where no workflow has its id.
pub proof fn law_open_reports_what_it_did(
    ledger: Seq<LogView>,
    id: Seq<char>,
    outcome: Result<()>,
)
    requires
        open_outcome(ledger, id, outcome),
    ensures
        outcome is Ok <==> forall|k: int|
            0 <= k < ledger.len() ==> (#[trigger] ledger[k]).row.id != id,
        outcome matches Err(error) ==> error@ == ErrorView::Journal(
            "UNIQUE constraint failed: workflows.id"@,
        ),
{
}

/// A claim hands out the first workflow that waits, by its id, name and input;
/// nothing exactly where none waits; and it never fails.
pub proof fn law_claim_reports_the_first_that_waits(
    ledger: Seq<LogView>,
    outcome: Result<Option<ClaimedWorkflow>>,
    i: int,
)
    requires
        claim_outcome(ledger, outcome),
    ensures
        outcome is Ok,
        outcome matches Ok(None) <==> forall|k: int|
            0 <= k < ledger.len() ==> (#[trigger] ledger[k]).row.status
                != WorkflowStatus::Pending,
        ({
            &&& 0 <= i < ledger.len()
            &&& ledger[i].row.status == WorkflowStatus::Pending
            &&& forall|k: int|
                0 <= k < i ==> (#[trigger] ledger[k]).row.status != WorkflowStatus::Pending
        }) ==> (outcome matches Ok(Some(claimed)) && {
            &&& claimed.id@ == ledger[i].row.id
            &&& claimed.name@ == ledger[i].row.name
            &&& claimed.input == ledger[i].row.input
        }),
{
    if first_pending(ledger, i) {
        assert(any_pending(ledger));
        lemma_claim_slot(ledger);
        lemma_first_pending_unique(ledger, i, choose|k: int| first_pending(ledger, k));
    }
}

/// A workflow that is started runs, and one that is submitted waits with its
/// input; both are created and updated at the given time, and neither has what
/// it was not given.
pub proof fn law_new_rows_hold_what_was_given(
    id: Seq<char>,
    name: Seq<char>,
    input_hash: Seq<char>,
    parent_id: Option<Seq<char>>,
    input: Value,
    now: i64,
)
    ensures
        ({
            let row = started_row(id, name, input_hash, parent_id, now);
            &&& row.id == id && row.name == name && row.input_hash == input_hash
            &&& row.parent_id == parent_id && row.input is None
            &&& row.status == WorkflowStatus::Running
            &&& row.created_at_ms == now && row.updated_at_ms == now
        }),
        ({
            let row = submitted_row(id, name, input, now);
            &&& row.id == id && row.name == name && row.input_hash == Seq::<char>::empty()
            &&& row.parent_id is None && row.input == Some(input)
            &&& row.status == WorkflowStatus::Pending
            &&& row.created_at_ms == now && row.updated_at_ms == now
        }),
{
}

/// A parent is given by its id.
pub proof fn law_parent_is_given_by_its_id(parent: &str)
    ensures
        parent_text(Some(parent)) == Some(parent@),
        parent_text(None) is None,
{
}

/// A journal that is well formed is what storage holds once it has carried out
/// the changes that it has not taken over yet.
pub proof fn law_journal_is_storage_and_changes(journal: Journal)
    ensures
        journal.wf() <==> {
            &&& ledger_ok(journal@)
            &&& replay(journal.saved(), journal.unsaved()) == journal@
        },
{
}

} // verus!
