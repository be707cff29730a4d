//! The workflow scheduler: which workflows are run, how many at a time, and
//! what becomes of them.
//!
//! Whoever runs the workflows drains the queue with a [`Drain`]: it asks for the
//! next [`Action`], performs it, and hands back what came of it.

use crate::clock::{can_be_now, now_ms};
use crate::error::{labelled, Error, ErrorView, Result};
use crate::event::{EventPayload, PayloadView};
use crate::journal::{append_refusal, is_next_claim, open_outcome, submitted_row, Journal};
use crate::ledger::{
    any_pending, appended, can_append, count, first_pending, holds, law_a_claim_shortens_the_queue,
    law_append_is_scoped, law_operations_keep_the_ledger_well_formed, ledger_ok, lemma_claim_slot,
    lemma_count_of_push, lemma_count_of_update, lemma_slot, log_of, next, slot, Op,
};
use crate::row::{ClaimedWorkflow, LogView, WorkflowStatus};
use crate::session::saturated;
use crate::text::same;
use serde_json::Value;
use vstd::prelude::*;
use vstd::string::StringExecFns;

verus! {

// ---------------------------------------------------------------------------
// The registry
// ---------------------------------------------------------------------------

/// The names of the workflows that can be run, and how many are run at a time.
#[derive(Debug)]
pub struct Scheduler {
    handlers: Vec<String>,
    concurrency: usize,
}

/// What a [`Scheduler`] holds.
pub struct SchedulerView {
    pub handlers: Set<Seq<char>>,
    pub concurrency: nat,
}

impl View for Scheduler {
    type V = SchedulerView;

    closed spec fn view(&self) -> SchedulerView {
        SchedulerView {
            handlers: Set::new(
                |name: Seq<char>|
                    exists|i: int|
                        0 <= i < self.handlers@.len() && (#[trigger] self.handlers@[i])@ == name,
            ),
            concurrency: self.concurrency as nat,
        }
    }
}

impl Scheduler {
    /// At least one workflow is run at a time.
    #[verifier::type_invariant]
    spec fn inv(self) -> bool {
        self.concurrency >= 1
    }

    /// A scheduler without handlers, that runs four workflows at a time.
    pub fn new() -> (scheduler: Self)
        ensures
            scheduler@ == (SchedulerView { handlers: Set::empty(), concurrency: 4 }),
    {
        let scheduler = Scheduler { handlers: Vec::new(), concurrency: 4 };
        assert(scheduler@.handlers =~= Set::empty());
        scheduler
    }

    /// Runs `n` workflows at a time; at least one.
    pub fn with_concurrency(self, n: usize) -> (scheduler: Self)
        ensures
            scheduler@ == (SchedulerView {
                concurrency: if n < 1 {
                    1
                } else {
                    n as nat
                },
                ..self@
            }),
    {
        let concurrency: usize = if n < 1 {
            1
        } else {
            n
        };
        let scheduler = Scheduler { handlers: self.handlers, concurrency };
        assert(scheduler@.handlers =~= self@.handlers);
        scheduler
    }

    /// Registers the name of a workflow that can be run.
    pub fn register(&mut self, name: &str)
        ensures
            final(self)@ == (SchedulerView {
                handlers: old(self)@.handlers.insert(name@),
                ..old(self)@
            }),
    {
        if self.handles(name) {
            assert(old(self)@.handlers.insert(name@) =~= old(self)@.handlers);
            return;
        }
        proof {
            use_type_invariant(&*self);
        }
        let ghost before = self.handlers@;
        let mut handlers: Vec<String> = Vec::new();
        std::mem::swap(&mut handlers, &mut self.handlers);
        handlers.push(name.to_owned());
        self.handlers = handlers;
        proof {
            assert(handlers@ =~= before.push(handlers@.last()));
            assert forall|n: Seq<char>| #[trigger]
                self@.handlers.contains(n) == old(self)@.handlers.insert(name@).contains(n) by {
                if old(self)@.handlers.contains(n) {
                    let i = choose|i: int|
                        0 <= i < before.len() && (#[trigger] before[i])@ == n;
                    assert(handlers@[i]@ == n);
                }
                if n == name@ {
                    assert(handlers@[before.len() as int]@ == n);
                }
                if self@.handlers.contains(n) && n != name@ {
                    let i = choose|i: int|
                        0 <= i < handlers@.len() && (#[trigger] handlers@[i])@ == n;
                    assert(before[i]@ == n);
                }
            }
            assert(self@.handlers =~= old(self)@.handlers.insert(name@));
        }
    }

    /// Whether a workflow of this name can be run.
    pub fn handles(&self, name: &str) -> (yes: bool)
        ensures
            yes == self@.handlers.contains(name@),
    {
        let mut i: usize = 0;
        while i < self.handlers.len()
            invariant
                i <= self.handlers@.len(),
                forall|k: int| 0 <= k < i ==> (#[trigger] self.handlers@[k])@ != name@,
            decreases self.handlers@.len() - i,
        {
            if same(&self.handlers[i], name) {
                return true;
            }
            i = i + 1;
        }
        false
    }

    /// Adds a workflow to the queue.
    pub fn submit(&self, journal: &mut Journal, workflow_id: &str, name: &str, input: &Value) -> (
    outcome: Result<()>)
        requires
            old(journal).wf(),
        ensures
            final(journal).wf(),
            final(journal).saved() == old(journal).saved(),
            exists|now: i64|
                can_be_now(now) && final(journal)@ == next(
                    old(journal)@,
                    Op::Open(#[trigger] submitted_row(workflow_id@, name@, *input, now)),
                ),
            open_outcome(old(journal)@, workflow_id@, outcome),
    {
        journal.submit_pending(name, workflow_id, input)
    }

    /// Begins to drain the queue at the given time: what a prior process left
    /// running goes back into it.
    pub fn start_drain_at(&self, journal: &mut Journal, now: i64) -> (outcome: Result<Drain>)
        requires
            old(journal).wf(),
        ensures
            final(journal).wf(),
            final(journal).saved() == old(journal).saved(),
            final(journal)@ == next(old(journal)@, Op::Recover { now }),
            outcome matches Ok(drain) && drain@ == DrainView::fresh(
                self@.concurrency,
                count(old(journal)@, WorkflowStatus::Running),
            ),
            outcome matches Ok(drain) && drain@.inv(),
    {
        proof {
            use_type_invariant(self);
        }
        match journal.recover_abandoned_at(now) {
            Ok(recovered) => Ok(
                Drain {
                    concurrency: self.concurrency,
                    running: 0,
                    waiting: None,
                    drained: false,
                    stats: RunStats { completed: 0, failed: 0, recovered },
                },
            ),
            Err(error) => Err(error),
        }
    }

    /// Begins to drain the queue.
    pub fn start_drain(&self, journal: &mut Journal) -> (outcome: Result<Drain>)
        requires
            old(journal).wf(),
        ensures
            final(journal).wf(),
            final(journal).saved() == old(journal).saved(),
            exists|now: i64|
                can_be_now(now) && final(journal)@ == #[trigger] next(
                    old(journal)@,
                    Op::Recover { now },
                ),
            outcome matches Ok(drain) && drain@ == DrainView::fresh(
                self@.concurrency,
                count(old(journal)@, WorkflowStatus::Running),
            ),
            outcome matches Ok(drain) && drain@.inv(),
    {
        let now: i64 = now_ms();
        self.start_drain_at(journal, now)
    }
}

impl Default for Scheduler {
    fn default() -> (scheduler: Self)
        ensures
            scheduler@ == (SchedulerView { handlers: Set::empty(), concurrency: 4 }),
    {
        Scheduler::new()
    }
}

// ---------------------------------------------------------------------------
// Draining the queue
// ---------------------------------------------------------------------------

/// How many workflows completed, failed and were recovered.
#[derive(Debug, Clone, Copy)]
pub struct RunStats {
    pub completed: u64,
    pub failed: u64,
    pub recovered: u64,
}

impl Default for RunStats {
    fn default() -> (stats: Self)
        ensures
            stats == (RunStats { completed: 0, failed: 0, recovered: 0 }),
    {
        RunStats { completed: 0, failed: 0, recovered: 0 }
    }
}

/// How the task of a workflow ended.
#[derive(Debug, Clone, Copy)]
pub enum TaskEnd {
    Completed,
    Failed,
    /// The task itself broke off.
    Panicked,
}

/// What is to be done next.
#[derive(Debug)]
pub enum Action {
    /// Claim the next workflow, and report it with [`Drain::claimed`].
    Claim,
    /// Run the workflow as a task.
    Launch(ClaimedWorkflow),
    /// Wait for a task to end, and report it with [`Drain::joined`].
    Join,
    /// Nothing is left to do.
    Finish(RunStats),
}

/// The state of a run that drains the queue.
#[derive(Debug)]
pub struct Drain {
    concurrency: usize,
    running: usize,
    waiting: Option<ClaimedWorkflow>,
    drained: bool,
    stats: RunStats,
}

/// What a [`Drain`] holds.
pub struct DrainView {
    /// How many tasks may run at a time.
    pub concurrency: nat,
    /// How many tasks run.
    pub running: nat,
    /// A workflow that is claimed and waits for its task.
    pub waiting: Option<ClaimedWorkflow>,
    /// Whether the queue was found empty.
    pub drained: bool,
    pub stats: RunStats,
}

impl View for Drain {
    type V = DrainView;

    closed spec fn view(&self) -> DrainView {
        DrainView {
            concurrency: self.concurrency as nat,
            running: self.running as nat,
            waiting: self.waiting,
            drained: self.drained,
            stats: self.stats,
        }
    }
}

/// Why a workflow without a handler fails.
pub open spec fn no_handler(name: Seq<char>) -> Seq<char> {
    "no handler registered for workflow '"@ + name + "'"@
}

impl DrainView {
    /// A run that has done nothing yet.
    pub open spec fn fresh(concurrency: nat, recovered: nat) -> DrainView {
        DrainView {
            concurrency,
            running: 0,
            waiting: None,
            drained: false,
            stats: RunStats { completed: 0, failed: 0, recovered: recovered as u64 },
        }
    }

    /// No more tasks run than may.
    pub open spec fn inv(self) -> bool {
        1 <= self.concurrency && self.running <= self.concurrency
    }

    /// What is to be done next: a claimed workflow is run once there is room
    /// for its task, then the next is claimed; once the queue was found empty,
    /// the tasks that still run are waited for.
    pub open spec fn action(self) -> (DrainView, Action) {
        match self.waiting {
            Some(claimed) => if self.running < self.concurrency {
                (
                    DrainView { running: self.running + 1, waiting: None, ..self },
                    Action::Launch(claimed),
                )
            } else {
                (self, Action::Join)
            },
            None => if !self.drained {
                (self, Action::Claim)
            } else if self.running > 0 {
                (self, Action::Join)
            } else {
                (self, Action::Finish(self.stats))
            },
        }
    }

    /// One more workflow failed.
    pub open spec fn one_failed(self) -> DrainView {
        DrainView {
            stats: RunStats { failed: saturated(self.stats.failed, 1), ..self.stats },
            ..self
        }
    }

    /// One more workflow completed.
    pub open spec fn one_completed(self) -> DrainView {
        DrainView {
            stats: RunStats { completed: saturated(self.stats.completed, 1), ..self.stats },
            ..self
        }
    }

    /// What a claim makes of the run: without a workflow the queue is empty; a
    /// workflow waits for its task where its name is known, and fails else.
    pub open spec fn claimed(self, claim: Option<ClaimedWorkflow>, known: bool) -> DrainView {
        match claim {
            Some(workflow) => if known {
                DrainView { waiting: Some(workflow), ..self }
            } else {
                self.one_failed()
            },
            None => DrainView { drained: true, ..self },
        }
    }

    /// What the end of a task makes of the run.
    pub open spec fn joined(self, end: TaskEnd) -> DrainView {
        let rest = DrainView { running: (self.running - 1) as nat, ..self };
        match end {
            TaskEnd::Completed => rest.one_completed(),
            TaskEnd::Failed => rest.one_failed(),
            TaskEnd::Panicked => rest.one_failed(),
        }
    }
}

/// How a run takes over what was claimed: what becomes of the run and of the
/// journal, and what is reported. A workflow whose name is not registered is
/// recorded as failed.
pub open spec fn claim_taken(
    scheduler: SchedulerView,
    before: (DrainView, Seq<LogView>),
    claim: Option<ClaimedWorkflow>,
    now: i64,
    after: (DrainView, Seq<LogView>),
    outcome: Result<()>,
) -> bool {
    match claim {
        Some(workflow) if !scheduler.handlers.contains(workflow.name@) => {
            &&& after.1 == next(before.1, rejection(workflow.id@, workflow.name@, now))
            &&& match outcome {
                Ok(_) => can_append(before.1, workflow.id@) && after.0 == before.0.claimed(
                    claim,
                    false,
                ),
                Err(error) => !can_append(before.1, workflow.id@) && after.0 == before.0 && error@
                    == append_refusal(before.1, workflow.id@),
            }
        },
        _ => outcome is Ok && after == (before.0.claimed(claim, true), before.1),
    }
}

/// Records that a workflow failed for want of a handler.
pub open spec fn rejection(id: Seq<char>, name: Seq<char>, now: i64) -> Op {
    Op::Append { id, payload: PayloadView::WorkflowFailed { error: no_handler(name) }, now }
}

/// What the end of a workflow's handler makes of the journal: an error is
/// recorded, where the journal takes it; an output is not.
pub open spec fn settled(
    ledger: Seq<LogView>,
    id: Seq<char>,
    failure: Option<ErrorView>,
    now: i64,
) -> Seq<LogView> {
    match failure {
        Some(error) => next(
            ledger,
            Op::Append { id, payload: PayloadView::WorkflowFailed { error: error.message() }, now },
        ),
        None => ledger,
    }
}

/// Ends the task of a workflow at the given time, given the error that its
/// handler returned, if any.
pub fn settle_at(journal: &mut Journal, workflow_id: &str, failure: Option<&Error>, now: i64) -> (
    end: TaskEnd)
    requires
        old(journal).wf(),
    ensures
        final(journal).wf(),
        final(journal).saved() == old(journal).saved(),
        final(journal)@ == settled(old(journal)@, workflow_id@, error_view(failure), now),
        end == (if failure is Some {
            TaskEnd::Failed
        } else {
            TaskEnd::Completed
        }),
{
    match failure {
        Some(error) => {
            let failed = EventPayload::WorkflowFailed { error: error.message() };
            let _ = journal.append_at(workflow_id, &failed, now);
            TaskEnd::Failed
        },
        None => TaskEnd::Completed,
    }
}

/// Ends the task of a workflow, given the error that its handler returned, if
/// any.
pub fn settle(journal: &mut Journal, workflow_id: &str, failure: Option<&Error>) -> (end: TaskEnd)
    requires
        old(journal).wf(),
    ensures
        final(journal).wf(),
        final(journal).saved() == old(journal).saved(),
        exists|now: i64|
            can_be_now(now) && final(journal)@ == #[trigger] settled(
                old(journal)@,
                workflow_id@,
                error_view(failure),
                now,
            ),
        end == (if failure is Some {
            TaskEnd::Failed
        } else {
            TaskEnd::Completed
        }),
{
    let now: i64 = now_ms();
    settle_at(journal, workflow_id, failure, now)
}

/// What an optional error holds.
pub open spec fn error_view(failure: Option<&Error>) -> Option<ErrorView> {
    match failure {
        Some(error) => Some(error@),
        None => None,
    }
}

impl Drain {
    /// What is to be done next.
    pub fn next_action(&mut self) -> (action: Action)
        requires
            old(self)@.inv(),
        ensures
            (final(self)@, action) == old(self)@.action(),
            final(self)@.inv(),
    {
        match self.waiting.take() {
            Some(claimed) => {
                if self.running < self.concurrency {
                    self.running = self.running + 1;
                    Action::Launch(claimed)
                } else {
                    self.waiting = Some(claimed);
                    Action::Join
                }
            },
            None => {
                if !self.drained {
                    Action::Claim
                } else if self.running > 0 {
                    Action::Join
                } else {
                    Action::Finish(self.stats)
                }
            },
        }
    }

    /// Takes over what was claimed, at the given time. A workflow whose name is
    /// not registered is recorded as failed, so that it is not claimed again.
    pub fn claimed_at(
        &mut self,
        scheduler: &Scheduler,
        journal: &mut Journal,
        claim: Option<ClaimedWorkflow>,
        now: i64,
    ) -> (outcome: Result<()>)
        requires
            old(journal).wf(),
            old(self)@.inv(),
            old(self)@.waiting is None,
        ensures
            final(journal).wf(),
            final(journal).saved() == old(journal).saved(),
            final(self)@.inv(),
            claim_taken(
                scheduler@,
                (old(self)@, old(journal)@),
                claim,
                now,
                (final(self)@, final(journal)@),
                outcome,
            ),
    {
        let workflow: ClaimedWorkflow = match claim {
            Some(workflow) => workflow,
            None => {
                self.drained = true;
                return Ok(());
            },
        };
        if scheduler.handles(&workflow.name) {
            self.waiting = Some(workflow);
            return Ok(());
        }
        let mut error = labelled("no handler registered for workflow '", &workflow.name);
        error.append("'");
        match journal.append_at(&workflow.id, &EventPayload::WorkflowFailed { error }, now) {
            Ok(_) => {
                self.stats.failed = self.stats.failed.saturating_add(1);
                Ok(())
            },
            Err(error) => Err(error),
        }
    }

    /// Takes over what was claimed.
    pub fn claimed(
        &mut self,
        scheduler: &Scheduler,
        journal: &mut Journal,
        claim: Option<ClaimedWorkflow>,
    ) -> (outcome: Result<()>)
        requires
            old(journal).wf(),
            old(self)@.inv(),
            old(self)@.waiting is None,
        ensures
            final(journal).wf(),
            final(journal).saved() == old(journal).saved(),
            final(self)@.inv(),
            exists|now: i64|
                can_be_now(now) && #[trigger] claim_taken(
                    scheduler@,
                    (old(self)@, old(journal)@),
                    claim,
                    now,
                    (final(self)@, final(journal)@),
                    outcome,
                ),
    {
        let now: i64 = now_ms();
        self.claimed_at(scheduler, journal, claim, now)
    }

    /// Takes over how a task ended.
    pub fn joined(&mut self, end: TaskEnd)
        requires
            old(self)@.inv(),
            old(self)@.running > 0,
        ensures
            final(self)@ == old(self)@.joined(end),
            final(self)@.inv(),
    {
        self.running = self.running - 1;
        match end {
            TaskEnd::Completed => {
                self.stats.completed = self.stats.completed.saturating_add(1);
            },
            TaskEnd::Failed => {
                self.stats.failed = self.stats.failed.saturating_add(1);
            },
            TaskEnd::Panicked => {
                self.stats.failed = self.stats.failed.saturating_add(1);
            },
        }
    }

    /// How many tasks run.
    pub fn running(&self) -> (n: usize)
        ensures
            n == self@.running,
    {
        self.running
    }
}

// ---------------------------------------------------------------------------
// Laws
// ---------------------------------------------------------------------------

/// What happens in a run.
pub enum DrainEvent {
    /// The run says what is to be done next.
    Asked,
    /// A claim was made, for a workflow whose name is known or not.
    Claimed { claim: Option<ClaimedWorkflow>, known: bool },
    /// A task ended.
    Joined(TaskEnd),
}

impl DrainView {
    /// Whether something can happen: claims are made where the run asks for
    /// one, and a task ends where one runs.
    pub open spec fn admits(self, event: DrainEvent) -> bool {
        match event {
            DrainEvent::Asked => true,
            DrainEvent::Claimed { .. } => self.action().1 is Claim,
            DrainEvent::Joined(_) => self.running > 0,
        }
    }

    /// What an event makes of a run.
    pub open spec fn after(self, event: DrainEvent) -> DrainView {
        match event {
            DrainEvent::Asked => self.action().0,
            DrainEvent::Claimed { claim, known } => self.claimed(claim, known),
            DrainEvent::Joined(end) => self.joined(end),
        }
    }

    /// What a history makes of a run.
    pub open spec fn run(self, history: Seq<DrainEvent>) -> DrainView
        decreases history.len(),
    {
        if history.len() == 0 {
            self
        } else {
            self.run(history.drop_last()).after(history.last())
        }
    }

    /// Whether each event of a history can happen when it does.
    pub open spec fn admits_all(self, history: Seq<DrainEvent>) -> bool
        decreases history.len(),
    {
        history.len() == 0 || {
            &&& self.admits_all(history.drop_last())
            &&& self.run(history.drop_last()).admits(history.last())
        }
    }

    /// How many workflows are with the run: they wait, run or have ended.
    pub open spec fn workflows(self) -> int {
        self.stats.completed + self.stats.failed + self.running + (if self.waiting is Some {
            1int
        } else {
            0int
        })
    }
}

/// How many workflows were claimed in a history.
pub open spec fn claims(history: Seq<DrainEvent>) -> nat
    decreases history.len(),
{
    if history.len() == 0 {
        0
    } else {
        claims(history.drop_last()) + (match history.last() {
            DrainEvent::Claimed { claim: Some(_), .. } => 1nat,
            _ => 0nat,
        })
    }
}

/// Every workflow that was claimed waits, runs, or is counted exactly once as
/// completed or failed, and never do more tasks run than may.
pub proof fn law_every_claim_is_accounted_for(
    concurrency: nat,
    recovered: nat,
    history: Seq<DrainEvent>,
)
    requires
        concurrency >= 1,
        DrainView::fresh(concurrency, recovered).admits_all(history),
        claims(history) <= u64::MAX,
    ensures
        DrainView::fresh(concurrency, recovered).run(history).workflows() == claims(history),
        DrainView::fresh(concurrency, recovered).run(history).running <= concurrency,
{
    lemma_run(concurrency, recovered, history);
}

proof fn lemma_run(concurrency: nat, recovered: nat, history: Seq<DrainEvent>)
    requires
        concurrency >= 1,
        DrainView::fresh(concurrency, recovered).admits_all(history),
        claims(history) <= u64::MAX,
    ensures
        ({
            let run = DrainView::fresh(concurrency, recovered).run(history);
            &&& run.workflows() == claims(history)
            &&& run.running <= concurrency
            &&& run.concurrency == concurrency
            &&& run.stats.recovered == recovered as u64
        }),
    decreases history.len(),
{
    if history.len() > 0 {
        lemma_run(concurrency, recovered, history.drop_last());
    }
}

/// A run that finishes found the queue empty, has no task left, and reports
/// every workflow that it claimed as completed or failed.
pub proof fn law_finish_reports_every_claim(
    concurrency: nat,
    recovered: nat,
    history: Seq<DrainEvent>,
)
    requires
        concurrency >= 1,
        recovered <= u64::MAX,
        DrainView::fresh(concurrency, recovered).admits_all(history),
        claims(history) <= u64::MAX,
        DrainView::fresh(concurrency, recovered).run(history).action().1 is Finish,
    ensures
        ({
            let run = DrainView::fresh(concurrency, recovered).run(history);
            &&& run.drained
            &&& run.running == 0
            &&& run.action().1 matches Action::Finish(stats) && {
                &&& stats.completed + stats.failed == claims(history)
                &&& stats.recovered == recovered
            }
        }),
{
    lemma_run(concurrency, recovered, history);
}

// ---------------------------------------------------------------------------
// A run and its queue
// ---------------------------------------------------------------------------

/// A run together with the journal that it works on.
pub struct RunView {
    pub drain: DrainView,
    pub ledger: Seq<LogView>,
}

/// What happens in a run and to its journal.
pub enum RunEvent {
    /// The run says what is to be done next.
    Asked,
    /// The next workflow is claimed at one time, and taken over at another.
    Claimed { claim: Option<ClaimedWorkflow>, claimed_at: i64, taken_at: i64 },
    /// A task ended.
    Joined(TaskEnd),
    /// A task works on the journal.
    Worked(Op),
}

/// Whether an operation is one that a task performs: it adds no workflow, and
/// appends to none that waits.
pub open spec fn is_task_work(ledger: Seq<LogView>, op: Op) -> bool {
    match op {
        Op::Open(row) => holds(ledger, row.id),
        Op::Append { id, .. } => holds(ledger, id) ==> ledger[slot(ledger, id)].row.status
            != WorkflowStatus::Pending,
        _ => false,
    }
}

impl RunView {
    /// A run that begins: what a prior process left running waits again.
    pub open spec fn begun(scheduler: SchedulerView, ledger: Seq<LogView>, now: i64) -> RunView {
        RunView {
            drain: DrainView::fresh(
                scheduler.concurrency,
                count(ledger, WorkflowStatus::Running),
            ),
            ledger: next(ledger, Op::Recover { now }),
        }
    }

    /// Whether something can happen. A claim is made where the run asks for
    /// one, and is taken over without an error.
    pub open spec fn admits(self, scheduler: SchedulerView, event: RunEvent) -> bool {
        match event {
            RunEvent::Asked => true,
            RunEvent::Claimed { claim, claimed_at, .. } => {
                &&& self.drain.action().1 is Claim
                &&& is_next_claim(self.ledger, claim)
                &&& claim matches Some(workflow) ==> scheduler.handlers.contains(workflow.name@)
                    || can_append(next(self.ledger, Op::Claim { now: claimed_at }), workflow.id@)
            },
            RunEvent::Joined(_) => self.drain.running > 0,
            RunEvent::Worked(op) => is_task_work(self.ledger, op),
        }
    }

    /// What an event makes of a run and its journal.
    pub open spec fn after(self, scheduler: SchedulerView, event: RunEvent) -> RunView {
        match event {
            RunEvent::Asked => RunView { drain: self.drain.action().0, ..self },
            RunEvent::Claimed { claim, claimed_at, taken_at } => {
                let ledger = next(self.ledger, Op::Claim { now: claimed_at });
                match claim {
                    Some(workflow) if !scheduler.handlers.contains(workflow.name@) => RunView {
                        drain: self.drain.claimed(claim, false),
                        ledger: next(ledger, rejection(workflow.id@, workflow.name@, taken_at)),
                    },
                    _ => RunView { drain: self.drain.claimed(claim, true), ledger },
                }
            },
            RunEvent::Joined(end) => RunView { drain: self.drain.joined(end), ..self },
            RunEvent::Worked(op) => RunView { ledger: next(self.ledger, op), ..self },
        }
    }

    /// What a history makes of a run and its journal.
    pub open spec fn run(self, scheduler: SchedulerView, history: Seq<RunEvent>) -> RunView
        decreases history.len(),
    {
        if history.len() == 0 {
            self
        } else {
            self.run(scheduler, history.drop_last()).after(scheduler, history.last())
        }
    }

    /// Whether each event of a history can happen when it does.
    pub open spec fn admits_all(self, scheduler: SchedulerView, history: Seq<RunEvent>) -> bool
        decreases history.len(),
    {
        history.len() == 0 || {
            &&& self.admits_all(scheduler, history.drop_last())
            &&& self.run(scheduler, history.drop_last()).admits(scheduler, history.last())
        }
    }
}

/// What is claimed from the journal and taken over by the run is one step of the
/// two together.
pub proof fn law_taking_a_claim_is_a_step(
    scheduler: SchedulerView,
    run: RunView,
    claim: Option<ClaimedWorkflow>,
    claimed_at: i64,
    taken_at: i64,
    after: (DrainView, Seq<LogView>),
    outcome: Result<()>,
)
    requires
        run.admits(scheduler, RunEvent::Claimed { claim, claimed_at, taken_at }),
        claim_taken(
            scheduler,
            (run.drain, next(run.ledger, Op::Claim { now: claimed_at })),
            claim,
            taken_at,
            after,
            outcome,
        ),
    ensures
        outcome is Ok,
        run.after(scheduler, RunEvent::Claimed { claim, claimed_at, taken_at }) == (RunView {
            drain: after.0,
            ledger: after.1,
        }),
{
}

/// A run drains the queue. When it finishes, no workflow waits, and each one
/// that waited when it began, or that a prior process had left running, has been
/// counted exactly once, as completed or as failed.
pub proof fn law_run_drains_the_queue(
    scheduler: SchedulerView,
    ledger: Seq<LogView>,
    now: i64,
    history: Seq<RunEvent>,
)
    requires
        ledger_ok(ledger),
        scheduler.concurrency >= 1,
        ledger.len() <= u64::MAX,
        RunView::begun(scheduler, ledger, now).admits_all(scheduler, history),
        RunView::begun(scheduler, ledger, now).run(scheduler, history).drain.action().1 is Finish,
    ensures
        ({
            let run = RunView::begun(scheduler, ledger, now).run(scheduler, history);
            &&& !any_pending(run.ledger)
            &&& run.drain.action().1 matches Action::Finish(stats) && {
                &&& stats.completed + stats.failed == count(ledger, WorkflowStatus::Pending)
                    + count(ledger, WorkflowStatus::Running)
                &&& stats.recovered == count(ledger, WorkflowStatus::Running)
            }
        }),
{
    lemma_run_and_queue(scheduler, ledger, now, history);
    let run = RunView::begun(scheduler, ledger, now).run(scheduler, history);
    lemma_none_pending(run.ledger);
    lemma_count_is_bounded(ledger, WorkflowStatus::Running);
}

/// All along a run, the workflows that wait and those that are with the run are
/// together as many as waited or had been left running when it began.
proof fn lemma_run_and_queue(
    scheduler: SchedulerView,
    ledger: Seq<LogView>,
    now: i64,
    history: Seq<RunEvent>,
)
    requires
        ledger_ok(ledger),
        scheduler.concurrency >= 1,
        ledger.len() <= u64::MAX,
        RunView::begun(scheduler, ledger, now).admits_all(scheduler, history),
    ensures
        ({
            let run = RunView::begun(scheduler, ledger, now).run(scheduler, history);
            &&& ledger_ok(run.ledger)
            &&& run.ledger.len() == ledger.len()
            &&& run.drain.drained ==> !any_pending(run.ledger)
            &&& run.drain.stats.recovered == count(ledger, WorkflowStatus::Running) as u64
            &&& count(run.ledger, WorkflowStatus::Pending) + run.drain.workflows() == count(
                ledger,
                WorkflowStatus::Pending,
            ) + count(ledger, WorkflowStatus::Running)
        }),
    decreases history.len(),
{
    let start = RunView::begun(scheduler, ledger, now);
    if history.len() == 0 {
        law_operations_keep_the_ledger_well_formed(ledger, Op::Recover { now });
        lemma_recovered_count(ledger, now);
    } else {
        lemma_run_and_queue(scheduler, ledger, now, history.drop_last());
        let before = start.run(scheduler, history.drop_last());
        let event = history.last();
        let total = count(ledger, WorkflowStatus::Pending) + count(
            ledger,
            WorkflowStatus::Running,
        );
        lemma_two_counts_are_bounded(ledger);
        assert(before.drain.workflows() <= total);
        match event {
            RunEvent::Claimed { claim, claimed_at, taken_at } => {
                let op = Op::Claim { now: claimed_at };
                law_operations_keep_the_ledger_well_formed(before.ledger, op);
                if let Some(workflow) = claim {
                    law_a_claim_shortens_the_queue(before.ledger, claimed_at);
                    lemma_claimed_is_running(before.ledger, claimed_at);
                    let claimed = next(before.ledger, op);
                    let i = choose|i: int| first_pending(before.ledger, i);
                    lemma_slot(claimed, workflow.id@, i);
                    law_operations_keep_the_ledger_well_formed(
                        claimed,
                        rejection(workflow.id@, workflow.name@, taken_at),
                    );
                    lemma_task_work(claimed, rejection(workflow.id@, workflow.name@, taken_at));
                }
            },
            RunEvent::Worked(op) => {
                law_operations_keep_the_ledger_well_formed(before.ledger, op);
                lemma_task_work(before.ledger, op);
            },
            _ => {},
        }
    }
}

/// The work of a task makes no workflow wait that did not, and none stop
/// waiting that did.
proof fn lemma_task_work(ledger: Seq<LogView>, op: Op)
    requires
        ledger_ok(ledger),
        is_task_work(ledger, op),
    ensures
        next(ledger, op).len() == ledger.len(),
        any_pending(next(ledger, op)) == any_pending(ledger),
        count(next(ledger, op), WorkflowStatus::Pending) == count(ledger, WorkflowStatus::Pending),
{
    if let Op::Append { id, payload, now } = op {
        if can_append(ledger, id) {
            let i = slot(ledger, id);
            let after = next(ledger, op);
            lemma_count_of_update(
                ledger,
                i,
                appended(ledger[i], payload, now),
                WorkflowStatus::Pending,
            );
            assert(after[i].row.status != WorkflowStatus::Pending);
            if any_pending(ledger) {
                let k = choose|k: int|
                    0 <= k < ledger.len() && (#[trigger] ledger[k]).row.status
                        == WorkflowStatus::Pending;
                assert(after[k] == ledger[k]);
            }
            if any_pending(after) {
                let k = choose|k: int|
                    0 <= k < after.len() && (#[trigger] after[k]).row.status
                        == WorkflowStatus::Pending;
                assert(after[k] == ledger[k]);
            }
        }
    }
}

/// The workflow that a claim hands out runs afterwards.
proof fn lemma_claimed_is_running(ledger: Seq<LogView>, now: i64)
    requires
        any_pending(ledger),
    ensures
        ({
            let i = choose|i: int| first_pending(ledger, i);
            let after = next(ledger, Op::Claim { now });
            &&& 0 <= i < ledger.len()
            &&& after.len() == ledger.len()
            &&& after[i].row.status == WorkflowStatus::Running
            &&& after[i].row.id == ledger[i].row.id
        }),
{
    lemma_claim_slot(ledger);
}

/// Recovery adds the workflows that ran to those that wait.
proof fn lemma_recovered_count(ledger: Seq<LogView>, now: i64)
    ensures
        count(next(ledger, Op::Recover { now }), WorkflowStatus::Pending) == count(
            ledger,
            WorkflowStatus::Pending,
        ) + count(ledger, WorkflowStatus::Running),
    decreases ledger.len(),
{
    let after = next(ledger, Op::Recover { now });
    if ledger.len() == 0 {
        assert(after =~= ledger);
        lemma_count_is_bounded(ledger, WorkflowStatus::Pending);
        lemma_count_is_bounded(ledger, WorkflowStatus::Running);
    } else {
        let rest = ledger.drop_last();
        lemma_recovered_count(rest, now);
        assert(ledger =~= rest.push(ledger.last()));
        assert(after =~= next(rest, Op::Recover { now }).push(after.last()));
        lemma_count_of_push(rest, ledger.last(), WorkflowStatus::Pending);
        lemma_count_of_push(rest, ledger.last(), WorkflowStatus::Running);
        lemma_count_of_push(
            next(rest, Op::Recover { now }),
            after.last(),
            WorkflowStatus::Pending,
        );
    }
}

/// Where no workflow waits, none is counted as waiting.
proof fn lemma_none_pending(ledger: Seq<LogView>)
    requires
        !any_pending(ledger),
    ensures
        count(ledger, WorkflowStatus::Pending) == 0,
    decreases ledger.len(),
{
    if ledger.len() == 0 {
        lemma_count_is_bounded(ledger, WorkflowStatus::Pending);
    } else {
        let rest = ledger.drop_last();
        assert(ledger =~= rest.push(ledger.last()));
        assert(ledger[ledger.len() - 1].row.status != WorkflowStatus::Pending);
        assert forall|i: int| 0 <= i < rest.len() implies (#[trigger] rest[i]).row.status
            != WorkflowStatus::Pending by {
            assert(ledger[i].row.status != WorkflowStatus::Pending);
        }
        lemma_none_pending(rest);
        lemma_count_of_push(rest, ledger.last(), WorkflowStatus::Pending);
    }
}

/// No more workflows have a status than there are.
proof fn lemma_count_is_bounded(ledger: Seq<LogView>, status: WorkflowStatus)
    ensures
        count(ledger, status) <= ledger.len(),
    decreases ledger.len(),
{
    if ledger.len() == 0 {
        assert(count(ledger, status) == 0) by {
            reveal(Seq::filter);
        }
    } else {
        lemma_count_is_bounded(ledger.drop_last(), status);
        assert(ledger =~= ledger.drop_last().push(ledger.last()));
        lemma_count_of_push(ledger.drop_last(), ledger.last(), status);
    }
}

/// No workflow both waits and runs.
proof fn lemma_two_counts_are_bounded(ledger: Seq<LogView>)
    ensures
        count(ledger, WorkflowStatus::Pending) + count(ledger, WorkflowStatus::Running)
            <= ledger.len(),
    decreases ledger.len(),
{
    if ledger.len() == 0 {
        lemma_count_is_bounded(ledger, WorkflowStatus::Pending);
        lemma_count_is_bounded(ledger, WorkflowStatus::Running);
    } else {
        let rest = ledger.drop_last();
        lemma_two_counts_are_bounded(rest);
        assert(ledger =~= rest.push(ledger.last()));
        lemma_count_of_push(rest, ledger.last(), WorkflowStatus::Pending);
        lemma_count_of_push(rest, ledger.last(), WorkflowStatus::Running);
    }
}

/// A workflow that no handler is registered for ends as failed, so that it is
/// not claimed again.
pub proof fn law_unknown_workflow_fails(
    ledger: Seq<LogView>,
    id: Seq<char>,
    name: Seq<char>,
    now: i64,
)
    requires
        ledger_ok(ledger),
        can_append(ledger, id),
    ensures
        log_of(next(ledger, rejection(id, name, now)), id) matches Some(log) && log.row.status
            == WorkflowStatus::Failed,
{
    law_append_is_scoped(
        ledger,
        id,
        PayloadView::WorkflowFailed { error: no_handler(name) },
        now,
        id,
    );
}

/// A workflow whose handler returns an error ends as failed, with the message
/// of the error in its log.
pub proof fn law_handler_error_fails_the_workflow(
    ledger: Seq<LogView>,
    id: Seq<char>,
    error: ErrorView,
    now: i64,
)
    requires
        ledger_ok(ledger),
        can_append(ledger, id),
    ensures
        log_of(settled(ledger, id, Some(error), now), id) matches Some(log) && {
            &&& log.row.status == WorkflowStatus::Failed
            &&& log.events.len() == ledger[slot(ledger, id)].events.len() + 1
            &&& log.events.last().payload == (PayloadView::WorkflowFailed {
                error: error.message(),
            })
        },
{
    law_append_is_scoped(
        ledger,
        id,
        PayloadView::WorkflowFailed { error: error.message() },
        now,
        id,
    );
}

// ---------------------------------------------------------------------------
// Each step of a run, in full
// ---------------------------------------------------------------------------

/// What a run does next. A workflow that was claimed is run whenever fewer tasks
/// run than may, at whatever point of the run; else a task is waited for. Without
/// one, the next is claimed until the queue was found empty, then the tasks that
/// run are waited for, and the run is over once none does. Only a launch changes
/// the run: one more task runs, and its workflow no longer waits.
pub proof fn law_what_a_run_does_next(drain: DrainView)
    ensures
        drain.waiting matches Some(claimed) ==> drain.running < drain.concurrency
            ==> drain.action() == (
            DrainView {
                concurrency: drain.concurrency,
                running: drain.running + 1,
                waiting: None,
                drained: drain.drained,
                stats: drain.stats,
            },
            Action::Launch(claimed),
        ),
        drain.waiting is Some && drain.running >= drain.concurrency ==> drain.action() == (
            drain,
            Action::Join,
        ),
        drain.waiting is None && !drain.drained ==> drain.action() == (drain, Action::Claim),
        drain.waiting is None && drain.drained && drain.running > 0 ==> drain.action() == (
            drain,
            Action::Join,
        ),
        drain.waiting is None && drain.drained && drain.running == 0 ==> drain.action() == (
            drain,
            Action::Finish(drain.stats),
        ),
{
}

/// A run begins with nothing running, waiting or counted, but for what was
/// recovered.
pub proof fn law_run_begins_fresh(concurrency: nat, recovered: nat)
    ensures
        ({
            let drain = DrainView::fresh(concurrency, recovered);
            &&& drain.concurrency == concurrency
            &&& drain.running == 0
            &&& drain.waiting is None
            &&& !drain.drained
            &&& drain.stats.completed == 0
            &&& drain.stats.failed == 0
            &&& recovered <= 0xffff_ffff_ffff_ffff ==> drain.stats.recovered == recovered
        }),
{
}

/// A claim of a workflow with a handler makes it wait for its task, one of a
/// workflow without a handler counts as a failure, and an empty one ends the
/// claims. Nothing else changes.
pub proof fn law_what_a_claim_makes_of_a_run(drain: DrainView, workflow: ClaimedWorkflow)
    ensures
        drain.claimed(Some(workflow), true) == (DrainView { waiting: Some(workflow), ..drain }),
        drain.stats.failed < 0xffff_ffff_ffff_ffff ==> drain.claimed(Some(workflow), false) == (
        DrainView {
            stats: RunStats {
                completed: drain.stats.completed,
                failed: (drain.stats.failed + 1) as u64,
                recovered: drain.stats.recovered,
            },
            ..drain
        }),
        drain.stats.failed == 0xffff_ffff_ffff_ffff ==> drain.claimed(Some(workflow), false)
            == drain,
        forall|known: bool|
            #[trigger] drain.claimed(None, known) == (DrainView { drained: true, ..drain }),
{
}

/// The end of a task makes room for another and is counted once: as completed
/// where it completed, and as failed where it failed or broke off. Nothing else
/// changes.
pub proof fn law_what_the_end_of_a_task_makes_of_a_run(drain: DrainView, end: TaskEnd)
    requires
        drain.running > 0,
    ensures
        ({
            let after = drain.joined(end);
            &&& after.concurrency == drain.concurrency
            &&& after.running == drain.running - 1
            &&& after.waiting == drain.waiting
            &&& after.drained == drain.drained
            &&& after.stats.recovered == drain.stats.recovered
            &&& after.stats.completed == (if end is Completed && drain.stats.completed
                < 0xffff_ffff_ffff_ffff {
                drain.stats.completed + 1
            } else {
                drain.stats.completed as int
            })
            &&& after.stats.failed == (if !(end is Completed) && drain.stats.failed
                < 0xffff_ffff_ffff_ffff {
                drain.stats.failed + 1
            } else {
                drain.stats.failed as int
            })
        }),
{
}

/// A claimed workflow is run exactly where its name is registered, and the
/// journal is left as it is then. One whose name is not is recorded as failed, and
/// why; that can be refused only where the journal has no room for it.
pub proof fn law_what_becomes_of_a_claim(
    scheduler: SchedulerView,
    before: (DrainView, Seq<LogView>),
    workflow: ClaimedWorkflow,
    now: i64,
    after: (DrainView, Seq<LogView>),
    outcome: Result<()>,
    i: int,
)
    requires
        ledger_ok(before.1),
        0 <= i < before.1.len(),
        before.1[i].row.id == workflow.id@,
        claim_taken(scheduler, before, Some(workflow), now, after, outcome),
    ensures
        scheduler.handlers.contains(workflow.name@) ==> {
            &&& outcome is Ok
            &&& after.0 == (DrainView { waiting: Some(workflow), ..before.0 })
            &&& after.1 == before.1
        },
        !scheduler.handlers.contains(workflow.name@) && (before.1[i].events.len() == 0
            || before.1[i].events.last().sequence < 0x7fff_ffff_ffff_ffff) ==> {
            &&& outcome is Ok
            &&& after.0.waiting == before.0.waiting
            &&& after.0.running == before.0.running
            &&& before.0.stats.failed < 0xffff_ffff_ffff_ffff ==> after.0.stats.failed
                == before.0.stats.failed + 1
            &&& after.1 == next(
                before.1,
                Op::Append {
                    id: workflow.id@,
                    payload: PayloadView::WorkflowFailed {
                        error: "no handler registered for workflow '"@ + workflow.name@ + "'"@,
                    },
                    now,
                },
            )
        },
        !scheduler.handlers.contains(workflow.name@) && before.1[i].events.len() > 0
            && before.1[i].events.last().sequence == 0x7fff_ffff_ffff_ffff ==> {
            &&& outcome matches Err(error) && error@ == ErrorView::Journal(
                "sequence numbers are exhausted"@,
            )
            &&& after == before
        },
{
    lemma_slot(before.1, workflow.id@, i);
}

/// A claim of nothing ends the claims, and leaves the journal as it is.
pub proof fn law_an_empty_claim_ends_the_claims(
    scheduler: SchedulerView,
    before: (DrainView, Seq<LogView>),
    now: i64,
    after: (DrainView, Seq<LogView>),
    outcome: Result<()>,
)
    requires
        claim_taken(scheduler, before, None, now, after, outcome),
    ensures
        outcome is Ok,
        after.0 == (DrainView { drained: true, ..before.0 }),
        after.1 == before.1,
{
}

/// What the end of a handler makes of the journal: nothing where there was no
/// error, and else the failure of the workflow, with the error's message.
pub proof fn law_what_the_end_of_a_handler_records(
    ledger: Seq<LogView>,
    id: Seq<char>,
    error: Error,
    now: i64,
)
    ensures
        settled(ledger, id, error_view(None), now) == ledger,
        settled(ledger, id, error_view(Some(&error)), now) == next(
            ledger,
            Op::Append {
                id,
                payload: PayloadView::WorkflowFailed { error: error@.message() },
                now,
            },
        ),
{
}

/// All that holds throughout a run: at least one task may run at a time, and no
/// more run than may.
pub proof fn law_what_holds_throughout_a_run(drain: DrainView)
    ensures
        drain.inv() <==> 1 <= drain.concurrency && drain.running <= drain.concurrency,
{
}

} // verus!
