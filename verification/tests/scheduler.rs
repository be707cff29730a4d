use clawnicle::scheduler::settle;
use clawnicle::{
    Action, Change, Context, Error, EventPayload, Journal, Result, RunStats, Scheduler, TaskEnd,
    WorkflowLog,
};
use serde_json::Value;

/// Rows as storage holds them.
struct Store {
    rows: Vec<WorkflowLog>,
}

impl Store {
    fn new() -> Store {
        Store { rows: Vec::new() }
    }

    fn open(&self) -> Journal {
        let rows = self
            .rows
            .iter()
            .map(|log| WorkflowLog {
                row: log.row.clone(),
                events: log.events.clone(),
            })
            .collect();
        Journal::open(rows).unwrap()
    }

    fn save(&mut self, changes: Vec<Change>) {
        for change in changes {
            match change {
                Change::InsertWorkflow(row) => self.rows.push(WorkflowLog {
                    row,
                    events: Vec::new(),
                }),
                Change::InsertEvent(event) => {
                    let log = self
                        .rows
                        .iter_mut()
                        .find(|log| log.row.id == event.workflow_id)
                        .unwrap();
                    log.events.push(event);
                }
                Change::UpdateWorkflow {
                    id,
                    status,
                    updated_at_ms,
                } => {
                    let log = self.rows.iter_mut().find(|log| log.row.id == id).unwrap();
                    log.row.status = status;
                    log.row.updated_at_ms = updated_at_ms;
                }
            }
        }
    }

    /// Performs an operation on the journal and saves what it changed.
    fn with<T>(&mut self, operation: impl FnOnce(&mut Journal) -> T) -> T {
        let mut journal = self.open();
        let out = operation(&mut journal);
        self.save(journal.take_changes());
        out
    }

    fn status(&self, id: &str) -> Option<String> {
        self.open().workflow_status(id).unwrap()
    }
}

/// Drains the queue; `handler` stands for every registered handler. Tasks end
/// in the order in which they were launched. Returns the counts and the highest
/// number of tasks that ran at a time.
fn run_until_idle(
    scheduler: &Scheduler,
    store: &mut Store,
    mut handler: impl FnMut(&mut Context, Value) -> Result<Value>,
) -> Result<(RunStats, usize)> {
    let mut drain = store.with(|journal| scheduler.start_drain(journal))?;
    let mut tasks = Vec::new();
    let mut most = 0;
    loop {
        match drain.next_action() {
            Action::Claim => {
                let claim = store.with(|journal| journal.claim_next_pending())?;
                store.with(|journal| drain.claimed(scheduler, journal, claim))?;
            }
            Action::Launch(claimed) => {
                tasks.push(claimed);
                most = most.max(drain.running());
            }
            Action::Join => {
                let claimed = tasks.remove(0);
                let mut cx =
                    Context::open_or_start(store.open(), &claimed.id, &claimed.name, "").unwrap();
                let result = handler(&mut cx, claimed.input.unwrap_or(Value::Null));
                store.save(cx.take_changes());
                let end = store.with(|journal| {
                    settle(journal, &claimed.id, result.as_ref().err())
                });
                drain.joined(end);
            }
            Action::Finish(stats) => return Ok((stats, most)),
        }
    }
}

#[test]
fn runs_submitted_workflows_to_completion() {
    let mut store = Store::new();
    let mut counter = 0u64;
    let mut scheduler = Scheduler::new().with_concurrency(4);
    scheduler.register("adder");

    for i in 1..=5u32 {
        store
            .with(|journal| {
                scheduler.submit(journal, &format!("wf-{i}"), "adder", &Value::from(i))
            })
            .unwrap();
    }

    let (stats, most) = run_until_idle(&scheduler, &mut store, |cx, input| {
        let n = input.as_u64().unwrap_or(0);
        counter += n;
        cx.complete(&Value::from(n))?;
        Ok(Value::from(n))
    })
    .unwrap();
    assert_eq!(stats.completed, 5);
    assert_eq!(stats.failed, 0);
    assert_eq!(counter, 1 + 2 + 3 + 4 + 5);
    assert_eq!(most, 4);

    // Every workflow should be in terminal state now.
    for i in 1..=5u32 {
        assert_eq!(store.status(&format!("wf-{i}")).as_deref(), Some("completed"));
    }
}

#[test]
fn handler_returning_error_marks_workflow_failed() {
    let mut store = Store::new();
    let mut scheduler = Scheduler::new();
    scheduler.register("broken");
    store
        .with(|journal| scheduler.submit(journal, "wf-x", "broken", &Value::Null))
        .unwrap();

    let (stats, _) = run_until_idle(&scheduler, &mut store, |_cx, _input| {
        Err(Error::Tool("nope".into()))
    })
    .unwrap();
    assert_eq!(stats.completed, 0);
    assert_eq!(stats.failed, 1);
    assert_eq!(store.status("wf-x").as_deref(), Some("failed"));
    let events = store.open().read_all("wf-x").unwrap();
    assert!(matches!(
        &events.last().unwrap().payload,
        EventPayload::WorkflowFailed { error } if error == "tool failed: nope"
    ));
}

#[test]
fn unknown_workflow_name_fails_fast() {
    let mut store = Store::new();
    let scheduler = Scheduler::new();
    store
        .with(|journal| scheduler.submit(journal, "wf-y", "never-registered", &Value::Null))
        .unwrap();

    let (stats, _) =
        run_until_idle(&scheduler, &mut store, |_, _| panic!("no handler is known")).unwrap();
    assert_eq!(stats.failed, 1);
    assert_eq!(store.status("wf-y").as_deref(), Some("failed"));
    let events = store.open().read_all("wf-y").unwrap();
    assert!(matches!(
        &events.last().unwrap().payload,
        EventPayload::WorkflowFailed { error }
            if error == "no handler registered for workflow 'never-registered'"
    ));
}

#[test]
fn recovery_scan_picks_up_abandoned_workflows() {
    let mut store = Store::new();

    // Simulate a prior process that claimed but did not finish.
    store.with(|journal| {
        journal
            .submit_pending("recover", "wf-r", &Value::from("hello"))
            .unwrap();
        journal.claim_next_pending().unwrap(); // status now 'running'
    });

    let mut scheduler = Scheduler::new();
    scheduler.register("recover");
    let (stats, _) = run_until_idle(&scheduler, &mut store, |cx, input| {
        assert_eq!(input, Value::from("hello"));
        cx.complete(&input)?;
        Ok(input)
    })
    .unwrap();
    assert_eq!(
        stats.recovered, 1,
        "startup scan must reset running -> pending"
    );
    assert_eq!(stats.completed, 1);
    assert_eq!(store.status("wf-r").as_deref(), Some("completed"));
}

#[test]
fn an_empty_queue_is_done_at_once() {
    let mut store = Store::new();
    let (stats, most) =
        run_until_idle(&Scheduler::default(), &mut store, |_, _| panic!("nothing runs")).unwrap();
    assert_eq!((stats.completed, stats.failed, stats.recovered), (0, 0, 0));
    assert_eq!(most, 0);
    let none = RunStats::default();
    assert_eq!((none.completed, none.failed, none.recovered), (0, 0, 0));
}

#[test]
fn at_least_one_workflow_runs_at_a_time() {
    let mut store = Store::new();
    let mut scheduler = Scheduler::new().with_concurrency(0);
    scheduler.register("t");
    for id in ["a", "b", "c"] {
        store
            .with(|journal| scheduler.submit(journal, id, "t", &Value::Null))
            .unwrap();
    }
    let (stats, most) =
        run_until_idle(&scheduler, &mut store, |_, input| Ok(input)).unwrap();
    assert_eq!(stats.completed, 3);
    assert_eq!(most, 1);
}

#[test]
fn every_claim_is_counted_once() {
    let mut store = Store::new();
    let mut scheduler = Scheduler::new().with_concurrency(2);
    scheduler.register("good");
    scheduler.register("good");
    for i in 0..7 {
        let name = if i % 3 == 0 { "unknown" } else { "good" };
        store
            .with(|journal| {
                scheduler.submit(journal, &format!("wf-{i}"), name, &Value::from(i))
            })
            .unwrap();
    }
    let (stats, most) = run_until_idle(&scheduler, &mut store, |_, input| {
        if input == Value::from(4) {
            Err(Error::Cancelled)
        } else {
            Ok(input)
        }
    })
    .unwrap();
    assert_eq!(stats.completed, 3);
    assert_eq!(stats.failed, 4);
    assert_eq!(most, 2);
}

#[test]
fn a_task_that_panics_counts_as_failed() {
    let mut store = Store::new();
    let mut scheduler = Scheduler::new();
    scheduler.register("t");
    store
        .with(|journal| scheduler.submit(journal, "a", "t", &Value::Null))
        .unwrap();
    let mut drain = store.with(|journal| scheduler.start_drain(journal)).unwrap();
    assert!(matches!(drain.next_action(), Action::Claim));
    let claim = store.with(|journal| journal.claim_next_pending()).unwrap();
    store
        .with(|journal| drain.claimed(&scheduler, journal, claim))
        .unwrap();
    assert!(matches!(drain.next_action(), Action::Launch(claimed) if claimed.id == "a"));
    assert!(matches!(drain.next_action(), Action::Claim));
    let claim = store.with(|journal| journal.claim_next_pending()).unwrap();
    store
        .with(|journal| drain.claimed(&scheduler, journal, claim))
        .unwrap();
    assert!(matches!(drain.next_action(), Action::Join));
    drain.joined(TaskEnd::Panicked);
    let Action::Finish(stats) = drain.next_action() else {
        panic!("nothing is left to do");
    };
    assert_eq!((stats.completed, stats.failed), (0, 1));
}

#[test]
fn a_claim_that_the_journal_lost_is_reported() {
    let mut store = Store::new();
    let scheduler = Scheduler::new();
    store
        .with(|journal| scheduler.submit(journal, "a", "t", &Value::Null))
        .unwrap();
    let mut drain = store.with(|journal| scheduler.start_drain(journal)).unwrap();
    let claim = store.with(|journal| journal.claim_next_pending()).unwrap();
    let mut other = Journal::open(Vec::new()).unwrap();
    let refused = drain.claimed(&scheduler, &mut other, claim);
    assert!(matches!(refused, Err(Error::Journal(_))));
}

#[test]
fn a_workflow_is_submitted_once() {
    let mut store = Store::new();
    let scheduler = Scheduler::new();
    store
        .with(|journal| scheduler.submit(journal, "a", "t", &Value::Null))
        .unwrap();
    let again = store.with(|journal| scheduler.submit(journal, "a", "t", &Value::Null));
    assert!(matches!(again, Err(Error::Journal(_))));
    assert!(!scheduler.handles("t"));
}

#[test]
fn a_run_leaves_nothing_waiting() {
    let mut store = Store::new();
    let mut scheduler = Scheduler::new().with_concurrency(2);
    scheduler.register("good");
    for i in 0..6 {
        let name = if i == 3 { "unknown" } else { "good" };
        store
            .with(|journal| scheduler.submit(journal, &format!("wf-{i}"), name, &Value::Null))
            .unwrap();
    }
    // Two are left running by a prior process.
    store.with(|journal| {
        journal.claim_next_pending().unwrap();
        journal.claim_next_pending().unwrap();
    });
    let (stats, _) = run_until_idle(&scheduler, &mut store, |cx, input| {
        cx.complete(&input)?;
        Ok(input)
    })
    .unwrap();
    assert_eq!(stats.recovered, 2);
    assert_eq!(stats.completed + stats.failed, 6);
    assert_eq!(stats.failed, 1);
    assert!(store
        .with(|journal| journal.claim_next_pending())
        .unwrap()
        .is_none());
}
