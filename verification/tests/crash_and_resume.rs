use clawnicle::{Change, Context, Journal, Result, WorkflowLog};
use serde_json::Value;

/// Rows as storage holds them.
struct Store {
    rows: Vec<WorkflowLog>,
}

impl Store {
    fn open(&self) -> Journal {
        let rows = self
            .rows
            .iter()
            .map(|log| WorkflowLog {
                row: log.row.clone(),
                events: log.events.clone(),
            })
            .collect();
        Journal::open(rows).unwrap()
    }

    fn save(&mut self, changes: Vec<Change>) {
        for change in changes {
            match change {
                Change::InsertWorkflow(row) => self.rows.push(WorkflowLog {
                    row,
                    events: Vec::new(),
                }),
                Change::InsertEvent(event) => {
                    let log = self
                        .rows
                        .iter_mut()
                        .find(|log| log.row.id == event.workflow_id)
                        .unwrap();
                    log.events.push(event);
                }
                Change::UpdateWorkflow {
                    id,
                    status,
                    updated_at_ms,
                } => {
                    let log = self.rows.iter_mut().find(|log| log.row.id == id).unwrap();
                    log.row.status = status;
                    log.row.updated_at_ms = updated_at_ms;
                }
            }
        }
    }
}

/// Runs a tool call, and saves what it changed.
fn call(
    cx: &mut Context,
    store: &mut Store,
    step_id: &str,
    tool: impl FnOnce() -> std::result::Result<Value, String>,
) -> Result<u64> {
    let output = cx.call(step_id, tool);
    store.save(cx.take_changes());
    Ok(output?.as_u64().unwrap())
}

fn scan(
    cx: &mut Context,
    store: &mut Store,
    calls: &mut [u32; 3],
    b_should_fail: bool,
) -> Result<u64> {
    let a = call(cx, store, "step-a", || {
        calls[0] += 1;
        Ok(Value::from(1))
    })?;

    let b = call(cx, store, "step-b", || {
        calls[1] += 1;
        if b_should_fail {
            return Err("simulated mid-workflow crash".to_string());
        }
        Ok(Value::from(2))
    })?;

    let c = call(cx, store, "step-c", || {
        calls[2] += 1;
        Ok(Value::from(4))
    })?;

    Ok(a + b + c)
}

#[test]
fn crash_mid_workflow_resumes_from_last_successful_step() {
    let mut store = Store { rows: Vec::new() };
    let mut calls = [0u32; 3];

    // Run 1: step-a succeeds, step-b fails, step-c never reached.
    {
        let mut cx = Context::open_or_start(store.open(), "scan-1", "scan", "h").unwrap();
        store.save(cx.take_changes());
        let result = scan(&mut cx, &mut store, &mut calls, true);
        assert!(result.is_err(), "first run should fail");
    }
    assert_eq!(calls[0], 1, "step-a ran once");
    assert_eq!(calls[1], 1, "step-b ran once and failed");
    assert_eq!(calls[2], 0, "step-c never reached");

    // Run 2: reopen the journal, step-b now succeeds. step-a must not re-run.
    let final_sum = {
        let mut cx = Context::open_or_start(store.open(), "scan-1", "scan", "h").unwrap();
        let result = scan(&mut cx, &mut store, &mut calls, false).unwrap();
        cx.complete(&Value::from(result)).unwrap();
        store.save(cx.take_changes());
        result
    };

    assert_eq!(final_sum, 7);
    assert_eq!(calls[0], 1, "step-a did NOT re-execute on resume");
    assert_eq!(calls[1], 2, "step-b re-executed after crash");
    assert_eq!(calls[2], 1, "step-c ran once after resume");

    // Run 3: workflow already completed; cached final output returns immediately.
    let cx = Context::open_or_start(store.open(), "scan-1", "scan", "h").unwrap();
    assert_eq!(cx.cached_final_output().unwrap(), Some(Value::from(7)));
}
