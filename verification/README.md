# Clawnicle

A durable workflow runtime for LLM agents. A workflow goes through a `Context`
for every tool and model call; each call is journaled, and when the workflow is
run again, what has completed is answered from the journal. Retries, token, cost
and time budgets, cancellation and a queue of workflows come with it.

The library in `src/` is verified with Verus. Its centre is the journal:

- `src/ledger.rs` is the mathematical journal: what each operation makes of it,
  and what holds after any history of operations (the log is append-only, what a
  lookup has found it finds forever, the status says what the log says).
- `src/session.rs` is the mathematical context of a workflow, with the laws of
  replay, retries and budgets.
- `src/journal.rs`, `src/context.rs` and `src/scheduler.rs` are the executable
  counterparts, each function with a contract over these models.

Outside work is left to whoever drives the library. A journal is opened over the
rows that storage holds, and hands over the changes that storage has to carry
out. A call is begun, its tool is run, and its outcome is handed back. `app/`
does this with SQLite, Tokio and HTTP, and holds the command line that lists and
shows workflows.

A few calls into `serde_json`, `sha2` and the standard library are trusted: each
is a small function marked `external_body`, or a specification of the outside
function, with a comment that says what is claimed of it.
