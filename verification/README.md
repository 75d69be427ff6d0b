# swarm_ci

The deterministic core of Swarm CI, a self-healing pull-request fixer: a
planner and an implementer agent propose fixes, a supervisor tracks a lease
per in-flight task and reassigns the work when a worker stops sending
heartbeats, and a merge gate opens only on a passing report whose provenance
the policy accepts.

## Layout

- `src/` — the library, verified with Verus.
  - `task.rs` — the task state machine and its legal edges.
  - `supervisor.rs` — the supervisor as a step function from state and
    input (`submit_pr`, `on_msg`, `reap_expired`) to the next state, the
    events to publish and the worker generations to start; the laws about
    fencing, reassignment, terminal states and the merge gate.
  - `gate.rs`, `lease.rs`, `events.rs`, `mail.rs`, `worker.rs`, `error.rs`,
    `ids.rs` — the merge gate, lease parameters, events, the worker protocol,
    errors and identifiers.
  - `plan.rs`, `implementer.rs`, `llm.rs`, `agents.rs`, `workspace.rs`,
    `api.rs`, `context.rs` — the agent layer's pure parts: plan extraction
    and path safety, the planner's context and prompt, the implementer's
    attempt as a state machine, test reports of real `cargo test` runs,
    provider selection and response parsing, pull-request URLs and sandbox
    steps.
  - `text.rs`, `chars.rs` — string operations with exact specifications.
  - `fixture.rs` — the demo fixture's `sum`.
- `tests/` — tests of the library.
- `app/` — the service: HTTP API and event stream, the supervisor loop and
  clock, the killable worker runtime, model providers, sandboxes and git.
