//! What a worker generation tells the supervisor. The worker owns no state
//! and no authority: it announces itself, renews its lease, and reports its
//! executor's outcome, every message stamped with its assignment's ids.

use vstd::prelude::*;
use crate::gate::TestReport;
use crate::mail::{Assignment, WorkerMsg};

verus! {

/// What the pluggable work layer reports back.
#[derive(Debug)]
pub enum ExecutorOutcome {
    /// Work finished; the report's provenance (not this claim) drives the merge gate.
    Completed(TestReport),
    /// The worker noticed its own failure and exited cleanly.
    Crashed(String),
}

/// First contact of a worker generation.
pub fn started_msg(a: &Assignment) -> (m: WorkerMsg)
    ensures
        m == (WorkerMsg::Started { task_id: a.task_id, worker_id: a.worker_id, attempt: a.attempt }),
{
    WorkerMsg::Started { task_id: a.task_id, worker_id: a.worker_id, attempt: a.attempt }
}

/// A lease renewal.
pub fn heartbeat_msg(a: &Assignment) -> (m: WorkerMsg)
    ensures
        m == (WorkerMsg::Heartbeat { task_id: a.task_id, worker_id: a.worker_id, attempt: a.attempt }),
{
    WorkerMsg::Heartbeat { task_id: a.task_id, worker_id: a.worker_id, attempt: a.attempt }
}

/// The last message of a generation: its report, or its own death.
pub fn outcome_msg(a: &Assignment, outcome: ExecutorOutcome) -> (m: WorkerMsg)
    ensures
        match outcome {
            ExecutorOutcome::Completed(report) => m == (WorkerMsg::Finished {
                task_id: a.task_id,
                worker_id: a.worker_id,
                attempt: a.attempt,
                report,
            }),
            ExecutorOutcome::Crashed(reason) => m == (WorkerMsg::Died {
                task_id: a.task_id,
                worker_id: a.worker_id,
                attempt: a.attempt,
                reason,
            }),
        },
{
    match outcome {
        ExecutorOutcome::Completed(report) => WorkerMsg::Finished {
            task_id: a.task_id,
            worker_id: a.worker_id,
            attempt: a.attempt,
            report,
        },
        ExecutorOutcome::Crashed(reason) => WorkerMsg::Died {
            task_id: a.task_id,
            worker_id: a.worker_id,
            attempt: a.attempt,
            reason,
        },
    }
}

} // verus!
