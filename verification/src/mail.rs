//! The message protocol from workers to the supervisor. Every message carries
//! its attempt number, so messages from a superseded generation are fenced out.

use vstd::prelude::*;
use crate::gate::TestReport;
use crate::ids::{Attempt, TaskId, WorkerId};
use crate::lease::LeaseConfig;
use crate::task::TaskSpec;

verus! {

/// One (re)assignment of a task to a worker generation.
#[derive(Debug)]
pub struct Assignment {
    pub task_id: TaskId,
    pub worker_id: WorkerId,
    pub attempt: Attempt,
    pub spec: TaskSpec,
    pub lease: LeaseConfig,
}

impl Clone for Assignment {
    fn clone(&self) -> (r: Self)
        ensures
            r == *self,
    {
        Assignment {
            task_id: self.task_id,
            worker_id: self.worker_id,
            attempt: self.attempt,
            spec: self.spec.clone(),
            lease: self.lease,
        }
    }
}

/// Worker to supervisor, one direction only.
#[derive(Debug)]
pub enum WorkerMsg {
    /// This worker generation picked up its assignment.
    Started { task_id: TaskId, worker_id: WorkerId, attempt: Attempt },
    /// Lease renewal.
    Heartbeat { task_id: TaskId, worker_id: WorkerId, attempt: Attempt },
    /// The executor finished; the report's provenance decides the merge gate.
    Finished { task_id: TaskId, worker_id: WorkerId, attempt: Attempt, report: TestReport },
    /// The worker noticed its own failure and exited cleanly.
    Died { task_id: TaskId, worker_id: WorkerId, attempt: Attempt, reason: String },
}

pub open spec fn msg_task(m: WorkerMsg) -> TaskId {
    match m {
        WorkerMsg::Started { task_id, .. } => task_id,
        WorkerMsg::Heartbeat { task_id, .. } => task_id,
        WorkerMsg::Finished { task_id, .. } => task_id,
        WorkerMsg::Died { task_id, .. } => task_id,
    }
}

pub open spec fn msg_worker(m: WorkerMsg) -> WorkerId {
    match m {
        WorkerMsg::Started { worker_id, .. } => worker_id,
        WorkerMsg::Heartbeat { worker_id, .. } => worker_id,
        WorkerMsg::Finished { worker_id, .. } => worker_id,
        WorkerMsg::Died { worker_id, .. } => worker_id,
    }
}

pub open spec fn msg_attempt(m: WorkerMsg) -> Attempt {
    match m {
        WorkerMsg::Started { attempt, .. } => attempt,
        WorkerMsg::Heartbeat { attempt, .. } => attempt,
        WorkerMsg::Finished { attempt, .. } => attempt,
        WorkerMsg::Died { attempt, .. } => attempt,
    }
}

impl WorkerMsg {
    /// The kind, task, worker and attempt of a message, for tracing.
    pub fn meta(&self) -> (r: (&'static str, TaskId, WorkerId, Attempt))
        ensures
            r.1 == msg_task(*self),
            r.2 == msg_worker(*self),
            r.3 == msg_attempt(*self),
            r.0@ == (match *self {
                WorkerMsg::Started { .. } => "started"@,
                WorkerMsg::Heartbeat { .. } => "heartbeat"@,
                WorkerMsg::Finished { .. } => "finished"@,
                WorkerMsg::Died { .. } => "died"@,
            }),
    {
        match self {
            WorkerMsg::Started { task_id, worker_id, attempt } => ("started", *task_id, *worker_id, *attempt),
            WorkerMsg::Heartbeat { task_id, worker_id, attempt } => ("heartbeat", *task_id, *worker_id, *attempt),
            WorkerMsg::Finished { task_id, worker_id, attempt, .. } => ("finished", *task_id, *worker_id, *attempt),
            WorkerMsg::Died { task_id, worker_id, attempt, .. } => ("died", *task_id, *worker_id, *attempt),
        }
    }
}

} // verus!
