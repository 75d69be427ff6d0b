//! Typed errors: every failure a caller can react to is its own variant.

use vstd::prelude::*;
use crate::ids::{Attempt, TaskId, WorkerId, uuid_text};
use crate::task::{TaskStatus, status_name};
use crate::text::{decimal, push_decimal};

verus! {

#[derive(Debug)]
pub enum SwarmError {
    TaskNotFound(TaskId),
    IllegalTransition { from: TaskStatus, to: TaskStatus },
    StaleWorkerMessage {
        task_id: TaskId,
        worker_id: WorkerId,
        from_attempt: Attempt,
        current_attempt: Attempt,
    },
    AttemptsExhausted(TaskId),
    InvalidConfig(String),
    ChannelClosed,
}

pub open spec fn swarm_error_message(e: SwarmError) -> Seq<char> {
    match e {
        SwarmError::TaskNotFound(id) => "task "@ + uuid_text(id.0) + " not found"@,
        SwarmError::IllegalTransition { from, to } => "illegal state transition from "@ + status_name(from)
            + " to "@ + status_name(to),
        SwarmError::StaleWorkerMessage { from_attempt, current_attempt, .. } =>
            "old agent result rejected \u{2014} task was already reassigned (message from attempt "@
            + decimal(from_attempt as nat) + ", current attempt "@ + decimal(current_attempt as nat) + ")"@,
        SwarmError::AttemptsExhausted(id) => "attempts exhausted for task "@ + uuid_text(id.0),
        SwarmError::InvalidConfig(m) => "invalid configuration: "@ + m@,
        SwarmError::ChannelClosed => "internal channel closed"@,
    }
}

impl SwarmError {
    /// The human-readable message of the error.
    pub fn message(&self) -> (m: String)
        ensures
            m@ == swarm_error_message(*self),
    {
        match self {
            SwarmError::TaskNotFound(id) => {
                let mut m = String::from_str("task ");
                let t = id.to_text();
                m.append(t.as_str());
                m.append(" not found");
                m
            },
            SwarmError::IllegalTransition { from, to } => {
                let mut m = String::from_str("illegal state transition from ");
                m.append(from.name());
                m.append(" to ");
                m.append(to.name());
                m
            },
            SwarmError::StaleWorkerMessage { from_attempt, current_attempt, .. } => {
                let mut m = String::from_str(
                    "old agent result rejected \u{2014} task was already reassigned (message from attempt ",
                );
                push_decimal(&mut m, *from_attempt as u64);
                m.append(", current attempt ");
                push_decimal(&mut m, *current_attempt as u64);
                m.append(")");
                m
            },
            SwarmError::AttemptsExhausted(id) => {
                let mut m = String::from_str("attempts exhausted for task ");
                let t = id.to_text();
                m.append(t.as_str());
                m
            },
            SwarmError::InvalidConfig(c) => {
                let mut m = String::from_str("invalid configuration: ");
                m.append(c.as_str());
                m
            },
            SwarmError::ChannelClosed => String::from_str("internal channel closed"),
        }
    }
}

} // verus!
