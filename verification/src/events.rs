//! The typed event stream. Only the supervisor produces these, so anything a
//! subscriber shows is the backend's real state, never an invented story.

use vstd::prelude::*;
use crate::ids::{Attempt, TaskId, WorkerId};

verus! {

#[derive(Debug, Clone, Copy, PartialEq, Eq, Structural)]
pub enum TestOrigin {
    /// Produced by actually executing `cargo test` in the sandbox.
    RealCargoTest,
    /// Produced by a scripted or simulated runner (development mode only).
    Simulated,
}

#[derive(Debug, Clone)]
pub enum SwarmEvent {
    TaskCreated { task_id: TaskId, pr_id: String, title: String },
    WorkerStarted { task_id: TaskId, worker_id: WorkerId, attempt: Attempt },
    WorkerHeartbeat { task_id: TaskId, worker_id: WorkerId, attempt: Attempt },
    WorkerFailed { task_id: TaskId, worker_id: WorkerId, attempt: Attempt, reason: String },
    TaskReassigned { task_id: TaskId, attempt: Attempt },
    /// Fencing in action: a superseded worker generation tried to talk to us.
    StaleResultRejected { task_id: TaskId, worker_id: WorkerId, attempt: Attempt },
    TestsPassed { task_id: TaskId, origin: TestOrigin },
    TestsFailed { task_id: TaskId, reason: String },
    MergeGated { task_id: TaskId, reason: String },
    MergeOpened { task_id: TaskId },
    /// The real pull request behind a merged task was merged on GitHub.
    GithubPrMerged { task_id: TaskId, url: String },
    /// A best-effort GitHub action failed; the merge gate decision is unaffected.
    GithubActionFailed { task_id: TaskId, reason: String },
}


/// A `SwarmEvent` with its text fields taken by their character sequences.
pub enum EventView {
    TaskCreated { task_id: TaskId, pr_id: Seq<char>, title: Seq<char> },
    WorkerStarted { task_id: TaskId, worker_id: WorkerId, attempt: Attempt },
    WorkerHeartbeat { task_id: TaskId, worker_id: WorkerId, attempt: Attempt },
    WorkerFailed { task_id: TaskId, worker_id: WorkerId, attempt: Attempt, reason: Seq<char> },
    TaskReassigned { task_id: TaskId, attempt: Attempt },
    StaleResultRejected { task_id: TaskId, worker_id: WorkerId, attempt: Attempt },
    TestsPassed { task_id: TaskId, origin: TestOrigin },
    TestsFailed { task_id: TaskId, reason: Seq<char> },
    MergeGated { task_id: TaskId, reason: Seq<char> },
    MergeOpened { task_id: TaskId },
    GithubPrMerged { task_id: TaskId, url: Seq<char> },
    GithubActionFailed { task_id: TaskId, reason: Seq<char> },
}

impl View for SwarmEvent {
    type V = EventView;

    open spec fn view(&self) -> EventView {
        match *self {
            SwarmEvent::TaskCreated { task_id, pr_id, title } => EventView::TaskCreated { task_id, pr_id: pr_id@, title: title@ },
            SwarmEvent::WorkerStarted { task_id, worker_id, attempt } => EventView::WorkerStarted { task_id, worker_id, attempt },
            SwarmEvent::WorkerHeartbeat { task_id, worker_id, attempt } => EventView::WorkerHeartbeat { task_id, worker_id, attempt },
            SwarmEvent::WorkerFailed { task_id, worker_id, attempt, reason } => EventView::WorkerFailed { task_id, worker_id, attempt, reason: reason@ },
            SwarmEvent::TaskReassigned { task_id, attempt } => EventView::TaskReassigned { task_id, attempt },
            SwarmEvent::StaleResultRejected { task_id, worker_id, attempt } => EventView::StaleResultRejected { task_id, worker_id, attempt },
            SwarmEvent::TestsPassed { task_id, origin } => EventView::TestsPassed { task_id, origin },
            SwarmEvent::TestsFailed { task_id, reason } => EventView::TestsFailed { task_id, reason: reason@ },
            SwarmEvent::MergeGated { task_id, reason } => EventView::MergeGated { task_id, reason: reason@ },
            SwarmEvent::MergeOpened { task_id } => EventView::MergeOpened { task_id },
            SwarmEvent::GithubPrMerged { task_id, url } => EventView::GithubPrMerged { task_id, url: url@ },
            SwarmEvent::GithubActionFailed { task_id, reason } => EventView::GithubActionFailed { task_id, reason: reason@ },
        }
    }
}

/// The views of a sequence of events, in order.
pub open spec fn event_views(evs: Seq<SwarmEvent>) -> Seq<EventView> {
    evs.map_values(|e: SwarmEvent| e@)
}

/// The dotted name under which an event is published (`task.created`, ...).
pub open spec fn event_label(ev: SwarmEvent) -> Seq<char> {
    match ev {
        SwarmEvent::TaskCreated { .. } => "task.created"@,
        SwarmEvent::WorkerStarted { .. } => "worker.started"@,
        SwarmEvent::WorkerHeartbeat { .. } => "worker.heartbeat"@,
        SwarmEvent::WorkerFailed { .. } => "worker.failed"@,
        SwarmEvent::TaskReassigned { .. } => "task.reassigned"@,
        SwarmEvent::StaleResultRejected { .. } => "stale_result.rejected"@,
        SwarmEvent::TestsPassed { .. } => "tests.passed"@,
        SwarmEvent::TestsFailed { .. } => "tests.failed"@,
        SwarmEvent::MergeGated { .. } => "merge.gated"@,
        SwarmEvent::MergeOpened { .. } => "merge.opened"@,
        SwarmEvent::GithubPrMerged { .. } => "github.pr_merged"@,
        SwarmEvent::GithubActionFailed { .. } => "github.action_failed"@,
    }
}

/// The task an event is about.
pub open spec fn event_task(ev: SwarmEvent) -> TaskId {
    match ev {
        SwarmEvent::TaskCreated { task_id, .. } => task_id,
        SwarmEvent::WorkerStarted { task_id, .. } => task_id,
        SwarmEvent::WorkerHeartbeat { task_id, .. } => task_id,
        SwarmEvent::WorkerFailed { task_id, .. } => task_id,
        SwarmEvent::TaskReassigned { task_id, .. } => task_id,
        SwarmEvent::StaleResultRejected { task_id, .. } => task_id,
        SwarmEvent::TestsPassed { task_id, .. } => task_id,
        SwarmEvent::TestsFailed { task_id, .. } => task_id,
        SwarmEvent::MergeGated { task_id, .. } => task_id,
        SwarmEvent::MergeOpened { task_id } => task_id,
        SwarmEvent::GithubPrMerged { task_id, .. } => task_id,
        SwarmEvent::GithubActionFailed { task_id, .. } => task_id,
    }
}

impl SwarmEvent {
    /// Spec-style dotted event name, used on the `event:` line of the stream.
    pub fn name(&self) -> (s: &'static str)
        ensures
            s@ == event_label(*self),
    {
        match self {
            SwarmEvent::TaskCreated { .. } => "task.created",
            SwarmEvent::WorkerStarted { .. } => "worker.started",
            SwarmEvent::WorkerHeartbeat { .. } => "worker.heartbeat",
            SwarmEvent::WorkerFailed { .. } => "worker.failed",
            SwarmEvent::TaskReassigned { .. } => "task.reassigned",
            SwarmEvent::StaleResultRejected { .. } => "stale_result.rejected",
            SwarmEvent::TestsPassed { .. } => "tests.passed",
            SwarmEvent::TestsFailed { .. } => "tests.failed",
            SwarmEvent::MergeGated { .. } => "merge.gated",
            SwarmEvent::MergeOpened { .. } => "merge.opened",
            SwarmEvent::GithubPrMerged { .. } => "github.pr_merged",
            SwarmEvent::GithubActionFailed { .. } => "github.action_failed",
        }
    }

    /// The task the event is about.
    pub fn task_id(&self) -> (t: TaskId)
        ensures
            t == event_task(*self),
    {
        match self {
            SwarmEvent::TaskCreated { task_id, .. } => *task_id,
            SwarmEvent::WorkerStarted { task_id, .. } => *task_id,
            SwarmEvent::WorkerHeartbeat { task_id, .. } => *task_id,
            SwarmEvent::WorkerFailed { task_id, .. } => *task_id,
            SwarmEvent::TaskReassigned { task_id, .. } => *task_id,
            SwarmEvent::StaleResultRejected { task_id, .. } => *task_id,
            SwarmEvent::TestsPassed { task_id, .. } => *task_id,
            SwarmEvent::TestsFailed { task_id, .. } => *task_id,
            SwarmEvent::MergeGated { task_id, .. } => *task_id,
            SwarmEvent::MergeOpened { task_id } => *task_id,
            SwarmEvent::GithubPrMerged { task_id, .. } => *task_id,
            SwarmEvent::GithubActionFailed { task_id, .. } => *task_id,
        }
    }
}

/// The name of an event as a free function, as the stream handler uses it.
pub fn event_name(ev: &SwarmEvent) -> (s: &'static str)
    ensures
        s@ == event_label(*ev),
{
    ev.name()
}

} // verus!
