//! The task state machine: explicit, enum-driven, checked at run time.
//!
//! `Pending -> Assigned -> InProgress -> TestsRunning -> Passed | Failed`,
//! then `Passed -> Merged`. Reassignment is a move back to `Assigned` with a
//! larger attempt number; `Failed` and `Merged` are terminal.

use vstd::prelude::*;
use crate::error::SwarmError;
use crate::ids::{Attempt, TaskId, WorkerId};

verus! {

/// What a pull-request review task is about.
#[derive(Debug, PartialEq, Eq)]
pub struct TaskSpec {
    /// External identifier of the PR under review.
    pub pr_id: String,
    pub title: String,
    /// Diff summary / bug description the planner reads.
    pub bug_description: String,
    /// Optional GitHub PR link (`.../pull/<n>`).
    pub pr_url: Option<String>,
    /// Optional direct git URL; takes precedence over `pr_url`.
    pub repo_url: Option<String>,
    /// Optional explicit ref to check out; the remote HEAD by default.
    pub git_ref: Option<String>,
}

pub fn clone_opt_string(s: &Option<String>) -> (r: Option<String>)
    ensures
        r == *s,
{
    match s {
        Some(x) => Some(x.clone()),
        None => None,
    }
}

impl Clone for TaskSpec {
    fn clone(&self) -> (r: Self)
        ensures
            r == *self,
    {
        TaskSpec {
            pr_id: self.pr_id.clone(),
            title: self.title.clone(),
            bug_description: self.bug_description.clone(),
            pr_url: clone_opt_string(&self.pr_url),
            repo_url: clone_opt_string(&self.repo_url),
            git_ref: clone_opt_string(&self.git_ref),
        }
    }
}

#[derive(Debug, Clone, Copy, PartialEq, Eq, Structural, Hash)]
pub enum TaskStatus {
    Pending,
    Assigned,
    InProgress,
    TestsRunning,
    Passed,
    Failed,
    Merged,
}

/// The legal moves of the machine, edge by edge.
pub open spec fn legal_edge(from: TaskStatus, to: TaskStatus) -> bool {
    match (from, to) {
        (TaskStatus::Pending, TaskStatus::Assigned) => true,
        (TaskStatus::Assigned, TaskStatus::InProgress) => true,
        (TaskStatus::Assigned, TaskStatus::Assigned) => true,
        (TaskStatus::Assigned, TaskStatus::TestsRunning) => true,
        (TaskStatus::InProgress, TaskStatus::TestsRunning) => true,
        (TaskStatus::InProgress, TaskStatus::Assigned) => true,
        (TaskStatus::TestsRunning, TaskStatus::Assigned) => true,
        (TaskStatus::TestsRunning, TaskStatus::Passed) => true,
        (TaskStatus::Assigned, TaskStatus::Failed) => true,
        (TaskStatus::InProgress, TaskStatus::Failed) => true,
        (TaskStatus::TestsRunning, TaskStatus::Failed) => true,
        (TaskStatus::Passed, TaskStatus::Merged) => true,
        _ => false,
    }
}

/// States in which some worker generation holds (or must hold) a live lease.
pub open spec fn lease_holding(s: TaskStatus) -> bool {
    s == TaskStatus::Assigned || s == TaskStatus::InProgress || s == TaskStatus::TestsRunning
}

pub open spec fn terminal(s: TaskStatus) -> bool {
    s == TaskStatus::Failed || s == TaskStatus::Merged
}

/// The variant name, as `Debug` writes it.
pub open spec fn status_name(s: TaskStatus) -> Seq<char> {
    match s {
        TaskStatus::Pending => "Pending"@,
        TaskStatus::Assigned => "Assigned"@,
        TaskStatus::InProgress => "InProgress"@,
        TaskStatus::TestsRunning => "TestsRunning"@,
        TaskStatus::Passed => "Passed"@,
        TaskStatus::Failed => "Failed"@,
        TaskStatus::Merged => "Merged"@,
    }
}

impl TaskStatus {
    pub fn name(self) -> (n: &'static str)
        ensures
            n@ == status_name(self),
    {
        match self {
            TaskStatus::Pending => "Pending",
            TaskStatus::Assigned => "Assigned",
            TaskStatus::InProgress => "InProgress",
            TaskStatus::TestsRunning => "TestsRunning",
            TaskStatus::Passed => "Passed",
            TaskStatus::Failed => "Failed",
            TaskStatus::Merged => "Merged",
        }
    }

    /// The only legal moves; everything else is refused by `TaskRecord::transition`.
    pub fn can_transition_to(self, next: TaskStatus) -> (b: bool)
        ensures
            b == legal_edge(self, next),
    {
            match (self, next) {
            (TaskStatus::Pending, TaskStatus::Assigned)
            | (TaskStatus::Assigned, TaskStatus::InProgress)
            | (TaskStatus::Assigned, TaskStatus::Assigned)
            | (TaskStatus::Assigned, TaskStatus::TestsRunning)
            | (TaskStatus::InProgress, TaskStatus::TestsRunning)
            | (TaskStatus::InProgress, TaskStatus::Assigned)
            | (TaskStatus::TestsRunning, TaskStatus::Assigned)
            | (TaskStatus::TestsRunning, TaskStatus::Passed)
            | (TaskStatus::Assigned, TaskStatus::Failed)
            | (TaskStatus::InProgress, TaskStatus::Failed)
            | (TaskStatus::TestsRunning, TaskStatus::Failed)
            | (TaskStatus::Passed, TaskStatus::Merged) => true,
            _ => false,
        }
    }

    pub fn holds_lease(self) -> (b: bool)
        ensures
            b == lease_holding(self),
    {
        match self {
            TaskStatus::Assigned | TaskStatus::InProgress | TaskStatus::TestsRunning => true,
            _ => false,
        }
    }

    pub fn is_terminal(self) -> (b: bool)
        ensures
            b == terminal(self),
    {
        match self {
            TaskStatus::Failed | TaskStatus::Merged => true,
            _ => false,
        }
    }
}

/// Terminal states have no exits.
pub proof fn lemma_terminal_states_have_no_exits(from: TaskStatus, to: TaskStatus)
    requires
        terminal(from),
    ensures
        !legal_edge(from, to),
{
}

/// Every lease-holding state can be reassigned and can fail.
pub proof fn lemma_lease_states_can_reassign_or_fail(from: TaskStatus)
    requires
        lease_holding(from),
    ensures
        legal_edge(from, TaskStatus::Assigned),
        legal_edge(from, TaskStatus::Failed),
{
}

/// Only `Passed` moves to `Merged`: a task is merged right after passing.
pub proof fn lemma_merged_only_from_passed(from: TaskStatus)
    requires
        legal_edge(from, TaskStatus::Merged),
    ensures
        from == TaskStatus::Passed,
{
}

/// Law: the machine's entries, target by target. A task passes only after
/// its tests ran, starts work only once assigned, reaches the test stage
/// only from an assignment or from work, is (re)assigned only when pending or
/// holding a lease, fails only while holding a lease, merges only after
/// passing, and never returns to `Pending`.
pub proof fn law_entries_into_each_state(from: TaskStatus)
    ensures
        legal_edge(from, TaskStatus::Passed) <==> from == TaskStatus::TestsRunning,
        legal_edge(from, TaskStatus::InProgress) <==> from == TaskStatus::Assigned,
        legal_edge(from, TaskStatus::TestsRunning) <==> (from == TaskStatus::Assigned || from == TaskStatus::InProgress),
        legal_edge(from, TaskStatus::Assigned) <==> (from == TaskStatus::Pending || lease_holding(from)),
        legal_edge(from, TaskStatus::Failed) <==> lease_holding(from),
        legal_edge(from, TaskStatus::Merged) <==> from == TaskStatus::Passed,
        !legal_edge(from, TaskStatus::Pending),
{
}

/// Law: what a checked transition does to a record. A legal move changes
/// the status to the target and nothing else but the worker slot, which is
/// kept exactly while the target holds a lease; an illegal one changes
/// nothing.
pub proof fn law_transition_effect(r: TaskRecord, next: TaskStatus)
    ensures
        legal_edge(r.status, next) ==> {
            let m = moved(r, next);
            &&& m.status == next
            &&& m.id == r.id && m.spec == r.spec && m.attempt == r.attempt
            &&& (lease_holding(next) ==> m.assigned_worker == r.assigned_worker)
            &&& (!lease_holding(next) ==> m.assigned_worker is None)
        },
{
}

#[derive(Debug)]
pub struct TaskRecord {
    pub id: TaskId,
    pub spec: TaskSpec,
    pub status: TaskStatus,
    /// Fencing token, incremented on every reassignment.
    pub attempt: Attempt,
    /// Current lease holder, if any; cleared when leaving lease-holding states.
    pub assigned_worker: Option<WorkerId>,
}

impl Clone for TaskRecord {
    fn clone(&self) -> (r: Self)
        ensures
            r == *self,
    {
        TaskRecord {
            id: self.id,
            spec: self.spec.clone(),
            status: self.status,
            attempt: self.attempt,
            assigned_worker: self.assigned_worker,
        }
    }
}

/// The record after a legal move to `next`: terminal and other non-lease
/// states release the worker slot.
pub open spec fn moved(r: TaskRecord, next: TaskStatus) -> TaskRecord {
    TaskRecord {
        status: next,
        assigned_worker: if lease_holding(next) { r.assigned_worker } else { None },
        ..r
    }
}

impl TaskRecord {
    /// A pending record with no attempt and no holder.
    pub fn new(id: TaskId, spec: TaskSpec) -> (r: TaskRecord)
        ensures
            r.id == id,
            r.spec == spec,
            r.status == TaskStatus::Pending,
            r.attempt == 0,
            r.assigned_worker.is_none(),
    {
        TaskRecord { id, spec, status: TaskStatus::Pending, attempt: 0, assigned_worker: None }
    }

    /// Checked transition: refuses illegal moves so callers cannot corrupt the
    /// machine; leaving the lease-holding states releases the worker slot.
    pub fn transition(&mut self, next: TaskStatus) -> (r: Result<(), SwarmError>)
        ensures
            legal_edge(old(self).status, next) ==> r is Ok && *final(self) == moved(*old(self), next),
            !legal_edge(old(self).status, next) ==> *final(self) == *old(self) && (r matches Err(
                SwarmError::IllegalTransition { from, to },
            ) && from == old(self).status && to == next),
    {
        if self.status.can_transition_to(next) {
            self.status = next;
            if !next.holds_lease() {
                self.assigned_worker = None;
            }
            Ok(())
        } else {
            Err(SwarmError::IllegalTransition { from: self.status, to: next })
        }
    }
}

} // verus!
