//! The supervisor: the deterministic brain of the system.
//!
//! It is the only code that changes task state or produces `SwarmEvent`s.
//! Workers reach it only through `WorkerMsg`s, each fenced by its attempt
//! number, so a worker from before a reassignment can never move the machine:
//! its messages are visibly rejected. A worker's death needs no protocol: its
//! heartbeats stop, the lease expires, and the reaper reassigns the task to a
//! fresh worker generation until the attempts are used up.
//!
//! Each operation is a step from state and input to the next state plus what
//! the runtime must do: publish the returned events in order and spawn a
//! worker for each returned assignment. Time enters as `now`, in
//! nanoseconds on the runtime's clock.

use std::collections::HashMap;
use vstd::prelude::*;
use crate::error::SwarmError;
use crate::events::{EventView, SwarmEvent, event_views};
use crate::gate::{MergeDecision, MergePolicy, TestReport, evaluate_merge_gate, gate_opens, gate_reason};
use crate::ids::{Attempt, TaskId, WorkerId};
use crate::lease::{LeaseConfig, lease_valid, invalid_lease_message};
use crate::mail::{Assignment, WorkerMsg, msg_attempt, msg_task, msg_worker};
use crate::task::{TaskRecord, TaskSpec, TaskStatus, lease_holding, legal_edge, moved, terminal};
use crate::text::{decimal, push_decimal};

verus! {

broadcast use vstd::std_specs::hash::group_hash_axioms;

#[derive(Debug, Clone, Copy, PartialEq, Eq, Structural)]
pub struct SupervisorConfig {
    pub lease: LeaseConfig,
    /// How often the runtime asks the supervisor to reap expired leases.
    pub reap_interval_ns: u128,
    pub max_attempts: u32,
    pub merge_policy: MergePolicy,
}

impl Default for SupervisorConfig {
    fn default() -> (c: Self)
        ensures
            c.lease.heartbeat_interval_ns == 500_000_000,
            c.lease.lease_timeout_ns == 1_500_000_000,
            c.reap_interval_ns == 250_000_000,
            c.max_attempts == 3,
            c.merge_policy.require_real_cargo_test,
    {
        SupervisorConfig {
            lease: LeaseConfig::default(),
            reap_interval_ns: 250_000_000,
            max_attempts: 3,
            merge_policy: MergePolicy::default(),
        }
    }
}

/// A task under supervision and the instant its current lease runs out.
#[derive(Debug)]
pub struct LiveTask {
    pub record: TaskRecord,
    pub lease_until: u128,
}

/// What the runtime must do after a step: publish `events` in order, then
/// start one worker generation per entry of `spawns`.
#[derive(Debug)]
pub struct Step {
    pub events: Vec<SwarmEvent>,
    pub spawns: Vec<Assignment>,
}

pub struct Supervisor {
    config: SupervisorConfig,
    tasks: HashMap<u128, LiveTask>,
    /// Task ids in submission order.
    order: Vec<TaskId>,
}

pub struct SupervisorView {
    pub config: SupervisorConfig,
    pub tasks: Map<u128, LiveTask>,
    pub order: Seq<TaskId>,
}

impl View for Supervisor {
    type V = SupervisorView;

    closed spec fn view(&self) -> SupervisorView {
        SupervisorView { config: self.config, tasks: self.tasks@, order: self.order@ }
    }
}

// ----------------------------------------------------------------------------
// The model
// ----------------------------------------------------------------------------

pub open spec fn task_wf(t: LiveTask, key: u128, cfg: SupervisorConfig) -> bool {
    &&& t.record.id.0 == key
    &&& (lease_holding(t.record.status) <==> t.record.assigned_worker is Some)
    &&& t.record.attempt <= cfg.max_attempts
}

/// The supervisor's invariant: a valid lease configuration, every task in
/// the submission order exactly once, and every record consistent.
pub open spec fn sup_wf(s: SupervisorView) -> bool {
    &&& lease_valid(s.config.lease)
    &&& s.order.no_duplicates()
    &&& (forall|i: int| 0 <= i < s.order.len() ==> s.tasks.contains_key(#[trigger] s.order[i].0))
    &&& (forall|k: u128| #[trigger] s.tasks.contains_key(k) ==> s.order.contains(TaskId(k)))
    &&& (forall|k: u128| #[trigger] s.tasks.contains_key(k) ==> task_wf(s.tasks[k], k, s.config))
}

/// Whether `(worker, attempt)` is the current holder of the task's lease.
pub open spec fn holder_ok(tasks: Map<u128, LiveTask>, task_id: TaskId, worker_id: WorkerId, attempt: Attempt) -> bool {
    &&& tasks.contains_key(task_id.0)
    &&& lease_holding(tasks[task_id.0].record.status)
    &&& tasks[task_id.0].record.attempt == attempt
    &&& tasks[task_id.0].record.assigned_worker == Some(worker_id)
}

pub open spec fn msg_from_holder(tasks: Map<u128, LiveTask>, m: WorkerMsg) -> bool {
    holder_ok(tasks, msg_task(m), msg_worker(m), msg_attempt(m))
}

pub open spec fn deadline(now: u128, cfg: SupervisorConfig) -> u128 {
    (now + cfg.lease.lease_timeout_ns) as u128
}

pub open spec fn time_ok(now: u128, cfg: SupervisorConfig) -> bool {
    now + cfg.lease.lease_timeout_ns <= u128::MAX
}

pub open spec fn expired(t: LiveTask, now: u128) -> bool {
    lease_holding(t.record.status) && now >= t.lease_until
}

pub open spec fn renewed(t: LiveTask, now: u128, cfg: SupervisorConfig) -> LiveTask {
    LiveTask { lease_until: deadline(now, cfg), ..t }
}

/// The record after `transition(next)`: moved when legal, unchanged otherwise.
pub open spec fn after_transition(r: TaskRecord, next: TaskStatus) -> TaskRecord {
    if legal_edge(r.status, next) { moved(r, next) } else { r }
}

pub open spec fn started(t: LiveTask, now: u128, cfg: SupervisorConfig) -> LiveTask {
    LiveTask { record: after_transition(t.record, TaskStatus::InProgress), lease_until: deadline(now, cfg) }
}

pub open spec fn can_assign(t: LiveTask, cfg: SupervisorConfig) -> bool {
    t.record.attempt < cfg.max_attempts && legal_edge(t.record.status, TaskStatus::Assigned)
}

/// The task handed to its next attempt, held by worker `w`.
pub open spec fn assigned(t: LiveTask, w: WorkerId, now: u128, cfg: SupervisorConfig) -> LiveTask {
    LiveTask {
        record: TaskRecord {
            status: TaskStatus::Assigned,
            attempt: (t.record.attempt + 1) as u32,
            assigned_worker: Some(w),
            ..t.record
        },
        lease_until: deadline(now, cfg),
    }
}

/// `a` is the assignment of the next attempt of `t`.
pub open spec fn assignment_for(a: Assignment, t: LiveTask, cfg: SupervisorConfig) -> bool {
    &&& a.task_id == t.record.id
    &&& a.attempt == t.record.attempt + 1
    &&& a.spec == t.record.spec
    &&& a.lease == cfg.lease
}

pub open spec fn failed_task(t: LiveTask) -> LiveTask {
    LiveTask { record: after_transition(t.record, TaskStatus::Failed), ..t }
}

pub open spec fn exhausted_reason(cfg: SupervisorConfig, why: Seq<char>) -> Seq<char> {
    "max attempts ("@ + decimal(cfg.max_attempts as nat) + ") exhausted: "@ + why
}

pub open spec fn lease_expired_reason() -> Seq<char> {
    "lease expired: no heartbeat within timeout"@
}

/// Events of recovering from a confirmed worker failure.
pub open spec fn retry_events(t: LiveTask, why: Seq<char>, cfg: SupervisorConfig) -> Seq<EventView> {
    if t.record.attempt >= cfg.max_attempts {
        seq![EventView::MergeGated { task_id: t.record.id, reason: exhausted_reason(cfg, why) }]
    } else {
        seq![EventView::TaskReassigned { task_id: t.record.id, attempt: (t.record.attempt + 1) as u32 }]
    }
}

/// State change and spawn of recovering from a confirmed worker failure:
/// reassignment while attempts remain, terminal failure once they are used up.
pub open spec fn retry_outcome(t: LiveTask, n: LiveTask, spawns: Seq<Assignment>, now: u128, cfg: SupervisorConfig) -> bool {
    if t.record.attempt >= cfg.max_attempts {
        n == failed_task(t) && spawns.len() == 0
    } else if legal_edge(t.record.status, TaskStatus::Assigned) {
        &&& spawns.len() == 1
        &&& assignment_for(spawns[0], t, cfg)
        &&& n == assigned(t, spawns[0].worker_id, now, cfg)
    } else {
        n == t && spawns.len() == 0
    }
}

/// The task after a finished run's report went through the merge gate.
pub open spec fn resolved(t: LiveTask, report: TestReport, cfg: SupervisorConfig) -> LiveTask {
    if !legal_edge(t.record.status, TaskStatus::TestsRunning) {
        t
    } else if gate_opens(report, cfg.merge_policy) {
        LiveTask { record: TaskRecord { status: TaskStatus::Merged, assigned_worker: None, ..t.record }, ..t }
    } else {
        LiveTask { record: TaskRecord { status: TaskStatus::Failed, assigned_worker: None, ..t.record }, ..t }
    }
}

pub open spec fn resolve_events(t: LiveTask, report: TestReport, cfg: SupervisorConfig) -> Seq<EventView> {
    let id = t.record.id;
    if !legal_edge(t.record.status, TaskStatus::TestsRunning) {
        seq![]
    } else if gate_opens(report, cfg.merge_policy) {
        seq![EventView::TestsPassed { task_id: id, origin: report.origin }, EventView::MergeOpened { task_id: id }]
    } else if !report.passed {
        seq![
            EventView::TestsFailed { task_id: id, reason: report.summary@ },
            EventView::MergeGated { task_id: id, reason: gate_reason(report) },
        ]
    } else {
        seq![EventView::MergeGated { task_id: id, reason: gate_reason(report) }]
    }
}


/// The effect of one worker message: a message from anyone but the current
/// lease holder is rejected and changes nothing; otherwise it renews the
/// lease, resolves the report through the merge gate, or recovers from the
/// worker's death.
pub open spec fn msg_step(
    s: SupervisorView,
    m: WorkerMsg,
    now: u128,
    n: SupervisorView,
    evs: Seq<EventView>,
    spawns: Seq<Assignment>,
) -> bool {
    let k = msg_task(m).0;
    &&& n.config == s.config
    &&& n.order == s.order
    &&& if !msg_from_holder(s.tasks, m) {
        &&& n.tasks == s.tasks
        &&& evs == seq![
            EventView::StaleResultRejected {
                task_id: msg_task(m),
                worker_id: msg_worker(m),
                attempt: msg_attempt(m),
            },
        ]
        &&& spawns.len() == 0
    } else {
        let t = s.tasks[k];
        match m {
            WorkerMsg::Started { task_id, worker_id, attempt } => {
                &&& n.tasks == s.tasks.insert(k, started(t, now, s.config))
                &&& evs == seq![EventView::WorkerStarted { task_id, worker_id, attempt }]
                &&& spawns.len() == 0
            },
            WorkerMsg::Heartbeat { task_id, worker_id, attempt } => {
                &&& n.tasks == s.tasks.insert(k, renewed(t, now, s.config))
                &&& evs == seq![EventView::WorkerHeartbeat { task_id, worker_id, attempt }]
                &&& spawns.len() == 0
            },
            WorkerMsg::Finished { report, .. } => {
                &&& n.tasks == s.tasks.insert(k, resolved(t, report, s.config))
                &&& evs == resolve_events(t, report, s.config)
                &&& spawns.len() == 0
            },
            WorkerMsg::Died { task_id, worker_id, attempt, reason } => {
                &&& n.tasks == s.tasks.insert(k, n.tasks[k])
                &&& retry_outcome(t, n.tasks[k], spawns, now, s.config)
                &&& evs == seq![
                    EventView::WorkerFailed { task_id, worker_id, attempt, reason: reason@ },
                ] + retry_events(t, reason@, s.config)
            },
        }
    }
}

/// The effect of submitting `spec` under the fresh id `id`: the task is
/// recorded (and appended to the submission order), announced, and handed
/// to its first attempt when any attempt is allowed.
pub open spec fn submit_step(
    s: SupervisorView,
    spec: TaskSpec,
    now: u128,
    id: TaskId,
    n: SupervisorView,
    evs: Seq<EventView>,
    spawns: Seq<Assignment>,
) -> bool {
    let p = pending_task(id, spec, now);
    &&& n.config == s.config
    &&& n.order == (if s.order.contains(id) { s.order } else { s.order.push(id) })
    &&& evs == seq![EventView::TaskCreated { task_id: id, pr_id: spec.pr_id@, title: spec.title@ }]
    &&& if s.config.max_attempts > 0 {
        &&& spawns.len() == 1
        &&& assignment_for(spawns[0], p, s.config)
        &&& n.tasks == s.tasks.insert(id.0, assigned(p, spawns[0].worker_id, now, s.config))
    } else {
        &&& spawns.len() == 0
        &&& n.tasks == s.tasks.insert(id.0, p)
    }
}

/// A freshly submitted task, before its first assignment.
pub open spec fn pending_task(id: TaskId, spec: TaskSpec, now: u128) -> LiveTask {
    LiveTask {
        record: TaskRecord {
            id,
            spec,
            status: TaskStatus::Pending,
            attempt: 0,
            assigned_worker: None,
        },
        lease_until: now,
    }
}

impl Supervisor {
    /// A supervisor with no tasks; refuses an invalid lease configuration.
    pub fn new(config: SupervisorConfig) -> (r: Result<Supervisor, SwarmError>)
        ensures
            lease_valid(config.lease) ==> (r matches Ok(sup) && sup@.config == config
                && sup@.tasks == Map::<u128, LiveTask>::empty() && sup@.order == Seq::<TaskId>::empty()
                && sup_wf(sup@)),
            !lease_valid(config.lease) ==> (r matches Err(SwarmError::InvalidConfig(msg))
                && msg@ == invalid_lease_message(config.lease)),
    {
        match config.lease.validate() {
            Err(e) => Err(e),
            Ok(()) => {
                let sup = Supervisor { config, tasks: HashMap::new(), order: Vec::new() };
                assert(sup@.tasks =~= Map::<u128, LiveTask>::empty());
                Ok(sup)
            },
        }
    }

    pub fn config(&self) -> (c: SupervisorConfig)
        ensures
            c == self@.config,
    {
        self.config
    }

    /// Task ids in submission order.
    pub fn task_ids(&self) -> (ids: Vec<TaskId>)
        ensures
            ids@ == self@.order,
    {
        let mut ids: Vec<TaskId> = Vec::new();
        let n = self.order.len();
        for i in 0..n
            invariant
                n == self.order@.len(),
                ids@ == self.order@.subrange(0, i as int),
        {
            ids.push(self.order[i]);
            assert(ids@ =~= self.order@.subrange(0, i + 1));
        }
        assert(ids@ =~= self.order@);
        ids
    }

    /// Deterministic snapshot of one task's record.
    pub fn snapshot(&self, task_id: TaskId) -> (r: Option<TaskRecord>)
        ensures
            r == (if self@.tasks.contains_key(task_id.0) {
                Some(self@.tasks[task_id.0].record)
            } else {
                None::<TaskRecord>
            }),
    {
        match self.tasks.get(&task_id.0) {
            Some(live) => Some(live.record.clone()),
            None => None,
        }
    }

    /// Fencing check: is `(worker_id, attempt)` still the current holder of
    /// the task's lease?
    pub fn is_current_holder(&self, task_id: TaskId, worker_id: WorkerId, attempt: Attempt) -> (b: bool)
        ensures
            b == holder_ok(self@.tasks, task_id, worker_id, attempt),
    {
        match self.tasks.get(&task_id.0) {
            Some(live) => {
                live.record.status.holds_lease() && live.record.attempt == attempt && match live.record.assigned_worker {
                    Some(w) => w == worker_id,
                    None => false,
                }
            },
            None => false,
        }
    }

    /// Gives `task_id` its next attempt: a fresh worker generation and lease.
    fn assign(&mut self, task_id: TaskId, now: u128) -> (r: Option<Assignment>)
        requires
            sup_wf(old(self)@),
            time_ok(now, old(self)@.config),
        ensures
            sup_wf(final(self)@),
            final(self)@.config == old(self)@.config,
            final(self)@.order == old(self)@.order,
            ({
                let k = task_id.0;
                let t = old(self)@.tasks[k];
                if old(self)@.tasks.contains_key(k) && can_assign(t, old(self)@.config) {
                    &&& r matches Some(a)
                    &&& assignment_for(a, t, old(self)@.config)
                    &&& final(self)@.tasks == old(self)@.tasks.insert(k, assigned(t, a.worker_id, now, old(self)@.config))
                } else {
                    r is None && final(self)@.tasks == old(self)@.tasks
                }
            }),
    {
        let ghost s = self@;
        let worker_id = WorkerId::generate();
        let k = task_id.0;
        let live_opt = self.tasks.remove(&k);
        match live_opt {
            None => {
                assert(self@.tasks =~= s.tasks);
                None
            },
            Some(mut live) => {
                if live.record.attempt >= self.config.max_attempts
                    || !live.record.status.can_transition_to(TaskStatus::Assigned) {
                    self.tasks.insert(k, live);
                    assert(self@.tasks =~= s.tasks);
                    return None;
                }
                let next = live.record.attempt + 1;
                let _ = live.record.transition(TaskStatus::Assigned);
                live.record.attempt = next;
                live.record.assigned_worker = Some(worker_id);
                live.lease_until = now + self.config.lease.lease_timeout_ns;
                let a = Assignment {
                    task_id,
                    worker_id,
                    attempt: next,
                    spec: live.record.spec.clone(),
                    lease: self.config.lease,
                };
                self.tasks.insert(k, live);
                assert(self@.tasks =~= s.tasks.insert(k, assigned(s.tasks[k], worker_id, now, s.config)));
                proof {
                    assert forall|j: u128| #[trigger] self@.tasks.contains_key(j) implies self@.order.contains(TaskId(j)) by {
                        assert(s.tasks.contains_key(j));
                    }
                }
                Some(a)
            },
        }
    }

    /// Applies the merge gate to a finished run's report: through `TestsRunning`,
    /// then merged when the merge gate opens, failed (and gated) otherwise.
    fn resolve_report(&mut self, task_id: TaskId, report: TestReport, events: &mut Vec<SwarmEvent>)
        requires
            sup_wf(old(self)@),
            old(self)@.tasks.contains_key(task_id.0),
        ensures
            sup_wf(final(self)@),
            final(self)@.config == old(self)@.config,
            final(self)@.order == old(self)@.order,
            final(self)@.tasks == old(self)@.tasks.insert(
                task_id.0,
                resolved(old(self)@.tasks[task_id.0], report, old(self)@.config),
            ),
            event_views(final(events)@) == event_views(old(events)@) + resolve_events(
                old(self)@.tasks[task_id.0],
                report,
                old(self)@.config,
            ),
    {
        let ghost s = self@;
        let ghost evs0 = event_views(events@);
        let k = task_id.0;
        let decision = evaluate_merge_gate(&report, self.config.merge_policy);
        let live_opt = self.tasks.remove(&k);
        match live_opt {
            None => {},
            Some(mut live) => {
                let ghost t = live;
                assert(t == s.tasks[k]);
                assert(t.record.id == task_id);
                if live.record.transition(TaskStatus::TestsRunning).is_err() {
                    self.tasks.insert(k, live);
                    assert(self@.tasks =~= s.tasks);
                    assert(event_views(events@) =~= evs0 + resolve_events(t, report, s.config));
                    return;
                }
                match decision {
                    MergeDecision::Open { origin } => {
                        let _ = live.record.transition(TaskStatus::Passed);
                        events.push(SwarmEvent::TestsPassed { task_id, origin });
                        let ok = live.record.transition(TaskStatus::Merged).is_ok();
                        if ok {
                            events.push(SwarmEvent::MergeOpened { task_id });
                        }
                    },
                    MergeDecision::Gated { reason } => {
                        if !report.passed {
                            events.push(SwarmEvent::TestsFailed { task_id, reason: report.summary.clone() });
                        }
                        let _ = live.record.transition(TaskStatus::Failed);
                        events.push(SwarmEvent::MergeGated { task_id, reason });
                    },
                }
                assert(live == resolved(t, report, s.config));
                self.tasks.insert(k, live);
                assert(self@.tasks =~= s.tasks.insert(k, resolved(t, report, s.config)));
                assert(event_views(events@) =~= evs0 + resolve_events(t, report, s.config));
                proof {
                    assert forall|j: u128| #[trigger] self@.tasks.contains_key(j) implies self@.order.contains(TaskId(j)) by {
                        assert(s.tasks.contains_key(j));
                    }
                }
            },
        }
    }

    /// After a confirmed worker failure: reassign while attempts remain, fail
    /// terminally (with a visible gate block) once they are used up. The task
    /// is never silently lost.
    fn retry_or_fail(
        &mut self,
        task_id: TaskId,
        why: &str,
        now: u128,
        events: &mut Vec<SwarmEvent>,
        spawns: &mut Vec<Assignment>,
    )
        requires
            sup_wf(old(self)@),
            time_ok(now, old(self)@.config),
            old(self)@.tasks.contains_key(task_id.0),
        ensures
            sup_wf(final(self)@),
            final(self)@.config == old(self)@.config,
            final(self)@.order == old(self)@.order,
            final(self)@.tasks == old(self)@.tasks.insert(task_id.0, final(self)@.tasks[task_id.0]),
            final(spawns)@.len() >= old(spawns)@.len(),
            final(spawns)@.subrange(0, old(spawns)@.len() as int) == old(spawns)@,
            retry_outcome(
                old(self)@.tasks[task_id.0],
                final(self)@.tasks[task_id.0],
                final(spawns)@.subrange(old(spawns)@.len() as int, final(spawns)@.len() as int),
                now,
                old(self)@.config,
            ),
            event_views(final(events)@) == event_views(old(events)@) + retry_events(
                old(self)@.tasks[task_id.0],
                why@,
                old(self)@.config,
            ),
    {
        let ghost s = self@;
        let ghost evs0 = event_views(events@);
        let ghost sp0 = spawns@;
        let k = task_id.0;
        let live_opt = self.tasks.remove(&k);
        match live_opt {
            None => {},
            Some(mut live) => {
                let ghost t = live;
                assert(t == s.tasks[k]);
                assert(t.record.id == task_id);
                if live.record.attempt >= self.config.max_attempts {
                    let _ = live.record.transition(TaskStatus::Failed);
                    assert(live == failed_task(t));
                    self.tasks.insert(k, live);
                    let mut reason = String::from_str("max attempts (");
                    push_decimal(&mut reason, self.config.max_attempts as u64);
                    reason.append(") exhausted: ");
                    reason.append(why);
                    events.push(SwarmEvent::MergeGated { task_id, reason });
                    assert(event_views(events@) =~= evs0 + retry_events(t, why@, s.config));
                    assert(spawns@.subrange(sp0.len() as int, spawns@.len() as int) =~= Seq::<Assignment>::empty());
                    assert(spawns@.subrange(0, sp0.len() as int) =~= sp0);
                    proof {
                        assert forall|j: u128| #[trigger] self@.tasks.contains_key(j) implies self@.order.contains(TaskId(j)) by {
                            assert(s.tasks.contains_key(j));
                        }
                    }
                } else {
                    let next = live.record.attempt + 1;
                    self.tasks.insert(k, live);
                    assert(self@.tasks =~= s.tasks);
                    events.push(SwarmEvent::TaskReassigned { task_id, attempt: next });
                    assert(event_views(events@) =~= evs0 + retry_events(t, why@, s.config));
                    match self.assign(task_id, now) {
                        Some(a) => {
                            spawns.push(a);
                            assert(spawns@.subrange(sp0.len() as int, spawns@.len() as int) =~= seq![a]);
                        },
                        None => {
                            assert(spawns@.subrange(sp0.len() as int, spawns@.len() as int) =~= Seq::<Assignment>::empty());
                        },
                    }
                    assert(spawns@.subrange(0, sp0.len() as int) =~= sp0);
                    assert(self@.tasks =~= s.tasks.insert(k, self@.tasks[k]));
                }
            },
        }
    }

    /// Handles one worker message.
    pub fn on_msg(&mut self, msg: WorkerMsg, now: u128) -> (step: Step)
        requires
            sup_wf(old(self)@),
            time_ok(now, old(self)@.config),
        ensures
            sup_wf(final(self)@),
            msg_step(old(self)@, msg, now, final(self)@, event_views(step.events@), step.spawns@),
    {
        let ghost s = self@;
        let (_, task_id, worker_id, attempt) = msg.meta();
        let mut events: Vec<SwarmEvent> = Vec::new();
        let mut spawns: Vec<Assignment> = Vec::new();
        if !self.is_current_holder(task_id, worker_id, attempt) {
            events.push(SwarmEvent::StaleResultRejected { task_id, worker_id, attempt });
            assert(event_views(events@) =~= seq![
                EventView::StaleResultRejected { task_id, worker_id, attempt },
            ]);
            return Step { events, spawns };
        }
        let k = task_id.0;
        match msg {
            WorkerMsg::Started { .. } => {
                let live_opt = self.tasks.remove(&k);
                match live_opt {
                    None => {},
                    Some(mut live) => {
                        let ghost t = live;
                        let _ = live.record.transition(TaskStatus::InProgress);
                        live.lease_until = now + self.config.lease.lease_timeout_ns;
                        assert(live == started(t, now, s.config));
                        self.tasks.insert(k, live);
                        assert(self@.tasks =~= s.tasks.insert(k, started(t, now, s.config)));
                        proof {
                            assert forall|j: u128| #[trigger] self@.tasks.contains_key(j) implies self@.order.contains(TaskId(j)) by {
                                assert(s.tasks.contains_key(j));
                            }
                        }
                    },
                }
                events.push(SwarmEvent::WorkerStarted { task_id, worker_id, attempt });
                assert(event_views(events@) =~= seq![EventView::WorkerStarted { task_id, worker_id, attempt }]);
            },
            WorkerMsg::Heartbeat { .. } => {
                let live_opt = self.tasks.remove(&k);
                match live_opt {
                    None => {},
                    Some(mut live) => {
                        let ghost t = live;
                        live.lease_until = now + self.config.lease.lease_timeout_ns;
                        assert(live == renewed(t, now, s.config));
                        self.tasks.insert(k, live);
                        assert(self@.tasks =~= s.tasks.insert(k, renewed(t, now, s.config)));
                        proof {
                            assert forall|j: u128| #[trigger] self@.tasks.contains_key(j) implies self@.order.contains(TaskId(j)) by {
                                assert(s.tasks.contains_key(j));
                            }
                        }
                    },
                }
                events.push(SwarmEvent::WorkerHeartbeat { task_id, worker_id, attempt });
                assert(event_views(events@) =~= seq![EventView::WorkerHeartbeat { task_id, worker_id, attempt }]);
            },
            WorkerMsg::Finished { report, .. } => {
                self.resolve_report(task_id, report, &mut events);
                assert(event_views(events@) =~= resolve_events(s.tasks[k], report, s.config));
            },
            WorkerMsg::Died { reason, .. } => {
                events.push(SwarmEvent::WorkerFailed { task_id, worker_id, attempt, reason: reason.clone() });
                self.retry_or_fail(task_id, reason.as_str(), now, &mut events, &mut spawns);
                assert(spawns@.subrange(0, spawns@.len() as int) =~= spawns@);
                assert(event_views(events@) =~= seq![
                    EventView::WorkerFailed { task_id, worker_id, attempt, reason: reason@ },
                ] + retry_events(s.tasks[k], reason@, s.config));
            },
        }
        Step { events, spawns }
    }

    /// Registers a pull-request review task and hands it to attempt 1.
    pub fn submit_pr(&mut self, spec: TaskSpec, now: u128) -> (r: (TaskId, Step))
        requires
            sup_wf(old(self)@),
            time_ok(now, old(self)@.config),
        ensures
            sup_wf(final(self)@),
            crate::ids::is_v4_value(r.0.0),
            submit_step(old(self)@, spec, now, r.0, final(self)@, event_views(r.1.events@), r.1.spawns@),
    {
        let ghost s = self@;
        let id = TaskId::generate();
        let mut events: Vec<SwarmEvent> = Vec::new();
        events.push(SwarmEvent::TaskCreated { task_id: id, pr_id: spec.pr_id.clone(), title: spec.title.clone() });
        assert(event_views(events@) =~= seq![
            EventView::TaskCreated { task_id: id, pr_id: spec.pr_id@, title: spec.title@ },
        ]);
        let ghost p = pending_task(id, spec, now);
        let record = TaskRecord::new(id, spec);
        let present = self.tasks.contains_key(&id.0);
        self.tasks.insert(id.0, LiveTask { record, lease_until: now });
        if !present {
            self.order.push(id);
        }
        proof {
            assert(s.order.contains(id) == present) by {
                if present {
                    assert(s.tasks.contains_key(id.0));
                } else if s.order.contains(id) {
                    let i = choose|i: int| 0 <= i < s.order.len() && s.order[i] == id;
                    assert(s.tasks.contains_key(s.order[i].0));
                }
            }
            assert forall|j: u128| #[trigger] self@.tasks.contains_key(j) implies self@.order.contains(TaskId(j)) by {
                if j != id.0 {
                    assert(s.tasks.contains_key(j));
                    assert(s.order.contains(TaskId(j)));
                    let i = choose|i: int| 0 <= i < s.order.len() && s.order[i] == TaskId(j);
                    assert(self@.order[i] == TaskId(j));
                } else if !present {
                    assert(self@.order[self@.order.len() - 1] == id);
                }
            }
            assert forall|i: int| 0 <= i < self@.order.len() implies self@.tasks.contains_key(#[trigger] self@.order[i].0) by {
                if i < s.order.len() {
                    assert(s.tasks.contains_key(s.order[i].0));
                }
            }
        }
        assert(self@.order.no_duplicates());
        assert(task_wf(self@.tasks[id.0], id.0, self@.config));
        assert forall|j: u128| #[trigger] self@.tasks.contains_key(j) implies task_wf(self@.tasks[j], j, self@.config) by {
            if j != id.0 {
                assert(s.tasks.contains_key(j));
            }
        }
        assert(sup_wf(self@));
        let mut spawns: Vec<Assignment> = Vec::new();
        match self.assign(id, now) {
            Some(a) => {
                spawns.push(a);
            },
            None => {},
        }
        assert(self@.tasks =~= s.tasks.insert(id.0, self@.tasks[id.0]));
        (id, Step { events, spawns })
    }

    /// Lease reaper: every lease-holding task whose deadline has passed lost
    /// its worker (abort, panic, process kill); report the failure and recover.
    pub fn reap_expired(&mut self, now: u128) -> (step: Step)
        requires
            sup_wf(old(self)@),
            time_ok(now, old(self)@.config),
        ensures
            sup_wf(final(self)@),
            reap_step(old(self)@, now, final(self)@, event_views(step.events@), step.spawns@),
    {
        let ghost s = self@;
        let mut events: Vec<SwarmEvent> = Vec::new();
        let mut spawns: Vec<Assignment> = Vec::new();
        let n = self.order.len();
        let mut i: usize = 0;
        while i < n
            invariant
                n == s.order.len(),
                0 <= i <= n,
                sup_wf(self@),
                sup_wf(s),
                time_ok(now, s.config),
                self@.config == s.config,
                self@.order == s.order,
                self@.tasks.dom() == s.tasks.dom(),
                forall|p: int| i <= p < n ==> #[trigger] self@.tasks[s.order[p].0] == s.tasks[s.order[p].0],
                forall|p: int| 0 <= p < i ==> reaped_key(s, now, self@.tasks, spawns@, #[trigger] s.order[p].0),
                forall|j: int| 0 <= j < spawns@.len() ==> spawn_ok(s, now, self@.tasks, #[trigger] spawns@[j]),
                forall|j: int| #![trigger spawns@[j]] 0 <= j < spawns@.len() ==> exists|p: int| 0 <= p < i && #[trigger] s.order[p] == spawns@[j].task_id,
                forall|j1: int, j2: int| 0 <= j1 < j2 < spawns@.len() ==> #[trigger] spawns@[j1].task_id != #[trigger] spawns@[j2].task_id,
                event_views(events@) == reap_events_upto(s.order, s.tasks, now, s.config, i as int),
            decreases n - i,
        {
            let id = self.order[i];
            let ghost t = s.tasks[id.0];
            let ghost tasks_before = self@.tasks;
            let ghost spawns_before = spawns@;
            let ghost evs_before = event_views(events@);
            assert(self@.tasks[s.order[i as int].0] == t);
            assert(s.tasks.contains_key(s.order[i as int].0));
            let (is_expired, worker_id, attempt) = match self.tasks.get(&id.0) {
                Some(live) => {
                    let w = match live.record.assigned_worker {
                        Some(w) => w,
                        None => WorkerId::nil(),
                    };
                    (live.record.status.holds_lease() && now >= live.lease_until, w, live.record.attempt)
                },
                None => (false, WorkerId::nil(), 0),
            };
            if is_expired {
                events.push(SwarmEvent::WorkerFailed {
                    task_id: id,
                    worker_id,
                    attempt,
                    reason: String::from_str("lease expired: no heartbeat within timeout"),
                });
                self.retry_or_fail(id, "lease expired: no heartbeat within timeout", now, &mut events, &mut spawns);
                proof {
                    assert(event_views(events@) =~= evs_before + reap_one_events(t, s.config));
                    let new_sp = spawns@.subrange(spawns_before.len() as int, spawns@.len() as int);
                    assert forall|j: int| 0 <= j < spawns@.len() implies spawn_ok(s, now, self@.tasks, #[trigger] spawns@[j]) by {
                        if j < spawns_before.len() {
                            assert(spawns@[j] == spawns_before[j]);
                            assert(spawn_ok(s, now, tasks_before, spawns_before[j]));
                            let p = choose|p: int| 0 <= p < i && #[trigger] s.order[p] == spawns_before[j].task_id;
                            assert(s.order[p] != s.order[i as int]);
                        } else {
                            assert(spawns@[j] == new_sp[j - spawns_before.len()]);
                        }
                    }
                    assert forall|j: int| #![trigger spawns@[j]] 0 <= j < spawns@.len() implies exists|p: int| 0 <= p < i + 1 && #[trigger] s.order[p] == spawns@[j].task_id by {
                        if j < spawns_before.len() {
                            assert(spawns@[j] == spawns_before[j]);
                            let p = choose|p: int| 0 <= p < i && #[trigger] s.order[p] == spawns_before[j].task_id;
                            assert(s.order[p] == spawns@[j].task_id);
                        } else {
                            assert(spawns@[j] == new_sp[j - spawns_before.len()]);
                            assert(s.order[i as int] == spawns@[j].task_id);
                        }
                    }
                    assert forall|j1: int, j2: int| 0 <= j1 < j2 < spawns@.len() implies #[trigger] spawns@[j1].task_id != #[trigger] spawns@[j2].task_id by {
                        if j2 >= spawns_before.len() {
                            assert(spawns@[j2] == new_sp[j2 - spawns_before.len()]);
                            if j1 >= spawns_before.len() {
                                assert(spawns@[j1] == new_sp[j1 - spawns_before.len()]);
                            } else {
                                assert(spawns@[j1] == spawns_before[j1]);
                                let p = choose|p: int| 0 <= p < i && #[trigger] s.order[p] == spawns_before[j1].task_id;
                                assert(s.order[p] != s.order[i as int]);
                            }
                        } else {
                            assert(spawns@[j1] == spawns_before[j1]);
                            assert(spawns@[j2] == spawns_before[j2]);
                        }
                    }
                    assert forall|p: int| 0 <= p < i + 1 implies reaped_key(s, now, self@.tasks, spawns@, #[trigger] s.order[p].0) by {
                        if p < i {
                            assert(reaped_key(s, now, tasks_before, spawns_before, s.order[p].0));
                            assert(s.order[p] != s.order[i as int]);
                            if expired(s.tasks[s.order[p].0], now) && s.tasks[s.order[p].0].record.attempt < s.config.max_attempts {
                                let j = choose|j: int| 0 <= j < spawns_before.len() && #[trigger] spawns_before[j].task_id.0 == s.order[p].0 && spawn_ok(s, now, tasks_before, spawns_before[j]);
                                assert(spawns@[j] == spawns_before[j]);
                            }
                        } else {
                            if t.record.attempt < s.config.max_attempts {
                                assert(new_sp.len() == 1);
                                let j = spawns_before.len() as int;
                                assert(spawns@[j] == new_sp[0]);
                                assert(spawns@[j].task_id.0 == s.order[p].0);
                            }
                        }
                    }
                    assert forall|p: int| i + 1 <= p < n implies #[trigger] self@.tasks[s.order[p].0] == s.tasks[s.order[p].0] by {
                        assert(s.order[p] != s.order[i as int]);
                    }
                }
            } else {
                proof {
                    assert(!expired(t, now));
                    assert(event_views(events@) =~= reap_events_upto(s.order, s.tasks, now, s.config, i + 1));
                    assert forall|p: int| 0 <= p < i + 1 implies reaped_key(s, now, self@.tasks, spawns@, #[trigger] s.order[p].0) by {
                        if p < i {
                            assert(reaped_key(s, now, tasks_before, spawns_before, s.order[p].0));
                        }
                    }
                }
            }
            i = i + 1;
        }
        proof {
            assert forall|k: u128| #[trigger] s.tasks.contains_key(k) implies reaped_key(s, now, self@.tasks, spawns@, k) by {
                assert(s.order.contains(TaskId(k)));
                let p = choose|p: int| 0 <= p < n && s.order[p] == TaskId(k);
                assert(reaped_key(s, now, self@.tasks, spawns@, s.order[p].0));
            }
        }
        Step { events, spawns }
    }
}

/// The task a reap leaves behind: unchanged when its lease is still live;
/// failed when its attempts are used up; otherwise reassigned to the worker
/// of one of the step's spawns.
pub open spec fn reaped_key(s: SupervisorView, now: u128, tasks: Map<u128, LiveTask>, spawns: Seq<Assignment>, k: u128) -> bool {
    let t = s.tasks[k];
    &&& tasks.contains_key(k)
    &&& !expired(t, now) ==> tasks[k] == t
    &&& (expired(t, now) && t.record.attempt >= s.config.max_attempts) ==> tasks[k] == failed_task(t)
    &&& (expired(t, now) && t.record.attempt < s.config.max_attempts) ==> exists|j: int|
        0 <= j < spawns.len() && #[trigger] spawns[j].task_id.0 == k && spawn_ok(s, now, tasks, spawns[j])
}

/// A spawn of a reap belongs to an expired task with attempts left, and that
/// task now holds the spawn's worker as its next attempt.
pub open spec fn spawn_ok(s: SupervisorView, now: u128, tasks: Map<u128, LiveTask>, a: Assignment) -> bool {
    let k = a.task_id.0;
    let t = s.tasks[k];
    &&& s.tasks.contains_key(k)
    &&& expired(t, now)
    &&& t.record.attempt < s.config.max_attempts
    &&& assignment_for(a, t, s.config)
    &&& tasks[k] == assigned(t, a.worker_id, now, s.config)
}

pub open spec fn worker_or_nil(t: LiveTask) -> WorkerId {
    match t.record.assigned_worker {
        Some(w) => w,
        None => WorkerId(0),
    }
}

pub open spec fn reap_one_events(t: LiveTask, cfg: SupervisorConfig) -> Seq<EventView> {
    seq![
        EventView::WorkerFailed {
            task_id: t.record.id,
            worker_id: worker_or_nil(t),
            attempt: t.record.attempt,
            reason: lease_expired_reason(),
        },
    ] + retry_events(t, lease_expired_reason(), cfg)
}

/// The events of reaping the first `i` tasks of the submission order.
pub open spec fn reap_events_upto(
    order: Seq<TaskId>,
    tasks: Map<u128, LiveTask>,
    now: u128,
    cfg: SupervisorConfig,
    i: int,
) -> Seq<EventView>
    decreases i,
{
    if i <= 0 {
        seq![]
    } else {
        let prev = reap_events_upto(order, tasks, now, cfg, i - 1);
        let t = tasks[order[i - 1].0];
        if expired(t, now) { prev + reap_one_events(t, cfg) } else { prev }
    }
}

/// The effect of a reap at time `now`: expired leases are reported failed
/// (in submission order) and recovered from; nothing else changes.
pub open spec fn reap_step(
    s: SupervisorView,
    now: u128,
    n: SupervisorView,
    evs: Seq<EventView>,
    spawns: Seq<Assignment>,
) -> bool {
    &&& n.config == s.config
    &&& n.order == s.order
    &&& n.tasks.dom() == s.tasks.dom()
    &&& evs == reap_events_upto(s.order, s.tasks, now, s.config, s.order.len() as int)
    &&& forall|k: u128| #[trigger] s.tasks.contains_key(k) ==> reaped_key(s, now, n.tasks, spawns, k)
    &&& forall|j: int| 0 <= j < spawns.len() ==> spawn_ok(s, now, n.tasks, #[trigger] spawns[j])
    &&& forall|j1: int, j2: int| 0 <= j1 < j2 < spawns.len() ==> #[trigger] spawns[j1].task_id != #[trigger] spawns[j2].task_id
}


// ----------------------------------------------------------------------------
// Laws
// ----------------------------------------------------------------------------

/// Fencing: a message from anyone but the current lease holder changes no
/// task, spawns nothing, and is answered by exactly one rejection event.
pub proof fn law_stale_message_is_inert(
    s: SupervisorView,
    m: WorkerMsg,
    now: u128,
    n: SupervisorView,
    evs: Seq<EventView>,
    spawns: Seq<Assignment>,
)
    requires
        msg_step(s, m, now, n, evs, spawns),
        !msg_from_holder(s.tasks, m),
    ensures
        n == s,
        spawns.len() == 0,
        evs.len() == 1,
        evs[0] == (EventView::StaleResultRejected {
            task_id: msg_task(m),
            worker_id: msg_worker(m),
            attempt: msg_attempt(m),
        }),
{
}

/// No message drops or adds a task.
pub proof fn law_messages_keep_every_task(
    s: SupervisorView,
    m: WorkerMsg,
    now: u128,
    n: SupervisorView,
    evs: Seq<EventView>,
    spawns: Seq<Assignment>,
)
    requires
        msg_step(s, m, now, n, evs, spawns),
    ensures
        n.tasks.dom() == s.tasks.dom(),
{
    if msg_from_holder(s.tasks, m) {
        assert(n.tasks.dom() =~= s.tasks.dom());
    }
}

/// Terminal tasks are absorbing: once merged or failed, no message and no
/// reap changes the task.
pub proof fn law_terminal_tasks_are_absorbing(
    s: SupervisorView,
    k: u128,
    m: WorkerMsg,
    now: u128,
    n: SupervisorView,
    evs: Seq<EventView>,
    spawns: Seq<Assignment>,
)
    requires
        sup_wf(s),
        s.tasks.contains_key(k),
        terminal(s.tasks[k].record.status),
        msg_step(s, m, now, n, evs, spawns),
    ensures
        n.tasks.contains_key(k),
        n.tasks[k] == s.tasks[k],
{
    if msg_from_holder(s.tasks, m) {
        assert(msg_task(m).0 != k);
    }
}

/// A reap leaves terminal tasks alone too.
pub proof fn law_reap_leaves_terminal_tasks(
    s: SupervisorView,
    k: u128,
    now: u128,
    n: SupervisorView,
    evs: Seq<EventView>,
    spawns: Seq<Assignment>,
)
    requires
        s.tasks.contains_key(k),
        terminal(s.tasks[k].record.status),
        reap_step(s, now, n, evs, spawns),
    ensures
        n.tasks[k] == s.tasks[k],
{
    assert(reaped_key(s, now, n.tasks, spawns, k));
}

/// The merge gate opens only for a finished run reported by the current lease
/// holder whose report the merge policy accepts.
pub proof fn law_merge_opens_only_on_accepted_report(
    s: SupervisorView,
    m: WorkerMsg,
    now: u128,
    n: SupervisorView,
    evs: Seq<EventView>,
    spawns: Seq<Assignment>,
    id: TaskId,
)
    requires
        sup_wf(s),
        msg_step(s, m, now, n, evs, spawns),
        evs.contains(EventView::MergeOpened { task_id: id }),
    ensures
        msg_from_holder(s.tasks, m),
        id == msg_task(m),
        m matches WorkerMsg::Finished { report, .. } && gate_opens(report, s.config.merge_policy),
        n.tasks[id.0].record.status == TaskStatus::Merged,
{
    let j = choose|j: int| 0 <= j < evs.len() && evs[j] == EventView::MergeOpened { task_id: id };
    if msg_from_holder(s.tasks, m) {
        let t = s.tasks[msg_task(m).0];
        match m {
            WorkerMsg::Finished { report, .. } => {
                assert(legal_edge(t.record.status, TaskStatus::TestsRunning));
                assert(gate_opens(report, s.config.merge_policy));
            },
            WorkerMsg::Died { reason, .. } => {
                assert(evs[j] != EventView::MergeOpened { task_id: id });
            },
            _ => {},
        }
    }
}

proof fn lemma_reap_events_never_open(
    order: Seq<TaskId>,
    tasks: Map<u128, LiveTask>,
    now: u128,
    cfg: SupervisorConfig,
    i: int,
    id: TaskId,
)
    ensures
        !reap_events_upto(order, tasks, now, cfg, i).contains(EventView::MergeOpened { task_id: id }),
    decreases i,
{
    if i > 0 {
        lemma_reap_events_never_open(order, tasks, now, cfg, i - 1, id);
        let prev = reap_events_upto(order, tasks, now, cfg, i - 1);
        let t = tasks[order[i - 1].0];
        if expired(t, now) {
            let all = prev + reap_one_events(t, cfg);
            if all.contains(EventView::MergeOpened { task_id: id }) {
                let j = choose|j: int| 0 <= j < all.len() && all[j] == EventView::MergeOpened { task_id: id };
                if j < prev.len() {
                    assert(prev[j] == all[j]);
                } else {
                    assert(reap_one_events(t, cfg)[j - prev.len()] == all[j]);
                }
            }
        }
    }
}

/// A reap never opens the merge gate: a dead worker never merges anything.
pub proof fn law_reap_never_opens_the_gate(
    s: SupervisorView,
    now: u128,
    n: SupervisorView,
    evs: Seq<EventView>,
    spawns: Seq<Assignment>,
    id: TaskId,
)
    requires
        reap_step(s, now, n, evs, spawns),
    ensures
        !evs.contains(EventView::MergeOpened { task_id: id }),
{
    lemma_reap_events_never_open(s.order, s.tasks, now, s.config, s.order.len() as int, id);
}

/// The merge gate opens at most once per task: a merged task never sees another
/// `MergeOpened`, whatever message arrives.
pub proof fn law_merge_opens_at_most_once(
    s: SupervisorView,
    m: WorkerMsg,
    now: u128,
    n: SupervisorView,
    evs: Seq<EventView>,
    spawns: Seq<Assignment>,
    id: TaskId,
)
    requires
        sup_wf(s),
        s.tasks.contains_key(id.0),
        s.tasks[id.0].record.status == TaskStatus::Merged,
        msg_step(s, m, now, n, evs, spawns),
    ensures
        !evs.contains(EventView::MergeOpened { task_id: id }),
{
    if evs.contains(EventView::MergeOpened { task_id: id }) {
        law_merge_opens_only_on_accepted_report(s, m, now, n, evs, spawns, id);
    }
}

/// Attempts never exceed the configured maximum.
pub proof fn law_attempts_bounded(s: SupervisorView, k: u128)
    requires
        sup_wf(s),
        s.tasks.contains_key(k),
    ensures
        s.tasks[k].record.attempt <= s.config.max_attempts,
{
}

/// Reassignment fences the old generation: once a task is handed to its next
/// attempt, no message carrying the previous attempt number is accepted.
pub proof fn law_reassignment_fences_previous_attempt(
    t: LiveTask,
    w_new: WorkerId,
    now: u128,
    cfg: SupervisorConfig,
    tasks: Map<u128, LiveTask>,
    k: u128,
    w_old: WorkerId,
)
    requires
        t.record.attempt < cfg.max_attempts,
        tasks.contains_key(k),
        tasks[k] == assigned(t, w_new, now, cfg),
    ensures
        !holder_ok(tasks, TaskId(k), w_old, t.record.attempt),
        holder_ok(tasks, TaskId(k), w_new, (t.record.attempt + 1) as u32),
{
}


/// A worker whose lease expired while attempts remain is replaced: the task
/// is handed to a fresh generation with the next attempt number, that
/// generation holds the lease, and every message of the dead generation is
/// fenced out from then on.
pub proof fn law_expired_lease_is_reassigned_and_fenced(
    s: SupervisorView,
    now: u128,
    n: SupervisorView,
    evs: Seq<EventView>,
    spawns: Seq<Assignment>,
    k: u128,
    w_old: WorkerId,
)
    requires
        sup_wf(s),
        reap_step(s, now, n, evs, spawns),
        s.tasks.contains_key(k),
        expired(s.tasks[k], now),
        s.tasks[k].record.attempt < s.config.max_attempts,
    ensures
        exists|j: int| 0 <= j < spawns.len() && #[trigger] spawns[j].task_id.0 == k && {
            &&& spawns[j].attempt == s.tasks[k].record.attempt + 1
            &&& holder_ok(n.tasks, TaskId(k), spawns[j].worker_id, spawns[j].attempt)
        },
        n.tasks[k].record.status == TaskStatus::Assigned,
        !holder_ok(n.tasks, TaskId(k), w_old, s.tasks[k].record.attempt),
{
    assert(reaped_key(s, now, n.tasks, spawns, k));
    let j = choose|j: int| 0 <= j < spawns.len() && #[trigger] spawns[j].task_id.0 == k && spawn_ok(s, now, n.tasks, spawns[j]);
    assert(spawns[j].task_id.0 == k);
}

proof fn lemma_reap_events_prefix(
    order: Seq<TaskId>,
    tasks: Map<u128, LiveTask>,
    now: u128,
    cfg: SupervisorConfig,
    i: int,
    j: int,
)
    requires
        0 <= i <= j,
    ensures
        reap_events_upto(order, tasks, now, cfg, i).len() <= reap_events_upto(order, tasks, now, cfg, j).len(),
        reap_events_upto(order, tasks, now, cfg, j).subrange(0, reap_events_upto(order, tasks, now, cfg, i).len() as int)
            == reap_events_upto(order, tasks, now, cfg, i),
    decreases j - i,
{
    if i < j {
        lemma_reap_events_prefix(order, tasks, now, cfg, i, j - 1);
        let a = reap_events_upto(order, tasks, now, cfg, i);
        let b = reap_events_upto(order, tasks, now, cfg, j - 1);
        let c = reap_events_upto(order, tasks, now, cfg, j);
        assert(c.subrange(0, b.len() as int) =~= b);
        assert(c.subrange(0, a.len() as int) =~= b.subrange(0, a.len() as int));
    } else {
        let a = reap_events_upto(order, tasks, now, cfg, i);
        assert(a.subrange(0, a.len() as int) =~= a);
    }
}

/// A worker whose lease expired after the last allowed attempt fails the
/// task closed: the task is terminally `Failed`, holds no lease, and the reap
/// publishes the merge gate block that says so.
pub proof fn law_exhausted_task_fails_closed(
    s: SupervisorView,
    now: u128,
    n: SupervisorView,
    evs: Seq<EventView>,
    spawns: Seq<Assignment>,
    k: u128,
)
    requires
        sup_wf(s),
        reap_step(s, now, n, evs, spawns),
        s.tasks.contains_key(k),
        expired(s.tasks[k], now),
        s.tasks[k].record.attempt >= s.config.max_attempts,
    ensures
        n.tasks[k].record.status == TaskStatus::Failed,
        n.tasks[k].record.assigned_worker is None,
        evs.contains(EventView::MergeGated {
            task_id: TaskId(k),
            reason: exhausted_reason(s.config, lease_expired_reason()),
        }),
{
    assert(reaped_key(s, now, n.tasks, spawns, k));
    let t = s.tasks[k];
    assert(s.order.contains(TaskId(k)));
    let p = choose|p: int| 0 <= p < s.order.len() && s.order[p] == TaskId(k);
    assert(s.order[p].0 == k);
    let before = reap_events_upto(s.order, s.tasks, now, s.config, p);
    let upto = reap_events_upto(s.order, s.tasks, now, s.config, p + 1);
    assert(upto == before + reap_one_events(t, s.config));
    lemma_reap_events_prefix(s.order, s.tasks, now, s.config, p + 1, s.order.len() as int);
    let idx: int = before.len() as int + 1;
    let gated = EventView::MergeGated { task_id: TaskId(k), reason: exhausted_reason(s.config, lease_expired_reason()) };
    assert(t.record.id == TaskId(k));
    assert(upto[idx] == gated);
    assert(evs.subrange(0, upto.len() as int) == upto);
    assert(evs[idx] == upto[idx]);
}

/// The report of a generation lost to lease expiry.
pub open spec fn lease_failure_event(t: LiveTask) -> EventView {
    EventView::WorkerFailed {
        task_id: t.record.id,
        worker_id: worker_or_nil(t),
        attempt: t.record.attempt,
        reason: lease_expired_reason(),
    }
}

pub open spec fn reassigned_event(task_id: TaskId, attempt: Attempt) -> EventView {
    EventView::TaskReassigned { task_id, attempt }
}

/// Recovery end to end: when a worker's lease expires with attempts left, the
/// reap reports the dead generation failed and reassigns the task; the fresh
/// generation's start and its accepted report then merge the task at that
/// next attempt, with no lease left held.
pub proof fn law_killed_worker_recovers_and_merges(
    s0: SupervisorView,
    now1: u128,
    s1: SupervisorView,
    evs1: Seq<EventView>,
    sp1: Seq<Assignment>,
    k: u128,
    j: int,
    now2: u128,
    s2: SupervisorView,
    evs2: Seq<EventView>,
    sp2: Seq<Assignment>,
    report: TestReport,
    now3: u128,
    s3: SupervisorView,
    evs3: Seq<EventView>,
    sp3: Seq<Assignment>,
)
    requires
        sup_wf(s0),
        s0.tasks.contains_key(k),
        expired(s0.tasks[k], now1),
        s0.tasks[k].record.attempt < s0.config.max_attempts,
        reap_step(s0, now1, s1, evs1, sp1),
        0 <= j < sp1.len(),
        sp1[j].task_id.0 == k,
        msg_step(
            s1,
            (WorkerMsg::Started { task_id: TaskId(k), worker_id: sp1[j].worker_id, attempt: sp1[j].attempt }),
            now2,
            s2,
            evs2,
            sp2,
        ),
        msg_step(
            s2,
            (WorkerMsg::Finished { task_id: TaskId(k), worker_id: sp1[j].worker_id, attempt: sp1[j].attempt, report }),
            now3,
            s3,
            evs3,
            sp3,
        ),
        gate_opens(report, s0.config.merge_policy),
    ensures
        sp1[j].attempt == s0.tasks[k].record.attempt + 1,
        (exists|i: int| 0 <= i && i + 1 < evs1.len() && #[trigger] evs1[i] == lease_failure_event(s0.tasks[k])
            && evs1[i + 1] == reassigned_event(TaskId(k), sp1[j].attempt)),
        (evs2 == seq![EventView::WorkerStarted { task_id: TaskId(k), worker_id: sp1[j].worker_id, attempt: sp1[j].attempt }]),
        (evs3 == seq![
            EventView::TestsPassed { task_id: TaskId(k), origin: report.origin },
            EventView::MergeOpened { task_id: TaskId(k) },
        ]),
        sp2.len() == 0 && sp3.len() == 0,
        s3.tasks[k].record.status == TaskStatus::Merged,
        s3.tasks[k].record.attempt == sp1[j].attempt,
        s3.tasks[k].record.assigned_worker is None,
{
    let t = s0.tasks[k];
    let a = sp1[j];
    assert(spawn_ok(s0, now1, s1.tasks, a));
    let t1 = s1.tasks[k];
    assert(t1 == assigned(t, a.worker_id, now1, s0.config));
    assert(holder_ok(s1.tasks, TaskId(k), a.worker_id, a.attempt));
    let t2 = s2.tasks[k];
    assert(t2 == started(t1, now2, s1.config));
    assert(legal_edge(TaskStatus::Assigned, TaskStatus::InProgress));
    assert(t2.record.status == TaskStatus::InProgress);
    assert(holder_ok(s2.tasks, TaskId(k), a.worker_id, a.attempt));
    assert(t.record.id == TaskId(k));
    assert(t2.record.id == TaskId(k));
    // Where the reap reports the lost generation and reassigns.
    assert(s0.order.contains(TaskId(k)));
    let p = choose|p: int| 0 <= p < s0.order.len() && s0.order[p] == TaskId(k);
    assert(s0.order[p].0 == k);
    let before = reap_events_upto(s0.order, s0.tasks, now1, s0.config, p);
    let upto = reap_events_upto(s0.order, s0.tasks, now1, s0.config, p + 1);
    assert(upto == before + reap_one_events(t, s0.config));
    lemma_reap_events_prefix(s0.order, s0.tasks, now1, s0.config, p + 1, s0.order.len() as int);
    let i0: int = before.len() as int;
    assert(evs1.subrange(0, upto.len() as int) == upto);
    assert(evs1[i0] == upto[i0]);
    assert(evs1[i0 + 1] == upto[i0 + 1]);
    assert(upto[i0 + 1] == reassigned_event(TaskId(k), a.attempt));
    assert(upto[i0] == lease_failure_event(t));
}

/// Each reap event names a task of the first `i` in the submission order.
proof fn lemma_reap_event_task(
    order: Seq<TaskId>,
    tasks: Map<u128, LiveTask>,
    now: u128,
    cfg: SupervisorConfig,
    i: int,
    x: int,
    id: TaskId,
    a: Attempt,
)
    requires
        0 <= i <= order.len(),
        forall|p: int| 0 <= p < order.len() ==> #[trigger] tasks[order[p].0].record.id == order[p],
        0 <= x < reap_events_upto(order, tasks, now, cfg, i).len(),
        reap_events_upto(order, tasks, now, cfg, i)[x] == reassigned_event(id, a),
    ensures
        exists|p: int| 0 <= p < i && #[trigger] order[p] == id,
    decreases i,
{
    let prev = reap_events_upto(order, tasks, now, cfg, i - 1);
    let t = tasks[order[i - 1].0];
    if expired(t, now) && x >= prev.len() {
        let one = reap_one_events(t, cfg);
        assert(one[x - prev.len()] == reassigned_event(id, a));
        assert(t.record.id == order[i - 1]);
        assert(order[i - 1] == id);
    } else {
        lemma_reap_event_task(order, tasks, now, cfg, i - 1, x, id, a);
        let p = choose|p: int| 0 <= p < i - 1 && #[trigger] order[p] == id;
        assert(order[p] == id);
    }
}

/// A reap reassigns each task at most once: one `TaskReassigned` per task.
proof fn lemma_reassigned_once(
    order: Seq<TaskId>,
    tasks: Map<u128, LiveTask>,
    now: u128,
    cfg: SupervisorConfig,
    i: int,
    x: int,
    y: int,
    id: TaskId,
    a: Attempt,
)
    requires
        0 <= i <= order.len(),
        order.no_duplicates(),
        forall|p: int| 0 <= p < order.len() ==> #[trigger] tasks[order[p].0].record.id == order[p],
        0 <= x < reap_events_upto(order, tasks, now, cfg, i).len(),
        0 <= y < reap_events_upto(order, tasks, now, cfg, i).len(),
        reap_events_upto(order, tasks, now, cfg, i)[x] == reassigned_event(id, a),
        reap_events_upto(order, tasks, now, cfg, i)[y] == reassigned_event(id, a),
    ensures
        x == y,
    decreases i,
{
    let prev = reap_events_upto(order, tasks, now, cfg, i - 1);
    let t = tasks[order[i - 1].0];
    if !expired(t, now) {
        lemma_reassigned_once(order, tasks, now, cfg, i - 1, x, y, id, a);
    } else {
        let one = reap_one_events(t, cfg);
        if x < prev.len() && y < prev.len() {
            lemma_reassigned_once(order, tasks, now, cfg, i - 1, x, y, id, a);
        } else if x >= prev.len() && y >= prev.len() {
            assert(one[x - prev.len()] == reassigned_event(id, a));
            assert(one[y - prev.len()] == reassigned_event(id, a));
        } else {
            let z = if x < prev.len() { x } else { y };
            let w = if x < prev.len() { y } else { x };
            assert(prev[z] == reassigned_event(id, a));
            lemma_reap_event_task(order, tasks, now, cfg, i - 1, z, id, a);
            let p = choose|p: int| 0 <= p < i - 1 && #[trigger] order[p] == id;
            assert(one[w - prev.len()] == reassigned_event(id, a));
            assert(t.record.id == order[i - 1]);
            assert(order[p] == order[i - 1]);
        }
    }
}

/// The whole self-healing run from submission: a task is submitted and its
/// first worker starts, then goes silent; once its lease has run out a reap
/// reports the failure and reassigns the task; the second worker starts and
/// its accepted report merges the task. The milestones come in order,
/// the reassignment, the second start and the merge each exactly once, and
/// the task ends merged at attempt 2 with no lease held.
pub proof fn law_submitted_task_recovers_from_a_killed_worker(
    s0: SupervisorView,
    spec: TaskSpec,
    now0: u128,
    id: TaskId,
    s1: SupervisorView,
    evs1: Seq<EventView>,
    sp1: Seq<Assignment>,
    now1: u128,
    s2: SupervisorView,
    evs2: Seq<EventView>,
    sp2: Seq<Assignment>,
    now2: u128,
    s3: SupervisorView,
    evs3: Seq<EventView>,
    sp3: Seq<Assignment>,
    j: int,
    now3: u128,
    s4: SupervisorView,
    evs4: Seq<EventView>,
    sp4: Seq<Assignment>,
    report: TestReport,
    now4: u128,
    s5: SupervisorView,
    evs5: Seq<EventView>,
    sp5: Seq<Assignment>,
)
    requires
        sup_wf(s0),
        sup_wf(s2),
        s0.config.max_attempts >= 2,
        submit_step(s0, spec, now0, id, s1, evs1, sp1),
        msg_step(
            s1,
            (WorkerMsg::Started { task_id: id, worker_id: sp1[0].worker_id, attempt: sp1[0].attempt }),
            now1,
            s2,
            evs2,
            sp2,
        ),
        time_ok(now1, s0.config),
        now2 >= now1 + s0.config.lease.lease_timeout_ns,
        reap_step(s2, now2, s3, evs3, sp3),
        0 <= j < sp3.len(),
        sp3[j].task_id == id,
        msg_step(
            s3,
            (WorkerMsg::Started { task_id: id, worker_id: sp3[j].worker_id, attempt: sp3[j].attempt }),
            now3,
            s4,
            evs4,
            sp4,
        ),
        msg_step(
            s4,
            (WorkerMsg::Finished { task_id: id, worker_id: sp3[j].worker_id, attempt: sp3[j].attempt, report }),
            now4,
            s5,
            evs5,
            sp5,
        ),
        gate_opens(report, s0.config.merge_policy),
    ensures
        sp1.len() == 1 && sp1[0].attempt == 1 && sp3[j].attempt == 2,
        ({
            let all = evs1 + evs2 + evs3 + evs4 + evs5;
            exists|i1: int, i2: int, i3: int, i4: int, i5: int, i6: int|
                0 <= i1 < i2 < i3 < i4 < i5 < i6 < all.len()
                && #[trigger] all[i1] == (EventView::WorkerStarted { task_id: id, worker_id: sp1[0].worker_id, attempt: 1 })
                && #[trigger] all[i2] == (EventView::WorkerFailed {
                    task_id: id,
                    worker_id: sp1[0].worker_id,
                    attempt: 1,
                    reason: lease_expired_reason(),
                })
                && #[trigger] all[i3] == reassigned_event(id, 2)
                && #[trigger] all[i4] == (EventView::WorkerStarted { task_id: id, worker_id: sp3[j].worker_id, attempt: 2 })
                && #[trigger] all[i5] == (EventView::TestsPassed { task_id: id, origin: report.origin })
                && #[trigger] all[i6] == (EventView::MergeOpened { task_id: id })
        }),
        ({
            let all = evs1 + evs2 + evs3 + evs4 + evs5;
            forall|x: int, y: int| 0 <= x < all.len() && 0 <= y < all.len()
                && #[trigger] all[x] == (EventView::MergeOpened { task_id: id })
                && #[trigger] all[y] == (EventView::MergeOpened { task_id: id }) ==> x == y
        }),
        ({
            let all = evs1 + evs2 + evs3 + evs4 + evs5;
            forall|x: int, y: int| 0 <= x < all.len() && 0 <= y < all.len()
                && #[trigger] all[x] == reassigned_event(id, 2)
                && #[trigger] all[y] == reassigned_event(id, 2) ==> x == y
        }),
        ({
            let all = evs1 + evs2 + evs3 + evs4 + evs5;
            let started2 = EventView::WorkerStarted { task_id: id, worker_id: sp3[j].worker_id, attempt: 2 };
            forall|x: int, y: int| 0 <= x < all.len() && 0 <= y < all.len()
                && #[trigger] all[x] == started2 && #[trigger] all[y] == started2 ==> x == y
        }),
        s5.tasks[id.0].record.status == TaskStatus::Merged,
        s5.tasks[id.0].record.attempt == 2,
        s5.tasks[id.0].record.assigned_worker is None,
{
    let cfg = s0.config;
    let k = id.0;
    let p0 = pending_task(id, spec, now0);
    let w1 = sp1[0].worker_id;
    assert(sp1.len() == 1);
    assert(s1.tasks[k] == assigned(p0, w1, now0, cfg));
    assert(holder_ok(s1.tasks, id, w1, 1));
    let t2 = s2.tasks[k];
    assert(t2 == started(s1.tasks[k], now1, cfg));
    assert(legal_edge(TaskStatus::Assigned, TaskStatus::InProgress));
    assert(t2.record.status == TaskStatus::InProgress);
    assert(t2.lease_until == now1 + cfg.lease.lease_timeout_ns);
    assert(expired(t2, now2));
    assert(TaskId(k) == id);
    law_killed_worker_recovers_and_merges(
        s2, now2, s3, evs3, sp3, k, j, now3, s4, evs4, sp4, report, now4, s5, evs5, sp5,
    );
    let i = choose|i: int| 0 <= i && i + 1 < evs3.len() && #[trigger] evs3[i] == lease_failure_event(s2.tasks[k])
        && evs3[i + 1] == reassigned_event(TaskId(k), sp3[j].attempt);
    assert(worker_or_nil(t2) == w1);
    assert(evs1.len() == 1 && evs2.len() == 1);
    let all = evs1 + evs2 + evs3 + evs4 + evs5;
    let n3 = evs3.len() as int;
    assert(all[1] == evs2[0]);
    assert(all[2 + i] == evs3[i]);
    assert(all[3 + i] == evs3[i + 1]);
    assert(all[2 + n3] == evs4[0]);
    assert(all[3 + n3] == evs5[0]);
    assert(all[4 + n3] == evs5[1]);
    assert(all.len() == 5 + n3);
    // Reap events never open the merge gate, never start a worker, and reassign each task once.
    lemma_reap_events_never_open(s2.order, s2.tasks, now2, cfg, s2.order.len() as int, id);
    assert forall|p: int| 0 <= p < s2.order.len() implies #[trigger] s2.tasks[s2.order[p].0].record.id == s2.order[p] by {
        assert(s2.tasks.contains_key(s2.order[p].0));
    }
    assert forall|x: int, y: int| 0 <= x < all.len() && 0 <= y < all.len()
        && #[trigger] all[x] == (EventView::MergeOpened { task_id: id })
        && #[trigger] all[y] == (EventView::MergeOpened { task_id: id }) implies x == y by {
        if 2 <= x < 2 + n3 {
            assert(evs3[x - 2] == all[x]);
        }
        if 2 <= y < 2 + n3 {
            assert(evs3[y - 2] == all[y]);
        }
    }
    assert forall|x: int, y: int| 0 <= x < all.len() && 0 <= y < all.len()
        && #[trigger] all[x] == reassigned_event(id, 2)
        && #[trigger] all[y] == reassigned_event(id, 2) implies x == y by {
        if 2 <= x < 2 + n3 && 2 <= y < 2 + n3 {
            assert(evs3[x - 2] == all[x]);
            assert(evs3[y - 2] == all[y]);
            lemma_reassigned_once(s2.order, s2.tasks, now2, cfg, s2.order.len() as int, x - 2, y - 2, id, 2);
        }
    }
    let started2 = EventView::WorkerStarted { task_id: id, worker_id: sp3[j].worker_id, attempt: 2 };
    assert forall|x: int, y: int| 0 <= x < all.len() && 0 <= y < all.len()
        && #[trigger] all[x] == started2 && #[trigger] all[y] == started2 implies x == y by {
        if 2 <= x < 2 + n3 {
            assert(evs3[x - 2] == all[x]);
            lemma_reap_events_never_start(s2.order, s2.tasks, now2, cfg, s2.order.len() as int, x - 2);
        }
        if 2 <= y < 2 + n3 {
            assert(evs3[y - 2] == all[y]);
            lemma_reap_events_never_start(s2.order, s2.tasks, now2, cfg, s2.order.len() as int, y - 2);
        }
    }
    assert(all[1] == (EventView::WorkerStarted { task_id: id, worker_id: w1, attempt: 1 }));
    assert(all[2 + i] == (EventView::WorkerFailed { task_id: id, worker_id: w1, attempt: 1, reason: lease_expired_reason() }));
}

/// Reap events never report a worker start.
proof fn lemma_reap_events_never_start(
    order: Seq<TaskId>,
    tasks: Map<u128, LiveTask>,
    now: u128,
    cfg: SupervisorConfig,
    i: int,
    x: int,
)
    requires
        0 <= x < reap_events_upto(order, tasks, now, cfg, i).len(),
    ensures
        !(reap_events_upto(order, tasks, now, cfg, i)[x] is WorkerStarted),
    decreases i,
{
    if i > 0 {
        let prev = reap_events_upto(order, tasks, now, cfg, i - 1);
        let t = tasks[order[i - 1].0];
        if expired(t, now) && x >= prev.len() {
            assert(reap_one_events(t, cfg)[x - prev.len()] == reap_events_upto(order, tasks, now, cfg, i)[x]);
        } else {
            lemma_reap_events_never_start(order, tasks, now, cfg, i - 1, x);
        }
    }
}

} // verus!
