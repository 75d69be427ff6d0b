use swarm_ci::events::{SwarmEvent, TestOrigin};
use swarm_ci::gate::{MergePolicy, TestReport};
use swarm_ci::ids::{Attempt, TaskId};
use swarm_ci::lease::LeaseConfig;
use swarm_ci::mail::{Assignment, WorkerMsg};
use swarm_ci::supervisor::{Supervisor, SupervisorConfig};
use swarm_ci::task::{TaskSpec, TaskStatus};
use swarm_ci::worker::{heartbeat_msg, outcome_msg, started_msg, ExecutorOutcome};

fn spec() -> TaskSpec {
    TaskSpec {
        pr_id: "PR-42".into(),
        title: "Fix off-by-one in ledger sum".into(),
        bug_description: "ledger sum skips the final element".into(),
        pr_url: None,
        repo_url: None,
        git_ref: None,
    }
}

fn fast_config(max_attempts: u32) -> SupervisorConfig {
    SupervisorConfig {
        lease: LeaseConfig { heartbeat_interval_ns: 100 * MS, lease_timeout_ns: 300 * MS },
        reap_interval_ns: 50 * MS,
        max_attempts,
        merge_policy: MergePolicy { require_real_cargo_test: false },
    }
}

fn pass(origin: TestOrigin) -> ExecutorOutcome {
    ExecutorOutcome::Completed(TestReport { passed: true, origin, summary: "simulated pass".into() })
}

fn started(a: Attempt) -> impl Fn(&SwarmEvent) -> bool {
    move |e| matches!(e, SwarmEvent::WorkerStarted { attempt, .. } if *attempt == a)
}
fn failed(a: Attempt) -> impl Fn(&SwarmEvent) -> bool {
    move |e| matches!(e, SwarmEvent::WorkerFailed { attempt, .. } if *attempt == a)
}
fn reassigned_to(a: Attempt) -> impl Fn(&SwarmEvent) -> bool {
    move |e| matches!(e, SwarmEvent::TaskReassigned { attempt, .. } if *attempt == a)
}
fn stale_from(a: Attempt) -> impl Fn(&SwarmEvent) -> bool {
    move |e| matches!(e, SwarmEvent::StaleResultRejected { attempt, .. } if *attempt == a)
}
fn merge_opened(e: &SwarmEvent) -> bool {
    matches!(e, SwarmEvent::MergeOpened { .. })
}
fn merge_gated(e: &SwarmEvent) -> bool {
    matches!(e, SwarmEvent::MergeGated { .. })
}
fn count(v: &[SwarmEvent], pred: &dyn Fn(&SwarmEvent) -> bool) -> usize {
    v.iter().filter(|e| pred(e)).count()
}

/// One millisecond, in the supervisor's nanoseconds.
const MS: u128 = 1_000_000;

/// Drives the supervisor like its runtime would, recording every event;
/// times are given to the harness in milliseconds.
struct Harness {
    sup: Supervisor,
    events: Vec<SwarmEvent>,
    spawned: Vec<Assignment>,
}

impl Harness {
    fn new(config: SupervisorConfig) -> Self {
        Harness { sup: Supervisor::new(config).expect("valid config"), events: vec![], spawned: vec![] }
    }
    fn submit(&mut self, now_ms: u64) -> TaskId {
        let (id, step) = self.sup.submit_pr(spec(), now_ms as u128 * MS);
        self.events.extend(step.events);
        self.spawned.extend(step.spawns);
        id
    }
    fn send(&mut self, msg: WorkerMsg, now_ms: u64) {
        let step = self.sup.on_msg(msg, now_ms as u128 * MS);
        self.events.extend(step.events);
        self.spawned.extend(step.spawns);
    }
    fn reap(&mut self, now_ms: u64) {
        let step = self.sup.reap_expired(now_ms as u128 * MS);
        self.events.extend(step.events);
        self.spawned.extend(step.spawns);
    }
    fn assignment(&self, attempt: Attempt) -> Assignment {
        self.spawned.iter().find(|a| a.attempt == attempt).expect("assignment spawned").clone()
    }
}

#[test]
fn killed_worker_is_reassigned_and_task_completes() {
    let mut h = Harness::new(fast_config(3));
    let task_id = h.submit(0);

    // Worker #1 picks the task up and beats once, then is killed: it goes silent.
    let a1 = h.assignment(1);
    h.send(started_msg(&a1), 10);
    assert!(h.events.iter().any(started(1)), "worker #1 never started");
    h.send(heartbeat_msg(&a1), 100);
    let zombie = a1.worker_id;

    // Before the lease runs out nothing happens; after it, the reaper acts.
    h.reap(350);
    assert!(!h.events.iter().any(failed(1)));
    h.reap(400);
    assert!(h.events.iter().any(failed(1)), "worker #1 death never observed via lease expiry");
    assert!(h.events.iter().any(reassigned_to(2)), "no reassignment to attempt 2");

    // Fresh worker #2 runs to completion; the merge gate opens on its report.
    let a2 = h.assignment(2);
    assert_ne!(a2.worker_id, zombie);
    h.send(started_msg(&a2), 410);
    assert!(h.events.iter().any(started(2)), "fresh worker #2 never started");
    h.send(outcome_msg(&a2, pass(TestOrigin::Simulated)), 420);
    assert!(h.events.iter().any(merge_opened), "merge gate never opened");

    let record = h.sup.snapshot(task_id).expect("task present");
    assert_eq!(record.status, TaskStatus::Merged);
    assert_eq!(record.attempt, 2);
    assert!(record.assigned_worker.is_none());

    // Ordering proof: the full recovery story happened in order.
    let events = h.events.clone();
    let find = |pred: &dyn Fn(&SwarmEvent) -> bool| events.iter().position(pred).expect("milestone event present");
    let i_start1 = find(&started(1));
    let i_fail1 = find(&failed(1));
    let i_reassign = find(&reassigned_to(2));
    let i_start2 = find(&started(2));
    let i_pass = find(&|e| matches!(e, SwarmEvent::TestsPassed { .. }));
    let i_open = find(&merge_opened);
    assert!(i_start1 < i_fail1, "started#1 must precede failed#1");
    assert!(i_fail1 < i_reassign, "failed#1 must precede reassignment");
    assert!(i_reassign < i_start2, "reassignment must precede started#2");
    assert!(i_start2 < i_pass, "started#2 must precede tests.passed");
    assert!(i_pass < i_open, "tests.passed must precede merge.opened");

    // Fencing: the zombie's late heartbeat is rejected...
    h.send(WorkerMsg::Heartbeat { task_id, worker_id: zombie, attempt: 1 }, 500);
    assert!(h.events.iter().any(stale_from(1)), "stale heartbeat was not rejected");

    // ...and so is its late "result", even one claiming a real cargo pass.
    let stale_before = count(&h.events, &stale_from(1));
    h.send(
        WorkerMsg::Finished {
            task_id,
            worker_id: zombie,
            attempt: 1,
            report: TestReport { passed: true, origin: TestOrigin::RealCargoTest, summary: "zombie claims victory".into() },
        },
        510,
    );
    assert_eq!(count(&h.events, &stale_from(1)), stale_before + 1, "zombie's late result was not rejected");

    // The machine is unmoved: still merged, exactly one of each.
    let record = h.sup.snapshot(task_id).unwrap();
    assert_eq!(record.status, TaskStatus::Merged);
    assert_eq!(count(&h.events, &merge_opened), 1, "gate must open exactly once");
    assert_eq!(count(&h.events, &reassigned_to(2)), 1);
    assert_eq!(count(&h.events, &started(2)), 1);
}

#[test]
fn task_fails_closed_after_max_attempts_when_all_workers_die() {
    let mut h = Harness::new(fast_config(2));
    let task_id = h.submit(0);
    for attempt in 1..=2u32 {
        let a = h.assignment(attempt);
        h.send(started_msg(&a), 10 * attempt as u64);
        h.send(outcome_msg(&a, ExecutorOutcome::Crashed("sandbox toolchain exploded".into())), 20 * attempt as u64);
    }
    assert!(h.events.iter().any(merge_gated), "task should terminate with a visible gate block");

    let record = h.sup.snapshot(task_id).expect("task present");
    assert_eq!(record.status, TaskStatus::Failed);
    assert_eq!(record.attempt, 2);

    assert!(h.events.iter().any(failed(1)), "attempt 1 failure unobserved");
    assert!(h.events.iter().any(failed(2)), "attempt 2 failure unobserved");
    assert!(h.events.iter().any(reassigned_to(2)));
    assert_eq!(count(&h.events, &merge_gated), 1);
    assert!(!h.events.iter().any(merge_opened), "a failed task must never open the merge gate");
    match h.events.iter().find(|e| merge_gated(e)) {
        Some(SwarmEvent::MergeGated { reason, .. }) => {
            assert_eq!(reason, "max attempts (2) exhausted: sandbox toolchain exploded")
        }
        _ => unreachable!(),
    }
}

#[test]
fn lease_expiry_after_last_attempt_fails_closed() {
    let mut h = Harness::new(fast_config(1));
    let task_id = h.submit(0);
    h.reap(300);
    let record = h.sup.snapshot(task_id).unwrap();
    assert_eq!(record.status, TaskStatus::Failed);
    assert!(record.assigned_worker.is_none());
    match h.events.last() {
        Some(SwarmEvent::MergeGated { reason, .. }) => assert_eq!(
            reason,
            "max attempts (1) exhausted: lease expired: no heartbeat within timeout"
        ),
        other => panic!("unexpected {other:?}"),
    }
    // Later reaps leave the terminal task alone.
    let n = h.events.len();
    h.reap(10_000);
    assert_eq!(h.events.len(), n);
}

#[test]
fn heartbeats_keep_the_lease_alive() {
    let mut h = Harness::new(fast_config(3));
    let task_id = h.submit(0);
    let a1 = h.assignment(1);
    h.send(started_msg(&a1), 0);
    for t in (100..=1000).step_by(100) {
        h.send(heartbeat_msg(&a1), t);
        h.reap(t + 50);
    }
    assert!(!h.events.iter().any(failed(1)));
    assert_eq!(h.sup.snapshot(task_id).unwrap().status, TaskStatus::InProgress);
    assert_eq!(count(&h.events, &|e| matches!(e, SwarmEvent::WorkerHeartbeat { .. })), 10);
}

#[test]
fn simulated_pass_is_gated_when_real_tests_required() {
    let mut config = fast_config(3);
    config.merge_policy = MergePolicy::default();
    let mut h = Harness::new(config);
    let task_id = h.submit(0);
    let a1 = h.assignment(1);
    h.send(outcome_msg(&a1, pass(TestOrigin::Simulated)), 5);
    assert_eq!(h.sup.snapshot(task_id).unwrap().status, TaskStatus::Failed);
    assert!(h.events.iter().any(merge_gated));
    assert!(!h.events.iter().any(merge_opened));
    assert!(!h.events.iter().any(|e| matches!(e, SwarmEvent::TestsFailed { .. })));
}

#[test]
fn failing_report_emits_tests_failed_then_gate_block() {
    let mut h = Harness::new(SupervisorConfig::default());
    let task_id = h.submit(0);
    let a1 = h.assignment(1);
    h.send(started_msg(&a1), 1);
    h.send(
        outcome_msg(
            &a1,
            ExecutorOutcome::Completed(TestReport { passed: false, origin: TestOrigin::RealCargoTest, summary: "1 failed".into() }),
        ),
        2,
    );
    let tail: Vec<_> = h.events.iter().rev().take(2).collect();
    assert!(matches!(tail[1], SwarmEvent::TestsFailed { reason, .. } if reason == "1 failed"));
    assert!(matches!(tail[0], SwarmEvent::MergeGated { reason, .. } if reason == "tests failed: 1 failed"));
    assert_eq!(h.sup.snapshot(task_id).unwrap().status, TaskStatus::Failed);
}

#[test]
fn invalid_lease_config_is_refused() {
    let mut config = SupervisorConfig::default();
    config.lease.lease_timeout_ns = config.lease.heartbeat_interval_ns;
    assert!(Supervisor::new(config).is_err());
}

#[test]
fn zero_attempts_leaves_task_pending() {
    let mut h = Harness::new(fast_config(0));
    let task_id = h.submit(0);
    assert!(h.spawned.is_empty());
    let record = h.sup.snapshot(task_id).unwrap();
    assert_eq!(record.status, TaskStatus::Pending);
    assert_eq!(record.attempt, 0);
    assert_eq!(h.sup.task_ids(), vec![task_id]);
}

#[test]
fn submit_announces_and_assigns_attempt_one() {
    let mut h = Harness::new(SupervisorConfig::default());
    let id = h.submit(7);
    assert!(matches!(&h.events[0], SwarmEvent::TaskCreated { task_id, pr_id, title }
        if *task_id == id && pr_id == "PR-42" && title == "Fix off-by-one in ledger sum"));
    assert_eq!(h.spawned.len(), 1);
    let a = &h.spawned[0];
    assert_eq!(a.task_id, id);
    assert_eq!(a.attempt, 1);
    assert_eq!(a.lease, LeaseConfig::default());
    let r = h.sup.snapshot(id).unwrap();
    assert_eq!(r.status, TaskStatus::Assigned);
    assert_eq!(r.assigned_worker, Some(a.worker_id));
    assert!(h.sup.snapshot(TaskId::nil()).is_none());
}
