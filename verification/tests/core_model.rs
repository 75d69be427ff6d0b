use std::time::Duration;
use swarm_ci::error::SwarmError;
use swarm_ci::events::TestOrigin;
use swarm_ci::gate::{evaluate_merge_gate, MergeDecision, MergePolicy, TestReport};
use swarm_ci::ids::TaskId;
use swarm_ci::lease::LeaseConfig;
use swarm_ci::task::{TaskRecord, TaskSpec, TaskStatus};

fn report(passed: bool, origin: TestOrigin) -> TestReport {
    TestReport { passed, origin, summary: "s".into() }
}

fn spec() -> TaskSpec {
    TaskSpec {
        pr_id: "PR-1".into(),
        title: "t".into(),
        bug_description: "d".into(),
        pr_url: None,
        repo_url: None,
        git_ref: None,
    }
}

#[test]
fn simulated_pass_never_opens_when_real_tests_required() {
    let d = evaluate_merge_gate(&report(true, TestOrigin::Simulated), MergePolicy::default());
    assert!(matches!(d, MergeDecision::Gated { .. }));
}

#[test]
fn real_pass_opens_always() {
    let d = evaluate_merge_gate(&report(true, TestOrigin::RealCargoTest), MergePolicy::default());
    assert_eq!(d, MergeDecision::Open { origin: TestOrigin::RealCargoTest });
}

#[test]
fn failure_gates_with_reason() {
    let d = evaluate_merge_gate(&report(false, TestOrigin::RealCargoTest), MergePolicy::default());
    assert!(matches!(d, MergeDecision::Gated { .. }));
}

#[test]
fn simulated_pass_allowed_in_dev_mode() {
    let policy = MergePolicy { require_real_cargo_test: false };
    let d = evaluate_merge_gate(&report(true, TestOrigin::Simulated), policy);
    assert_eq!(d, MergeDecision::Open { origin: TestOrigin::Simulated });
}

#[test]
fn gate_reasons_are_exact() {
    let d = evaluate_merge_gate(&report(false, TestOrigin::RealCargoTest), MergePolicy::default());
    assert_eq!(d, MergeDecision::Gated { reason: "tests failed: s".into() });
    let d = evaluate_merge_gate(&report(true, TestOrigin::Simulated), MergePolicy::default());
    assert_eq!(
        d,
        MergeDecision::Gated { reason: "tests reported pass, but this was not a real cargo test run".into() }
    );
    let dev = MergePolicy { require_real_cargo_test: false };
    let d = evaluate_merge_gate(&report(false, TestOrigin::Simulated), dev);
    assert_eq!(d, MergeDecision::Gated { reason: "tests failed: s".into() });
}

#[test]
fn defaults_are_valid() {
    assert!(LeaseConfig::default().validate().is_ok());
}

#[test]
fn timeout_must_exceed_heartbeat() {
    let cfg = LeaseConfig { heartbeat_interval_ns: 1_000_000_000, lease_timeout_ns: 1_000_000_000 };
    assert!(matches!(cfg.validate(), Err(SwarmError::InvalidConfig(_))));
}

#[test]
fn invalid_lease_message_names_both_durations() {
    let cfg = LeaseConfig { heartbeat_interval_ns: 1_500_000_000, lease_timeout_ns: 250_000_000 };
    match cfg.validate() {
        Err(SwarmError::InvalidConfig(m)) => assert_eq!(
            m,
            "lease_timeout (250ms) must be strictly greater than heartbeat_interval (1.5s)"
        ),
        other => panic!("expected InvalidConfig, got {other:?}"),
    }
    let cfg = LeaseConfig { heartbeat_interval_ns: 1_000_000_000, lease_timeout_ns: 0 };
    match cfg.validate() {
        Err(SwarmError::InvalidConfig(m)) => assert_eq!(
            m,
            "lease_timeout (0ns) must be strictly greater than heartbeat_interval (1s)"
        ),
        other => panic!("expected InvalidConfig, got {other:?}"),
    }
}

#[test]
fn happy_path_is_legal() {
    let mut r = TaskRecord::new(TaskId::generate(), spec());
    for s in [
        TaskStatus::Assigned,
        TaskStatus::InProgress,
        TaskStatus::TestsRunning,
        TaskStatus::Passed,
        TaskStatus::Merged,
    ] {
        r.transition(s).expect("legal transition");
    }
    assert_eq!(r.status, TaskStatus::Merged);
    assert!(r.assigned_worker.is_none());
}

#[test]
fn pending_cannot_skip_straight_to_merged() {
    let mut r = TaskRecord::new(TaskId::generate(), spec());
    assert!(matches!(r.transition(TaskStatus::Merged), Err(SwarmError::IllegalTransition { .. })));
}

#[test]
fn reassignment_edges_exist_from_every_lease_holding_state() {
    for from in [TaskStatus::Assigned, TaskStatus::InProgress, TaskStatus::TestsRunning] {
        assert!(from.can_transition_to(TaskStatus::Assigned), "{from:?} -> Assigned");
        assert!(from.can_transition_to(TaskStatus::Failed), "{from:?} -> Failed");
    }
}

#[test]
fn terminal_states_have_no_exits() {
    for from in [TaskStatus::Failed, TaskStatus::Merged] {
        for to in [
            TaskStatus::Pending,
            TaskStatus::Assigned,
            TaskStatus::InProgress,
            TaskStatus::TestsRunning,
            TaskStatus::Passed,
            TaskStatus::Merged,
            TaskStatus::Failed,
        ] {
            assert!(!from.can_transition_to(to), "{from:?} -> {to:?} must be illegal");
        }
    }
}

#[test]
fn illegal_transition_reports_both_ends_and_changes_nothing() {
    let mut r = TaskRecord::new(TaskId::nil(), spec());
    match r.transition(TaskStatus::Passed) {
        Err(SwarmError::IllegalTransition { from, to }) => {
            assert_eq!(from, TaskStatus::Pending);
            assert_eq!(to, TaskStatus::Passed);
        }
        other => panic!("expected IllegalTransition, got {other:?}"),
    }
    assert_eq!(r.status, TaskStatus::Pending);
    assert_eq!(r.attempt, 0);
}

#[test]
fn leaving_lease_states_releases_the_worker() {
    let mut r = TaskRecord::new(TaskId::nil(), spec());
    r.transition(TaskStatus::Assigned).unwrap();
    r.assigned_worker = Some(swarm_ci::ids::WorkerId(7));
    r.transition(TaskStatus::InProgress).unwrap();
    assert_eq!(r.assigned_worker, Some(swarm_ci::ids::WorkerId(7)));
    r.transition(TaskStatus::Failed).unwrap();
    assert!(r.assigned_worker.is_none());
    assert!(r.status.is_terminal());
    assert!(!r.status.holds_lease());
}

#[test]
fn generated_ids_are_version_4_and_parse_back() {
    let id = TaskId::generate();
    assert_ne!(id.0, 0);
    assert_eq!((id.0 >> 76) & 0xF, 4);
    let text = id.to_text();
    assert_eq!(text.len(), 36);
    assert_eq!(TaskId::parse(&text), Some(id));
    assert!(TaskId::parse("not-a-uuid").is_none());
    assert_eq!(
        TaskId::parse("00000000-0000-0000-0000-000000000000"),
        Some(TaskId::nil())
    );
}

#[test]
fn error_messages_match_the_documented_wording() {
    let e = SwarmError::StaleWorkerMessage {
        task_id: TaskId::nil(),
        worker_id: swarm_ci::ids::WorkerId::nil(),
        from_attempt: 1,
        current_attempt: 2,
    };
    assert_eq!(
        e.message(),
        "old agent result rejected \u{2014} task was already reassigned (message from attempt 1, current attempt 2)"
    );
    let e = SwarmError::IllegalTransition { from: TaskStatus::Pending, to: TaskStatus::Merged };
    assert_eq!(e.message(), "illegal state transition from Pending to Merged");
    let e = SwarmError::TaskNotFound(TaskId::nil());
    assert_eq!(e.message(), "task 00000000-0000-0000-0000-000000000000 not found");
    assert_eq!(SwarmError::ChannelClosed.message(), "internal channel closed");
}

#[test]
fn uuid_text_is_hyphenated_lower_hex() {
    let id = swarm_ci::ids::TaskId(0x67e5_5044_10b1_426f_9247_bb68_0e5f_e0c8);
    assert_eq!(id.to_text(), "67e55044-10b1-426f-9247-bb680e5fe0c8");
    assert_eq!(swarm_ci::ids::TaskId::nil().to_text(), "00000000-0000-0000-0000-000000000000");
}

#[test]
fn duration_text_matches_std_debug() {
    let cases = [
        Duration::ZERO,
        Duration::from_nanos(7),
        Duration::from_nanos(999),
        Duration::from_micros(250),
        Duration::from_nanos(1_500),
        Duration::from_nanos(1_000_001),
        Duration::from_micros(1_500),
        Duration::from_millis(250),
        Duration::from_millis(1_005),
        Duration::from_secs(3),
        Duration::new(1, 1),
        Duration::new(12, 340_000_000),
        Duration::MAX,
    ];
    for d in cases {
        let cfg = LeaseConfig { heartbeat_interval_ns: d.as_nanos(), lease_timeout_ns: 0 };
        match cfg.validate() {
            Err(SwarmError::InvalidConfig(m)) => assert_eq!(
                m,
                format!("lease_timeout (0ns) must be strictly greater than heartbeat_interval ({d:?})")
            ),
            Ok(()) => assert_eq!(d, Duration::ZERO),
            other => panic!("unexpected {other:?}"),
        }
    }
}

#[test]
fn sub_millisecond_leases_are_accepted() {
    let cfg = LeaseConfig { heartbeat_interval_ns: 250_000, lease_timeout_ns: 750_000 };
    assert!(cfg.validate().is_ok());
    let cfg = LeaseConfig { heartbeat_interval_ns: 750_000, lease_timeout_ns: 750_000 };
    match cfg.validate() {
        Err(SwarmError::InvalidConfig(m)) => assert_eq!(
            m,
            "lease_timeout (750\u{b5}s) must be strictly greater than heartbeat_interval (750\u{b5}s)"
        ),
        other => panic!("unexpected {other:?}"),
    }
}
