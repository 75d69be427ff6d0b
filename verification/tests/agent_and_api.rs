use swarm_ci::agents::AgentError;
use swarm_ci::api::{
    agent_outcome, current_generation, first_pr_number, head_ref_name, keeps_generation, merge_failed_reason, merge_target,
    parse_task_id, preset_picks, pull_request_url, task_not_found, MergeTarget, SimulatedImplementer,
};
use swarm_ci::workspace::{git_failed_error, has_changes, push_failed_error};
use swarm_ci::events::{event_name, SwarmEvent, TestOrigin};
use swarm_ci::gate::TestReport;
use swarm_ci::ids::TaskId;
use swarm_ci::implementer::{add_retry_reminder, cargo_test_report, plan_attempt, summarize, tail, ImplementerAgent, PlanAttempt};
use swarm_ci::lease::LeaseConfig;
use swarm_ci::mail::Assignment;
use swarm_ci::plan::FixPlan;
use swarm_ci::task::TaskSpec;
use swarm_ci::worker::ExecutorOutcome;

fn spec(pr_url: Option<&str>, repo_url: Option<&str>, git_ref: Option<&str>) -> TaskSpec {
    TaskSpec {
        pr_id: "PR".into(),
        title: "t".into(),
        bug_description: "d".into(),
        pr_url: pr_url.map(String::from),
        repo_url: repo_url.map(String::from),
        git_ref: git_ref.map(String::from),
    }
}

#[test]
fn cargo_reports_are_always_real_and_follow_exit_status() {
    let r = cargo_test_report(false, Some(101), "  error: test failed  ", "running 2 tests\n");
    assert!(!r.passed);
    assert_eq!(r.origin, TestOrigin::RealCargoTest);
    assert_eq!(r.summary, "exit=Some(101)\nstderr:\nerror: test failed\nstdout(tail):\nrunning 2 tests");
    let r = cargo_test_report(true, None, "", "");
    assert!(r.passed);
    assert_eq!(r.origin, TestOrigin::RealCargoTest);
    assert_eq!(r.summary, "exit=None\nstderr:\n\nstdout(tail):");
    assert_eq!(summarize(Some(-1), "", ""), "exit=Some(-1)\nstderr:\n\nstdout(tail):");
}

#[test]
fn tail_keeps_the_end() {
    assert_eq!(tail("  abcdef  ", 3), "def");
    assert_eq!(tail("abc", 10), "abc");
    let long = "x".repeat(2000) + "END";
    assert_eq!(summarize(Some(0), &long, "").chars().count(), 635);
    assert_eq!(summarize(Some(0), &long, &long).chars().count(), 1000);
    assert!(summarize(Some(0), &long, &long).ends_with("xEND"));
}

#[test]
fn planner_gets_one_free_retry() {
    let plan = FixPlan { summary: "s".into(), root_cause: "r".into(), edits: vec![] };
    assert!(matches!(plan_attempt(1, Ok(plan)), PlanAttempt::Accept(_)));
    assert!(matches!(plan_attempt(1, Err(AgentError::PlanParse("x".into()))), PlanAttempt::Retry(_)));
    assert!(matches!(plan_attempt(2, Err(AgentError::PlanParse("x".into()))), PlanAttempt::Fail(_)));
    let mut p = String::from("TASK: PLAN");
    add_retry_reminder(&mut p);
    assert!(p.starts_with("TASK: PLAN\n\nREMINDER: your previous reply was not usable."));
}

#[test]
fn implementer_agent_keeps_its_configuration() {
    let a = ImplementerAgent::new(3u8, "fixtures/demo-pr".into(), "/tmp/sb".into());
    assert_eq!(*a.provider_ref(), 3);
    assert_eq!(a.fixture_src(), "fixtures/demo-pr");
    assert_eq!(a.sandbox_root(), "/tmp/sb");
}

#[test]
fn simulated_implementer_reports_a_labelled_simulated_pass() {
    let s = SimulatedImplementer { work_for_ns: 3_000_000_000 };
    let r = s.report();
    assert_eq!(r, TestReport { passed: true, origin: TestOrigin::Simulated, summary: "simulated implementer finished in 3s".into() });
    assert_eq!(SimulatedImplementer { work_for_ns: 1_250_000_000 }.report().summary, "simulated implementer finished in 1.25s");
    assert_eq!(SimulatedImplementer::next_slice(1_000_000_000), 250_000_000);
    assert_eq!(SimulatedImplementer::next_slice(40_000_000), 40_000_000);
    assert_eq!(SimulatedImplementer { work_for_ns: 1_500 }.report().summary, "simulated implementer finished in 1.5\u{b5}s");
}

#[test]
fn agent_errors_become_loud_crashes() {
    match agent_outcome(Err(AgentError::Git("push failed".into()))) {
        ExecutorOutcome::Crashed(m) => assert_eq!(m, "implementer agent failed: git operation failed: push failed"),
        other => panic!("unexpected {other:?}"),
    }
    let rep = TestReport { passed: true, origin: TestOrigin::RealCargoTest, summary: "ok".into() };
    assert!(matches!(agent_outcome(Ok(rep.clone())), ExecutorOutcome::Completed(r) if r == rep));
}

#[test]
fn demo_kill_targets_the_newest_live_generation() {
    let t = TaskId(1);
    let u = TaskId(2);
    let live = vec![(t, 1), (u, 5), (t, 3), (t, 2)];
    assert_eq!(current_generation(&live, t), Some(3));
    assert_eq!(current_generation(&live, u), Some(5));
    assert_eq!(current_generation(&live, TaskId(9)), None);
    let a = Assignment {
        task_id: t,
        worker_id: swarm_ci::ids::WorkerId(1),
        attempt: 3,
        spec: spec(None, None, None),
        lease: LeaseConfig::default(),
    };
    assert!(!keeps_generation((t, 2), &a));
    assert!(keeps_generation((t, 3), &a));
    assert!(keeps_generation((u, 1), &a));
}

#[test]
fn merge_targets() {
    match merge_target(&spec(Some("https://github.com/o/r/pull/5"), None, None)) {
        MergeTarget::PullRequest { repo, number, url } => {
            assert_eq!(repo, "https://github.com/o/r.git");
            assert_eq!(number, 5);
            assert_eq!(url, "https://github.com/o/r/pull/5");
        }
        other => panic!("unexpected {other:?}"),
    }
    assert!(matches!(merge_target(&spec(Some("nope"), None, None)),
        MergeTarget::Unparseable { reason } if reason == "cannot parse pr_url: nope"));
    assert!(matches!(merge_target(&spec(None, Some("https://github.com/o/r.git"), Some("fix"))),
        MergeTarget::FindOpenPullRequest { repo, git_ref } if repo == "o/r" && git_ref == "fix"));
    assert!(matches!(merge_target(&spec(None, Some("https://github.com/o/r.git"), None)), MergeTarget::Nothing));
    assert_eq!(pull_request_url("o/r", 12), "https://github.com/o/r/pull/12");
    assert_eq!(merge_failed_reason(12), "`gh pr merge 12` failed (no auth / not mergeable / already merged)");
}

#[test]
fn event_names_use_the_dotted_spec_names() {
    let t = TaskId::nil();
    assert_eq!(event_name(&SwarmEvent::MergeOpened { task_id: t }), "merge.opened");
    assert_eq!(event_name(&SwarmEvent::TaskReassigned { task_id: t, attempt: 2 }), "task.reassigned");
    assert_eq!(
        event_name(&SwarmEvent::StaleResultRejected { task_id: t, worker_id: swarm_ci::ids::WorkerId(0), attempt: 1 }),
        "stale_result.rejected"
    );
    assert_eq!(event_name(&SwarmEvent::GithubPrMerged { task_id: t, url: "u".into() }), "github.pr_merged");
}

#[test]
fn presets_need_a_branch_and_a_title() {
    let body = r#"{"repo_git":"https://github.com/o/r.git","prs":[
        {"label":"A","branch":"b1","title":"t1","description":"d1"},
        {"label":"B","title":"t2"},
        {"label":"C","branch":"b3","title":7},
        {"label":"D","branch":"b4","title":"t4"}]}"#;
    let (repo, picks) = preset_picks(body).unwrap();
    assert_eq!(repo, "https://github.com/o/r.git");
    assert_eq!(picks, vec![(0, "b1".to_string(), "t1".to_string()), (3, "b4".to_string(), "t4".to_string())]);
    let (repo, picks) = preset_picks(r#"{"prs":"none"}"#).unwrap();
    assert_eq!(repo, "");
    assert!(picks.is_empty());
    assert!(preset_picks("not json").is_err());
}

#[test]
fn gh_outputs_are_read() {
    assert_eq!(head_ref_name(r#"{"headRefName":"feature/x"}"#), Some("feature/x".to_string()));
    assert_eq!(head_ref_name(r#"{"other":1}"#), None);
    assert_eq!(head_ref_name("garbage"), None);
    assert_eq!(first_pr_number(r#"[{"number":12},{"number":13}]"#), Some(12));
    assert_eq!(first_pr_number("[]"), None);
    assert_eq!(first_pr_number(r#"{"0":{"number":5}}"#), None);
    assert_eq!(first_pr_number(r#"[{"number":"12"}]"#), None);
}

#[test]
fn task_id_errors_are_plain() {
    let e = parse_task_id("not-a-uuid").unwrap_err();
    assert_eq!((e.status, e.message.as_str()), (400, "That task id is not a valid identifier."));
    let id = TaskId::generate();
    assert_eq!(parse_task_id(&id.to_text()).unwrap(), id);
    let e = task_not_found();
    assert_eq!((e.status, e.message.as_str()), (404, "No task with that id has been submitted."));
}

#[test]
fn publish_decisions() {
    assert!(!has_changes("  \n"));
    assert!(has_changes(" M src/lib.rs\n"));
    match push_failed_error("feat", "  denied \n") {
        AgentError::Git(m) => assert_eq!(m, "push to feat failed: denied"),
        other => panic!("unexpected {other:?}"),
    }
    match git_failed_error(&["add", "-A"], "boom\n") {
        AgentError::Git(m) => assert_eq!(m, "git add -A failed: boom"),
        other => panic!("unexpected {other:?}"),
    }
}

#[test]
fn publish_steps_commit_as_the_bot_and_push_head() {
    let c = swarm_ci::workspace::git_publish_commands("https://x/r.git", "feat", "msg");
    assert_eq!(c[0], vec!["status", "--porcelain"]);
    assert_eq!(c[1], vec!["add", "-A"]);
    assert_eq!(
        c[2],
        vec!["-c", "user.name=Phoenix CI", "-c", "user.email=phoenix-ci@localhost", "commit", "-q", "-m", "msg"]
    );
    assert_eq!(c[3], vec!["push", "https://x/r.git", "HEAD:refs/heads/feat"]);
}
