use swarm_ci::agents::AgentError;
use swarm_ci::events::TestOrigin;
use swarm_ci::implementer::{FixAction, FixEvent, FixSession};
use swarm_ci::llm::LlmError;
use swarm_ci::plan::{planner_prompt, FixPlan, PlannedEdit};
use swarm_ci::task::TaskSpec;
use swarm_ci::workspace::PrepareStep;

fn spec(repo_url: Option<&str>) -> TaskSpec {
    TaskSpec {
        pr_id: "PR-1".into(),
        title: "fix sum".into(),
        bug_description: "sum is off by one".into(),
        pr_url: None,
        repo_url: repo_url.map(String::from),
        git_ref: Some("main".into()),
    }
}

fn plan() -> FixPlan {
    FixPlan {
        summary: "s".into(),
        root_cause: "r".into(),
        edits: vec![PlannedEdit { path: "src/lib.rs".into(), content: "fn main() {}".into() }],
    }
}

fn files() -> Vec<(String, String)> {
    vec![("src/lib.rs".to_string(), "x".to_string())]
}

/// Drives a session up to the `cargo test` step.
fn to_testing(s: &TaskSpec) -> FixSession {
    let (mut session, action) = FixSession::start(s, "/fixtures/buggy");
    assert!(matches!(action, FixAction::Prepare(_)));
    assert!(matches!(session.step(FixEvent::Prepared(Ok(()))), FixAction::ReadContext));
    let a = session.step(FixEvent::ContextRead(Ok(files())));
    assert!(matches!(a, FixAction::AskPlanner(_)));
    let a = session.step(FixEvent::PlannerReplied(Ok(Ok(plan()))));
    match a {
        FixAction::ApplyEdits(edits) => assert_eq!(edits[0].path, "src/lib.rs"),
        other => panic!("unexpected {other:?}"),
    }
    assert!(matches!(session.step(FixEvent::EditsApplied(Ok(()))), FixAction::RunCargoTest));
    session
}

#[test]
fn fix_session_without_origin_copies_fixture() {
    let (_, action) = FixSession::start(&spec(None), "/fixtures/buggy");
    match action {
        FixAction::Prepare(PrepareStep::CopyDir { from }) => assert_eq!(from, "/fixtures/buggy"),
        other => panic!("unexpected {other:?}"),
    }
}

#[test]
fn fix_session_with_repo_checks_out_git() {
    let (_, action) = FixSession::start(&spec(Some("https://example.com/r.git")), "/fixtures/buggy");
    match action {
        FixAction::Prepare(PrepareStep::Git { commands }) => {
            assert_eq!(commands.len(), 4);
            assert_eq!(commands[0], vec!["init".to_string(), "-q".to_string()]);
        }
        other => panic!("unexpected {other:?}"),
    }
}

#[test]
fn fix_session_first_prompt_is_planner_prompt() {
    let s = spec(None);
    let (mut session, _) = FixSession::start(&s, "/f");
    session.step(FixEvent::Prepared(Ok(())));
    match session.step(FixEvent::ContextRead(Ok(files()))) {
        FixAction::AskPlanner(p) => assert_eq!(p, planner_prompt(&s.bug_description, &files())),
        other => panic!("unexpected {other:?}"),
    }
}

#[test]
fn fix_session_passing_run_without_origin_reports_real_pass() {
    let mut session = to_testing(&spec(None));
    let a = session.step(FixEvent::CargoFinished {
        success: true,
        code: Some(0),
        stderr: String::new(),
        stdout: "ok".into(),
    });
    match a {
        FixAction::Done { result: Ok(r), remove_sandbox } => {
            assert!(r.passed);
            assert_eq!(r.origin, TestOrigin::RealCargoTest);
            assert!(!remove_sandbox);
        }
        other => panic!("unexpected {other:?}"),
    }
}

#[test]
fn fix_session_failing_run_removes_sandbox() {
    let mut session = to_testing(&spec(Some("https://example.com/r.git")));
    let a = session.step(FixEvent::CargoFinished {
        success: false,
        code: Some(101),
        stderr: "boom".into(),
        stdout: String::new(),
    });
    match a {
        FixAction::Done { result: Ok(r), remove_sandbox } => {
            assert!(!r.passed);
            assert_eq!(r.origin, TestOrigin::RealCargoTest);
            assert!(remove_sandbox);
        }
        other => panic!("unexpected {other:?}"),
    }
}

#[test]
fn fix_session_passing_run_with_origin_is_published() {
    let mut session = to_testing(&spec(Some("https://example.com/r.git")));
    let a = session.step(FixEvent::CargoFinished {
        success: true,
        code: Some(0),
        stderr: String::new(),
        stdout: String::new(),
    });
    match a {
        FixAction::ResolveBranch { url, fetch_ref } => {
            assert_eq!(url, "https://example.com/r.git");
            assert_eq!(fetch_ref, "main");
        }
        other => panic!("unexpected {other:?}"),
    }
    match session.step(FixEvent::BranchResolved(Some("feature".into()))) {
        FixAction::Publish { url, branch, message } => {
            assert_eq!(url, "https://example.com/r.git");
            assert_eq!(branch, "feature");
            assert!(message.starts_with("Phoenix CI: fix sum\n\n"));
        }
        other => panic!("unexpected {other:?}"),
    }
    match session.step(FixEvent::Published(Ok(()))) {
        FixAction::Done { result: Ok(r), remove_sandbox } => {
            assert!(r.passed);
            assert!(!remove_sandbox);
        }
        other => panic!("unexpected {other:?}"),
    }
}

#[test]
fn fix_session_unknown_branch_keeps_fix_local() {
    let mut session = to_testing(&spec(Some("https://example.com/r.git")));
    session.step(FixEvent::CargoFinished { success: true, code: Some(0), stderr: String::new(), stdout: String::new() });
    match session.step(FixEvent::BranchResolved(None)) {
        FixAction::Done { result: Ok(r), remove_sandbox } => {
            assert!(r.passed);
            assert!(!remove_sandbox);
        }
        other => panic!("unexpected {other:?}"),
    }
}

#[test]
fn fix_session_push_failure_is_the_error() {
    let mut session = to_testing(&spec(Some("https://example.com/r.git")));
    session.step(FixEvent::CargoFinished { success: true, code: Some(0), stderr: String::new(), stdout: String::new() });
    session.step(FixEvent::BranchResolved(Some("b".into())));
    match session.step(FixEvent::Published(Err(AgentError::Git("denied".into())))) {
        FixAction::Done { result: Err(AgentError::Git(m)), remove_sandbox } => {
            assert_eq!(m, "denied");
            assert!(!remove_sandbox);
        }
        other => panic!("unexpected {other:?}"),
    }
}

#[test]
fn fix_session_unparseable_reply_retries_once_with_reminder() {
    let (mut session, _) = FixSession::start(&spec(None), "/f");
    session.step(FixEvent::Prepared(Ok(())));
    let first = match session.step(FixEvent::ContextRead(Ok(files()))) {
        FixAction::AskPlanner(p) => p,
        other => panic!("unexpected {other:?}"),
    };
    let second = match session.step(FixEvent::PlannerReplied(Ok(Err(AgentError::PlanParse("bad".into()))))) {
        FixAction::AskPlanner(p) => p,
        other => panic!("unexpected {other:?}"),
    };
    assert!(second.starts_with(&first));
    assert!(second[first.len()..].starts_with("\n\nREMINDER: your previous reply was not usable."));
    match session.step(FixEvent::PlannerReplied(Ok(Err(AgentError::PlanParse("worse".into()))))) {
        FixAction::Done { result: Err(AgentError::PlanParse(m)), remove_sandbox } => {
            assert_eq!(m, "worse");
            assert!(!remove_sandbox);
        }
        other => panic!("unexpected {other:?}"),
    }
}

#[test]
fn fix_session_llm_failure_ends_attempt() {
    let (mut session, _) = FixSession::start(&spec(None), "/f");
    session.step(FixEvent::Prepared(Ok(())));
    session.step(FixEvent::ContextRead(Ok(files())));
    match session.step(FixEvent::PlannerReplied(Err(LlmError::Http("503".into())))) {
        FixAction::Done { result: Err(AgentError::Llm(LlmError::Http(m))), .. } => assert_eq!(m, "503"),
        other => panic!("unexpected {other:?}"),
    }
}

#[test]
fn fix_session_prepare_failure_ends_attempt() {
    let (mut session, _) = FixSession::start(&spec(None), "/f");
    assert!(session.expects(&FixEvent::Prepared(Ok(()))));
    assert!(!session.expects(&FixEvent::EditsApplied(Ok(()))));
    match session.step(FixEvent::Prepared(Err(AgentError::Io("no space".into())))) {
        FixAction::Done { result: Err(AgentError::Io(m)), remove_sandbox } => {
            assert_eq!(m, "no space");
            assert!(!remove_sandbox);
        }
        other => panic!("unexpected {other:?}"),
    }
}

#[test]
fn fix_session_pr_link_checks_out_the_pull_request_head() {
    let s = TaskSpec {
        pr_id: "PR-1".into(),
        title: "t".into(),
        bug_description: "d".into(),
        pr_url: Some("https://github.com/o/r/pull/7".into()),
        repo_url: None,
        git_ref: None,
    };
    let (_, action) = FixSession::start(&s, "/fixtures/buggy");
    match action {
        FixAction::Prepare(PrepareStep::Git { commands }) => {
            assert_eq!(commands[1], vec!["remote".to_string(), "add".into(), "origin".into(), "https://github.com/o/r.git".into()]);
            assert_eq!(commands[2][4], "refs/pull/7/head");
        }
        other => panic!("unexpected {other:?}"),
    }
}

#[test]
fn fix_session_report_is_the_runs_report() {
    let mut session = to_testing(&spec(None));
    let a = session.step(FixEvent::CargoFinished {
        success: true,
        code: Some(0),
        stderr: "  warn  ".into(),
        stdout: "test result: ok".into(),
    });
    match a {
        FixAction::Done { result: Ok(r), .. } => {
            assert_eq!(r, swarm_ci::implementer::cargo_test_report(true, Some(0), "  warn  ", "test result: ok"));
            assert_eq!(r.summary, "exit=Some(0)\nstderr:\nwarn\nstdout(tail):\ntest result: ok");
        }
        other => panic!("unexpected {other:?}"),
    }
}

#[test]
fn fix_session_refuses_unsafe_plans_as_events() {
    let (mut session, _) = FixSession::start(&spec(None), "/f");
    session.step(FixEvent::Prepared(Ok(())));
    session.step(FixEvent::ContextRead(Ok(files())));
    let bad = FixPlan {
        summary: "s".into(),
        root_cause: "r".into(),
        edits: vec![PlannedEdit { path: "../etc/passwd".into(), content: "x".into() }],
    };
    assert!(!session.expects(&FixEvent::PlannerReplied(Ok(Ok(bad)))));
    assert!(session.expects(&FixEvent::PlannerReplied(Ok(Ok(plan())))));
}
