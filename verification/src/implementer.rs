//! The implementer agent's decisions: which plan to accept (with one free
//! re-ask on an unusable reply), and the test report of a real `cargo test`
//! run. Provenance honesty lives here: the report's verdict is the process
//! exit status and its origin is always a real cargo run; no model claim is
//! ever an input.

use vstd::prelude::*;
use crate::agents::AgentError;
use crate::chars::{trim, trimmed};
use crate::events::TestOrigin;
use crate::gate::TestReport;
use crate::llm::LlmError;
use crate::plan::{FixPlan, PlannedEdit, plan_ok, plan_usable, planner_prompt, planner_prompt_text};
use crate::task::TaskSpec;
use crate::workspace::{
    PrepareStep, SandboxSource, SourceView, checkout_commands, fix_commit_message, prepare, resolve,
    resolve_source, texts,
};
use crate::text::{chars_of, push_signed_decimal, signed_decimal};

verus! {

/// The agent: a model provider, the fixture copied when a task has no git
/// origin, and the directory that holds per-attempt sandboxes.
#[derive(Debug)]
pub struct ImplementerAgent<P> {
    provider: P,
    fixture_src: String,
    sandbox_root: String,
}

impl<P> ImplementerAgent<P> {
    pub fn new(provider: P, fixture_src: String, sandbox_root: String) -> (a: Self)
        ensures
            a.provider() == provider,
            a.fixture_src_spec() == fixture_src,
            a.sandbox_root_spec() == sandbox_root,
    {
        ImplementerAgent { provider, fixture_src, sandbox_root }
    }

    pub closed spec fn provider(&self) -> P {
        self.provider
    }

    pub closed spec fn fixture_src_spec(&self) -> String {
        self.fixture_src
    }

    pub closed spec fn sandbox_root_spec(&self) -> String {
        self.sandbox_root
    }

    pub fn provider_ref(&self) -> (p: &P)
        ensures
            *p == self.provider(),
    {
        &self.provider
    }

    pub fn fixture_src(&self) -> (s: &String)
        ensures
            *s == self.fixture_src_spec(),
    {
        &self.fixture_src
    }

    pub fn sandbox_root(&self) -> (s: &String)
        ensures
            *s == self.sandbox_root_spec(),
    {
        &self.sandbox_root
    }
}

/// The text appended to the planner prompt for the second try.
pub open spec fn retry_reminder() -> Seq<char> {
    "\n\nREMINDER: your previous reply was not usable. Respond AGAIN with ONLY one valid JSON object matching the schema \u{2014} no prose, no markdown fences, no text after the object."@
}

/// Prepares the prompt of the second planner try.
pub fn add_retry_reminder(prompt: &mut String)
    ensures
        final(prompt)@ == old(prompt)@ + retry_reminder(),
{
    prompt.append(
        "\n\nREMINDER: your previous reply was not usable. Respond AGAIN with ONLY one valid JSON object matching the schema \u{2014} no prose, no markdown fences, no text after the object.",
    );
}

/// What to do with the outcome of a planner try.
#[derive(Debug)]
pub enum PlanAttempt {
    /// Use this plan.
    Accept(FixPlan),
    /// The reply was unusable on the first try: ask once more.
    Retry(AgentError),
    /// The reply was unusable on the last try: the attempt fails with this error.
    Fail(AgentError),
}

/// A usable plan is accepted on any try; an unusable first reply earns one
/// more try, an unusable second reply fails the attempt.
pub fn plan_attempt(try_n: u32, parsed: Result<FixPlan, AgentError>) -> (a: PlanAttempt)
    ensures
        match parsed {
            Ok(p) => a == PlanAttempt::Accept(p),
            Err(e) => if try_n == 1 { a == PlanAttempt::Retry(e) } else { a == PlanAttempt::Fail(e) },
        },
{
    match parsed {
        Ok(p) => PlanAttempt::Accept(p),
        Err(e) => if try_n == 1 { PlanAttempt::Retry(e) } else { PlanAttempt::Fail(e) },
    }
}

/// The trimmed text, cut to its last `max` characters (cargo prints its
/// failure summary last).
pub open spec fn tail_text(s: Seq<char>, max: nat) -> Seq<char> {
    let t = trim(s);
    if t.len() <= max { t } else { t.subrange(t.len() - max, t.len() as int) }
}

pub fn tail(s: &str, max_chars: usize) -> (r: String)
    ensures
        r@ == tail_text(s@, max_chars as nat),
{
    let t = trimmed(s);
    let v = chars_of(t.as_str());
    let count = v.len();
    if count <= max_chars {
        return t;
    }
    let start = count - max_chars;
    crate::chars::sub_string(&v, start, count)
}

/// `Debug` of an `Option<i32>` exit code.
pub open spec fn exit_code_debug(code: Option<i32>) -> Seq<char> {
    match code {
        Some(c) => "Some("@ + signed_decimal(c as int) + ")"@,
        None => "None"@,
    }
}

/// The summary of a `cargo test` run: exit code, the tail of stderr and the
/// tail of stdout, itself cut to its last 1000 characters.
pub open spec fn run_summary(code: Option<i32>, stderr: Seq<char>, stdout: Seq<char>) -> Seq<char> {
    tail_text(
        "exit="@ + exit_code_debug(code) + "\nstderr:\n"@ + tail_text(stderr, 600) + "\nstdout(tail):\n"@
            + tail_text(stdout, 400),
        1000,
    )
}

/// Law: a tail keeps the end of the trimmed text: as many of its last
/// characters as fit, and all of it when it fits.
pub proof fn law_tail_keeps_the_end(s: Seq<char>, max: nat)
    ensures
        ({
            let u = trim(s);
            let t = tail_text(s, max);
            &&& t.len() == (if u.len() <= max { u.len() } else { max })
            &&& t == u.subrange(u.len() - t.len(), u.len() as int)
        }),
{
    let u = trim(s);
    if u.len() <= max {
        assert(u.subrange(0, u.len() as int) =~= u);
    }
}

/// Law: a run's summary is made of the ends of its output: the exit code,
/// the last 600 characters of the trimmed stderr and the last 400 of the
/// trimmed stdout, of which the last 1000 characters (trimmed) are kept.
pub proof fn law_summary_keeps_the_ends(code: Option<i32>, stderr: Seq<char>, stdout: Seq<char>)
    ensures
        ({
            let u = trim(stderr);
            let ne: int = if u.len() <= 600 { u.len() as int } else { 600 };
            let w = trim(stdout);
            let no: int = if w.len() <= 400 { w.len() as int } else { 400 };
            let c = trim("exit="@ + exit_code_debug(code) + "\nstderr:\n"@ + u.subrange(u.len() - ne, u.len() as int)
                + "\nstdout(tail):\n"@ + w.subrange(w.len() - no, w.len() as int));
            let m: int = if c.len() <= 1000 { c.len() as int } else { 1000 };
            run_summary(code, stderr, stdout) == c.subrange(c.len() - m, c.len() as int)
        }),
{
    law_tail_keeps_the_end(stderr, 600);
    law_tail_keeps_the_end(stdout, 400);
    let u = trim(stderr);
    let w = trim(stdout);
    let ne: int = if u.len() <= 600 { u.len() as int } else { 600 };
    let no: int = if w.len() <= 400 { w.len() as int } else { 400 };
    let combined = "exit="@ + exit_code_debug(code) + "\nstderr:\n"@ + u.subrange(u.len() - ne, u.len() as int)
        + "\nstdout(tail):\n"@ + w.subrange(w.len() - no, w.len() as int);
    assert(tail_text(stderr, 600) == u.subrange(u.len() - ne, u.len() as int));
    assert(tail_text(stdout, 400) == w.subrange(w.len() - no, w.len() as int));
    law_tail_keeps_the_end(combined, 1000);
}

pub fn summarize(code: Option<i32>, stderr: &str, stdout: &str) -> (s: String)
    ensures
        s@ == run_summary(code, stderr@, stdout@),
{
    let mut combined = String::from_str("exit=");
    match code {
        Some(c) => {
            combined.append("Some(");
            push_signed_decimal(&mut combined, c);
            combined.append(")");
        },
        None => {
            combined.append("None");
        },
    }
    combined.append("\nstderr:\n");
    let e = tail(stderr, 600);
    combined.append(e.as_str());
    combined.append("\nstdout(tail):\n");
    let o = tail(stdout, 400);
    combined.append(o.as_str());
    assert(combined@ =~= "exit="@ + exit_code_debug(code) + "\nstderr:\n"@ + tail_text(stderr@, 600)
        + "\nstdout(tail):\n"@ + tail_text(stdout@, 400));
    tail(combined.as_str(), 1000)
}

/// The report of a real `cargo test` run in the sandbox: passed exactly when
/// the process exited successfully, and always of real-cargo-test origin.
pub fn cargo_test_report(success: bool, code: Option<i32>, stderr: &str, stdout: &str) -> (r: TestReport)
    ensures
        r.passed == success,
        r.origin == TestOrigin::RealCargoTest,
        r.summary@ == run_summary(code, stderr@, stdout@),
        r.summary@.len() <= 1000,
{
    TestReport { passed: success, origin: TestOrigin::RealCargoTest, summary: summarize(code, stderr, stdout) }
}


/// Where one attempt of the implementer stands.
#[derive(Debug)]
pub enum FixStage {
    /// The sandbox is being materialized.
    Preparing,
    /// The sandbox's files are being read for the planner.
    ReadingContext,
    /// The planner was asked (`try_n` of 2) with `prompt`.
    Planning { try_n: u32, prompt: String },
    /// The plan's edits are being written into the sandbox.
    Applying,
    /// `cargo test` is running in the sandbox.
    Testing,
    /// A passing run's branch is being looked up.
    ResolvingBranch { report: TestReport, url: String },
    /// A passing run's fix is being pushed.
    Publishing { report: TestReport },
    /// The attempt is over.
    Finished,
}

/// What the runtime observed after carrying out the last action.
#[derive(Debug)]
pub enum FixEvent {
    Prepared(Result<(), AgentError>),
    ContextRead(Result<Vec<(String, String)>, AgentError>),
    /// The planner call's result and, when it answered, the parse of its reply.
    PlannerReplied(Result<Result<FixPlan, AgentError>, LlmError>),
    EditsApplied(Result<(), AgentError>),
    CargoFinished { success: bool, code: Option<i32>, stderr: String, stdout: String },
    BranchResolved(Option<String>),
    Published(Result<(), AgentError>),
}

/// What the runtime must do next.
#[derive(Debug)]
pub enum FixAction {
    Prepare(PrepareStep),
    ReadContext,
    AskPlanner(String),
    ApplyEdits(Vec<PlannedEdit>),
    RunCargoTest,
    ResolveBranch { url: String, fetch_ref: String },
    Publish { url: String, branch: String, message: String },
    /// The attempt's result; `remove_sandbox` when a failing run's sandbox is
    /// to be cleaned up.
    Done { result: Result<TestReport, AgentError>, remove_sandbox: bool },
}

/// One attempt of the implementer as a state machine: the runtime performs
/// each action and hands back what it observed. The report is made only
/// from a real `cargo test` run, and only a passing run is published.
#[derive(Debug)]
pub struct FixSession {
    stage: FixStage,
    bug_description: String,
    title: String,
    origin: Option<(String, String)>,
}

pub open spec fn real_report(r: TestReport) -> bool {
    r.origin == TestOrigin::RealCargoTest
}

/// `r` is the report of a `cargo test` run with this exit status and output.
pub open spec fn run_report(r: TestReport, success: bool, code: Option<i32>, stderr: Seq<char>, stdout: Seq<char>) -> bool {
    &&& r.passed == success
    &&& real_report(r)
    &&& r.summary@ == run_summary(code, stderr, stdout)
    &&& r.summary@.len() <= 1000
}

/// The git origin a source gives a passing run to push to: its url and ref.
pub open spec fn source_origin(src: Option<SourceView>) -> Option<(Seq<char>, Seq<char>)> {
    match src {
        Some(SourceView::Git { url, fetch_ref }) => Some((url, fetch_ref)),
        _ => None,
    }
}

/// The sandbox step that materializes `src`, or copies `fixture` without one.
pub open spec fn prepares(src: Option<SourceView>, fixture: Seq<char>, step: PrepareStep) -> bool {
    match src {
        None => step matches PrepareStep::CopyDir { from } && from@ == fixture,
        Some(SourceView::Fixture(p)) => step matches PrepareStep::CopyDir { from } && from@ == p,
        Some(SourceView::Git { url, fetch_ref }) => step matches PrepareStep::Git { commands }
            && commands@.len() == 4
            && forall|i: int| 0 <= i < 4 ==> texts(#[trigger] commands@[i]@) == checkout_commands(url, fetch_ref)[i],
    }
}

/// The commit message of a proven fix for a task titled `title`.
pub open spec fn commit_message_text(title: Seq<char>) -> Seq<char> {
    "Phoenix CI: "@ + title + "\n\nApplied in an isolated sandbox and verified by a real `cargo test` run."@
}

impl FixSession {
    pub closed spec fn stage(&self) -> FixStage {
        self.stage
    }

    /// The bug description the planner is given.
    pub closed spec fn bug_text(&self) -> Seq<char> {
        self.bug_description@
    }

    /// The task title the fix commit names.
    pub closed spec fn title_text(&self) -> Seq<char> {
        self.title@
    }

    /// The git url and ref a passing run is pushed back to, if the task has one.
    pub closed spec fn origin_view(&self) -> Option<(Seq<char>, Seq<char>)> {
        match self.origin {
            Some((u, r)) => Some((u@, r@)),
            None => None,
        }
    }

    /// Reports held by a session are passing reports of real runs, and a
    /// branch is looked up only for a task with a git origin.
    pub closed spec fn wf(&self) -> bool {
        match self.stage {
            FixStage::ResolvingBranch { report, url } => report.passed && real_report(report)
                && report.summary@.len() <= 1000
                && self.origin_view() is Some && url@ == self.origin_view().unwrap().0,
            FixStage::Publishing { report } => report.passed && real_report(report) && report.summary@.len() <= 1000,
            _ => true,
        }
    }

    /// Starts an attempt for a task: materialize its source (a git origin,
    /// or the fixture when it has none).
    pub fn start(spec: &TaskSpec, fixture: &str) -> (r: (FixSession, FixAction))
        ensures
            r.0.wf(),
            r.0.stage() is Preparing,
            r.0.bug_text() == spec.bug_description@,
            r.0.title_text() == spec.title@,
            r.0.origin_view() == source_origin(resolve_source(*spec)),
            r.1 matches FixAction::Prepare(step) && prepares(resolve_source(*spec), fixture@, step),
    {
        let source = resolve(spec);
        let origin = match &source {
            Some(SandboxSource::Git { url, fetch_ref }) => Some((url.clone(), fetch_ref.clone())),
            _ => None,
        };
        let step = match &source {
            Some(s) => prepare(Some(s), fixture),
            None => prepare(None, fixture),
        };
        let session = FixSession {
            stage: FixStage::Preparing,
            bug_description: spec.bug_description.clone(),
            title: spec.title.clone(),
            origin,
        };
        (session, FixAction::Prepare(step))
    }

    /// Whether `event` answers the session's last action; a plan handed
    /// back must have at least one edit and only safe paths.
    pub open spec fn fits(stage: FixStage, event: FixEvent) -> bool {
        match (stage, event) {
            (FixStage::Preparing, FixEvent::Prepared(_)) => true,
            (FixStage::ReadingContext, FixEvent::ContextRead(_)) => true,
            (FixStage::Planning { .. }, FixEvent::PlannerReplied(r)) => (r matches Ok(Ok(plan)) ==> plan_ok(plan)),
            (FixStage::Applying, FixEvent::EditsApplied(_)) => true,
            (FixStage::Testing, FixEvent::CargoFinished { .. }) => true,
            (FixStage::ResolvingBranch { .. }, FixEvent::BranchResolved(_)) => true,
            (FixStage::Publishing { .. }, FixEvent::Published(_)) => true,
            _ => false,
        }
    }

    pub fn expects(&self, event: &FixEvent) -> (b: bool)
        ensures
            b == Self::fits(self.stage(), *event),
    {
        match (&self.stage, event) {
            (FixStage::Preparing, FixEvent::Prepared(_)) => true,
            (FixStage::ReadingContext, FixEvent::ContextRead(_)) => true,
            (FixStage::Planning { .. }, FixEvent::PlannerReplied(r)) => match r {
                Ok(Ok(plan)) => plan_usable(plan),
                _ => true,
            },
            (FixStage::Applying, FixEvent::EditsApplied(_)) => true,
            (FixStage::Testing, FixEvent::CargoFinished { .. }) => true,
            (FixStage::ResolvingBranch { .. }, FixEvent::BranchResolved(_)) => true,
            (FixStage::Publishing { .. }, FixEvent::Published(_)) => true,
            _ => false,
        }
    }

    /// Advances the attempt by what the runtime observed.
    pub fn step(&mut self, event: FixEvent) -> (action: FixAction)
        requires
            old(self).wf(),
            Self::fits(old(self).stage(), event),
        ensures
            final(self).wf(),
            // The task's data stay the session's.
            final(self).bug_text() == old(self).bug_text(),
            final(self).title_text() == old(self).title_text(),
            final(self).origin_view() == old(self).origin_view(),
            action is Done ==> final(self).stage() is Finished,
            // Every report an attempt ends with is a real run's, with a bounded summary.
            action matches FixAction::Done { result: Ok(r), .. } ==> real_report(r) && r.summary@.len() <= 1000,
            // Errors end the attempt with the error observed.
            match event {
                FixEvent::Prepared(Err(e)) => action == FixAction::Done { result: Err(e), remove_sandbox: false },
                FixEvent::ContextRead(Err(e)) => action == FixAction::Done { result: Err(e), remove_sandbox: false },
                FixEvent::PlannerReplied(Err(e)) => action == FixAction::Done { result: Err(AgentError::Llm(e)), remove_sandbox: false },
                FixEvent::EditsApplied(Err(e)) => action == FixAction::Done { result: Err(e), remove_sandbox: false },
                FixEvent::Published(Err(e)) => action == FixAction::Done { result: Err(e), remove_sandbox: false },
                _ => true,
            },
            // A prepared sandbox is read; applied edits are tested.
            match event {
                FixEvent::Prepared(Ok(())) => action is ReadContext && final(self).stage() is ReadingContext,
                FixEvent::EditsApplied(Ok(())) => action is RunCargoTest && final(self).stage() is Testing,
                _ => true,
            },
            // A readable sandbox leads to the first planner try, over the task's bug text.
            match event {
                FixEvent::ContextRead(Ok(files)) => (final(self).stage() matches FixStage::Planning { try_n, prompt }
                    && try_n == 1 && prompt@ == planner_prompt_text(old(self).bug_text(), files@)
                    && (action matches FixAction::AskPlanner(p) && p@ == prompt@)),
                _ => true,
            },
            // A usable plan is applied; an unusable first reply earns exactly
            // one more try with the reminder; a second one ends the attempt.
            match (old(self).stage(), event) {
                (FixStage::Planning { try_n, prompt }, FixEvent::PlannerReplied(Ok(parsed))) => match parsed {
                    Ok(plan) => action == FixAction::ApplyEdits(plan.edits) && plan_ok(plan)
                        && final(self).stage() is Applying,
                    Err(e) => if try_n == 1 {
                        (final(self).stage() matches FixStage::Planning { try_n: t2, prompt: p2 } && t2 == 2
                            && p2@ == prompt@ + retry_reminder() && (action matches FixAction::AskPlanner(p) && p@ == p2@))
                    } else {
                        action == FixAction::Done { result: Err(e), remove_sandbox: false }
                    },
                },
                _ => true,
            },
            // A finished run yields its report: looked up and pushed first when
            // it passed and the task has a git origin, else at once, with a
            // failing run's sandbox cleaned up.
            match event {
                FixEvent::CargoFinished { success, code, stderr, stdout } =>
                    if success && old(self).origin_view() is Some {
                        &&& action matches FixAction::ResolveBranch { url, fetch_ref }
                            && url@ == old(self).origin_view().unwrap().0 && fetch_ref@ == old(self).origin_view().unwrap().1
                        &&& final(self).stage() matches FixStage::ResolvingBranch { report, .. }
                            && run_report(report, success, code, stderr@, stdout@)
                    } else {
                        action matches FixAction::Done { result: Ok(r), remove_sandbox }
                            && run_report(r, success, code, stderr@, stdout@) && remove_sandbox == !success
                    },
                _ => true,
            },
            // The held report ends the attempt when no branch is found, or is
            // pushed to the branch found; a successful push ends it too.
            match (old(self).stage(), event) {
                (FixStage::ResolvingBranch { report, url }, FixEvent::BranchResolved(b)) => match b {
                    None => action == FixAction::Done { result: Ok(report), remove_sandbox: false },
                    Some(branch) => (action matches FixAction::Publish { url: u, branch: br, message }
                        && u == url && br == branch && message@ == commit_message_text(old(self).title_text()))
                        && final(self).stage() == FixStage::Publishing { report },
                },
                (FixStage::Publishing { report }, FixEvent::Published(Ok(()))) =>
                    action == FixAction::Done { result: Ok(report), remove_sandbox: false },
                _ => true,
            },
    {
        let mut stage = FixStage::Finished;
        std::mem::swap(&mut stage, &mut self.stage);
        match event {
            FixEvent::Prepared(r) => match r {
                Err(e) => FixAction::Done { result: Err(e), remove_sandbox: false },
                Ok(()) => {
                    self.stage = FixStage::ReadingContext;
                    FixAction::ReadContext
                },
            },
            FixEvent::ContextRead(r) => match r {
                Err(e) => FixAction::Done { result: Err(e), remove_sandbox: false },
                Ok(files) => {
                    let prompt = planner_prompt(self.bug_description.as_str(), files.as_slice());
                    let ask = prompt.clone();
                    self.stage = FixStage::Planning { try_n: 1, prompt };
                    FixAction::AskPlanner(ask)
                },
            },
            FixEvent::PlannerReplied(r) => match r {
                Err(e) => FixAction::Done { result: Err(AgentError::Llm(e)), remove_sandbox: false },
                Ok(parsed) => match stage {
                    FixStage::Planning { try_n, mut prompt } => match plan_attempt(try_n, parsed) {
                        PlanAttempt::Accept(plan) => {
                            self.stage = FixStage::Applying;
                            FixAction::ApplyEdits(plan.edits)
                        },
                        PlanAttempt::Retry(_) => {
                            add_retry_reminder(&mut prompt);
                            let ask = prompt.clone();
                            self.stage = FixStage::Planning { try_n: 2, prompt };
                            FixAction::AskPlanner(ask)
                        },
                        PlanAttempt::Fail(e) => FixAction::Done { result: Err(e), remove_sandbox: false },
                    },
                    _ => FixAction::Done { result: Err(AgentError::PlanParse(String::new())), remove_sandbox: false },
                },
            },
            FixEvent::EditsApplied(r) => match r {
                Err(e) => FixAction::Done { result: Err(e), remove_sandbox: false },
                Ok(()) => {
                    self.stage = FixStage::Testing;
                    FixAction::RunCargoTest
                },
            },
            FixEvent::CargoFinished { success, code, stderr, stdout } => {
                let report = cargo_test_report(success, code, stderr.as_str(), stdout.as_str());
                if success {
                    match &self.origin {
                        Some((url, fetch_ref)) => {
                            let action = FixAction::ResolveBranch { url: url.clone(), fetch_ref: fetch_ref.clone() };
                            self.stage = FixStage::ResolvingBranch { report, url: url.clone() };
                            action
                        },
                        None => FixAction::Done { result: Ok(report), remove_sandbox: false },
                    }
                } else {
                    FixAction::Done { result: Ok(report), remove_sandbox: true }
                }
            },
            FixEvent::BranchResolved(branch) => match stage {
                FixStage::ResolvingBranch { report, url } => match branch {
                    None => FixAction::Done { result: Ok(report), remove_sandbox: false },
                    Some(b) => {
                        let message = fix_commit_message(self.title.as_str());
                        self.stage = FixStage::Publishing { report };
                        FixAction::Publish { url, branch: b, message }
                    },
                },
                _ => FixAction::Done { result: Err(AgentError::Git(String::new())), remove_sandbox: false },
            },
            FixEvent::Published(r) => match stage {
                FixStage::Publishing { report } => match r {
                    Err(e) => FixAction::Done { result: Err(e), remove_sandbox: false },
                    Ok(()) => FixAction::Done { result: Ok(report), remove_sandbox: false },
                },
                _ => FixAction::Done { result: Err(AgentError::Git(String::new())), remove_sandbox: false },
            },
        }
    }
}

} // verus!
