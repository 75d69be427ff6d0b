//! Decisions behind the service edge: which worker generation a demo kill
//! aborts, which bookkeeping a new generation supersedes, what the simulated
//! and agent-backed executors report, and which GitHub pull request a merged
//! task maps to.

use vstd::prelude::*;
use crate::agents::{AgentError, agent_error_message};
use crate::events::TestOrigin;
use crate::gate::TestReport;
use crate::ids::{Attempt, TaskId, uuid_parse};
use crate::llm::{
    json_field_strings_at, json_field_u64s_at, json_string_at, opt_text_view, read_json_field_strings,
    read_json_field_u64s, read_json_string,
};
use crate::mail::Assignment;
use crate::task::TaskSpec;
use crate::text::{decimal, duration_debug, push_decimal, push_duration_debug};
use crate::workspace::{filesystem_repo, fs_repo, github_pr, parse_github_pr};
use crate::worker::ExecutorOutcome;

verus! {

/// Stand-in implementer: works for `work_for_ns` nanoseconds in slices so heartbeats
/// interleave, then reports a clearly labelled simulated pass.
#[derive(Debug, Clone, Copy)]
pub struct SimulatedImplementer {
    pub work_for_ns: u128,
}

impl SimulatedImplementer {
    /// The next slice of simulated work, in nanoseconds: at most 250 ms.
    pub fn next_slice(left_ns: u128) -> (s: u128)
        ensures
            s == if left_ns < 250_000_000 { left_ns } else { 250_000_000 },
    {
        if left_ns < 250_000_000 { left_ns } else { 250_000_000 }
    }

    /// The report of a finished simulated run.
    pub fn report(&self) -> (r: TestReport)
        ensures
            r.passed,
            r.origin == TestOrigin::Simulated,
            r.summary@ == "simulated implementer finished in "@ + duration_debug(self.work_for_ns as nat),
    {
        let mut summary = String::from_str("simulated implementer finished in ");
        push_duration_debug(&mut summary, self.work_for_ns);
        TestReport { passed: true, origin: TestOrigin::Simulated, summary }
    }
}

/// Bridges the worker runtime to the implementer agent for one task.
#[derive(Debug)]
pub struct AgentExecutor<A> {
    pub agent: A,
    pub bug_description: String,
}

/// The agent's result as a worker outcome: its report, or a loud crash the
/// supervisor treats like any worker death.
pub fn agent_outcome(r: Result<TestReport, AgentError>) -> (o: ExecutorOutcome)
    ensures
        match r {
            Ok(report) => o == ExecutorOutcome::Completed(report),
            Err(e) => o matches ExecutorOutcome::Crashed(m)
                && m@ == "implementer agent failed: "@ + agent_error_message(e@),
        },
{
    match r {
        Ok(report) => ExecutorOutcome::Completed(report),
        Err(e) => {
            let mut m = String::from_str("implementer agent failed: ");
            let em = e.message();
            m.append(em.as_str());
            ExecutorOutcome::Crashed(m)
        },
    }
}

/// The live generation of a task a demo kill aborts: the largest attempt
/// among the task's live workers.
pub fn current_generation(live: &[(TaskId, Attempt)], task_id: TaskId) -> (r: Option<Attempt>)
    ensures
        match r {
            None => forall|i: int| 0 <= i < live@.len() ==> (#[trigger] live@[i]).0 != task_id,
            Some(a) => (exists|i: int| 0 <= i < live@.len() && #[trigger] live@[i] == (task_id, a))
                && forall|i: int| 0 <= i < live@.len() && (#[trigger] live@[i]).0 == task_id ==> live@[i].1 <= a,
        },
{
    let mut best: Option<Attempt> = None;
    let mut i: usize = 0;
    while i < live.len()
        invariant
            i <= live@.len(),
            match best {
                None => forall|j: int| 0 <= j < i ==> (#[trigger] live@[j]).0 != task_id,
                Some(a) => (exists|j: int| 0 <= j < i && #[trigger] live@[j] == (task_id, a))
                    && forall|j: int| 0 <= j < i && (#[trigger] live@[j]).0 == task_id ==> live@[j].1 <= a,
            },
        decreases live@.len() - i,
    {
        let (t, a) = live[i];
        if t == task_id {
            match best {
                None => {
                    best = Some(a);
                    assert(live@[i as int] == (task_id, a));
                },
                Some(b) => {
                    if a > b {
                        best = Some(a);
                        assert(live@[i as int] == (task_id, a));
                    }
                },
            }
        }
        i = i + 1;
    }
    best
}

/// Whether bookkeeping for a live generation survives a new assignment:
/// older generations of the same task are dropped.
pub fn keeps_generation(entry: (TaskId, Attempt), a: &Assignment) -> (b: bool)
    ensures
        b == !(entry.0 == a.task_id && entry.1 < a.attempt),
{
    !(entry.0 == a.task_id && entry.1 < a.attempt)
}

/// The GitHub pull request a merged task maps to.
#[derive(Debug)]
pub enum MergeTarget {
    /// Merge this pull request of `repo`.
    PullRequest { repo: String, number: u64, url: String },
    /// Find the open pull request whose head is `git_ref` in `repo` first.
    FindOpenPullRequest { repo: String, git_ref: String },
    /// No GitHub target (local fixture mode).
    Nothing,
    /// The task's `pr_url` is not a pull-request link.
    Unparseable { reason: String },
}

/// A `pr_url` names the pull request directly; a `repo_url` with a ref needs
/// a lookup of the open pull request for that branch; anything else has no
/// GitHub target.
pub fn merge_target(spec: &TaskSpec) -> (t: MergeTarget)
    ensures
        match spec.pr_url {
            Some(u) => match github_pr(u@) {
                Some((repo, n)) => t matches MergeTarget::PullRequest { repo: r, number, url }
                    && r@ == repo && number == n && url@ == u@,
                None => t matches MergeTarget::Unparseable { reason } && reason@ == "cannot parse pr_url: "@ + u@,
            },
            None => if spec.repo_url is Some && spec.git_ref is Some {
                t matches MergeTarget::FindOpenPullRequest { repo, git_ref }
                    && repo@ == fs_repo(spec.repo_url->0@) && git_ref@ == spec.git_ref->0@
            } else {
                t is Nothing
            },
        },
{
    match &spec.pr_url {
        Some(u) => match parse_github_pr(u.as_str()) {
            Some((repo, n)) => MergeTarget::PullRequest { repo, number: n as u64, url: u.clone() },
            None => {
                let mut reason = String::from_str("cannot parse pr_url: ");
                reason.append(u.as_str());
                MergeTarget::Unparseable { reason }
            },
        },
        None => match (&spec.repo_url, &spec.git_ref) {
            (Some(r), Some(g)) => MergeTarget::FindOpenPullRequest { repo: filesystem_repo(r.as_str()), git_ref: g.clone() },
            _ => MergeTarget::Nothing,
        },
    }
}

/// `https://github.com/<repo>/pull/<number>`.
pub fn pull_request_url(repo: &str, number: u64) -> (u: String)
    ensures
        u@ == "https://github.com/"@ + repo@ + "/pull/"@ + decimal(number as nat),
{
    let mut u = String::from_str("https://github.com/");
    u.append(repo);
    u.append("/pull/");
    push_decimal(&mut u, number);
    u
}

/// Why a merge through `gh` failed.
pub fn merge_failed_reason(number: u64) -> (m: String)
    ensures
        m@ == "`gh pr merge "@ + decimal(number as nat) + "` failed (no auth / not mergeable / already merged)"@,
{
    let mut m = String::from_str("`gh pr merge ");
    push_decimal(&mut m, number);
    m.append("` failed (no auth / not mergeable / already merged)");
    m
}


/// The quick picks of a preset catalog, from `branch` and `title` of its
/// `prs` entries (index `i` on): the index, branch and title of each entry
/// that has both as strings, in catalog order.
pub open spec fn preset_entries(
    branches: Seq<Option<Seq<char>>>,
    titles: Seq<Option<Seq<char>>>,
    i: int,
) -> Seq<(int, Seq<char>, Seq<char>)>
    decreases branches.len() - i,
{
    if i < 0 || i >= branches.len() || i >= titles.len() {
        Seq::empty()
    } else if branches[i] is Some && titles[i] is Some {
        seq![(i, branches[i]->0, titles[i]->0)] + preset_entries(branches, titles, i + 1)
    } else {
        preset_entries(branches, titles, i + 1)
    }
}

pub open spec fn picks_view(v: Seq<(usize, String, String)>) -> Seq<(int, Seq<char>, Seq<char>)> {
    v.map_values(|x: (usize, String, String)| (x.0 as int, x.1@, x.2@))
}

pub open spec fn or_empty(o: Option<Seq<Option<Seq<char>>>>) -> Seq<Option<Seq<char>>> {
    match o {
        Some(s) => s,
        None => Seq::empty(),
    }
}

/// Reads a preset catalog (`{"repo_git": .., "prs": [{"branch": .., "title": ..}, ..]}`):
/// its `repo_git` (empty when absent or not a string) and its quick picks.
/// `Err` carries the JSON parser's message.
pub fn preset_picks(body: &str) -> (r: Result<(String, Vec<(usize, String, String)>), String>)
    ensures
        match (
            json_string_at(body@, "/repo_git"@),
            json_field_strings_at(body@, "/prs"@, "branch"@),
            json_field_strings_at(body@, "/prs"@, "title"@),
        ) {
            (Err(m), _, _) => r matches Err(e) && e@ == m,
            (Ok(_), Err(m), _) => r matches Err(e) && e@ == m,
            (Ok(_), Ok(_), Err(m)) => r matches Err(e) && e@ == m,
            (Ok(repo), Ok(bs), Ok(ts)) => r matches Ok((rg, picks))
                && rg@ == (match repo { Some(t) => t, None => Seq::<char>::empty() })
                && picks_view(picks@) == preset_entries(or_empty(bs), or_empty(ts), 0),
        },
{
    let repo = match read_json_string(body, "/repo_git") {
        Err(e) => return Err(e),
        Ok(Some(t)) => t,
        Ok(None) => String::new(),
    };
    let branches = match read_json_field_strings(body, "/prs", "branch") {
        Err(e) => return Err(e),
        Ok(Some(v)) => v,
        Ok(None) => Vec::new(),
    };
    let titles = match read_json_field_strings(body, "/prs", "title") {
        Err(e) => return Err(e),
        Ok(Some(v)) => v,
        Ok(None) => Vec::new(),
    };
    let ghost bs = branches@.map_values(|o: Option<String>| opt_text_view(o));
    let ghost ts = titles@.map_values(|o: Option<String>| opt_text_view(o));
    assert(bs == or_empty(match json_field_strings_at(body@, "/prs"@, "branch"@) { Ok(o) => o, Err(_) => None }));
    assert(ts == or_empty(match json_field_strings_at(body@, "/prs"@, "title"@) { Ok(o) => o, Err(_) => None }));
    let mut picks: Vec<(usize, String, String)> = Vec::new();
    let mut i: usize = 0;
    while i < branches.len() && i < titles.len()
        invariant
            bs == branches@.map_values(|o: Option<String>| opt_text_view(o)),
            ts == titles@.map_values(|o: Option<String>| opt_text_view(o)),
            i <= branches@.len(),
            i <= titles@.len(),
            picks_view(picks@) + preset_entries(bs, ts, i as int) == preset_entries(bs, ts, 0),
        decreases branches@.len() - i,
    {
        let ghost before = picks@;
        match (&branches[i], &titles[i]) {
            (Some(b), Some(t)) => {
                picks.push((i, b.clone(), t.clone()));
                assert(picks_view(picks@) =~= picks_view(before) + seq![(i as int, bs[i as int]->0, ts[i as int]->0)]);
            },
            _ => {},
        }
        assert(picks_view(picks@) + preset_entries(bs, ts, i + 1) =~= picks_view(before) + preset_entries(bs, ts, i as int));
        i = i + 1;
    }
    assert(preset_entries(bs, ts, i as int) =~= Seq::<(int, Seq<char>, Seq<char>)>::empty());
    assert(picks_view(picks@) =~= picks_view(picks@) + preset_entries(bs, ts, i as int));
    Ok((repo, picks))
}

/// The head branch `gh pr view --json headRefName` prints: its
/// `headRefName` string, if the output is JSON and has one.
pub fn head_ref_name(gh_output: &str) -> (r: Option<String>)
    ensures
        match json_string_at(gh_output@, "/headRefName"@) {
            Ok(Some(t)) => r matches Some(s) && s@ == t,
            _ => r is None,
        },
{
    match read_json_string(gh_output, "/headRefName") {
        Ok(Some(t)) => Some(t),
        _ => None,
    }
}

/// The open pull request `gh pr list --json number` prints first: the
/// `number` of the first element of the top-level array, if it is an
/// unsigned integer.
pub fn first_pr_number(gh_output: &str) -> (r: Option<u64>)
    ensures
        r == (match json_field_u64s_at(gh_output@, ""@, "number"@) {
            Ok(Some(ns)) => if ns.len() > 0 { ns[0] } else { None },
            _ => None,
        }),
{
    match read_json_field_u64s(gh_output, "", "number") {
        Ok(Some(ns)) => if ns.len() > 0 { ns[0] } else { None },
        _ => None,
    }
}

/// An HTTP error answer: status code and plain-language message.
#[derive(Debug, Clone, PartialEq, Eq)]
pub struct ApiError {
    pub status: u16,
    pub message: String,
}

/// A task id in a path, or a 400 answer when it is not a valid identifier.
pub fn parse_task_id(text: &str) -> (r: Result<TaskId, ApiError>)
    ensures
        match uuid_parse(text@) {
            Some(v) => r == Ok::<TaskId, ApiError>(TaskId(v)),
            None => r matches Err(e) && e.status == 400 && e.message@ == "That task id is not a valid identifier."@,
        },
{
    match TaskId::parse(text) {
        Some(id) => Ok(id),
        None => Err(ApiError { status: 400, message: String::from_str("That task id is not a valid identifier.") }),
    }
}

/// The 404 answer for an id no task was submitted under.
pub fn task_not_found() -> (e: ApiError)
    ensures
        e.status == 404,
        e.message@ == "No task with that id has been submitted."@,
{
    ApiError { status: 404, message: String::from_str("No task with that id has been submitted.") }
}

} // verus!
