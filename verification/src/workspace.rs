//! Where a task's working copy comes from: pull-request links, git origins,
//! the branch a proven fix is pushed to, and the git steps that materialize
//! a sandbox. The steps themselves run outside the library.

use vstd::prelude::*;
use crate::chars::{
    digits_value, ends_with_at, find_exec, find_from, has_prefix, has_suffix, is_digit,
    leading_digits, parse_u32_digits, starts_with_at, sub_string, sub_vec, trim, trim_bounds,
    trim_end_char, trim_end_char_len, trim_end_str, trim_end_str_at, trim_start_str,
    trim_start_str_at, trimmed,
};
use crate::task::TaskSpec;
use crate::text::{chars_of, decimal, push_decimal, string_of};

verus! {

/// Where a task's working copy comes from.
#[derive(Debug, Clone)]
pub enum SandboxSource {
    /// Copy a local fixture directory.
    Fixture(String),
    /// Clone from a git remote at an explicit ref.
    Git { url: String, fetch_ref: String },
}

pub enum SourceView {
    Fixture(Seq<char>),
    Git { url: Seq<char>, fetch_ref: Seq<char> },
}

impl View for SandboxSource {
    type V = SourceView;

    open spec fn view(&self) -> SourceView {
        match *self {
            SandboxSource::Fixture(p) => SourceView::Fixture(p@),
            SandboxSource::Git { url, fetch_ref } => SourceView::Git { url: url@, fetch_ref: fetch_ref@ },
        }
    }
}

/// `https://github.com/<owner>/<repo>/pull/42[/...]` gives the clone URL
/// `https://github.com/<owner>/<repo>.git` and the number 42.
pub open spec fn github_pr(url: Seq<char>) -> Option<(Seq<char>, u32)> {
    let t = trim_end_char(trim(url), '/');
    match find_from(t, "/pull/"@, 0) {
        None => None,
        Some(idx) => {
            let repo = t.subrange(0, idx);
            let rest = t.subrange(idx + 6, t.len() as int);
            match parse_u32_digits(leading_digits(rest)) {
                None => None,
                Some(n) => if repo.len() == 0 || n == 0 {
                    None
                } else if has_suffix(repo, ".git"@) {
                    Some((repo, n))
                } else {
                    Some((repo + ".git"@, n))
                },
            }
        },
    }
}

proof fn lemma_digits_push(d: Seq<char>, c: char)
    ensures
        digits_value(d.push(c)) == digits_value(d) * 10 + ((c as int) - ('0' as int)) as nat,
{
    assert(d.push(c).drop_last() =~= d);
}

proof fn lemma_leading_digits_step(s: Seq<char>, j: int, m: int)
    requires
        0 <= j < m <= s.len(),
    ensures
        is_digit(s[j]) ==> leading_digits(s.subrange(j, m)) == seq![s[j]] + leading_digits(s.subrange(j + 1, m)),
        !is_digit(s[j]) ==> leading_digits(s.subrange(j, m)) == Seq::<char>::empty(),
{
    assert(s.subrange(j, m).drop_first() =~= s.subrange(j + 1, m));
}

/// Parses the leading decimal digits of `t[j..m]` as a `u32`.
fn parse_leading_u32(t: &Vec<char>, start: usize, m: usize) -> (r: Option<u32>)
    requires
        start <= m <= t@.len(),
    ensures
        r == parse_u32_digits(leading_digits(t@.subrange(start as int, m as int))),
{
    let mut j = start;
    let mut acc: u64 = 0;
    let mut over = false;
    while j < m && '0' <= t[j] && t[j] <= '9'
        invariant
            start <= j <= m <= t@.len(),
            leading_digits(t@.subrange(start as int, m as int)) == t@.subrange(start as int, j as int) + leading_digits(t@.subrange(j as int, m as int)),
            over ==> digits_value(t@.subrange(start as int, j as int)) > u32::MAX,
            !over ==> acc == digits_value(t@.subrange(start as int, j as int)) && acc <= u32::MAX,
        decreases m - j,
    {
        let ghost d = t@.subrange(start as int, j as int);
        proof {
            lemma_leading_digits_step(t@, j as int, m as int);
            assert(t@.subrange(start as int, j + 1) =~= d.push(t@[j as int]));
            lemma_digits_push(d, t@[j as int]);
            assert(t@.subrange(start as int, j as int) + (seq![t@[j as int]] + leading_digits(t@.subrange(j + 1, m as int)))
                =~= t@.subrange(start as int, j + 1) + leading_digits(t@.subrange(j + 1, m as int)));
        }
        if !over {
            let dig = (t[j] as u64) - ('0' as u64);
            let next = acc * 10 + dig;
            if next > 4294967295u64 {
                over = true;
            } else {
                acc = next;
            }
        }
        j = j + 1;
    }
    proof {
        if j < m {
            lemma_leading_digits_step(t@, j as int, m as int);
        } else {
            assert(t@.subrange(j as int, m as int) =~= Seq::<char>::empty());
        }
        assert(leading_digits(t@.subrange(start as int, m as int)) =~= t@.subrange(start as int, j as int));
    }
    if over || j == start {
        None
    } else {
        Some(acc as u32)
    }
}

/// The clone URL and pull-request number of a GitHub pull-request link.
pub fn parse_github_pr(url: &str) -> (r: Option<(String, u32)>)
    ensures
        match (r, github_pr(url@)) {
            (Some((repo, n)), Some((srepo, sn))) => repo@ == srepo && n == sn,
            (None, None) => true,
            _ => false,
        },
{
    proof {
        reveal_strlit("/pull/");
        reveal_strlit(".git");
    }
    let v = chars_of(url);
    let (a, b) = trim_bounds(&v);
    let t = sub_vec(&v, a, b);
    let m = trim_end_char_len(&t, t.len(), '/');
    assert(t@.subrange(0, t@.len() as int) =~= t@);
    let ghost tt = t@.subrange(0, m as int);
    let pat = chars_of("/pull/");
    let idx = match find_exec(&t, m, &pat) {
        None => return None,
        Some(i) => i,
    };
    proof { crate::chars::lemma_find_from_occurs(tt, pat@, 0); }
    assert(pat@.len() == 6);
    assert(tt.subrange(idx + 6, tt.len() as int) =~= t@.subrange(idx + 6, m as int));
    assert(tt.subrange(0, idx as int) =~= t@.subrange(0, idx as int));
    let number = match parse_leading_u32(&t, idx + 6, m) {
        None => return None,
        Some(n) => n,
    };
    if idx == 0 || number == 0 {
        return None;
    }
    let mut repo = sub_string(&t, 0, idx);
    let git = chars_of(".git");
    if !ends_with_at(&t, 0, idx, &git) {
        repo.append(".git");
    }
    Some((repo, number))
}

/// `url.trim_end_matches(".git").trim_start_matches("https://github.com/")
/// .trim_start_matches("git@github.com:").replace(':', "/")`: the
/// `owner/repo` form the `gh` tool expects.
pub open spec fn fs_repo(url: Seq<char>) -> Seq<char> {
    trim_start_str(trim_start_str(trim_end_str(url, ".git"@), "https://github.com/"@), "git@github.com:"@)
        .map_values(|c: char| if c == ':' { '/' } else { c })
}

pub fn filesystem_repo(url: &str) -> (r: String)
    ensures
        r@ == fs_repo(url@),
{
    proof {
        reveal_strlit(".git");
        reveal_strlit("https://github.com/");
        reveal_strlit("git@github.com:");
    }
    let v = chars_of(url);
    let git = chars_of(".git");
    let https = chars_of("https://github.com/");
    let ssh = chars_of("git@github.com:");
    assert(v@.subrange(0, v@.len() as int) =~= v@);
    let e = trim_end_str_at(&v, 0, v.len(), &git);
    let s1 = trim_start_str_at(&v, 0, e, &https);
    let s2 = trim_start_str_at(&v, s1, e, &ssh);
    let ghost w = v@.subrange(s2 as int, e as int);
    let mut out: Vec<char> = Vec::new();
    let mut i = s2;
    while i < e
        invariant
            s2 <= i <= e <= v@.len(),
            w == v@.subrange(s2 as int, e as int),
            out@ == w.subrange(0, i - s2).map_values(|c: char| if c == ':' { '/' } else { c }),
        decreases e - i,
    {
        let c = v[i];
        out.push(if c == ':' { '/' } else { c });
        assert(out@ =~= w.subrange(0, i + 1 - s2).map_values(|c: char| if c == ':' { '/' } else { c }));
        i = i + 1;
    }
    assert(w.subrange(0, e - s2) =~= w);
    string_of(out.as_slice())
}

pub open spec fn opt_text(o: Option<String>) -> Option<Seq<char>> {
    match o {
        Some(s) => Some(s@),
        None => None,
    }
}

/// Where a task's working copy comes from: a direct git URL first (at the
/// given ref, the remote HEAD by default), then a GitHub pull-request link
/// (at `refs/pull/<n>/head`); blank fields count as absent.
pub open spec fn resolve_source(spec: TaskSpec) -> Option<SourceView> {
    if spec.repo_url is Some && trim(spec.repo_url->0@).len() > 0 {
        Some(SourceView::Git {
            url: spec.repo_url->0@,
            fetch_ref: match spec.git_ref {
                Some(r) => r@,
                None => "HEAD"@,
            },
        })
    } else if spec.pr_url is Some && trim(spec.pr_url->0@).len() > 0 {
        match github_pr(spec.pr_url->0@) {
            Some((repo, n)) => Some(SourceView::Git {
                url: repo,
                fetch_ref: "refs/pull/"@ + decimal(n as nat) + "/head"@,
            }),
            None => None,
        }
    } else {
        None
    }
}

pub fn resolve(spec: &TaskSpec) -> (r: Option<SandboxSource>)
    ensures
        match r {
            Some(src) => resolve_source(*spec) == Some(src@),
            None => resolve_source(*spec) is None,
        },
{
    if let Some(url) = &spec.repo_url {
        let t = trimmed(url.as_str());
        if t.unicode_len() > 0 {
            let fetch_ref = match &spec.git_ref {
                Some(r) => r.clone(),
                None => String::from_str("HEAD"),
            };
            return Some(SandboxSource::Git { url: url.clone(), fetch_ref });
        }
    }
    if let Some(pr) = &spec.pr_url {
        let t = trimmed(pr.as_str());
        if t.unicode_len() > 0 {
            if let Some((repo, number)) = parse_github_pr(pr.as_str()) {
                let mut fetch_ref = String::from_str("refs/pull/");
                push_decimal(&mut fetch_ref, number as u64);
                fetch_ref.append("/head");
                return Some(SandboxSource::Git { url: repo, fetch_ref });
            }
        }
    }
    None
}


/// The branch a proven fix is pushed to.
#[derive(Debug)]
pub enum PushBranch {
    /// The branch is named by the fetch ref itself.
    Named(String),
    /// A pull-request ref: the head branch must be looked up for this
    /// `owner/repo` and pull-request number.
    ViaPullRequest { repo: String, number: String },
    /// No branch can be derived.
    Unknown,
}

pub enum PushBranchView {
    Named(Seq<char>),
    ViaPullRequest { repo: Seq<char>, number: Seq<char> },
    Unknown,
}

impl View for PushBranch {
    type V = PushBranchView;

    open spec fn view(&self) -> PushBranchView {
        match *self {
            PushBranch::Named(b) => PushBranchView::Named(b@),
            PushBranch::ViaPullRequest { repo, number } => PushBranchView::ViaPullRequest { repo: repo@, number: number@ },
            PushBranch::Unknown => PushBranchView::Unknown,
        }
    }
}

/// `refs/pull/<n>/head` needs a lookup of pull request `<n>`;
/// `refs/heads/<b>` names branch `<b>`; a ref outside `refs/` is itself the
/// branch name; any other `refs/...` gives none.
pub open spec fn push_branch(url: Seq<char>, fetch_ref: Seq<char>) -> PushBranchView {
    let rest = fetch_ref.subrange(10, fetch_ref.len() as int);
    if has_prefix(fetch_ref, "refs/pull/"@) && has_suffix(rest, "/head"@) {
        PushBranchView::ViaPullRequest { repo: fs_repo(url), number: rest.subrange(0, rest.len() - 5) }
    } else if has_prefix(fetch_ref, "refs/heads/"@) {
        PushBranchView::Named(fetch_ref.subrange(11, fetch_ref.len() as int))
    } else if !has_prefix(fetch_ref, "refs/"@) {
        PushBranchView::Named(fetch_ref)
    } else {
        PushBranchView::Unknown
    }
}

/// Law: where a task's code comes from. A non-blank `repo_url` wins and is
/// checked out at `git_ref` (the remote `HEAD` by default); otherwise a
/// non-blank `pr_url` that names a pull request is checked out at that pull
/// request's head ref; otherwise the task has no git source.
pub proof fn law_source_priority(spec: TaskSpec)
    ensures
        spec.repo_url is Some && trim(spec.repo_url->0@).len() > 0 ==> resolve_source(spec) == Some(
            SourceView::Git {
                url: spec.repo_url->0@,
                fetch_ref: if spec.git_ref is Some { spec.git_ref->0@ } else { "HEAD"@ },
            },
        ),
        !(spec.repo_url is Some && trim(spec.repo_url->0@).len() > 0) && spec.pr_url is None ==> resolve_source(spec) is None,
        (!(spec.repo_url is Some && trim(spec.repo_url->0@).len() > 0) && spec.pr_url is Some
            && github_pr(spec.pr_url->0@) is Some) ==> resolve_source(spec) == Some(
            SourceView::Git {
                url: github_pr(spec.pr_url->0@).unwrap().0,
                fetch_ref: "refs/pull/"@ + decimal(github_pr(spec.pr_url->0@).unwrap().1 as nat) + "/head"@,
            },
        ),
{
    if !(spec.repo_url is Some && trim(spec.repo_url->0@).len() > 0) && spec.pr_url is Some {
        if github_pr(spec.pr_url->0@) is Some {
            assert(trim(spec.pr_url->0@).len() > 0) by {
                lemma_pr_link_not_blank(spec.pr_url->0@);
            }
        }
    }
}

/// Law: a recognized pull-request link names a positive number and a clone
/// URL ending in `.git`.
pub proof fn law_pr_link_shape(url: Seq<char>)
    ensures
        github_pr(url) matches Some((repo, n)) ==> n > 0 && has_suffix(repo, ".git"@),
{
    reveal_strlit(".git");
    if let Some((repo, n)) = github_pr(url) {
        let t = trim_end_char(trim(url), '/');
        let idx = find_from(t, "/pull/"@, 0)->0;
        let base = t.subrange(0, idx);
        if !has_suffix(base, ".git"@) {
            let g = base + ".git"@;
            assert(g.subrange(g.len() - 4, g.len() as int) =~= ".git"@);
        }
    }
}

proof fn lemma_pr_link_not_blank(url: Seq<char>)
    requires
        github_pr(url) is Some,
    ensures
        trim(url).len() > 0,
{
    let t = trim_end_char(trim(url), '/');
    lemma_trim_end_char_shorter(trim(url), '/');
    crate::chars::lemma_find_from_occurs(t, "/pull/"@, 0);
    reveal_strlit("/pull/");
}

proof fn lemma_trim_end_char_shorter(s: Seq<char>, c: char)
    ensures
        trim_end_char(s, c).len() <= s.len(),
    decreases s.len(),
{
    if s.len() > 0 && s.last() == c {
        lemma_trim_end_char_shorter(s.drop_last(), c);
    }
}

/// Law: where a proven fix goes, by the form of the ref it was fetched
/// from. A ref outside `refs/` is itself the branch; `refs/heads/<b>` is
/// branch `<b>`; `refs/pull/<n>/head` is resolved through pull request `<n>`
/// of the origin's repository.
pub proof fn law_push_branch_by_ref_form(url: Seq<char>, r: Seq<char>, b: Seq<char>, n: Seq<char>)
    ensures
        !has_prefix(r, "refs/"@) ==> push_branch(url, r) == PushBranchView::Named(r),
        push_branch(url, "refs/heads/"@ + b) == PushBranchView::Named(b),
        push_branch(url, "refs/pull/"@ + n + "/head"@)
            == (PushBranchView::ViaPullRequest { repo: fs_repo(url), number: n }),
{
    reveal_strlit("refs/");
    reveal_strlit("refs/pull/");
    reveal_strlit("refs/heads/");
    reveal_strlit("/head");
    if !has_prefix(r, "refs/"@) {
        if has_prefix(r, "refs/pull/"@) {
            assert(r.subrange(0, 5) =~= r.subrange(0, 10).subrange(0, 5));
            assert("refs/pull/"@.subrange(0, 5) =~= "refs/"@);
        }
        if has_prefix(r, "refs/heads/"@) {
            assert(r.subrange(0, 5) =~= r.subrange(0, 11).subrange(0, 5));
            assert("refs/heads/"@.subrange(0, 5) =~= "refs/"@);
        }
    }
    let h = "refs/heads/"@ + b;
    assert(h.subrange(0, 11) =~= "refs/heads/"@);
    assert(h.subrange(11, h.len() as int) =~= b);
    assert(h[5] == 'h');
    assert(!has_prefix(h, "refs/pull/"@)) by {
        if has_prefix(h, "refs/pull/"@) {
            assert(h.subrange(0, 10)[5] == 'p');
        }
    }
    let q = "refs/pull/"@ + n + "/head"@;
    assert(q.subrange(0, 10) =~= "refs/pull/"@);
    let rest = q.subrange(10, q.len() as int);
    assert(rest =~= n + "/head"@);
    assert(rest.subrange(rest.len() - 5, rest.len() as int) =~= "/head"@);
    assert(rest.subrange(0, rest.len() - 5) =~= n);
}

/// Maps a clone origin back to the branch the fix must be pushed to. The
/// lookup of a pull request's head branch is left to the caller.
pub fn resolve_push_branch(url: &str, fetch_ref: &str) -> (r: PushBranch)
    ensures
        r@ == push_branch(url@, fetch_ref@),
{
    proof {
        reveal_strlit("refs/pull/");
        reveal_strlit("/head");
        reveal_strlit("refs/heads/");
        reveal_strlit("refs/");
    }
    let v = chars_of(fetch_ref);
    let n = v.len();
    assert(v@.subrange(0, n as int) =~= v@);
    let pull = chars_of("refs/pull/");
    let head = chars_of("/head");
    let heads = chars_of("refs/heads/");
    let refs = chars_of("refs/");
    if starts_with_at(&v, 0, n, &pull) {
        assert(v@.subrange(10, n as int) =~= v@.subrange(10, n as int));
        if ends_with_at(&v, 10, n, &head) {
            let number = sub_string(&v, 10, n - 5);
            assert(v@.subrange(10, n as int).subrange(0, n - 10 - 5) =~= v@.subrange(10, n - 5));
            return PushBranch::ViaPullRequest { repo: filesystem_repo(url), number };
        }
    }
    if starts_with_at(&v, 0, n, &heads) {
        return PushBranch::Named(sub_string(&v, 11, n));
    }
    if !starts_with_at(&v, 0, n, &refs) {
        return PushBranch::Named(String::from_str(fetch_ref));
    }
    PushBranch::Unknown
}

/// What materializing a sandbox takes.
#[derive(Debug)]
pub enum PrepareStep {
    /// Copy this directory tree into the sandbox.
    CopyDir { from: String },
    /// Run these `git` argument lists, in order, inside the sandbox.
    Git { commands: Vec<Vec<String>> },
}

pub open spec fn texts(v: Seq<String>) -> Seq<Seq<char>> {
    v.map_values(|s: String| s@)
}

/// The git steps of a shallow checkout of exactly `fetch_ref`.
pub open spec fn checkout_commands(url: Seq<char>, fetch_ref: Seq<char>) -> Seq<Seq<Seq<char>>> {
    seq![
        seq!["init"@, "-q"@],
        seq!["remote"@, "add"@, "origin"@, url],
        seq!["fetch"@, "--depth"@, "1"@, "origin"@, fetch_ref],
        seq!["checkout"@, "--force"@, "FETCH_HEAD"@],
    ]
}

fn strings(parts: &[&str]) -> (v: Vec<String>)
    ensures
        v@.len() == parts@.len(),
        forall|i: int| 0 <= i < parts@.len() ==> #[trigger] v@[i]@ == parts@[i]@,
{
    let mut v: Vec<String> = Vec::new();
    let mut i: usize = 0;
    while i < parts.len()
        invariant
            i <= parts@.len(),
            v@.len() == i,
            forall|j: int| 0 <= j < i ==> #[trigger] v@[j]@ == parts@[j]@,
        decreases parts@.len() - i,
    {
        v.push(String::from_str(parts[i]));
        i = i + 1;
    }
    v
}

/// The argument lists of a shallow `git` checkout of `fetch_ref` from `url`.
pub fn git_checkout_commands(url: &str, fetch_ref: &str) -> (cmds: Vec<Vec<String>>)
    ensures
        cmds@.len() == 4,
        forall|i: int| 0 <= i < 4 ==> texts(#[trigger] cmds@[i]@) == checkout_commands(url@, fetch_ref@)[i],
{
    let mut cmds: Vec<Vec<String>> = Vec::new();
    let c0 = strings(&["init", "-q"]);
    assert(texts(c0@) =~= checkout_commands(url@, fetch_ref@)[0]);
    cmds.push(c0);
    let c1 = strings(&["remote", "add", "origin", url]);
    assert(texts(c1@) =~= checkout_commands(url@, fetch_ref@)[1]);
    cmds.push(c1);
    let c2 = strings(&["fetch", "--depth", "1", "origin", fetch_ref]);
    assert(texts(c2@) =~= checkout_commands(url@, fetch_ref@)[2]);
    cmds.push(c2);
    let c3 = strings(&["checkout", "--force", "FETCH_HEAD"]);
    assert(texts(c3@) =~= checkout_commands(url@, fetch_ref@)[3]);
    cmds.push(c3);
    cmds
}

/// How to materialize the source into a fresh sandbox: no source or a local
/// fixture is copied; a git origin is checked out.
pub fn prepare(source: Option<&SandboxSource>, fixture: &str) -> (step: PrepareStep)
    ensures
        match source {
            None => step matches PrepareStep::CopyDir { from } && from@ == fixture@,
            Some(SandboxSource::Fixture(p)) => step matches PrepareStep::CopyDir { from } && from@ == p@,
            Some(SandboxSource::Git { url, fetch_ref }) => step matches PrepareStep::Git { commands }
                && commands@.len() == 4
                && forall|i: int| 0 <= i < 4 ==> texts(#[trigger] commands@[i]@) == checkout_commands(url@, fetch_ref@)[i],
        },
{
    match source {
        None => PrepareStep::CopyDir { from: String::from_str(fixture) },
        Some(SandboxSource::Fixture(p)) => PrepareStep::CopyDir { from: p.clone() },
        Some(SandboxSource::Git { url, fetch_ref }) => PrepareStep::Git {
            commands: git_checkout_commands(url.as_str(), fetch_ref.as_str()),
        },
    }
}

/// The refspec that pushes the sandbox's `HEAD` to `branch`.
pub fn push_refspec(branch: &str) -> (r: String)
    ensures
        r@ == "HEAD:refs/heads/"@ + branch@,
{
    let mut r = String::from_str("HEAD:refs/heads/");
    r.append(branch);
    r
}

/// The git steps that publish a proven fix: look for changes, stage them,
/// commit them as the bot, and push `HEAD` to `branch` of `url`.
pub open spec fn publish_commands(url: Seq<char>, branch: Seq<char>, message: Seq<char>) -> Seq<Seq<Seq<char>>> {
    seq![
        seq!["status"@, "--porcelain"@],
        seq!["add"@, "-A"@],
        seq!["-c"@, "user.name=Phoenix CI"@, "-c"@, "user.email=phoenix-ci@localhost"@, "commit"@, "-q"@, "-m"@, message],
        seq!["push"@, url, "HEAD:refs/heads/"@ + branch],
    ]
}

/// The argument lists of the git steps that publish a proven fix, in order:
/// status (stop when it prints nothing), add, commit, push.
pub fn git_publish_commands(url: &str, branch: &str, message: &str) -> (cmds: Vec<Vec<String>>)
    ensures
        cmds@.len() == 4,
        forall|i: int| 0 <= i < 4 ==> texts(#[trigger] cmds@[i]@) == publish_commands(url@, branch@, message@)[i],
{
    let mut cmds: Vec<Vec<String>> = Vec::new();
    let c0 = strings(&["status", "--porcelain"]);
    assert(texts(c0@) =~= publish_commands(url@, branch@, message@)[0]);
    cmds.push(c0);
    let c1 = strings(&["add", "-A"]);
    assert(texts(c1@) =~= publish_commands(url@, branch@, message@)[1]);
    cmds.push(c1);
    let c2 = strings(&["-c", "user.name=Phoenix CI", "-c", "user.email=phoenix-ci@localhost", "commit", "-q", "-m", message]);
    assert(texts(c2@) =~= publish_commands(url@, branch@, message@)[2]);
    cmds.push(c2);
    let refspec = push_refspec(branch);
    let c3 = strings(&["push", url, refspec.as_str()]);
    assert(texts(c3@) =~= publish_commands(url@, branch@, message@)[3]);
    cmds.push(c3);
    cmds
}

/// Whether `git status --porcelain` printed any change: a fix that changed
/// nothing is not committed or pushed.
pub fn has_changes(status_output: &str) -> (b: bool)
    ensures
        b == (trim(status_output@).len() > 0),
{
    let t = trimmed(status_output);
    t.unicode_len() > 0
}

/// The arguments joined by single spaces.
pub open spec fn joined(args: Seq<Seq<char>>) -> Seq<char>
    decreases args.len(),
{
    if args.len() == 0 {
        Seq::empty()
    } else if args.len() == 1 {
        args[0]
    } else {
        joined(args.drop_last()) + " "@ + args.last()
    }
}

/// The error of a failed `git` command: its arguments and its trimmed stderr.
pub fn git_failed_error(args: &[&str], stderr: &str) -> (e: crate::agents::AgentError)
    ensures
        e@ == crate::agents::AgentErrorView::Git(
            "git "@ + joined(args@.map_values(|a: &str| a@)) + " failed: "@ + trim(stderr@),
        ),
{
    let mut m = String::from_str("git ");
    let ghost all = args@.map_values(|a: &str| a@);
    let mut i: usize = 0;
    while i < args.len()
        invariant
            i <= args@.len(),
            all == args@.map_values(|a: &str| a@),
            m@ == "git "@ + joined(all.subrange(0, i as int)),
        decreases args@.len() - i,
    {
        if i > 0 {
            m.append(" ");
        }
        m.append(args[i]);
        assert(all.subrange(0, i + 1).drop_last() =~= all.subrange(0, i as int));
        i = i + 1;
    }
    assert(all.subrange(0, args@.len() as int) =~= all);
    m.append(" failed: ");
    let t = trimmed(stderr);
    m.append(t.as_str());
    crate::agents::AgentError::Git(m)
}

/// The error of a refused push to `branch`, with git's trimmed stderr.
pub fn push_failed_error(branch: &str, stderr: &str) -> (e: crate::agents::AgentError)
    ensures
        e@ == crate::agents::AgentErrorView::Git("push to "@ + branch@ + " failed: "@ + trim(stderr@)),
{
    let mut m = String::from_str("push to ");
    m.append(branch);
    m.append(" failed: ");
    let t = trimmed(stderr);
    m.append(t.as_str());
    crate::agents::AgentError::Git(m)
}

/// The commit message of a proven fix.
pub fn fix_commit_message(title: &str) -> (m: String)
    ensures
        m@ == "Phoenix CI: "@ + title@
            + "\n\nApplied in an isolated sandbox and verified by a real `cargo test` run."@,
{
    let mut m = String::from_str("Phoenix CI: ");
    m.append(title);
    m.append("\n\nApplied in an isolated sandbox and verified by a real `cargo test` run.");
    m
}

} // verus!
