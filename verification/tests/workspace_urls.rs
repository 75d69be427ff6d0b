use swarm_ci::task::TaskSpec;
use swarm_ci::workspace::{
    filesystem_repo, git_checkout_commands, parse_github_pr, prepare, push_refspec, resolve,
    resolve_push_branch, PrepareStep, PushBranch, SandboxSource,
};

fn spec(pr_url: Option<&str>, repo_url: Option<&str>, git_ref: Option<&str>) -> TaskSpec {
    TaskSpec {
        pr_id: "PR".into(),
        title: "t".into(),
        bug_description: "d".into(),
        pr_url: pr_url.map(String::from),
        repo_url: repo_url.map(String::from),
        git_ref: git_ref.map(String::from),
    }
}

#[test]
fn parses_github_pr_urls() {
    let (repo, n) = parse_github_pr("https://github.com/ayobami/swarm-demo-target/pull/102").unwrap();
    assert_eq!(repo, "https://github.com/ayobami/swarm-demo-target.git");
    assert_eq!(n, 102);
}

#[test]
fn parses_pr_urls_with_suffixes_and_git_ext() {
    let (repo, n) = parse_github_pr("https://github.com/o/r/pull/7/files").unwrap();
    assert_eq!(repo, "https://github.com/o/r.git");
    assert_eq!(n, 7);
    let (repo2, n2) = parse_github_pr("https://github.com/o/r.git/pull/9").unwrap();
    assert_eq!(repo2, "https://github.com/o/r.git");
    assert_eq!(n2, 9);
}

#[test]
fn rejects_non_pr_links() {
    assert!(parse_github_pr("https://github.com/o/r/issues/3").is_none());
    assert!(parse_github_pr("not a url").is_none());
}

#[test]
fn pr_number_edges() {
    assert_eq!(parse_github_pr("  https://github.com/o/r/pull/12/// \n").unwrap().1, 12);
    assert!(parse_github_pr("https://github.com/o/r/pull/0").is_none());
    assert!(parse_github_pr("https://github.com/o/r/pull/").is_none());
    assert!(parse_github_pr("/pull/5").is_none());
    assert_eq!(parse_github_pr("x/pull/4294967295").unwrap().1, u32::MAX);
    assert!(parse_github_pr("x/pull/4294967296").is_none());
    assert_eq!(parse_github_pr("x/pull/007abc").unwrap(), ("x.git".to_string(), 7));
}

#[test]
fn filesystem_repo_strips_hosts_and_suffixes() {
    assert_eq!(filesystem_repo("https://github.com/o/r.git"), "o/r");
    assert_eq!(filesystem_repo("git@github.com:o/r.git"), "o/r");
    assert_eq!(filesystem_repo("https://github.com/o/r.git.git"), "o/r");
    assert_eq!(filesystem_repo("file:///tmp/x"), "file////tmp/x");
}

#[test]
fn resolve_prefers_repo_url_then_pr_url() {
    match resolve(&spec(Some("https://github.com/o/r/pull/3"), Some("https://x/y.git"), None)) {
        Some(SandboxSource::Git { url, fetch_ref }) => {
            assert_eq!(url, "https://x/y.git");
            assert_eq!(fetch_ref, "HEAD");
        }
        other => panic!("unexpected {other:?}"),
    }
    match resolve(&spec(Some("https://github.com/o/r/pull/3"), Some("   "), Some("main"))) {
        Some(SandboxSource::Git { url, fetch_ref }) => {
            assert_eq!(url, "https://github.com/o/r.git");
            assert_eq!(fetch_ref, "refs/pull/3/head");
        }
        other => panic!("unexpected {other:?}"),
    }
    match resolve(&spec(None, Some("file:///repo"), Some("feature"))) {
        Some(SandboxSource::Git { fetch_ref, .. }) => assert_eq!(fetch_ref, "feature"),
        other => panic!("unexpected {other:?}"),
    }
    assert!(resolve(&spec(Some("https://github.com/o/r/issues/3"), None, None)).is_none());
    assert!(resolve(&spec(None, None, None)).is_none());
}

#[test]
fn push_branch_by_ref_shape() {
    match resolve_push_branch("https://github.com/o/r.git", "refs/pull/12/head") {
        PushBranch::ViaPullRequest { repo, number } => {
            assert_eq!(repo, "o/r");
            assert_eq!(number, "12");
        }
        other => panic!("unexpected {other:?}"),
    }
    assert!(matches!(resolve_push_branch("u", "refs/heads/fix-1"), PushBranch::Named(b) if b == "fix-1"));
    assert!(matches!(resolve_push_branch("u", "main"), PushBranch::Named(b) if b == "main"));
    assert!(matches!(resolve_push_branch("u", "refs/tags/v1"), PushBranch::Unknown));
    assert!(matches!(resolve_push_branch("u", "refs/pull/head"), PushBranch::Unknown));
    assert_eq!(push_refspec("fix-1"), "HEAD:refs/heads/fix-1");
}

#[test]
fn prepare_copies_or_checks_out() {
    assert!(matches!(prepare(None, "fixtures/demo-pr"), PrepareStep::CopyDir { from } if from == "fixtures/demo-pr"));
    let src = SandboxSource::Fixture("/tmp/f".into());
    assert!(matches!(prepare(Some(&src), "fx"), PrepareStep::CopyDir { from } if from == "/tmp/f"));
    let git = SandboxSource::Git { url: "u".into(), fetch_ref: "r".into() };
    match prepare(Some(&git), "fx") {
        PrepareStep::Git { commands } => assert_eq!(commands, git_checkout_commands("u", "r")),
        other => panic!("unexpected {other:?}"),
    }
    let cmds = git_checkout_commands("u", "r");
    assert_eq!(cmds[0], vec!["init", "-q"]);
    assert_eq!(cmds[1], vec!["remote", "add", "origin", "u"]);
    assert_eq!(cmds[2], vec!["fetch", "--depth", "1", "origin", "r"]);
    assert_eq!(cmds[3], vec!["checkout", "--force", "FETCH_HEAD"]);
}
