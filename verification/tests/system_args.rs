//! The system provider's argument vectors and decisions.

use openvcs::errors::VcsError;
use openvcs::models::LogQuery;
use openvcs::system::{
    ahead_behind_args, branches_args, choose_diff, clone_args, commit_index_plan, commit_plan,
    current_branch_args, diff_file_args, diff_untracked_args, discard_args, ensure_remote_plan,
    fetch_args, hard_reset_args, head_rev_args, identity_get_args, identity_set_args, log_args,
    open_args, pull_ff_only_args, push_args, push_refspec_for, rel_to_workdir, remote_exists,
    reverse_patch_args, stage_patch_args, status_args, system_backend_id,
};

#[test]
fn fixed_arg_vectors() {
    assert_eq!(open_args("/r"), vec!["-C", "/r", "rev-parse", "--show-toplevel"]);
    assert_eq!(clone_args("u", "/d"), vec!["clone", "--progress", "u", "/d"]);
    assert_eq!(current_branch_args(), vec!["rev-parse", "--abbrev-ref", "HEAD"]);
    assert_eq!(
        branches_args(),
        vec![
            "for-each-ref",
            "--format=%(refname) %(refname:short) %(HEAD)",
            "refs/heads",
            "refs/remotes"
        ]
    );
    assert_eq!(status_args(), vec!["status", "--porcelain=v2"]);
    assert_eq!(
        ahead_behind_args(),
        vec!["rev-list", "--left-right", "--count", "@{upstream}...HEAD"]
    );
    assert_eq!(fetch_args("origin", "main"), vec!["fetch", "--progress", "origin", "main"]);
    assert_eq!(push_args("origin", "r"), vec!["push", "--progress", "origin", "r"]);
    assert_eq!(
        pull_ff_only_args("origin", "main"),
        vec!["pull", "--ff-only", "--no-rebase", "origin", "main"]
    );
    assert_eq!(hard_reset_args(), vec!["reset", "--hard", "HEAD"]);
    assert_eq!(identity_get_args(false), vec!["config", "--get", "user.name"]);
    assert_eq!(head_rev_args(), vec!["rev-parse", "HEAD"]);
    assert_eq!(
        diff_file_args("a.txt", false),
        vec!["diff", "--no-color", "--unified=3", "--", "a.txt"]
    );
    assert_eq!(
        diff_file_args("a.txt", true),
        vec!["diff", "--no-color", "--unified=3", "--cached", "--", "a.txt"]
    );
    assert_eq!(
        diff_untracked_args("/r/a.txt"),
        vec!["diff", "--no-color", "--unified=3", "--no-index", "--", "/dev/null", "/r/a.txt"]
    );
    assert_eq!(identity_set_args(true, "a@x"), vec!["config", "--local", "user.email", "a@x"]);
}

#[test]
fn patch_args_are_zero_context_strip_one() {
    // Zero-context hunks must be accepted and paths are strip-level 1.
    let stage = stage_patch_args();
    assert!(stage.contains(&"--unidiff-zero".to_string()));
    assert!(stage.contains(&"-p1".to_string()));
    assert!(stage.contains(&"--cached".to_string()));
    let rev = reverse_patch_args();
    assert!(rev.contains(&"--reverse".to_string()));
    assert!(rev.contains(&"--unidiff-zero".to_string()));
    assert!(rev.contains(&"--index".to_string()));
}

#[test]
fn discard_lists_paths() {
    let paths = vec!["a.txt".to_string(), "b/c.rs".to_string()];
    assert_eq!(
        discard_args(&paths),
        vec!["restore", "--staged", "--worktree", "--source=HEAD", "--", "a.txt", "b/c.rs"]
    );
}

#[test]
fn log_args_full_query() {
    let q = LogQuery {
        rev: Some("dev".to_string()),
        path: Some("src".to_string()),
        since_utc: Some("2025-01-01T00:00:00Z".to_string()),
        until_utc: Some("2025-02-01T00:00:00Z".to_string()),
        author_contains: Some("alice".to_string()),
        skip: 5,
        limit: 30,
        topo_order: true,
        include_merges: false,
    };
    assert_eq!(
        log_args(&q),
        vec![
            "log",
            "dev",
            "--topo-order",
            "--no-merges",
            "--date=iso-strict",
            "--since=2025-01-01T00:00:00Z",
            "--until=2025-02-01T00:00:00Z",
            "--author=alice",
            "--skip=5",
            "--max-count=30",
            "--pretty=format:%H%x00%an <%ae>%x00%ad%x00%s",
            "--",
            "src"
        ]
    );
}

#[test]
fn log_args_plain_query() {
    let q = LogQuery::head(10);
    assert_eq!(
        log_args(&q),
        vec![
            "log",
            "--no-merges",
            "--date=iso-strict",
            "--skip=0",
            "--max-count=10",
            "--pretty=format:%H%x00%an <%ae>%x00%ad%x00%s"
        ]
    );
}

#[test]
fn commit_plans_write_no_config() {
    let plan = commit_plan("msg", "A", "a@x", &vec![]);
    assert_eq!(plan.len(), 2);
    assert_eq!(plan[0], vec!["add", "-A"]);
    assert_eq!(
        plan[1],
        vec!["-c", "user.name=A", "-c", "user.email=a@x", "commit", "-m", "msg", "--no-edit"]
    );
    // Identity travels with the invocation: no command is a `config` write.
    assert!(plan.iter().all(|cmd| cmd[0] != "config"));
    let sel = commit_plan("m", "A", "a@x", &vec!["f1".to_string(), "f2".to_string()]);
    assert_eq!(sel[0], vec!["add", "f1", "f2"]);
    let idx = commit_index_plan("m", "A", "a@x");
    assert_eq!(idx.len(), 1);
    assert_eq!(
        idx[0],
        vec!["-c", "user.name=A", "-c", "user.email=a@x", "commit", "-m", "m", "--no-edit"]
    );
}

#[test]
fn remote_decisions() {
    assert!(remote_exists("origin\nupstream\n", "origin"));
    assert!(!remote_exists("origin\n", "fork"));
    assert_eq!(
        ensure_remote_plan("origin\n", "origin", "u"),
        vec!["remote", "set-url", "origin", "u"]
    );
    assert_eq!(ensure_remote_plan("", "origin", "u"), vec!["remote", "add", "origin", "u"]);
}

#[test]
fn three_tier_diff_choice() {
    // Order of lines matches the generator's emission order.
    let unstaged = "diff --git a/a b/a\n+one\n+two\n";
    let got = choose_diff(unstaged, "ignored", None);
    assert_eq!(got, vec!["diff --git a/a b/a", "+one", "+two"]);
    let got2 = choose_diff("  \n", "+staged\n", None);
    assert_eq!(got2, vec!["+staged"]);
    let got3 = choose_diff("", "", Some("+untracked\n"));
    assert_eq!(got3, vec!["+untracked"]);
    let got4 = choose_diff("", "", None);
    assert!(got4.is_empty());
}

#[test]
fn push_refspec_and_detached_head() {
    let id = system_backend_id();
    let ok = push_refspec_for(Some(&"main".to_string()), &id).unwrap();
    assert_eq!(ok, "refs/heads/main:refs/heads/main");
    let err = push_refspec_for(None, &id).unwrap_err();
    match err {
        VcsError::Backend { backend, msg } => {
            assert_eq!(backend.as_str(), "git-system");
            assert_eq!(msg, "detached HEAD");
        },
        other => panic!("unexpected error {:?}", other),
    }
}

#[test]
fn relative_paths() {
    assert_eq!(rel_to_workdir("/repo", "sub/file").unwrap(), "sub/file");
    assert_eq!(rel_to_workdir("/repo", "/repo/sub/file").unwrap(), "sub/file");
    assert_eq!(rel_to_workdir("/repo", "/repo").unwrap(), "");
    // The embedded library reports workdirs with a trailing slash.
    assert_eq!(rel_to_workdir("/repo/", "/repo/sub/file").unwrap(), "sub/file");
    assert_eq!(rel_to_workdir("/repo/", "/repo").unwrap(), "");
    let err = rel_to_workdir("/repo", "/elsewhere/f").unwrap_err();
    assert!(matches!(err, VcsError::Io(_)));
    assert!(matches!(rel_to_workdir("/repo/", "/elsewhere/f"), Err(VcsError::Io(_))));
}
