//! Branch normalization and the smaller command-layer helpers.

use openvcs::commands::{
    choose_identity, git_log_query, infer_repo_dir_from_url, join_message, normalize_branches,
};
use openvcs::models::{BranchItem, BranchKind};

fn item(name: &str, full: &str, kind: BranchKind, current: bool) -> BranchItem {
    BranchItem { name: name.to_string(), full_ref: full.to_string(), kind, current }
}

#[test]
fn normalize_orders_and_flags() {
    let items = vec![
        item("zeta", "refs/heads/zeta", BranchKind::Local, false),
        item("origin/main", "refs/remotes/origin/main", BranchKind::Unknown, false),
        item("main", "refs/heads/main", BranchKind::Local, false),
        item(" main ", " refs/heads/main ", BranchKind::Local, false),  // duplicate once trimmed
        item("", "refs/heads/empty", BranchKind::Local, false),  // dropped
        item("odd", "something/else", BranchKind::Unknown, false),
    ];
    let out = normalize_branches(&items, &Some("main".to_string()));
    let view: Vec<(String, bool)> = out.iter().map(|b| (b.name.clone(), b.current)).collect();
    assert_eq!(
        view,
        vec![
            ("main".to_string(), true),
            ("zeta".to_string(), false),
            ("origin/main".to_string(), false),
            ("odd".to_string(), false),
        ]
    );
    // Exactly one current; only a local item carries it; kinds inferred.
    assert_eq!(out.iter().filter(|b| b.current).count(), 1);
    assert_eq!(out[2].kind, BranchKind::Remote { remote: "origin".to_string() });
    assert_eq!(out[3].kind, BranchKind::Unknown);
    for b in &out {
        assert!(!b.name.is_empty() && !b.full_ref.is_empty());
        if b.current {
            assert_eq!(b.kind, BranchKind::Local);
        }
    }
}

#[test]
fn normalize_dedups_by_full_ref() {
    let items = vec![
        item("a", "refs/heads/a", BranchKind::Local, false),
        item("a", "refs/heads/a", BranchKind::Local, false),
    ];
    let out = normalize_branches(&items, &None);
    assert_eq!(out.len(), 1);
    assert!(!out[0].current);
}

#[test]
fn normalize_sorts_within_rank() {
    let items = vec![
        item("b", "refs/heads/b", BranchKind::Local, false),
        item("a", "refs/heads/a", BranchKind::Local, false),
        item("origin/z", "refs/remotes/origin/z", BranchKind::Remote { remote: "origin".into() }, false),
        item("origin/a", "refs/remotes/origin/a", BranchKind::Remote { remote: "origin".into() }, false),
    ];
    let out = normalize_branches(&items, &None);
    let names: Vec<String> = out.iter().map(|b| b.name.clone()).collect();
    assert_eq!(names, vec!["a", "b", "origin/a", "origin/z"]);
}

#[test]
fn repo_dir_inference() {
    assert_eq!(infer_repo_dir_from_url("https://host/org/repo.git"), "repo");
    assert_eq!(infer_repo_dir_from_url("git@host:org/repo.git"), "repo");
    assert_eq!(infer_repo_dir_from_url("https://host/org/repo/"), "repo");
    assert_eq!(infer_repo_dir_from_url("repo"), "repo");
}

#[test]
fn message_joining() {
    assert_eq!(join_message("subject", ""), "subject");
    assert_eq!(join_message("subject", "  \n"), "subject");
    assert_eq!(join_message("subject", "body"), "subject\n\nbody");
}

#[test]
fn identity_fallback_chain() {
    let repo = Some(("R".to_string(), "r@x".to_string()));
    assert_eq!(
        choose_identity(repo, Some("E".to_string()), Some("e@x".to_string())),
        ("R".to_string(), "r@x".to_string())
    );
    assert_eq!(
        choose_identity(None, Some("E".to_string()), Some("e@x".to_string())),
        ("E".to_string(), "e@x".to_string())
    );
    assert_eq!(
        choose_identity(None, Some("".to_string()), Some("e@x".to_string())),
        ("OpenVCS".to_string(), "openvcs@example".to_string())
    );
    assert_eq!(
        choose_identity(None, None, None),
        ("OpenVCS".to_string(), "openvcs@example".to_string())
    );
}

#[test]
fn log_query_defaults() {
    let q = git_log_query(None);
    assert_eq!(q.limit, 100);
    assert!(q.topo_order);
    assert!(q.include_merges);
    assert_eq!(git_log_query(Some(5000)).limit, 1000);
    assert_eq!(git_log_query(Some(7)).limit, 7);
}
