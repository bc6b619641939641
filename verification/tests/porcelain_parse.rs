//! The porcelain parsers against captured-shape output.

use openvcs::embedded::classify_progress_line;
use openvcs::models::{BranchKind, VcsEvent};
use openvcs::porcelain::{
    clean_lines, identity_from_outputs, parse_ahead_behind, parse_branches, parse_current_branch,
    parse_log_output, parse_status_files, parse_status_summary,
};

#[test]
fn current_branch_names_and_detached() {
    assert_eq!(parse_current_branch("main\n"), Some("main".to_string()));
    assert_eq!(parse_current_branch("  feature/x \n"), Some("feature/x".to_string()));
    assert_eq!(parse_current_branch("HEAD\n"), None);
}

#[test]
fn ahead_behind_counts() {
    // rev-list --left-right --count prints "<behind>\t<ahead>".
    assert_eq!(parse_ahead_behind("1\t4\n"), (4, 1));
    assert_eq!(parse_ahead_behind("0 0"), (0, 0));
    assert_eq!(parse_ahead_behind(""), (0, 0));
    assert_eq!(parse_ahead_behind("x y"), (0, 0));
}

#[test]
fn status_summary_counts() {
    let out = "? new.txt\n1 .M N... 100644 100644 100644 aaa bbb modified.rs\n1 M. N... 100644 100644 100644 aaa bbb staged.rs\nu UU N... 100644 100644 100644 100644 aaa bbb ccc conflicted.rs\n";
    let s = parse_status_summary(out);
    assert_eq!(s.untracked, 1);
    assert_eq!(s.modified, 1);
    assert_eq!(s.staged, 1);
    assert_eq!(s.conflicted, 1);
}

#[test]
fn status_files_classified() {
    let out = "? new.txt\n1 .M N... 100644 100644 100644 aaa bbb mod.rs\n1 .D N... 100644 100644 100644 aaa bbb gone.rs\n1 A. N... 100644 100644 100644 aaa bbb added.rs\n1 AD N... 100644 100644 100644 aaa bbb brief.rs\n2 R. N... 100644 100644 100644 aaa bbb R100 new-name.rs\told-name.rs\nu UU N... 100644 100644 100644 100644 aaa bbb ccc clash.rs\n";
    let files = parse_status_files(out);
    let got: Vec<(String, String)> =
        files.iter().map(|f| (f.path.clone(), f.status.clone())).collect();
    assert_eq!(
        got,
        vec![
            ("new.txt".to_string(), "A".to_string()),
            ("mod.rs".to_string(), "M".to_string()),
            ("gone.rs".to_string(), "D".to_string()),
            ("added.rs".to_string(), "A".to_string()),
            // Deletion beats the addition: added to the index, deleted in the tree.
            ("brief.rs".to_string(), "D".to_string()),
            // A rename record names its new path, before the tab.
            ("new-name.rs".to_string(), "R".to_string()),
            ("clash.rs".to_string(), "U".to_string()),
        ]
    );
    // Every entry carries exactly one of the five letters and no hunks.
    for f in &files {
        assert!(matches!(f.status.as_str(), "A" | "M" | "D" | "R" | "U"));
        assert!(f.hunks.is_empty());
    }
}

#[test]
fn branches_from_for_each_ref() {
    let out = "refs/heads/feat feat \nrefs/heads/main main *\nrefs/remotes/origin/HEAD origin/HEAD \nrefs/remotes/origin/main origin/main \n";
    let items = parse_branches(out);
    assert_eq!(items.len(), 3);
    assert_eq!(items[0].name, "feat");
    assert_eq!(items[0].full_ref, "refs/heads/feat");
    assert_eq!(items[0].kind, BranchKind::Local);
    assert!(!items[0].current);
    assert_eq!(items[1].name, "main");
    assert!(items[1].current);
    assert_eq!(items[2].name, "origin/main");
    assert_eq!(items[2].kind, BranchKind::Remote { remote: "origin".to_string() });
    assert!(!items[2].current);
    // The remote HEAD alias was dropped; at most one item is current.
    assert_eq!(items.iter().filter(|b| b.current).count(), 1);
}

#[test]
fn branches_grant_one_current_at_most() {
    // A malformed listing with two starred lines still yields one current.
    let out = "refs/heads/a a *\nrefs/heads/b b *\n";
    let items = parse_branches(out);
    assert_eq!(items.len(), 2);
    assert!(items[0].current);
    assert!(!items[1].current);
}

#[test]
fn log_lines_with_nul_fields() {
    let out = "1111111222222233333334444444\u{0}A <a@x>\u{0}2025-09-01T10:00:00+02:00\u{0}subject line\n\u{0}skipped\n";
    let items = parse_log_output(out);
    assert_eq!(items.len(), 1);
    assert_eq!(items[0].id, "1111111222222233333334444444");
    assert_eq!(items[0].author, "A <a@x>");
    assert_eq!(items[0].msg, "subject line");
    assert_eq!(items[0].meta, "2025-09-01T10:00:00+02:00 \u{2022} 1111111");
}

#[test]
fn clean_lines_drop_blanks() {
    assert_eq!(clean_lines(" origin \n\nupstream\n"), vec![
        "origin".to_string(),
        "upstream".to_string()
    ]);
}

#[test]
fn identity_pairing() {
    assert_eq!(
        identity_from_outputs(Some("A\n"), Some("a@x\n")),
        Some(("A".to_string(), "a@x".to_string()))
    );
    assert_eq!(identity_from_outputs(Some("A\n"), Some("  \n")), None);
    assert_eq!(identity_from_outputs(None, Some("a@x")), None);
}

#[test]
fn progress_lines_classified() {
    match classify_progress_line("remote: Counting objects") {
        VcsEvent::RemoteMessage(m) => assert_eq!(m, "remote: Counting objects"),
        other => panic!("unexpected event {other:?}"),
    }
    match classify_progress_line("auth: trying agent") {
        VcsEvent::Auth { method, detail } => {
            assert_eq!(method, "ssh");
            assert_eq!(detail, "auth: trying agent");
        },
        other => panic!("unexpected event {other:?}"),
    }
    match classify_progress_line("push status: refs/heads/main \u{2192} rejected") {
        VcsEvent::PushStatus { refname, status } => {
            assert_eq!(refname, "refs/heads/main");
            assert_eq!(status.as_deref(), Some("rejected"));
        },
        other => panic!("unexpected event {other:?}"),
    }
    match classify_progress_line("push status: refs/heads/main ok") {
        VcsEvent::PushStatus { refname, status } => {
            assert_eq!(refname, "refs/heads/main");
            assert!(status.is_none());
        },
        other => panic!("unexpected event {other:?}"),
    }
    match classify_progress_line("12/40 objects") {
        VcsEvent::Progress { phase, detail } => {
            assert_eq!(phase, "libgit2");
            assert_eq!(detail, "12/40 objects");
        },
        other => panic!("unexpected event {other:?}"),
    }
}
