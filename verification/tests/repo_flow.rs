//! End-to-end flows through the embedded provider against freshly created
//! repositories. Files are materialised through the library's own index
//! and checkout, so a written change starts out staged.

use openvcs::embedded::EmbeddedGit;
use openvcs::errors::VcsError;
use openvcs::models::LogQuery;

fn fresh_path(tag: &str) -> String {
    let nanos = std::time::SystemTime::now()
        .duration_since(std::time::UNIX_EPOCH)
        .unwrap()
        .as_nanos();
    format!("/tmp/openvcs_{tag}_{nanos}")
}

fn init_repo(tag: &str) -> (String, git2::Repository) {
    let dir = fresh_path(tag);
    let repo = git2::Repository::init(&dir).unwrap();
    (dir, repo)
}

/// Stage `contents` under `name` and force-check the index out, so the
/// file exists in the working tree as well.
fn write_file(repo: &git2::Repository, name: &str, contents: &str) {
    let mut idx = repo.index().unwrap();
    let entry = git2::IndexEntry {
        ctime: git2::IndexTime::new(0, 0),
        mtime: git2::IndexTime::new(0, 0),
        dev: 0,
        ino: 0,
        mode: 0o100644,
        uid: 0,
        gid: 0,
        file_size: contents.len() as u32,
        id: git2::Oid::zero(),
        flags: 0,
        flags_extended: 0,
        path: name.as_bytes().to_vec(),
    };
    idx.add_frombuffer(&entry, contents.as_bytes()).unwrap();
    idx.write().unwrap();
    let mut co = git2::build::CheckoutBuilder::new();
    co.force();
    repo.checkout_index(None, Some(&mut co)).unwrap();
}

#[test]
fn fresh_repository_has_no_branches() {
    let (dir, _raw) = init_repo("fresh");
    let g = EmbeddedGit::open(&dir).unwrap();
    assert_eq!(g.current_branch().unwrap(), None);
    assert_eq!(g.branches().unwrap().len(), 0);
    assert!(g.workdir().starts_with("/tmp/"));
}

#[test]
fn empty_tree_commit_is_nothing_to_commit() {
    let (dir, _raw) = init_repo("empty");
    let g = EmbeddedGit::open(&dir).unwrap();
    let err = g.commit("nothing", "A", "a@x", &vec![]).unwrap_err();
    assert!(matches!(err, VcsError::NothingToCommit));
}

#[test]
fn initial_commit_and_log() {
    let (dir, raw) = init_repo("initial");
    write_file(&raw, "a.txt", "hi\n");
    let g = EmbeddedGit::open(&dir).unwrap();
    let id = g.commit("init", "A", "a@x", &vec![]).unwrap();
    assert_eq!(id.len(), 40);
    assert!(id.chars().all(|c| c.is_ascii_hexdigit() && !c.is_ascii_uppercase()));
    let items = g.log_commits(&LogQuery::head(10)).unwrap();
    assert_eq!(items.len(), 1);
    assert_eq!(items[0].msg, "init");
    assert_eq!(items[0].author, "A <a@x>");
    assert_eq!(items[0].id, id);
    // A second identical commit has nothing to record.
    let err = g.commit("again", "A", "a@x", &vec![]).unwrap_err();
    assert!(matches!(err, VcsError::NothingToCommit));
}

#[test]
fn branch_creation_and_checkout() {
    let (dir, raw) = init_repo("branching");
    write_file(&raw, "a.txt", "hi\n");
    let g = EmbeddedGit::open(&dir).unwrap();
    g.commit("init", "A", "a@x", &vec![]).unwrap();
    let base = g.current_branch().unwrap().unwrap();
    g.create_branch("feat", true).unwrap();
    assert_eq!(g.current_branch().unwrap(), Some("feat".to_string()));
    let branches = g.branches().unwrap();
    let names: Vec<String> = branches.iter().map(|b| b.name.clone()).collect();
    assert!(names.contains(&base));
    assert!(names.contains(&"feat".to_string()));
    assert_eq!(branches.iter().filter(|b| b.current).count(), 1);
    let missing = g.checkout_branch("nope").unwrap_err();
    match missing {
        VcsError::NoSuchBranch(n) => assert_eq!(n, "nope"),
        other => panic!("unexpected error {other:?}"),
    }
    g.checkout_branch(&base).unwrap();
    assert_eq!(g.current_branch().unwrap(), Some(base));
}

#[test]
fn status_and_diff_after_modification() {
    let (dir, raw) = init_repo("status");
    write_file(&raw, "a.txt", "hi\n");
    let g = EmbeddedGit::open(&dir).unwrap();
    g.commit("init", "A", "a@x", &vec![]).unwrap();
    write_file(&raw, "a.txt", "hi\nworld\n");
    let payload = g.status_payload().unwrap();
    assert_eq!(payload.ahead, 0);
    assert_eq!(payload.behind, 0);
    let entry = payload.files.iter().find(|f| f.path == "a.txt").expect("a.txt in status");
    assert_eq!(entry.status, "M");
    let summary = g.status_summary().unwrap();
    assert_eq!(summary.staged, 1);
    assert_eq!(summary.untracked, 0);
    let lines = g.diff_file("a.txt").unwrap();
    assert!(lines.iter().any(|l| l == "+world"), "diff lines: {lines:?}");
    // Absolute paths resolve under the workdir, which ends in a slash.
    assert!(g.workdir().ends_with('/'));
    let abs = format!("{dir}/a.txt");
    let abs_lines = g.diff_file(&abs).unwrap();
    assert!(abs_lines.iter().any(|l| l == "+world"), "diff lines: {abs_lines:?}");
    // Resetting hard to HEAD leaves a clean tree.
    g.hard_reset_head().unwrap();
    assert!(g.status_payload().unwrap().files.is_empty());
}

#[test]
fn open_outside_any_repository_is_not_a_repo() {
    let path = fresh_path("norepo");
    match EmbeddedGit::open(&path) {
        Err(VcsError::NotARepo(m)) => assert_eq!(m, path),
        Err(other) => panic!("unexpected error {other:?}"),
        Ok(_) => panic!("expected the not-a-repository failure"),
    }
}

#[test]
fn identity_round_trip() {
    let (dir, _raw) = init_repo("identity");
    let g = EmbeddedGit::open(&dir).unwrap();
    g.set_identity_local("N", "n@x").unwrap();
    assert_eq!(g.get_identity().unwrap(), Some(("N".to_string(), "n@x".to_string())));
}

#[test]
fn remote_round_trip() {
    let (dir, _raw) = init_repo("remotes");
    let g = EmbeddedGit::open(&dir).unwrap();
    g.ensure_remote("origin", "https://h/one.git").unwrap();
    g.ensure_remote("origin", "https://h/two.git").unwrap();
    let remotes = g.list_remotes().unwrap();
    let hits: Vec<&(String, String)> = remotes.iter().filter(|(n, _)| n == "origin").collect();
    assert_eq!(hits.len(), 1);
    assert_eq!(hits[0].1, "https://h/two.git");
    g.remove_remote("origin").unwrap();
    assert!(g.list_remotes().unwrap().iter().all(|(n, _)| n != "origin"));
}

#[test]
fn unsupported_operations_name_the_backend() {
    let (dir, _raw) = init_repo("unsupported");
    let g = EmbeddedGit::open(&dir).unwrap();
    match g.stage_patch("diff").unwrap_err() {
        VcsError::Unsupported(b) => assert_eq!(b.as_str(), "git-libgit2"),
        other => panic!("unexpected error {other:?}"),
    }
    assert!(matches!(g.discard_paths(&vec![]).unwrap_err(), VcsError::Unsupported(_)));
    assert!(matches!(g.apply_reverse_patch("d").unwrap_err(), VcsError::Unsupported(_)));
}

#[test]
fn pull_fast_forward_and_divergence() {
    // Upstream with one commit.
    let (up_dir, up_raw) = init_repo("ff_up");
    write_file(&up_raw, "a.txt", "hi\n");
    let up = EmbeddedGit::open(&up_dir).unwrap();
    up.commit("one", "A", "a@x", &vec![]).unwrap();
    let branch = up.current_branch().unwrap().unwrap();

    // Clone it and pull with nothing new: success, no changes.
    let down_dir = fresh_path("ff_down");
    let down = EmbeddedGit::clone_repo(&up_dir, &down_dir).unwrap();
    down.pull_ff_only("origin", &branch, &mut Vec::new()).unwrap();
    assert_eq!(down.log_commits(&LogQuery::head(10)).unwrap().len(), 1);

    // A new upstream commit fast-forwards in.
    write_file(&up_raw, "a.txt", "hi\nmore\n");
    up.commit("two", "A", "a@x", &vec![]).unwrap();
    down.pull_ff_only("origin", &branch, &mut Vec::new()).unwrap();
    assert_eq!(down.log_commits(&LogQuery::head(10)).unwrap().len(), 2);

    // Divergence: local and upstream both move on.
    let down_raw = git2::Repository::open(&down_dir).unwrap();
    write_file(&down_raw, "b.txt", "local\n");
    down.commit("local", "B", "b@x", &vec![]).unwrap();
    write_file(&up_raw, "a.txt", "hi\nmore\nstill\n");
    up.commit("three", "A", "a@x", &vec![]).unwrap();
    let err = down.pull_ff_only("origin", &branch, &mut Vec::new()).unwrap_err();
    assert!(matches!(err, VcsError::NonFastForward));
}

#[test]
fn log_pagination_slices() {
    let (dir, raw) = init_repo("paging");
    let g = EmbeddedGit::open(&dir).unwrap();
    for i in 0..5 {
        write_file(&raw, "a.txt", &format!("v{i}\n"));
        g.commit(&format!("c{i}"), "A", "a@x", &vec![]).unwrap();
    }
    let mut q = LogQuery::head(10);
    let all = g.log_commits(&q).unwrap();
    assert_eq!(all.len(), 5);
    q.skip = 1;
    q.limit = 2;
    let page = g.log_commits(&q).unwrap();
    assert_eq!(page.len(), 2);
    assert_eq!(page[0].id, all[1].id);
    assert_eq!(page[1].id, all[2].id);
    // The author filter is a case-insensitive substring.
    let mut qa = LogQuery::head(10);
    qa.author_contains = Some("a@X".to_string());
    assert_eq!(g.log_commits(&qa).unwrap().len(), 5);
    qa.author_contains = Some("nobody".to_string());
    assert_eq!(g.log_commits(&qa).unwrap().len(), 0);
}

#[test]
fn detached_head_reads_as_no_branch() {
    let (dir, raw) = init_repo("detached");
    write_file(&raw, "a.txt", "hi\n");
    let g = EmbeddedGit::open(&dir).unwrap();
    let id = g.commit("init", "A", "a@x", &vec![]).unwrap();
    raw.set_head_detached(git2::Oid::from_str(&id).unwrap()).unwrap();
    assert_eq!(g.current_branch().unwrap(), None);
}

#[test]
fn commit_index_records_staged_state() {
    let (dir, raw) = init_repo("index");
    write_file(&raw, "a.txt", "hi\n");
    let g = EmbeddedGit::open(&dir).unwrap();
    g.commit("init", "A", "a@x", &vec![]).unwrap();
    // Nothing staged beyond HEAD: the index equals HEAD's tree.
    let err = g.commit_index("empty", "A", "a@x").unwrap_err();
    assert!(matches!(err, VcsError::NothingToCommit));
    // A staged change commits as-is; a fresh handle sees the new index.
    write_file(&raw, "a.txt", "hi\nstaged\n");
    let g2 = EmbeddedGit::open(&dir).unwrap();
    let id = g2.commit_index("staged", "A", "a@x").unwrap();
    assert_eq!(id.len(), 40);
    assert_eq!(g2.log_commits(&LogQuery::head(10)).unwrap().len(), 2);
}
