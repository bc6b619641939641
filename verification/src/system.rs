//! The verified core of the system-git provider: the exact argument vectors
//! it hands to the `git` executable, and the decisions taken around those
//! calls. Process spawning itself stays outside the library.

use vstd::prelude::*;
use crate::backend_id::BackendId;
use crate::errors::VcsError;
use crate::models::LogQuery;
use crate::porcelain::spec_clean_lines;
use crate::text::{
    lines_of, spec_dec, spec_lines, spec_trim_end, starts_with, str_eq, substr, trim_end, u32_dec,
    views,
};

verus! {

/// The identifier the system provider registers under.
pub fn system_backend_id() -> (r: BackendId)
    ensures
        r.chars() == "git-system"@,
{
    BackendId::from_str("git-system")
}

/// `git -C <path> rev-parse --show-toplevel`: how a repository is opened.
pub fn open_args(path: &str) -> (r: Vec<String>)
    ensures
        views(r@) == seq!["-C"@, path@, "rev-parse"@, "--show-toplevel"@],
{
    let mut v: Vec<String> = Vec::new();
    v.push("-C".to_owned());
    v.push(path.to_owned());
    v.push("rev-parse".to_owned());
    v.push("--show-toplevel".to_owned());
    proof {
        assert(views(v@) =~= seq!["-C"@, path@, "rev-parse"@, "--show-toplevel"@]);
    }
    v
}

/// `git clone --progress <url> <dest>`.
pub fn clone_args(url: &str, dest: &str) -> (r: Vec<String>)
    ensures
        views(r@) == seq!["clone"@, "--progress"@, url@, dest@],
{
    let mut v: Vec<String> = Vec::new();
    v.push("clone".to_owned());
    v.push("--progress".to_owned());
    v.push(url.to_owned());
    v.push(dest.to_owned());
    proof {
        assert(views(v@) =~= seq!["clone"@, "--progress"@, url@, dest@]);
    }
    v
}

/// `git rev-parse --abbrev-ref HEAD`.
pub fn current_branch_args() -> (r: Vec<String>)
    ensures
        views(r@) == seq!["rev-parse"@, "--abbrev-ref"@, "HEAD"@],
{
    let mut v: Vec<String> = Vec::new();
    v.push("rev-parse".to_owned());
    v.push("--abbrev-ref".to_owned());
    v.push("HEAD".to_owned());
    proof {
        assert(views(v@) =~= seq!["rev-parse"@, "--abbrev-ref"@, "HEAD"@]);
    }
    v
}

/// The unified branch listing request.
pub fn branches_args() -> (r: Vec<String>)
    ensures
        views(r@) == seq![
            "for-each-ref"@,
            "--format=%(refname) %(refname:short) %(HEAD)"@,
            "refs/heads"@,
            "refs/remotes"@,
        ],
{
    let mut v: Vec<String> = Vec::new();
    v.push("for-each-ref".to_owned());
    v.push("--format=%(refname) %(refname:short) %(HEAD)".to_owned());
    v.push("refs/heads".to_owned());
    v.push("refs/remotes".to_owned());
    proof {
        assert(views(v@) =~= seq![
            "for-each-ref"@,
            "--format=%(refname) %(refname:short) %(HEAD)"@,
            "refs/heads"@,
            "refs/remotes"@,
        ]);
    }
    v
}

/// The local-branch listing request.
pub fn local_branches_args() -> (r: Vec<String>)
    ensures
        views(r@) == seq!["for-each-ref"@, "--format=%(refname:short)"@, "refs/heads"@],
{
    let mut v: Vec<String> = Vec::new();
    v.push("for-each-ref".to_owned());
    v.push("--format=%(refname:short)".to_owned());
    v.push("refs/heads".to_owned());
    proof {
        assert(views(v@) =~= seq!["for-each-ref"@, "--format=%(refname:short)"@, "refs/heads"@]);
    }
    v
}

/// `git branch <name>`.
pub fn create_branch_args(name: &str) -> (r: Vec<String>)
    ensures
        views(r@) == seq!["branch"@, name@],
{
    let mut v: Vec<String> = Vec::new();
    v.push("branch".to_owned());
    v.push(name.to_owned());
    proof {
        assert(views(v@) =~= seq!["branch"@, name@]);
    }
    v
}

/// `git checkout <name>`.
pub fn checkout_args(name: &str) -> (r: Vec<String>)
    ensures
        views(r@) == seq!["checkout"@, name@],
{
    let mut v: Vec<String> = Vec::new();
    v.push("checkout".to_owned());
    v.push(name.to_owned());
    proof {
        assert(views(v@) =~= seq!["checkout"@, name@]);
    }
    v
}

/// `git remote`.
pub fn list_remote_names_args() -> (r: Vec<String>)
    ensures
        views(r@) == seq!["remote"@],
{
    let mut v: Vec<String> = Vec::new();
    v.push("remote".to_owned());
    proof {
        assert(views(v@) =~= seq!["remote"@]);
    }
    v
}

/// `git remote get-url <name>`.
pub fn remote_get_url_args(name: &str) -> (r: Vec<String>)
    ensures
        views(r@) == seq!["remote"@, "get-url"@, name@],
{
    let mut v: Vec<String> = Vec::new();
    v.push("remote".to_owned());
    v.push("get-url".to_owned());
    v.push(name.to_owned());
    proof {
        assert(views(v@) =~= seq!["remote"@, "get-url"@, name@]);
    }
    v
}

/// `git remote remove <name>`.
pub fn remove_remote_args(name: &str) -> (r: Vec<String>)
    ensures
        views(r@) == seq!["remote"@, "remove"@, name@],
{
    let mut v: Vec<String> = Vec::new();
    v.push("remote".to_owned());
    v.push("remove".to_owned());
    v.push(name.to_owned());
    proof {
        assert(views(v@) =~= seq!["remote"@, "remove"@, name@]);
    }
    v
}

/// Whether `git remote` output already names `name`.
pub fn remote_exists(list_out: &str, name: &str) -> (r: bool)
    ensures
        r == spec_clean_lines(spec_lines(list_out@)).contains(name@),
{
    let names = crate::porcelain::clean_lines(list_out);
    let mut i: usize = 0;
    while i < names.len()
        invariant
            i <= names.len(),
            views(names@) == spec_clean_lines(spec_lines(list_out@)),
            forall|j: int| 0 <= j < i ==> views(names@)[j] != name@,
        decreases names.len() - i,
    {
        if str_eq(names[i].as_str(), name) {
            proof {
                assert(views(names@)[i as int] == name@);
            }
            return true;
        }
        proof {
            assert(views(names@)[i as int] == names@[i as int]@);
        }
        i += 1;
    }
    proof {
        if spec_clean_lines(spec_lines(list_out@)).contains(name@) {
            let j = choose|j: int|
                0 <= j < views(names@).len() && views(names@)[j] == name@;
            assert(views(names@)[j] != name@);
        }
    }
    false
}

/// The command that makes `ensure_remote` true: update the URL when the
/// remote already exists, create it otherwise.
pub fn ensure_remote_plan(list_out: &str, name: &str, url: &str) -> (r: Vec<String>)
    ensures
        views(r@) == if spec_clean_lines(spec_lines(list_out@)).contains(name@) {
            seq!["remote"@, "set-url"@, name@, url@]
        } else {
            seq!["remote"@, "add"@, name@, url@]
        },
{
    let mut v: Vec<String> = Vec::new();
    v.push("remote".to_owned());
    if remote_exists(list_out, name) {
        v.push("set-url".to_owned());
    } else {
        v.push("add".to_owned());
    }
    v.push(name.to_owned());
    v.push(url.to_owned());
    proof {
        if spec_clean_lines(spec_lines(list_out@)).contains(name@) {
            assert(views(v@) =~= seq!["remote"@, "set-url"@, name@, url@]);
        } else {
            assert(views(v@) =~= seq!["remote"@, "add"@, name@, url@]);
        }
    }
    v
}

/// `git fetch --progress <remote> <refspec>`.
pub fn fetch_args(remote: &str, refspec: &str) -> (r: Vec<String>)
    ensures
        views(r@) == seq!["fetch"@, "--progress"@, remote@, refspec@],
{
    let mut v: Vec<String> = Vec::new();
    v.push("fetch".to_owned());
    v.push("--progress".to_owned());
    v.push(remote.to_owned());
    v.push(refspec.to_owned());
    proof {
        assert(views(v@) =~= seq!["fetch"@, "--progress"@, remote@, refspec@]);
    }
    v
}

/// `git push --progress <remote> <refspec>`.
pub fn push_args(remote: &str, refspec: &str) -> (r: Vec<String>)
    ensures
        views(r@) == seq!["push"@, "--progress"@, remote@, refspec@],
{
    let mut v: Vec<String> = Vec::new();
    v.push("push".to_owned());
    v.push("--progress".to_owned());
    v.push(remote.to_owned());
    v.push(refspec.to_owned());
    proof {
        assert(views(v@) =~= seq!["push"@, "--progress"@, remote@, refspec@]);
    }
    v
}

/// `git pull --ff-only --no-rebase <remote> <branch>`: a fast-forward-only
/// pull, never a merge or rebase.
pub fn pull_ff_only_args(remote: &str, branch: &str) -> (r: Vec<String>)
    ensures
        views(r@) == seq!["pull"@, "--ff-only"@, "--no-rebase"@, remote@, branch@],
{
    let mut v: Vec<String> = Vec::new();
    v.push("pull".to_owned());
    v.push("--ff-only".to_owned());
    v.push("--no-rebase".to_owned());
    v.push(remote.to_owned());
    v.push(branch.to_owned());
    proof {
        assert(views(v@) =~= seq!["pull"@, "--ff-only"@, "--no-rebase"@, remote@, branch@]);
    }
    v
}

/// `git diff --no-color --unified=3 [--cached] -- <path>`: the unstaged
/// capture of one file, or the staged one with `cached`.
pub fn diff_file_args(path: &str, cached: bool) -> (r: Vec<String>)
    ensures
        views(r@) == if cached {
            seq!["diff"@, "--no-color"@, "--unified=3"@, "--cached"@, "--"@, path@]
        } else {
            seq!["diff"@, "--no-color"@, "--unified=3"@, "--"@, path@]
        },
{
    let mut v: Vec<String> = Vec::new();
    v.push("diff".to_owned());
    v.push("--no-color".to_owned());
    v.push("--unified=3".to_owned());
    if cached {
        v.push("--cached".to_owned());
    }
    v.push("--".to_owned());
    v.push(path.to_owned());
    proof {
        if cached {
            assert(views(v@) =~= seq![
                "diff"@,
                "--no-color"@,
                "--unified=3"@,
                "--cached"@,
                "--"@,
                path@,
            ]);
        } else {
            assert(views(v@) =~= seq!["diff"@, "--no-color"@, "--unified=3"@, "--"@, path@]);
        }
    }
    v
}

/// `git diff --no-color --unified=3 --no-index -- /dev/null <abs>`: an
/// untracked file rendered as pure additions.
pub fn diff_untracked_args(abs: &str) -> (r: Vec<String>)
    ensures
        views(r@) == seq![
            "diff"@,
            "--no-color"@,
            "--unified=3"@,
            "--no-index"@,
            "--"@,
            "/dev/null"@,
            abs@,
        ],
{
    let mut v: Vec<String> = Vec::new();
    v.push("diff".to_owned());
    v.push("--no-color".to_owned());
    v.push("--unified=3".to_owned());
    v.push("--no-index".to_owned());
    v.push("--".to_owned());
    v.push("/dev/null".to_owned());
    v.push(abs.to_owned());
    proof {
        assert(views(v@) =~= seq![
            "diff"@,
            "--no-color"@,
            "--unified=3"@,
            "--no-index"@,
            "--"@,
            "/dev/null"@,
            abs@,
        ]);
    }
    v
}

/// `git rev-parse HEAD`: how the new commit's id is read back.
pub fn head_rev_args() -> (r: Vec<String>)
    ensures
        views(r@) == seq!["rev-parse"@, "HEAD"@],
{
    let mut v: Vec<String> = Vec::new();
    v.push("rev-parse".to_owned());
    v.push("HEAD".to_owned());
    proof {
        assert(views(v@) =~= seq!["rev-parse"@, "HEAD"@]);
    }
    v
}

/// `git status --porcelain=v2`.
pub fn status_args() -> (r: Vec<String>)
    ensures
        views(r@) == seq!["status"@, "--porcelain=v2"@],
{
    let mut v: Vec<String> = Vec::new();
    v.push("status".to_owned());
    v.push("--porcelain=v2".to_owned());
    proof {
        assert(views(v@) =~= seq!["status"@, "--porcelain=v2"@]);
    }
    v
}

/// `git rev-list --left-right --count @{upstream}...HEAD`.
pub fn ahead_behind_args() -> (r: Vec<String>)
    ensures
        views(r@) == seq!["rev-list"@, "--left-right"@, "--count"@, "@{upstream}...HEAD"@],
{
    let mut v: Vec<String> = Vec::new();
    v.push("rev-list".to_owned());
    v.push("--left-right".to_owned());
    v.push("--count".to_owned());
    v.push("@{upstream}...HEAD".to_owned());
    proof {
        assert(views(v@) =~= seq!["rev-list"@, "--left-right"@, "--count"@, "@{upstream}...HEAD"@]);
    }
    v
}

/// `git apply --cached --unidiff-zero -p1 -`: stage a unified diff into the
/// index only, strip level 1, zero-context hunks accepted.
pub fn stage_patch_args() -> (r: Vec<String>)
    ensures
        views(r@) == seq!["apply"@, "--cached"@, "--unidiff-zero"@, "-p1"@, "-"@],
{
    let mut v: Vec<String> = Vec::new();
    v.push("apply".to_owned());
    v.push("--cached".to_owned());
    v.push("--unidiff-zero".to_owned());
    v.push("-p1".to_owned());
    v.push("-".to_owned());
    proof {
        assert(views(v@) =~= seq!["apply"@, "--cached"@, "--unidiff-zero"@, "-p1"@, "-"@]);
    }
    v
}

/// `git apply --reverse --index --unidiff-zero -p1 -`: back a patch out of
/// both the index and the working tree.
pub fn reverse_patch_args() -> (r: Vec<String>)
    ensures
        views(r@) == seq!["apply"@, "--reverse"@, "--index"@, "--unidiff-zero"@, "-p1"@, "-"@],
{
    let mut v: Vec<String> = Vec::new();
    v.push("apply".to_owned());
    v.push("--reverse".to_owned());
    v.push("--index".to_owned());
    v.push("--unidiff-zero".to_owned());
    v.push("-p1".to_owned());
    v.push("-".to_owned());
    proof {
        assert(views(v@) =~= seq![
            "apply"@,
            "--reverse"@,
            "--index"@,
            "--unidiff-zero"@,
            "-p1"@,
            "-"@,
        ]);
    }
    v
}

/// `git restore --staged --worktree --source=HEAD -- <paths>`.
pub fn discard_args(paths: &Vec<String>) -> (r: Vec<String>)
    ensures
        views(r@) == seq!["restore"@, "--staged"@, "--worktree"@, "--source=HEAD"@, "--"@]
            + views(paths@),
{
    let mut v: Vec<String> = Vec::new();
    v.push("restore".to_owned());
    v.push("--staged".to_owned());
    v.push("--worktree".to_owned());
    v.push("--source=HEAD".to_owned());
    v.push("--".to_owned());
    let mut i: usize = 0;
    while i < paths.len()
        invariant
            i <= paths.len(),
            views(v@) =~= seq!["restore"@, "--staged"@, "--worktree"@, "--source=HEAD"@, "--"@]
                + views(paths@).subrange(0, i as int),
        decreases paths.len() - i,
    {
        let ghost vv = views(v@);
        v.push(paths[i].clone());
        proof {
            assert(views(v@) =~= vv.push(paths@[i as int]@));
            assert(views(paths@)[i as int] == paths@[i as int]@);
            assert(views(paths@).subrange(0, i as int + 1) =~= views(paths@).subrange(
                0,
                i as int,
            ).push(paths@[i as int]@));
            assert(vv.push(paths@[i as int]@) =~= seq![
                "restore"@,
                "--staged"@,
                "--worktree"@,
                "--source=HEAD"@,
                "--"@,
            ] + views(paths@).subrange(0, i as int + 1));
        }
        i += 1;
    }
    proof {
        assert(views(paths@).subrange(0, paths@.len() as int) =~= views(paths@));
    }
    v
}

/// `git reset --hard HEAD`.
pub fn hard_reset_args() -> (r: Vec<String>)
    ensures
        views(r@) == seq!["reset"@, "--hard"@, "HEAD"@],
{
    let mut v: Vec<String> = Vec::new();
    v.push("reset".to_owned());
    v.push("--hard".to_owned());
    v.push("HEAD".to_owned());
    proof {
        assert(views(v@) =~= seq!["reset"@, "--hard"@, "HEAD"@]);
    }
    v
}

/// `git config --get user.name` / `user.email`.
pub fn identity_get_args(email: bool) -> (r: Vec<String>)
    ensures
        views(r@) == if email {
            seq!["config"@, "--get"@, "user.email"@]
        } else {
            seq!["config"@, "--get"@, "user.name"@]
        },
{
    let mut v: Vec<String> = Vec::new();
    v.push("config".to_owned());
    v.push("--get".to_owned());
    if email {
        v.push("user.email".to_owned());
        proof {
            assert(views(v@) =~= seq!["config"@, "--get"@, "user.email"@]);
        }
    } else {
        v.push("user.name".to_owned());
        proof {
            assert(views(v@) =~= seq!["config"@, "--get"@, "user.name"@]);
        }
    }
    v
}

/// `git config --local user.name <v>` / `user.email <v>`: repository-local
/// identity writes, never global.
pub fn identity_set_args(email: bool, value: &str) -> (r: Vec<String>)
    ensures
        views(r@) == if email {
            seq!["config"@, "--local"@, "user.email"@, value@]
        } else {
            seq!["config"@, "--local"@, "user.name"@, value@]
        },
{
    let mut v: Vec<String> = Vec::new();
    v.push("config".to_owned());
    v.push("--local".to_owned());
    if email {
        v.push("user.email".to_owned());
    } else {
        v.push("user.name".to_owned());
    }
    v.push(value.to_owned());
    proof {
        if email {
            assert(views(v@) =~= seq!["config"@, "--local"@, "user.email"@, value@]);
        } else {
            assert(views(v@) =~= seq!["config"@, "--local"@, "user.name"@, value@]);
        }
    }
    v
}


/// The exact `git log` invocation for a query: revision, ordering and merge
/// flags, strict ISO dates, the filters, pagination, and the NUL-separated
/// pretty format, with an optional trailing path limiter.
pub open spec fn spec_log_args(q: LogQuery) -> Seq<Seq<char>> {
    seq!["log"@] + (match q.rev {
        Some(rv) => seq![rv@],
        None => Seq::<Seq<char>>::empty(),
    }) + (if q.topo_order {
        seq!["--topo-order"@]
    } else {
        Seq::<Seq<char>>::empty()
    }) + (if !q.include_merges {
        seq!["--no-merges"@]
    } else {
        Seq::<Seq<char>>::empty()
    }) + seq!["--date=iso-strict"@] + (match q.since_utc {
        Some(s) => seq!["--since="@ + s@],
        None => Seq::<Seq<char>>::empty(),
    }) + (match q.until_utc {
        Some(u) => seq!["--until="@ + u@],
        None => Seq::<Seq<char>>::empty(),
    }) + (match q.author_contains {
        Some(a) => seq!["--author="@ + a@],
        None => Seq::<Seq<char>>::empty(),
    }) + seq!["--skip="@ + spec_dec(q.skip as int)] + seq![
        "--max-count="@ + spec_dec(q.limit as int),
    ] + seq!["--pretty=format:%H%x00%an <%ae>%x00%ad%x00%s"@] + (match q.path {
        Some(p) => seq!["--"@, p@],
        None => Seq::<Seq<char>>::empty(),
    })
}

/// Build the `git log` argument vector for a query.
#[verifier::rlimit(100)]
pub fn log_args(q: &LogQuery) -> (r: Vec<String>)
    ensures
        views(r@) == spec_log_args(*q),
{
    let mut v: Vec<String> = Vec::new();
    v.push("log".to_owned());
    match &q.rev {
        Some(rv) => {
            v.push(rv.clone());
        },
        None => {},
    }
    if q.topo_order {
        v.push("--topo-order".to_owned());
    }
    if !q.include_merges {
        v.push("--no-merges".to_owned());
    }
    v.push("--date=iso-strict".to_owned());
    match &q.since_utc {
        Some(s) => {
            v.push("--since=".to_owned().concat(s.as_str()));
        },
        None => {},
    }
    match &q.until_utc {
        Some(u) => {
            v.push("--until=".to_owned().concat(u.as_str()));
        },
        None => {},
    }
    match &q.author_contains {
        Some(a) => {
            v.push("--author=".to_owned().concat(a.as_str()));
        },
        None => {},
    }
    v.push("--skip=".to_owned().concat(u32_dec(q.skip).as_str()));
    v.push("--max-count=".to_owned().concat(u32_dec(q.limit).as_str()));
    v.push("--pretty=format:%H%x00%an <%ae>%x00%ad%x00%s".to_owned());
    match &q.path {
        Some(p) => {
            v.push("--".to_owned());
            v.push(p.clone());
        },
        None => {},
    }
    proof {
        assert(views(v@) =~= spec_log_args(*q));
    }
    v
}

/// The staging command of a commit: everything with empty `paths`, exactly
/// the given paths otherwise.
pub open spec fn spec_stage_cmd(paths: Seq<Seq<char>>) -> Seq<Seq<char>> {
    if paths.len() == 0 {
        seq!["add"@, "-A"@]
    } else {
        seq!["add"@] + paths
    }
}

/// The commit command, with the identity carried per invocation through
/// `-c` options: it applies to this run alone, so the repository's own
/// identity configuration is never written.
pub open spec fn spec_commit_cmd(
    message: Seq<char>,
    name: Seq<char>,
    email: Seq<char>,
) -> Seq<Seq<char>> {
    seq![
        "-c"@,
        "user.name="@ + name,
        "-c"@,
        "user.email="@ + email,
        "commit"@,
        "-m"@,
        message,
        "--no-edit"@,
    ]
}

/// The command sequence of `commit(msg, name, email, paths)`: stage, then
/// commit under the given identity. The plan holds no `config` step.
pub open spec fn spec_commit_plan(
    message: Seq<char>,
    name: Seq<char>,
    email: Seq<char>,
    paths: Seq<Seq<char>>,
) -> Seq<Seq<Seq<char>>> {
    seq![spec_stage_cmd(paths), spec_commit_cmd(message, name, email)]
}

/// Views of a plan: each command as a sequence of argument views.
pub open spec fn plan_views(v: Seq<Vec<String>>) -> Seq<Seq<Seq<char>>> {
    v.map_values(|c: Vec<String>| views(c@))
}

/// Build the commit argument vector.
fn commit_cmd(message: &str, name: &str, email: &str) -> (r: Vec<String>)
    ensures
        views(r@) == spec_commit_cmd(message@, name@, email@),
{
    let mut c: Vec<String> = Vec::new();
    c.push("-c".to_owned());
    c.push("user.name=".to_owned().concat(name));
    c.push("-c".to_owned());
    c.push("user.email=".to_owned().concat(email));
    c.push("commit".to_owned());
    c.push("-m".to_owned());
    c.push(message.to_owned());
    c.push("--no-edit".to_owned());
    proof {
        assert(views(c@) =~= spec_commit_cmd(message@, name@, email@));
    }
    c
}

/// Build the commit plan; the id of the new commit is read afterwards with
/// `rev-parse HEAD`.
pub fn commit_plan(message: &str, name: &str, email: &str, paths: &Vec<String>) -> (r: Vec<
    Vec<String>,
>)
    ensures
        plan_views(r@) == spec_commit_plan(message@, name@, email@, views(paths@)),
{
    let mut plan: Vec<Vec<String>> = Vec::new();
    let mut stage: Vec<String> = Vec::new();
    stage.push("add".to_owned());
    if paths.len() == 0 {
        stage.push("-A".to_owned());
    } else {
        let mut i: usize = 0;
        while i < paths.len()
            invariant
                i <= paths.len(),
                views(stage@) =~= seq!["add"@] + views(paths@).subrange(0, i as int),
            decreases paths.len() - i,
        {
            let ghost cv = views(stage@);
            stage.push(paths[i].clone());
            proof {
                assert(views(stage@) =~= cv.push(paths@[i as int]@));
                assert(views(paths@)[i as int] == paths@[i as int]@);
                assert(cv.push(paths@[i as int]@) =~= seq!["add"@] + views(paths@).subrange(
                    0,
                    i as int + 1,
                ));
            }
            i += 1;
        }
        proof {
            assert(views(paths@).subrange(0, paths@.len() as int) =~= views(paths@));
        }
    }
    proof {
        assert(views(stage@) =~= spec_stage_cmd(views(paths@)));
    }
    plan.push(stage);
    plan.push(commit_cmd(message, name, email));
    proof {
        assert(plan_views(plan@) =~~= spec_commit_plan(message@, name@, email@, views(paths@)));
    }
    plan
}

/// The command sequence of `commit_index`: commit the index as it stands,
/// identity carried per invocation, with no staging and no `config` step.
pub fn commit_index_plan(message: &str, name: &str, email: &str) -> (r: Vec<Vec<String>>)
    ensures
        plan_views(r@) == seq![spec_commit_cmd(message@, name@, email@)],
{
    let mut plan: Vec<Vec<String>> = Vec::new();
    plan.push(commit_cmd(message, name, email));
    proof {
        assert(plan_views(plan@) =~~= seq![spec_commit_cmd(message@, name@, email@)]);
    }
    plan
}

/// The three-tier diff policy: the unstaged capture when it has content,
/// else the staged capture, else the untracked synthesis if one was taken.
/// The chosen capture is returned as its lines, in the generator's order.
pub fn choose_diff(unstaged: &str, staged: &str, untracked: Option<&str>) -> (r: Vec<String>)
    ensures
        ({
            let u = spec_trim_end(unstaged@);
            let s = spec_trim_end(staged@);
            if u.len() > 0 {
                views(r@) == spec_lines(u)
            } else if s.len() > 0 {
                views(r@) == spec_lines(s)
            } else {
                match untracked {
                    Some(t) => views(r@) == spec_lines(spec_trim_end(t@)),
                    None => r@.len() == 0,
                }
            }
        }),
{
    let u = trim_end(unstaged);
    if u.as_str().unicode_len() > 0 {
        return lines_of(u.as_str());
    }
    let s = trim_end(staged);
    if s.as_str().unicode_len() > 0 {
        return lines_of(s.as_str());
    }
    match untracked {
        Some(t) => {
            let tv = trim_end(t);
            lines_of(tv.as_str())
        },
        None => Vec::new(),
    }
}

/// The push refspec of the current branch, or the detached-HEAD failure
/// when there is none.
pub fn push_refspec_for(current: Option<&String>, backend: &BackendId) -> (r: Result<
    String,
    VcsError,
>)
    ensures
        match current {
            Some(b) => r matches Ok(s) && s@ == "refs/heads/"@ + b@ + ":refs/heads/"@ + b@,
            None => r matches Err(e) && e matches VcsError::Backend { backend: be, msg }
                && be.chars() == backend.chars() && msg@ == "detached HEAD"@,
        },
{
    match current {
        Some(b) => {
            let s = "refs/heads/".to_owned().concat(b.as_str()).concat(":refs/heads/").concat(
                b.as_str(),
            );
            Ok(s)
        },
        None => Err(
            VcsError::Backend {
                backend: BackendId { id: backend.id.clone() },
                msg: "detached HEAD".to_owned(),
            },
        ),
    }
}

/// A path made repository-relative for index operations: absolute paths
/// must sit under the working directory, which is accepted with or
/// without its trailing slashes; relative paths pass through.
pub fn rel_to_workdir(workdir: &str, p: &str) -> (r: Result<String, VcsError>)
    ensures
        ({
            let base = crate::text::spec_trim_end_char(workdir@, '/');
            if p@.len() > 0 && p@[0] == '/' {
                if p@ == base {
                    r matches Ok(s) && s@.len() == 0
                } else if crate::text::spec_starts_with(p@, base + "/"@) {
                    r matches Ok(s) && s@ == p@.skip(base.len() as int + 1)
                } else {
                    r matches Err(e) && e matches VcsError::Io(m) && m@
                        == "path is outside workdir"@
                }
            } else {
                r matches Ok(s) && s@ == p@
            }
        }),
{
    let n: usize = p.unicode_len();
    if n > 0 && crate::text::char_at(p, 0) == '/' {
        let wn: usize = workdir.unicode_len();
        let mut j: usize = wn;
        while j > 0 && crate::text::char_at(workdir, j - 1) == '/'
            invariant
                0 <= j <= wn,
                wn == workdir@.len(),
                forall|k: int| j <= k < wn ==> workdir@[k] == '/',
            decreases j,
        {
            j -= 1;
        }
        proof {
            crate::text::lemma_trim_end_char_characterization(workdir@, '/', j as int);
        }
        let base = substr(workdir, 0, j);
        if str_eq(p, base.as_str()) {
            Ok(String::new())
        } else {
            let base_slash = base.concat("/");
            if starts_with(p, base_slash.as_str()) {
                let bl: usize = base_slash.as_str().unicode_len();
                let rest = substr(p, bl, n);
                proof {
                    reveal_strlit("/");
                    assert(base_slash@.len() == crate::text::spec_trim_end_char(
                        workdir@,
                        '/',
                    ).len() + 1);
                    assert(rest@ =~= p@.skip(crate::text::spec_trim_end_char(workdir@, '/').len()
                        as int + 1));
                }
                Ok(rest)
            } else {
                Err(VcsError::Io("path is outside workdir".to_owned()))
            }
        }
    } else {
        Ok(p.to_owned())
    }
}

} // verus!
