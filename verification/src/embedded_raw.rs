//! The trusted boundary of the embedded provider: type declarations for
//! libgit2's handles and one thin wrapper per libgit2 call the provider
//! makes. Each wrapper converts to and from plain values and promises no
//! more than the `git2` sources show.

use vstd::prelude::*;
use crate::embedded::{HeadInfo, MergeInfo, RawBranch, RawCommit};

verus! {

#[verifier::external_type_specification]
#[verifier::external_body]
pub struct ExRepository(git2::Repository);

#[verifier::external_type_specification]
#[verifier::external_body]
pub struct ExGitError(git2::Error);

#[verifier::external_type_specification]
#[verifier::external_body]
pub struct ExDiff<'a>(git2::Diff<'a>);

#[verifier::external_type_specification]
#[verifier::external_body]
pub struct ExRemoteCallbacks<'a>(git2::RemoteCallbacks<'a>);

/// A shared buffer the transport callbacks write their textual lines
/// into; the shared-cell type it holds is one this system cannot declare
/// directly.
#[verifier::external_body]
pub struct EventSink {
    lines: std::rc::Rc<std::cell::RefCell<Vec<String>>>,
}

/// Relies on `std::rc::Rc` and `std::cell::RefCell`: a fresh, empty sink.
#[verifier::external_body]
pub fn sink_new() -> (r: EventSink) {
    EventSink { lines: std::rc::Rc::new(std::cell::RefCell::new(Vec::new())) }
}

/// Relies on `std::cell::RefCell::take`: the collected lines, in the
/// order the callbacks pushed them, leaving the sink empty.
#[verifier::external_body]
pub fn sink_drain(sink: &EventSink) -> (r: Vec<String>) {
    sink.lines.take()
}

/// Relies on `git2::RemoteCallbacks::new`.
#[verifier::external_body]
pub fn new_callbacks() -> (r: git2::RemoteCallbacks<'static>) {
    git2::RemoteCallbacks::new()
}

/// Relies on `git2::RemoteCallbacks::credentials` and
/// `git2::Cred::ssh_key_from_agent`: each request is answered by the
/// verified credential decision — one agent attempt, then failure.
#[verifier::external_body]
pub fn set_credentials_cb(cb: &mut git2::RemoteCallbacks<'static>) {
    let attempts = std::cell::Cell::new(0u64);
    cb.credentials(move |_url, username_from_url, allowed| {
        attempts.set(attempts.get().saturating_add(1));
        let hint = username_from_url.map(|s| s.to_string());
        let ssh = allowed.contains(git2::CredentialType::SSH_KEY);
        match crate::embedded::cred_decision(attempts.get(), ssh, hint.as_ref()) {
            crate::embedded::CredAction::TryAgent(u) => git2::Cred::ssh_key_from_agent(&u),
            crate::embedded::CredAction::Fail(m) => Err(
                git2::Error::new(git2::ErrorCode::Auth, git2::ErrorClass::Ssh, &m),
            ),
        }
    });
}

/// Relies on `git2::RemoteCallbacks::sideband_progress`: each UTF-8
/// packet is pushed through the verified sideband formatter.
#[verifier::external_body]
pub fn set_sideband_cb(cb: &mut git2::RemoteCallbacks<'static>, sink: &EventSink) {
    let lines = sink.lines.clone();
    cb.sideband_progress(move |data| {
        if let Ok(text) = std::str::from_utf8(data) {
            lines.borrow_mut().push(crate::embedded::sideband_line(text));
        }
        true
    });
}

/// Relies on `git2::RemoteCallbacks::transfer_progress`: each tick is
/// pushed through the verified transfer formatter.
#[verifier::external_body]
pub fn set_transfer_cb(cb: &mut git2::RemoteCallbacks<'static>, sink: &EventSink) {
    let lines = sink.lines.clone();
    cb.transfer_progress(move |p| {
        lines.borrow_mut().push(crate::embedded::transfer_line(
            p.indexed_deltas() as u64,
            p.total_deltas() as u64,
            p.indexed_objects() as u64,
            p.total_objects() as u64,
        ));
        true
    });
}

/// Relies on `git2::Error::message`.
#[verifier::external_body]
pub fn err_message(e: &git2::Error) -> (r: String) {
    e.message().to_string()
}

/// Relies on `git2::Error::code`: whether the failure is the not-found
/// condition, which repository discovery reports for a path inside no
/// repository.
#[verifier::external_body]
pub fn err_is_not_found(e: &git2::Error) -> (r: bool) {
    e.code() == git2::ErrorCode::NotFound
}

/// Relies on `git2::Repository::discover`: walk up from `path` to the
/// enclosing repository.
#[verifier::external_body]
pub fn repo_discover(path: &str) -> (r: Result<git2::Repository, git2::Error>) {
    git2::Repository::discover(std::path::Path::new(path))
}

/// Relies on `git2::Repository::workdir`: the working directory, absent
/// for a bare repository (or one whose path is not UTF-8).
#[verifier::external_body]
pub fn repo_workdir(repo: &git2::Repository) -> (r: Option<String>) {
    repo.workdir().and_then(|p| p.to_str()).map(|s| s.to_string())
}

/// Relies on `git2::build::RepoBuilder::clone` with the given transport
/// callbacks, fetching all tags as the interactive clone does.
#[verifier::external_body]
pub fn repo_clone(url: &str, dest: &str, cb: git2::RemoteCallbacks<'static>) -> (r: Result<
    git2::Repository,
    git2::Error,
>) {
    let mut fo = git2::FetchOptions::new();
    fo.remote_callbacks(cb);
    fo.download_tags(git2::AutotagOption::All);
    let mut builder = git2::build::RepoBuilder::new();
    builder.fetch_options(fo);
    builder.clone(url, std::path::Path::new(dest))
}

/// Relies on `git2::Repository::head` and `git2::Reference`: whether HEAD
/// exists, whether it is a branch, and its names. An unborn or missing
/// HEAD reads as absent rather than an error.
#[verifier::external_body]
pub fn head_info(repo: &git2::Repository) -> (r: Result<HeadInfo, git2::Error>) {
    match repo.head() {
        Ok(h) => Ok(HeadInfo {
            present: true,
            is_branch: h.is_branch(),
            shorthand: h.shorthand().ok().map(|s| s.to_string()),
            refname: h.name().ok().map(|s| s.to_string()),
        }),
        Err(e) if e.code() == git2::ErrorCode::UnbornBranch || e.code()
            == git2::ErrorCode::NotFound => Ok(
            HeadInfo { present: false, is_branch: false, shorthand: None, refname: None },
        ),
        Err(e) => Err(e),
    }
}

/// Relies on `git2::Repository::branches`, `git2::Branch::name`,
/// `git2::Branch::is_head` and the branch's reference name. Branches whose
/// names are not UTF-8 come through as empty strings.
#[verifier::external_body]
pub fn branches_raw(repo: &git2::Repository, local_only: bool) -> (r: Result<
    Vec<RawBranch>,
    git2::Error,
>) {
    let filter = if local_only { Some(git2::BranchType::Local) } else { None };
    let mut out: Vec<RawBranch> = Vec::new();
    for br in repo.branches(filter)? {
        let (branch, bty) = br?;
        out.push(RawBranch {
            name: branch.name()?.unwrap_or("").to_string(),
            full_ref: branch.get().name().unwrap_or("").to_string(),
            is_remote: bty == git2::BranchType::Remote,
            is_head: branch.is_head(),
        });
    }
    Ok(out)
}

/// Relies on `git2::Repository::branch`: create a branch at the commit
/// HEAD peels to, without forcing.
#[verifier::external_body]
pub fn branch_create_at_head(repo: &git2::Repository, name: &str) -> (r: Result<(), git2::Error>) {
    let head = repo.head()?.peel_to_commit()?;
    repo.branch(name, &head, false)?;
    Ok(())
}

/// Relies on `git2::Repository::revparse_ext`, `checkout_tree`, `set_head`
/// and `set_head_detached`: move HEAD to `refs/heads/<name>` and rewrite
/// the working tree. An unresolvable name reads as `Ok(false)`.
#[verifier::external_body]
pub fn checkout_local(repo: &git2::Repository, name: &str) -> (r: Result<bool, git2::Error>) {
    let refname = format!("refs/heads/{name}");
    let (obj, reference) = match repo.revparse_ext(&refname) {
        Ok(p) => p,
        Err(_) => return Ok(false),
    };
    repo.checkout_tree(&obj, None)?;
    match reference {
        Some(r) => repo.set_head(r.name().unwrap_or(&refname))?,
        None => repo.set_head_detached(obj.id())?,
    }
    Ok(true)
}

/// Relies on `git2::Repository::find_remote` and `git2::Remote::url`: the
/// configured URL of a remote, `None` when the remote is missing.
#[verifier::external_body]
pub fn remote_url(repo: &git2::Repository, name: &str) -> (r: Option<String>) {
    match repo.find_remote(name) {
        Ok(rem) => rem.url().ok().map(|u| u.to_string()),
        Err(_) => None,
    }
}

/// Relies on `git2::Repository::remote_set_url`.
#[verifier::external_body]
pub fn remote_set_url(repo: &git2::Repository, name: &str, url: &str) -> (r: Result<
    (),
    git2::Error,
>) {
    repo.remote_set_url(name, url)
}

/// Relies on `git2::Repository::remote`: create a remote with the default
/// fetch refspec.
#[verifier::external_body]
pub fn remote_add(repo: &git2::Repository, name: &str, url: &str) -> (r: Result<(), git2::Error>) {
    repo.remote(name, url)?;
    Ok(())
}

/// Relies on `git2::Repository::remote_delete`.
#[verifier::external_body]
pub fn remote_delete(repo: &git2::Repository, name: &str) -> (r: Result<(), git2::Error>) {
    repo.remote_delete(name)
}

/// Relies on `git2::Config::entries` over the glob `remote.*.url`: the raw
/// `(key, value)` pairs, keys like `remote.origin.url`, in config order.
#[verifier::external_body]
pub fn config_remote_urls(repo: &git2::Repository) -> (r: Result<Vec<(String, String)>, git2::Error>) {
    let cfg = repo.config()?;
    let mut iter = cfg.entries(Some("remote.*.url"))?;
    let mut out: Vec<(String, String)> = Vec::new();
    while let Some(Ok(entry)) = iter.next() {
        if let (Ok(name), Ok(val)) = (entry.name(), entry.value()) {
            out.push((name.to_string(), val.to_string()));
        }
    }
    Ok(out)
}

/// Relies on `git2::Config::get_string` for `user.name` and `user.email`:
/// each is `None` when unset or not valid UTF-8.
#[verifier::external_body]
pub fn config_identity(repo: &git2::Repository) -> (r: (Option<String>, Option<String>)) {
    match repo.config() {
        Ok(cfg) => (cfg.get_string("user.name").ok(), cfg.get_string("user.email").ok()),
        Err(_) => (None, None),
    }
}

/// Relies on `git2::Config::set_str`: write the repository-local identity.
#[verifier::external_body]
pub fn config_set_identity(repo: &git2::Repository, name: &str, email: &str) -> (r: Result<
    (),
    git2::Error,
>) {
    let mut cfg = repo.config()?;
    cfg.set_str("user.name", name)?;
    cfg.set_str("user.email", email)?;
    Ok(())
}


/// Relies on `git2::Repository::statuses` with untracked files included
/// and untracked directories recursed; `renames` also turns on rename
/// detection for both sides. Each entry comes back as its raw status bits
/// and the path of the delta it carries, the new side preferred.
#[verifier::external_body]
pub fn statuses_raw(repo: &git2::Repository, renames: bool) -> (r: Result<
    Vec<(u32, String)>,
    git2::Error,
>) {
    let mut sopts = git2::StatusOptions::new();
    sopts.include_untracked(true).recurse_untracked_dirs(true);
    if renames {
        sopts.renames_head_to_index(true).renames_index_to_workdir(true);
    }
    let mut out: Vec<(u32, String)> = Vec::new();
    for e in repo.statuses(Some(&mut sopts))?.iter() {
        let d = e.head_to_index().or_else(|| e.index_to_workdir());
        let p = d.and_then(|d| d.new_file().path().or(d.old_file().path()));
        out.push((e.status().bits(), p.map(|p| p.to_string_lossy().to_string()).unwrap_or_default()));
    }
    Ok(out)
}

/// Relies on `git2::Index::add_all` over the `*` pathspec and
/// `git2::Index::write`: stage every change, persist the index, and report
/// how many entries it holds.
#[verifier::external_body]
pub fn stage_all_count(repo: &git2::Repository) -> (r: Result<u64, git2::Error>) {
    let mut idx = repo.index()?;
    idx.add_all(["*"].iter(), git2::IndexAddOption::DEFAULT, None)?;
    idx.write()?;
    Ok(idx.len() as u64)
}

/// Relies on `git2::Index::add_all` for directories and
/// `git2::Index::add_path` for files: stage exactly the given paths, each
/// as its original form paired with its repository-relative form.
#[verifier::external_body]
pub fn stage_paths_count(repo: &git2::Repository, paths: &Vec<(String, String)>) -> (r: Result<
    u64,
    git2::Error,
>) {
    let mut idx = repo.index()?;
    for (orig, rel) in paths.iter() {
        if std::path::Path::new(orig).is_dir() {
            idx.add_all([orig.as_str()].iter(), git2::IndexAddOption::DEFAULT, None)?;
        } else {
            idx.add_path(std::path::Path::new(rel))?;
        }
    }
    idx.write()?;
    Ok(idx.len() as u64)
}

/// Relies on `git2::Index::write_tree` and `git2::Oid`'s hex display:
/// forty lowercase hexadecimal digits.
#[verifier::external_body]
pub fn index_tree_id(repo: &git2::Repository) -> (r: Result<String, git2::Error>)
    ensures
        r matches Ok(id) ==> id@.len() == 40 && crate::text::all_lower_hex(id@),
{
    let mut idx = repo.index()?;
    Ok(idx.write_tree()?.to_string())
}

/// Relies on `git2::Reference::peel_to_tree` on HEAD: the tree HEAD points
/// at, absent when HEAD is unborn or missing.
#[verifier::external_body]
pub fn head_tree_id(repo: &git2::Repository) -> (r: Result<Option<String>, git2::Error>)
    ensures
        r matches Ok(o) && o matches Some(id) ==> id@.len() == 40 && crate::text::all_lower_hex(
            id@,
        ),
{
    match repo.head() {
        Ok(h) => Ok(Some(h.peel_to_tree()?.id().to_string())),
        Err(e) if e.code() == git2::ErrorCode::UnbornBranch || e.code()
            == git2::ErrorCode::NotFound => Ok(None),
        Err(e) => Err(e),
    }
}

/// Relies on `git2::Repository::commit` over the current index's tree,
/// with `git2::Signature::now(name, email)` as author and committer, HEAD's
/// commit as the only parent when asked, and the given reference advanced.
/// The new id is forty lowercase hexadecimal digits.
#[verifier::external_body]
pub fn commit_from_index(
    repo: &git2::Repository,
    message: &str,
    name: &str,
    email: &str,
    update_ref: Option<&String>,
    with_head_parent: bool,
) -> (r: Result<String, git2::Error>)
    ensures
        r matches Ok(id) ==> id@.len() == 40 && crate::text::all_lower_hex(id@),
{
    let mut idx = repo.index()?;
    let tree = repo.find_tree(idx.write_tree()?)?;
    let sig = git2::Signature::now(name, email)?;
    let parents = if with_head_parent { vec![repo.head()?.peel_to_commit()?] } else { vec![] };
    let parent_refs: Vec<&git2::Commit> = parents.iter().collect();
    let oid = repo.commit(update_ref.map(|s| s.as_str()), &sig, &sig, message, &tree, &parent_refs)?;
    Ok(oid.to_string())
}

/// Relies on `git2::Remote::fetch` with the given transport callbacks and
/// all tags downloaded, as the interactive fetch configures it.
#[verifier::external_body]
pub fn fetch_refspec(repo: &git2::Repository, remote: &str, refspec: &str, cb: git2::RemoteCallbacks<
    'static,
>) -> (r: Result<(), git2::Error>) {
    let mut fo = git2::FetchOptions::new();
    fo.remote_callbacks(cb);
    fo.download_tags(git2::AutotagOption::All);
    let mut rem = repo.find_remote(remote)?;
    rem.fetch(&[refspec], Some(&mut fo), None)
}

/// Relies on `git2::Repository::find_reference("FETCH_HEAD")`: the fetched
/// tip, in hex, when the reference has a direct target.
#[verifier::external_body]
pub fn fetch_head_target(repo: &git2::Repository) -> (r: Result<Option<String>, git2::Error>)
    ensures
        r matches Ok(o) && o matches Some(id) ==> id@.len() == 40 && crate::text::all_lower_hex(
            id@,
        ),
{
    Ok(repo.find_reference("FETCH_HEAD")?.target().map(|o| o.to_string()))
}

/// Relies on `git2::Repository::merge_analysis` over the annotated commit
/// of the named tracking reference: whether HEAD is already up to date,
/// whether a fast-forward is possible, and the reference's tip.
#[verifier::external_body]
pub fn merge_analysis_upstream(repo: &git2::Repository, full_ref: &str) -> (r: Result<
    MergeInfo,
    git2::Error,
>)
    ensures
        r matches Ok(m) && m.target matches Some(id) ==> id@.len() == 40
            && crate::text::all_lower_hex(id@),
{
    let up_ref = repo.find_reference(full_ref)?;
    let annotated = repo.reference_to_annotated_commit(&up_ref)?;
    let (analysis, _pref) = repo.merge_analysis(&[&annotated])?;
    Ok(MergeInfo {
        up_to_date: analysis.is_up_to_date(),
        fast_forward: analysis.is_fast_forward(),
        target: up_ref.target().map(|o| o.to_string()),
    })
}

/// Relies on `git2::Reference::set_target`, `git2::Repository::set_head`
/// and `checkout_head`: advance the named reference to the target, point
/// HEAD at it, and rewrite the working tree.
#[verifier::external_body]
pub fn ff_advance(repo: &git2::Repository, head_refname: &str, target_hex: &str) -> (r: Result<
    (),
    git2::Error,
>) {
    let target = git2::Oid::from_str(target_hex)?;
    let mut reference = repo.find_reference(head_refname)?;
    reference.set_target(target, "fast-forward")?;
    repo.set_head(head_refname)?;
    repo.checkout_head(None)
}

/// Relies on `git2::Remote::push` with the given transport callbacks plus
/// a `push_update_reference` callback: the per-reference statuses the
/// server reported, in callback order, with `None` meaning acceptance.
#[verifier::external_body]
pub fn push_raw(repo: &git2::Repository, remote: &str, refspec: &str, cb: git2::RemoteCallbacks<
    'static,
>) -> (r: Result<Vec<(String, Option<String>)>, git2::Error>) {
    let mut cb = cb;
    let statuses = std::rc::Rc::new(std::cell::RefCell::new(Vec::new()));
    let collector = statuses.clone();
    cb.push_update_reference(move |refname, status| {
        collector.borrow_mut().push((refname.to_string(), status.map(|s| s.to_string())));
        Ok(())
    });
    let mut opts = git2::PushOptions::new();
    opts.remote_callbacks(cb);
    let mut rem = repo.find_remote(remote)?;
    rem.push(&[refspec], Some(&mut opts))?;
    Ok(statuses.take())
}

/// Relies on `git2::Branch::upstream` and
/// `git2::Repository::graph_ahead_behind` from the current branch: the
/// `(ahead, behind)` counts against the configured upstream, absent when
/// any step of the chain has nothing to offer.
#[verifier::external_body]
pub fn upstream_counts(repo: &git2::Repository) -> (r: Option<(u64, u64)>) {
    let name = repo.head().ok().filter(|h| h.is_branch()).and_then(|h| h.shorthand().ok().map(|s| s.to_string()))?;
    let branch = repo.find_branch(&name, git2::BranchType::Local).ok()?;
    let up = branch.upstream().ok()?;
    let (h, u) = (branch.get().target()?, up.get().target()?);
    let (a, b) = repo.graph_ahead_behind(h, u).ok()?;
    Some((a as u64, b as u64))
}

/// Relies on `git2::Repository::revwalk` pushed at the named reference,
/// sorted topologically with time when asked and by time otherwise: the
/// reachable commit ids in walk order, each forty lowercase hexadecimal
/// digits.
#[verifier::external_body]
pub fn log_raw_ids(repo: &git2::Repository, rev: &str, topo: bool) -> (r: Result<
    Vec<String>,
    git2::Error,
>)
    ensures
        r matches Ok(v) ==> forall|j: int|
            0 <= j < v@.len() ==> (#[trigger] v@[j])@.len() == 40 && crate::text::all_lower_hex(
                v@[j]@,
            ),
{
    let mut walk = repo.revwalk()?;
    let sort = if topo { git2::Sort::TOPOLOGICAL | git2::Sort::TIME } else { git2::Sort::TIME };
    let _ = walk.set_sorting(sort);
    walk.push_ref(rev)?;
    let mut out: Vec<String> = Vec::new();
    for oid in walk {
        out.push(oid?.to_string());
    }
    Ok(out)
}

/// Relies on `git2::Repository::find_commit` and `git2::Commit`'s
/// accessors: one commit's metadata; names that are not UTF-8 come
/// through empty, and the id is forty lowercase hexadecimal digits.
#[verifier::external_body]
pub fn commit_meta(repo: &git2::Repository, id_hex: &str) -> (r: Result<RawCommit, git2::Error>)
    ensures
        r matches Ok(c) ==> c.id@.len() == 40 && crate::text::all_lower_hex(c.id@),
{
    let commit = repo.find_commit(git2::Oid::from_str(id_hex)?)?;
    let (t, a) = (commit.time(), commit.author());
    Ok(RawCommit {
        id: commit.id().to_string(),
        parent_count: commit.parent_count() as u64,
        time_secs: t.seconds(),
        offset_minutes: t.offset_minutes(),
        author_name: a.name().unwrap_or("").to_string(),
        author_email: a.email().unwrap_or("").to_string(),
        summary: commit.summary().ok().flatten().unwrap_or("").to_string(),
    })
}

/// Relies on `git2::Repository::diff_tree_to_tree` between a commit's tree
/// and its first parent's tree (or an empty tree), limited to a pathspec:
/// whether the commit touches the path.
#[verifier::external_body]
pub fn commit_touches(repo: &git2::Repository, id_hex: &str, pathspec: &str) -> (r: Result<
    bool,
    git2::Error,
>) {
    let commit = repo.find_commit(git2::Oid::from_str(id_hex)?)?;
    let tree = commit.tree()?;
    let parent_tree = if commit.parent_count() > 0 {
        commit.parent(0)?.tree()?
    } else {
        repo.find_tree(repo.treebuilder(None)?.write()?)?
    };
    let mut opts = git2::DiffOptions::new();
    opts.pathspec(pathspec);
    let diff = repo.diff_tree_to_tree(Some(&parent_tree), Some(&tree), Some(&mut opts))?;
    Ok(diff.deltas().len() > 0)
}

/// Relies on `git2::Diff::print` in patch format: each printed line is
/// exactly one origin sigil followed by the line's content, so never
/// empty.
#[verifier::external_body]
fn patch_lines(diff: &git2::Diff) -> (r: Result<Vec<String>, git2::Error>)
    ensures
        r matches Ok(v) ==> forall|j: int|
            0 <= j < v@.len() ==> (#[trigger] v@[j])@.len() >= 1
                && crate::embedded::is_origin_sigil(v@[j]@[0]),
{
    let mut out: Vec<String> = Vec::new();
    diff.print(git2::DiffFormat::Patch, |_d, _h, l| {
        let s = std::str::from_utf8(l.content()).unwrap_or_default();
        out.push(format!("{}{}", l.origin(), s.trim_end_matches('\n')));
        true
    })?;
    Ok(out)
}

/// Relies on `git2::Repository::diff_index_to_workdir` over a pathspec
/// with untracked files included: the unstaged changes as patch lines.
#[verifier::external_body]
pub fn diff_unstaged_lines(repo: &git2::Repository, pathspec: &str) -> (r: Result<
    Vec<String>,
    git2::Error,
>)
    ensures
        r matches Ok(v) ==> forall|j: int|
            0 <= j < v@.len() ==> (#[trigger] v@[j])@.len() >= 1
                && crate::embedded::is_origin_sigil(v@[j]@[0]),
{
    let mut opts = git2::DiffOptions::new();
    opts.pathspec(pathspec);
    opts.context_lines(3);
    opts.include_untracked(true).recurse_untracked_dirs(true);
    let diff = repo.diff_index_to_workdir(None, Some(&mut opts))?;
    patch_lines(&diff)
}

/// Relies on `git2::Repository::diff_tree_to_index` from HEAD's tree (an
/// empty tree when HEAD is unborn) over a pathspec: the staged changes as
/// patch lines.
#[verifier::external_body]
pub fn diff_staged_lines(repo: &git2::Repository, pathspec: &str) -> (r: Result<
    Vec<String>,
    git2::Error,
>)
    ensures
        r matches Ok(v) ==> forall|j: int|
            0 <= j < v@.len() ==> (#[trigger] v@[j])@.len() >= 1
                && crate::embedded::is_origin_sigil(v@[j]@[0]),
{
    let head_tree = match repo.head().ok().and_then(|h| h.peel_to_tree().ok()) {
        Some(t) => t,
        None => repo.find_tree(repo.treebuilder(None)?.write()?)?,
    };
    let mut opts = git2::DiffOptions::new();
    opts.pathspec(pathspec);
    opts.context_lines(3);
    let index = repo.index()?;
    let diff = repo.diff_tree_to_index(Some(&head_tree), Some(&index), Some(&mut opts))?;
    patch_lines(&diff)
}

/// Relies on `git2::Repository::revparse_single` and
/// `diff_tree_to_tree` against the first parent (or an empty tree): a
/// commit's changes as patch lines.
#[verifier::external_body]
pub fn diff_commit_lines(repo: &git2::Repository, rev: &str) -> (r: Result<
    Vec<String>,
    git2::Error,
>)
    ensures
        r matches Ok(v) ==> forall|j: int|
            0 <= j < v@.len() ==> (#[trigger] v@[j])@.len() >= 1
                && crate::embedded::is_origin_sigil(v@[j]@[0]),
{
    let commit = repo.revparse_single(rev)?.peel_to_commit()?;
    let tree = commit.tree()?;
    let parent_tree = if commit.parent_count() > 0 {
        commit.parent(0)?.tree()?
    } else {
        repo.find_tree(repo.treebuilder(None)?.write()?)?
    };
    let diff = repo.diff_tree_to_tree(Some(&parent_tree), Some(&tree), None)?;
    patch_lines(&diff)
}

/// Relies on `git2::Repository::reset` with the hard mode at HEAD's
/// commit: discard working tree and index changes.
#[verifier::external_body]
pub fn reset_hard_head(repo: &git2::Repository) -> (r: Result<(), git2::Error>) {
    let head = repo.head()?.peel_to_commit()?;
    repo.reset(head.as_object(), git2::ResetType::Hard, None)
}


/// Relies on `git2::Index::len`: how many entries the index holds, read
/// without staging anything.
#[verifier::external_body]
pub fn index_entry_count(repo: &git2::Repository) -> (r: Result<u64, git2::Error>) {
    Ok(repo.index()?.len() as u64)
}

} // verus!
