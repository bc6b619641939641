//! Backend-agnostic data transfer types: branches, file status, commits,
//! history queries, capabilities, and the event stream's payloads.

use vstd::prelude::*;

verus! {

/// What a backend can do, advertised without opening a repository.
#[derive(Clone, Copy, Debug, PartialEq, Eq)]
pub struct Capabilities {
    pub commits: bool,
    pub branches: bool,
    pub tags: bool,
    pub staging: bool,
    pub push_pull: bool,
    pub fast_forward: bool,
}

/// Where a branch reference lives.
#[derive(Clone, Debug, PartialEq, Eq)]
pub enum BranchKind {
    Local,
    Remote { remote: String },
    Unknown,
}

/// One branch in the unified listing.
#[derive(Clone, Debug, PartialEq, Eq)]
pub struct BranchItem {
    /// Short name, `main` or `origin/feature`.
    pub name: String,
    /// Full reference, `refs/heads/main` or `refs/remotes/origin/feature`.
    pub full_ref: String,
    pub kind: BranchKind,
    pub current: bool,
}

/// A branch item is well formed when both of its names are non-empty and
/// only a local branch may be the current one.
pub open spec fn branch_item_wf(b: BranchItem) -> bool {
    &&& b.name@.len() > 0
    &&& b.full_ref@.len() > 0
    &&& (b.current ==> b.kind is Local)
}

/// A branch listing is well formed when every item is, at most one item is
/// current, and no two items share a full reference.
pub open spec fn branches_wf(items: Seq<BranchItem>) -> bool {
    &&& forall|i: int| 0 <= i < items.len() ==> branch_item_wf(#[trigger] items[i])
    &&& forall|i: int, j: int|
        0 <= i < j < items.len() && (#[trigger] items[i]).current ==> !(#[trigger] items[j]).current
    &&& forall|i: int, j: int|
        0 <= i < j < items.len() ==> (#[trigger] items[i]).full_ref@ != (
        #[trigger] items[j]).full_ref@
}

/// One file's state in the working tree or index.
#[derive(Clone, Debug, PartialEq, Eq)]
pub struct FileEntry {
    /// Repository-relative path.
    pub path: String,
    /// Single-letter code: `A`, `M`, `D`, `R` or `U`.
    pub status: String,
    /// Optional diff fragments; may be empty.
    pub hunks: Vec<String>,
}

/// The five status letters a scan may assign.
pub open spec fn status_letter_wf(s: Seq<char>) -> bool {
    s == seq!['A'] || s == seq!['M'] || s == seq!['D'] || s == seq!['R'] || s == seq!['U']
}

/// Full working-tree status for consumers.
#[derive(Clone, Debug, PartialEq, Eq)]
pub struct StatusPayload {
    pub files: Vec<FileEntry>,
    /// Commits on HEAD that the upstream lacks; 0 without an upstream.
    pub ahead: u32,
    /// Commits on the upstream that HEAD lacks; 0 without an upstream.
    pub behind: u32,
}

/// Counts derived from one status scan.
#[derive(Clone, Copy, Debug, PartialEq, Eq)]
pub struct StatusSummary {
    pub untracked: usize,
    pub modified: usize,
    pub staged: usize,
    pub conflicted: usize,
}

impl StatusSummary {
    pub fn new() -> (r: StatusSummary)
        ensures
            r.untracked == 0,
            r.modified == 0,
            r.staged == 0,
            r.conflicted == 0,
    {
        StatusSummary { untracked: 0, modified: 0, staged: 0, conflicted: 0 }
    }
}

/// One commit in a history listing.
#[derive(Clone, Debug, PartialEq, Eq)]
pub struct CommitItem {
    /// Full hash, lowercase hexadecimal.
    pub id: String,
    /// Subject line.
    pub msg: String,
    /// Display string: date, a separator, and the short hash.
    pub meta: String,
    /// `Name <email>`.
    pub author: String,
}

/// A history query; pagination applies after the filters.
#[derive(Clone, Debug, PartialEq, Eq)]
pub struct LogQuery {
    /// Start revision; `None` means HEAD.
    pub rev: Option<String>,
    /// Single repository-relative path filter.
    pub path: Option<String>,
    /// Inclusive lower bound, RFC 3339.
    pub since_utc: Option<String>,
    /// Inclusive upper bound, RFC 3339.
    pub until_utc: Option<String>,
    /// Case-insensitive substring over `Name <email>`.
    pub author_contains: Option<String>,
    pub skip: u32,
    pub limit: u32,
    pub topo_order: bool,
    pub include_merges: bool,
}

impl LogQuery {
    /// A plain query for the newest `limit` commits reachable from HEAD.
    pub fn head(limit: u32) -> (q: LogQuery)
        ensures
            q.rev is None,
            q.path is None,
            q.since_utc is None,
            q.until_utc is None,
            q.author_contains is None,
            q.skip == 0,
            q.limit == limit,
            !q.topo_order,
            !q.include_merges,
    {
        LogQuery {
            rev: None,
            path: None,
            since_utc: None,
            until_utc: None,
            author_contains: None,
            skip: 0,
            limit,
            topo_order: false,
            include_merges: false,
        }
    }
}

/// One advisory event pushed to the consumer during a long operation.
#[derive(Clone, Debug, PartialEq, Eq)]
pub enum VcsEvent {
    Info(String),
    RemoteMessage(String),
    Progress { phase: String, detail: String },
    Auth { method: String, detail: String },
    PushStatus { refname: String, status: Option<String> },
    Warning(String),
    Error(String),
}

} // verus!
