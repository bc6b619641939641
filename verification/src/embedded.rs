//! The embedded provider: repository operations through an in-process
//! libgit2, with every decision around the library calls verified. The
//! provider owns the repository handle; callers that share it across
//! threads put it behind a lock, as the session layer does.

use vstd::prelude::*;
use crate::backend_id::BackendId;
use crate::embedded_raw::{
    branch_create_at_head, branches_raw, checkout_local, config_identity, config_remote_urls,
    config_set_identity, err_is_not_found, err_message, head_info, remote_add, remote_delete,
    remote_url, remote_set_url, repo_clone, repo_discover, repo_workdir,
};
use crate::errors::VcsError;
use crate::models::{BranchItem, BranchKind, Capabilities};
use crate::porcelain::identity_from_outputs;
use crate::text::{spec_ends_with, spec_starts_with, starts_with, str_eq, substr};

verus! {

/// What `HEAD` looked like at one read.
pub struct HeadInfo {
    /// False when HEAD is unborn or absent.
    pub present: bool,
    pub is_branch: bool,
    /// Short name, `main`.
    pub shorthand: Option<String>,
    /// Full name, `refs/heads/main`.
    pub refname: Option<String>,
}

/// One branch as the library reports it.
pub struct RawBranch {
    pub name: String,
    pub full_ref: String,
    pub is_remote: bool,
    pub is_head: bool,
}

/// One commit's metadata as the history walk yields it.
pub struct RawCommit {
    /// Full hash, lowercase hexadecimal.
    pub id: String,
    pub parent_count: u64,
    /// Commit time, seconds since the epoch.
    pub time_secs: i64,
    /// The commit's recorded UTC offset, in minutes.
    pub offset_minutes: i32,
    pub author_name: String,
    pub author_email: String,
    /// Subject line.
    pub summary: String,
}

/// What merge analysis said about the fetched upstream tip.
pub struct MergeInfo {
    pub up_to_date: bool,
    pub fast_forward: bool,
    /// The upstream tip, lowercase hexadecimal.
    pub target: Option<String>,
}

/// The identifier the embedded provider registers under.
pub fn embedded_backend_id() -> (r: BackendId)
    ensures
        r.chars() == "git-libgit2"@,
{
    BackendId::from_str("git-libgit2")
}

/// Everything the embedded provider advertises.
pub fn embedded_caps() -> (r: Capabilities)
    ensures
        r.commits && r.branches && r.tags && r.staging && r.push_pull && r.fast_forward,
{
    Capabilities {
        commits: true,
        branches: true,
        tags: true,
        staging: true,
        push_pull: true,
        fast_forward: true,
    }
}

/// Map a libgit2 failure onto the taxonomy.
pub fn map_lg2_err(e: &git2::Error) -> (r: VcsError)
    ensures
        r matches VcsError::Backend { backend, msg } && backend.chars() == "git-libgit2"@,
{
    VcsError::Backend { backend: embedded_backend_id(), msg: err_message(e) }
}

/// The current branch read off a HEAD snapshot: the short name only when
/// HEAD exists, points at a branch, and carries one.
pub fn current_branch_of_head(h: &HeadInfo) -> (r: Option<String>)
    ensures
        match r {
            Some(n) => h.present && h.is_branch && (h.shorthand matches Some(s) && n@ == s@),
            None => !h.present || !h.is_branch || h.shorthand is None,
        },
{
    if h.present && h.is_branch {
        match &h.shorthand {
            Some(s) => Some(s.clone()),
            None => None,
        }
    } else {
        None
    }
}

/// The tuples `(name, full_ref, is_remote, remote, current)` a raw
/// listing turns into: empty names dropped, remote `HEAD` aliases dropped,
/// a remote branch named by the first segment of its short name, and the
/// current flag on the first local head only.
pub open spec fn spec_items_of_raw(raw: Seq<RawBranch>, seen_head: bool) -> Seq<
    (Seq<char>, Seq<char>, bool, Seq<char>, bool),
>
    decreases raw.len(),
{
    if raw.len() == 0 {
        Seq::empty()
    } else {
        let b = raw[0];
        if b.name@.len() > 0 && b.full_ref@.len() > 0 {
            if b.is_remote {
                if spec_ends_with(b.full_ref@, "/HEAD"@) {
                    spec_items_of_raw(raw.drop_first(), seen_head)
                } else {
                    let remote = match crate::text::spec_find(b.name@, 0, '/') {
                        Some(p) => b.name@.subrange(0, p),
                        None => Seq::<char>::empty(),
                    };
                    seq![(b.name@, b.full_ref@, true, remote, false)] + spec_items_of_raw(
                        raw.drop_first(),
                        seen_head,
                    )
                }
            } else {
                let cur = b.is_head && !seen_head;
                seq![(b.name@, b.full_ref@, false, Seq::<char>::empty(), cur)]
                    + spec_items_of_raw(raw.drop_first(), seen_head || cur)
            }
        } else {
            spec_items_of_raw(raw.drop_first(), seen_head)
        }
    }
}

/// Branch items built from the raw listing, exactly as `spec_items_of_raw`
/// lays them out; the result is well formed with at most one current item.
pub fn branch_items_of_raw(raw: &Vec<RawBranch>) -> (r: Vec<BranchItem>)
    ensures
        crate::porcelain::branch_views(r@) == spec_items_of_raw(raw@, false),
        forall|j: int| 0 <= j < r@.len() ==> crate::models::branch_item_wf(#[trigger] r@[j]),
        forall|i: int, j: int|
            0 <= i < j < r@.len() && (#[trigger] r@[i]).current ==> !(#[trigger] r@[j]).current,
{
    let mut out: Vec<BranchItem> = Vec::new();
    let mut seen_head: bool = false;
    let mut i: usize = 0;
    proof {
        assert(raw@.subrange(0, raw@.len() as int) =~= raw@);
        assert(crate::porcelain::branch_views(out@) + spec_items_of_raw(raw@, false)
            =~= spec_items_of_raw(raw@, false));
    }
    while i < raw.len()
        invariant
            i <= raw.len(),
            spec_items_of_raw(raw@, false) == crate::porcelain::branch_views(out@)
                + spec_items_of_raw(raw@.subrange(i as int, raw@.len() as int), seen_head),
            forall|j: int| 0 <= j < out@.len() ==> crate::models::branch_item_wf(#[trigger] out@[j]),
            forall|j: int| 0 <= j < out@.len() ==> ((#[trigger] out@[j]).current ==> seen_head),
            forall|i2: int, j2: int|
                0 <= i2 < j2 < out@.len() && (#[trigger] out@[i2]).current ==> !(
                #[trigger] out@[j2]).current,
        decreases raw.len() - i,
    {
        let ghost remv = raw@.subrange(i as int, raw@.len() as int);
        proof {
            assert(remv[0] == raw@[i as int]);
            assert(remv.drop_first() =~= raw@.subrange(i as int + 1, raw@.len() as int));
        }
        let b = &raw[i];
        let name_len: usize = b.name.as_str().unicode_len();
        let ref_len: usize = b.full_ref.as_str().unicode_len();
        if name_len > 0 && ref_len > 0 {
            if b.is_remote {
                if !crate::text::ends_with(b.full_ref.as_str(), "/HEAD") {
                    let remote = match crate::text::find_char(b.name.as_str(), 0, '/') {
                        Some(p) => substr(b.name.as_str(), 0, p),
                        None => String::new(),
                    };
                    let item = BranchItem {
                        name: b.name.clone(),
                        full_ref: b.full_ref.clone(),
                        kind: BranchKind::Remote { remote },
                        current: false,
                    };
                    proof {
                        let ghost bv = crate::porcelain::branch_views(out@);
                        assert(crate::porcelain::branch_views(out@.push(item)) =~= bv.push(
                            crate::porcelain::branch_view(item),
                        ));
                        assert(bv.push(crate::porcelain::branch_view(item)) + spec_items_of_raw(
                            remv.drop_first(),
                            seen_head,
                        ) =~= bv + spec_items_of_raw(remv, seen_head));
                    }
                    out.push(item);
                } else {
                    proof {
                        assert(spec_items_of_raw(remv, seen_head) == spec_items_of_raw(
                            remv.drop_first(),
                            seen_head,
                        ));
                    }
                }
            } else {
                let current = b.is_head && !seen_head;
                let item = BranchItem {
                    name: b.name.clone(),
                    full_ref: b.full_ref.clone(),
                    kind: BranchKind::Local,
                    current,
                };
                proof {
                    let ghost bv = crate::porcelain::branch_views(out@);
                    assert(crate::porcelain::branch_views(out@.push(item)) =~= bv.push(
                        crate::porcelain::branch_view(item),
                    ));
                    assert(bv.push(crate::porcelain::branch_view(item)) + spec_items_of_raw(
                        remv.drop_first(),
                        seen_head || current,
                    ) =~= bv + spec_items_of_raw(remv, seen_head));
                }
                if current {
                    seen_head = true;
                }
                out.push(item);
            }
        } else {
            proof {
                assert(spec_items_of_raw(remv, seen_head) == spec_items_of_raw(
                    remv.drop_first(),
                    seen_head,
                ));
            }
        }
        i += 1;
    }
    proof {
        assert(raw@.subrange(raw@.len() as int, raw@.len() as int) =~= Seq::<RawBranch>::empty());
        assert(crate::porcelain::branch_views(out@) + spec_items_of_raw(
            Seq::<RawBranch>::empty(),
            seen_head,
        ) =~= crate::porcelain::branch_views(out@));
    }
    out
}

/// The non-empty names of a raw listing, in order.
pub open spec fn spec_raw_names(raw: Seq<RawBranch>) -> Seq<Seq<char>>
    decreases raw.len(),
{
    if raw.len() == 0 {
        Seq::empty()
    } else if raw[0].name@.len() > 0 {
        seq![raw[0].name@] + spec_raw_names(raw.drop_first())
    } else {
        spec_raw_names(raw.drop_first())
    }
}

/// Local branch names from the raw listing, in order, empties dropped.
pub fn local_branch_names(raw: &Vec<RawBranch>) -> (r: Vec<String>)
    ensures
        crate::text::views(r@) == spec_raw_names(raw@),
        forall|j: int| 0 <= j < r@.len() ==> (#[trigger] r@[j])@.len() > 0,
{
    let mut out: Vec<String> = Vec::new();
    let mut i: usize = 0;
    proof {
        assert(raw@.subrange(0, raw@.len() as int) =~= raw@);
        assert(crate::text::views(out@) + spec_raw_names(raw@) =~= spec_raw_names(raw@));
    }
    while i < raw.len()
        invariant
            i <= raw.len(),
            spec_raw_names(raw@) == crate::text::views(out@) + spec_raw_names(
                raw@.subrange(i as int, raw@.len() as int),
            ),
            forall|j: int| 0 <= j < out@.len() ==> (#[trigger] out@[j])@.len() > 0,
        decreases raw.len() - i,
    {
        let ghost remv = raw@.subrange(i as int, raw@.len() as int);
        proof {
            assert(remv[0] == raw@[i as int]);
            assert(remv.drop_first() =~= raw@.subrange(i as int + 1, raw@.len() as int));
        }
        if raw[i].name.as_str().unicode_len() > 0 {
            let ghost ov = crate::text::views(out@);
            out.push(raw[i].name.clone());
            proof {
                assert(crate::text::views(out@) =~= ov.push(raw@[i as int].name@));
                assert(ov.push(raw@[i as int].name@) + spec_raw_names(remv.drop_first()) =~= ov
                    + spec_raw_names(remv));
            }
        } else {
            proof {
                assert(spec_raw_names(remv) == spec_raw_names(remv.drop_first()));
            }
        }
        i += 1;
    }
    proof {
        assert(raw@.subrange(raw@.len() as int, raw@.len() as int) =~= Seq::<RawBranch>::empty());
        assert(crate::text::views(out@) + spec_raw_names(Seq::<RawBranch>::empty())
            =~= crate::text::views(out@));
    }
    out
}

/// Remote pairs from raw config entries: a key `remote.<name>.url` yields
/// `(<name>, url)`; other keys are passed through under their own name.
pub fn remotes_of_config(entries: &Vec<(String, String)>) -> (r: Vec<(String, String)>)
    ensures
        r@.len() == entries@.len(),
        forall|j: int|
            0 <= j < entries@.len() ==> ({
                let key = (#[trigger] entries@[j]).0@;
                let out_name = r@[j].0@;
                &&& r@[j].1@ == entries@[j].1@
                &&& (spec_starts_with(key, "remote."@) && spec_ends_with(key, ".url"@) && key.len()
                    >= 11 ==> out_name == key.subrange(7, key.len() - 4))
                &&& (!(spec_starts_with(key, "remote."@) && spec_ends_with(key, ".url"@)
                    && key.len() >= 11) ==> out_name == key)
            }),
{
    let mut out: Vec<(String, String)> = Vec::new();
    let mut i: usize = 0;
    while i < entries.len()
        invariant
            i <= entries.len(),
            out@.len() == i,
            forall|j: int|
                0 <= j < i ==> ({
                    let key = (#[trigger] entries@[j]).0@;
                    let out_name = out@[j].0@;
                    &&& out@[j].1@ == entries@[j].1@
                    &&& (spec_starts_with(key, "remote."@) && spec_ends_with(key, ".url"@)
                        && key.len() >= 11 ==> out_name == key.subrange(7, key.len() - 4))
                    &&& (!(spec_starts_with(key, "remote."@) && spec_ends_with(key, ".url"@)
                        && key.len() >= 11) ==> out_name == key)
                }),
        decreases entries.len() - i,
    {
        let key = entries[i].0.as_str();
        let klen: usize = key.unicode_len();
        let name: String = if starts_with(key, "remote.") && crate::text::ends_with(key, ".url")
            && klen >= 11 {
            proof {
                reveal_strlit("remote.");
                reveal_strlit(".url");
            }
            substr(key, 7, klen - 4)
        } else {
            entries[i].0.clone()
        };
        out.push((name, entries[i].1.clone()));
        i += 1;
    }
    out
}


/// The origin sigils the embedded library's patch printer can put before
/// a line: content markers, end-of-file notes, file and hunk headers, and
/// the binary note.
pub open spec fn is_origin_sigil(c: char) -> bool {
    c == ' ' || c == '+' || c == '-' || c == '=' || c == '>' || c == '<' || c == 'F' || c == 'H'
        || c == 'B'
}

/// The status bits of the embedded library, as its sources define them.
pub const ST_INDEX_NEW: u32 = 1;
pub const ST_INDEX_MODIFIED: u32 = 2;
pub const ST_INDEX_DELETED: u32 = 4;
pub const ST_INDEX_RENAMED: u32 = 8;
pub const ST_INDEX_TYPECHANGE: u32 = 16;
pub const ST_WT_NEW: u32 = 128;
pub const ST_WT_MODIFIED: u32 = 256;
pub const ST_WT_DELETED: u32 = 512;
pub const ST_WT_TYPECHANGE: u32 = 1024;
pub const ST_WT_RENAMED: u32 = 2048;
pub const ST_CONFLICTED: u32 = 32768;

/// The single letter a status entry classifies to: conflict beats
/// deletion beats addition beats modification; a rename record reads `R`.
pub open spec fn spec_status_letter(bits: u32) -> Seq<char> {
    if bits & ST_CONFLICTED != 0 {
        seq!['U']
    } else if bits & ST_INDEX_DELETED != 0 || bits & ST_WT_DELETED != 0 {
        seq!['D']
    } else if bits & ST_INDEX_NEW != 0 || bits & ST_WT_NEW != 0 {
        seq!['A']
    } else if bits & ST_INDEX_MODIFIED != 0 || bits & ST_WT_MODIFIED != 0 || bits
        & ST_INDEX_TYPECHANGE != 0 || bits & ST_WT_TYPECHANGE != 0 {
        seq!['M']
    } else {
        seq!['R']
    }
}

/// Classify one entry's bits; the result is always one of the five
/// letters.
pub fn status_letter(bits: u32) -> (r: String)
    ensures
        r@ == spec_status_letter(bits),
        crate::models::status_letter_wf(r@),
{
    let r: String = if bits & ST_CONFLICTED != 0 {
        "U".to_owned()
    } else if bits & ST_INDEX_DELETED != 0 || bits & ST_WT_DELETED != 0 {
        "D".to_owned()
    } else if bits & ST_INDEX_NEW != 0 || bits & ST_WT_NEW != 0 {
        "A".to_owned()
    } else if bits & ST_INDEX_MODIFIED != 0 || bits & ST_WT_MODIFIED != 0 || bits
        & ST_INDEX_TYPECHANGE != 0 || bits & ST_WT_TYPECHANGE != 0 {
        "M".to_owned()
    } else {
        "R".to_owned()
    };
    proof {
        reveal_strlit("U");
        reveal_strlit("D");
        reveal_strlit("A");
        reveal_strlit("M");
        reveal_strlit("R");
        assert("U"@ =~= seq!['U']);
        assert("D"@ =~= seq!['D']);
        assert("A"@ =~= seq!['A']);
        assert("M"@ =~= seq!['M']);
        assert("R"@ =~= seq!['R']);
    }
    r
}

/// Counts `(untracked, modified, staged, conflicted)` over raw status
/// bits, as one scan derives them: an untracked entry is not also counted
/// modified; staged and conflicted counts are independent.
pub open spec fn spec_scan_summary(sts: Seq<u32>) -> (int, int, int, int)
    decreases sts.len(),
{
    if sts.len() == 0 {
        (0, 0, 0, 0)
    } else {
        let rest = spec_scan_summary(sts.drop_first());
        let b = sts[0];
        let u: int = if b & ST_WT_NEW != 0 {
            1
        } else {
            0
        };
        let m: int = if b & ST_WT_NEW == 0 && (b & ST_WT_MODIFIED != 0 || b & ST_WT_TYPECHANGE
            != 0) {
            1
        } else {
            0
        };
        let s: int = if b & ST_INDEX_NEW != 0 || b & ST_INDEX_MODIFIED != 0 || b
            & ST_INDEX_TYPECHANGE != 0 {
            1
        } else {
            0
        };
        let c: int = if b & ST_CONFLICTED != 0 {
            1
        } else {
            0
        };
        (rest.0 + u, rest.1 + m, rest.2 + s, rest.3 + c)
    }
}

/// Derive the status counters from raw entries.
pub fn summary_of_statuses(sts: &Vec<(u32, String)>) -> (r: crate::models::StatusSummary)
    ensures
        ({
            let t = spec_scan_summary(sts@.map_values(|e: (u32, String)| e.0));
            r.untracked == t.0 && r.modified == t.1 && r.staged == t.2 && r.conflicted == t.3
        }),
{
    let ghost bits_all = sts@.map_values(|e: (u32, String)| e.0);
    let mut r = crate::models::StatusSummary::new();
    let mut i: usize = 0;
    proof {
        assert(bits_all.subrange(0, bits_all.len() as int) =~= bits_all);
    }
    while i < sts.len()
        invariant
            i <= sts.len(),
            bits_all == sts@.map_values(|e: (u32, String)| e.0),
            bits_all.len() == sts@.len(),
            r.untracked <= i && r.modified <= i && r.staged <= i && r.conflicted <= i,
            ({
                let rem = spec_scan_summary(bits_all.subrange(i as int, bits_all.len() as int));
                let t = spec_scan_summary(bits_all);
                r.untracked + rem.0 == t.0 && r.modified + rem.1 == t.1 && r.staged + rem.2 == t.2
                    && r.conflicted + rem.3 == t.3
            }),
        decreases sts.len() - i,
    {
        let ghost remv = bits_all.subrange(i as int, bits_all.len() as int);
        proof {
            assert(remv[0] == bits_all[i as int]);
            assert(bits_all[i as int] == sts@[i as int].0);
            assert(remv.drop_first() =~= bits_all.subrange(i as int + 1, bits_all.len() as int));
        }
        let b = sts[i].0;
        if b & ST_WT_NEW != 0 {
            r.untracked += 1;
        } else if b & ST_WT_MODIFIED != 0 || b & ST_WT_TYPECHANGE != 0 {
            r.modified += 1;
        }
        if b & ST_INDEX_NEW != 0 || b & ST_INDEX_MODIFIED != 0 || b & ST_INDEX_TYPECHANGE != 0 {
            r.staged += 1;
        }
        if b & ST_CONFLICTED != 0 {
            r.conflicted += 1;
        }
        i += 1;
    }
    proof {
        assert(bits_all.subrange(bits_all.len() as int, bits_all.len() as int) =~= Seq::<
            u32,
        >::empty());
    }
    r
}

/// File entries from raw statuses: one entry per scan record, its path as
/// reported, its status the classified letter, no hunks.
pub fn files_of_statuses(sts: &Vec<(u32, String)>) -> (r: Vec<crate::models::FileEntry>)
    ensures
        r@.len() == sts@.len(),
        forall|j: int|
            0 <= j < sts@.len() ==> ({
                &&& (#[trigger] r@[j]).path@ == sts@[j].1@
                &&& r@[j].status@ == spec_status_letter(sts@[j].0)
                &&& r@[j].hunks@.len() == 0
                &&& crate::models::status_letter_wf(r@[j].status@)
            }),
{
    let mut out: Vec<crate::models::FileEntry> = Vec::new();
    let mut i: usize = 0;
    while i < sts.len()
        invariant
            i <= sts.len(),
            out@.len() == i,
            forall|j: int|
                0 <= j < i ==> ({
                    &&& (#[trigger] out@[j]).path@ == sts@[j].1@
                    &&& out@[j].status@ == spec_status_letter(sts@[j].0)
                    &&& out@[j].hunks@.len() == 0
                    &&& crate::models::status_letter_wf(out@[j].status@)
                }),
        decreases sts.len() - i,
    {
        let status = status_letter(sts[i].0);
        out.push(
            crate::models::FileEntry { path: sts[i].1.clone(), status, hunks: Vec::new() },
        );
        i += 1;
    }
    out
}

/// The events a push's per-reference statuses turn into, in report order.
pub fn push_status_events(sts: &Vec<(String, Option<String>)>) -> (r: Vec<
    crate::models::VcsEvent,
>)
    ensures
        r@.len() == sts@.len(),
        forall|j: int|
            0 <= j < sts@.len() ==> ((#[trigger] r@[j]) matches crate::models::VcsEvent::PushStatus {
                refname,
                status,
            } && refname@ == sts@[j].0@ && (match (status, sts@[j].1) {
                (Some(a), Some(b)) => a@ == b@,
                (None, None) => true,
                _ => false,
            })),
{
    let mut out: Vec<crate::models::VcsEvent> = Vec::new();
    let mut i: usize = 0;
    while i < sts.len()
        invariant
            i <= sts.len(),
            out@.len() == i,
            forall|j: int|
                0 <= j < i ==> ((#[trigger] out@[j]) matches crate::models::VcsEvent::PushStatus {
                    refname,
                    status,
                } && refname@ == sts@[j].0@ && (match (status, sts@[j].1) {
                    (Some(a), Some(b)) => a@ == b@,
                    (None, None) => true,
                    _ => false,
                })),
        decreases sts.len() - i,
    {
        let status: Option<String> = match &sts[i].1 {
            Some(s) => Some(s.clone()),
            None => None,
        };
        out.push(
            crate::models::VcsEvent::PushStatus { refname: sts[i].0.clone(), status },
        );
        i += 1;
    }
    out
}

/// What `ensure_remote` does with the remote's configured URL.
pub enum RemoteAction {
    /// The remote already carries the wanted URL: leave it alone.
    Keep,
    /// The remote exists under another URL: rewrite it.
    SetUrl,
    /// No such remote: create it.
    Add,
}

/// The ensure-remote decision: keep a matching URL, rewrite a differing
/// one, create a missing remote.
pub fn ensure_remote_action(existing: &Option<String>, url: &str) -> (r: RemoteAction)
    ensures
        ((existing matches Some(u) && u@ == url@) <==> r is Keep),
        ((existing matches Some(u) && u@ != url@) <==> r is SetUrl),
        (existing is None <==> r is Add),
{
    match existing {
        Some(u) => {
            if str_eq(u.as_str(), url) {
                RemoteAction::Keep
            } else {
                RemoteAction::SetUrl
            }
        },
        None => RemoteAction::Add,
    }
}

/// Ahead/behind counts degraded to zero when no upstream chain exists.
pub fn counts_or_zero(c: Option<(u64, u64)>) -> (r: (u32, u32))
    ensures
        match c {
            Some(p) => r.0 == p.0 as u32 && r.1 == p.1 as u32,
            None => r.0 == 0 && r.1 == 0,
        },
{
    match c {
        Some((a, b)) => (
            #[verifier::truncate] (a as u32),
            #[verifier::truncate] (b as u32),
        ),
        None => (0, 0),
    }
}

/// Whether a commit would record anything: the index's tree must differ
/// from HEAD's, and on an unborn HEAD the index must hold an entry.
pub fn commit_preflight(head_tree: &Option<String>, index_tree: &str, index_len: u64) -> (r:
    Result<(), VcsError>)
    ensures
        match head_tree {
            Some(h) => (r is Ok <==> h@ != index_tree@) && (r matches Err(e)
                ==> e is NothingToCommit),
            None => (r is Ok <==> index_len > 0) && (r matches Err(e) ==> e is NothingToCommit),
        },
{
    match head_tree {
        Some(h) => {
            if str_eq(h.as_str(), index_tree) {
                Err(VcsError::NothingToCommit)
            } else {
                Ok(())
            }
        },
        None => {
            if index_len == 0 {
                Err(VcsError::NothingToCommit)
            } else {
                Ok(())
            }
        },
    }
}

/// Parent selection for a new commit: HEAD's commit exactly when HEAD
/// points at a born branch; an unborn branch records an initial commit
/// with no parents.
pub fn commit_parents_from_head(h: &HeadInfo) -> (r: bool)
    ensures
        r == (h.present && h.is_branch),
{
    h.present && h.is_branch
}

/// What a fast-forward pull does with the merge analysis.
pub enum FfAction {
    /// The upstream is already an ancestor: succeed without changes.
    UpToDate,
    /// Advance HEAD's reference to this tip and check it out.
    Advance(String),
    /// Anything else is refused.
    Reject,
}

/// The fast-forward decision: success without changes when up to date, an
/// advance exactly when the analysis allows a fast-forward to a known tip,
/// and refusal otherwise.
pub fn ff_decision(m: MergeInfo) -> (r: FfAction)
    ensures
        m.up_to_date ==> r is UpToDate,
        !m.up_to_date && m.fast_forward && m.target is Some ==> (r matches FfAction::Advance(t)
            && (m.target matches Some(mt) && t@ == mt@)),
        !m.up_to_date && (!m.fast_forward || m.target is None) ==> r is Reject,
{
    if m.up_to_date {
        FfAction::UpToDate
    } else if m.fast_forward {
        match m.target {
            Some(t) => FfAction::Advance(t),
            None => FfAction::Reject,
        }
    } else {
        FfAction::Reject
    }
}


/// Transport callbacks for a long operation: the verified credential
/// decision, and the sideband and transfer formatters writing into the
/// sink.
pub fn remote_callbacks(sink: &crate::embedded_raw::EventSink) -> (r: git2::RemoteCallbacks<
    'static,
>) {
    let mut cb = crate::embedded_raw::new_callbacks();
    crate::embedded_raw::set_credentials_cb(&mut cb);
    crate::embedded_raw::set_sideband_cb(&mut cb, sink);
    crate::embedded_raw::set_transfer_cb(&mut cb, sink);
    cb
}

/// Drain a sink and append its classified events; what was already in
/// `events` stays, and everything appended is a transport event.
pub fn drain_events(
    sink: &crate::embedded_raw::EventSink,
    events: &mut Vec<crate::models::VcsEvent>,
)
    ensures
        final(events)@.len() >= old(events)@.len(),
        final(events)@.subrange(0, old(events)@.len() as int) == old(events)@,
        forall|k: int|
            old(events)@.len() <= k < final(events)@.len() ==> is_transport_event(
                #[trigger] final(events)@[k],
            ),
{
    let lines = crate::embedded_raw::sink_drain(sink);
    let mut evs = events_of_lines(&lines);
    let ghost pre = events@;
    let ghost evs_view = evs@;
    events.append(&mut evs);
    proof {
        assert(events@.subrange(0, pre.len() as int) =~= pre);
        assert forall|k: int|
            pre.len() <= k < events@.len() implies is_transport_event(#[trigger] events@[k]) by {
            assert(events@[k] == evs_view[k - pre.len()]);
        }
    }
}

/// An opened repository behind the embedded library. The handle is not
/// shared between threads; the session layer wraps it in a lock.
pub struct EmbeddedGit {
    pub repo: git2::Repository,
    pub workdir: String,
}

impl EmbeddedGit {
    /// Open the repository enclosing `path`: a path inside no repository
    /// is the not-a-repository failure naming the path, a bare repository
    /// is refused, and any other discovery failure keeps its backend text.
    pub fn open(path: &str) -> (r: Result<EmbeddedGit, VcsError>)
        ensures
            r matches Err(e) ==> e matches VcsError::Backend { .. } || (
            e matches VcsError::NotARepo(m) && (m@ == path@ || m@
                == "bare repository is not supported"@)),
    {
        match repo_discover(path) {
            Ok(repo) => {
                match repo_workdir(&repo) {
                    Some(wd) => Ok(EmbeddedGit { repo, workdir: wd }),
                    None => Err(
                        VcsError::NotARepo("bare repository is not supported".to_owned()),
                    ),
                }
            },
            Err(e) => {
                if err_is_not_found(&e) {
                    Err(VcsError::NotARepo(path.to_owned()))
                } else {
                    Err(map_lg2_err(&e))
                }
            },
        }
    }

    /// Clone `url` into `dest` and open the result; a bare result is
    /// refused. The transport runs with the credential decision attached;
    /// its textual events are discarded here.
    pub fn clone_repo(url: &str, dest: &str) -> (r: Result<EmbeddedGit, VcsError>)
        ensures
            r matches Err(e) ==> e matches VcsError::Backend { .. } || (
            e matches VcsError::NotARepo(m) && m@ == "bare repository is not supported"@),
    {
        let sink = crate::embedded_raw::sink_new();
        let cb = remote_callbacks(&sink);
        match repo_clone(url, dest, cb) {
            Ok(repo) => {
                match repo_workdir(&repo) {
                    Some(wd) => Ok(EmbeddedGit { repo, workdir: wd }),
                    None => Err(
                        VcsError::NotARepo("bare repository is not supported".to_owned()),
                    ),
                }
            },
            Err(e) => Err(map_lg2_err(&e)),
        }
    }

    pub fn id(&self) -> (r: BackendId)
        ensures
            r.chars() == "git-libgit2"@,
    {
        embedded_backend_id()
    }

    pub fn caps(&self) -> (r: Capabilities)
        ensures
            r.commits && r.branches && r.tags && r.staging && r.push_pull && r.fast_forward,
    {
        embedded_caps()
    }

    /// The working directory recorded when the handle was opened.
    pub fn workdir(&self) -> (r: &str)
        ensures
            r@ == self.workdir@,
    {
        self.workdir.as_str()
    }

    /// The current branch's short name; `None` on an unborn or detached
    /// HEAD.
    pub fn current_branch(&self) -> (r: Result<Option<String>, VcsError>)
        ensures
            r matches Err(e) ==> e matches VcsError::Backend { .. },
    {
        match head_info(&self.repo) {
            Ok(h) => Ok(current_branch_of_head(&h)),
            Err(e) => Err(map_lg2_err(&e)),
        }
    }

    /// The unified branch listing; every item well formed, at most one
    /// current.
    pub fn branches(&self) -> (r: Result<Vec<BranchItem>, VcsError>)
        ensures
            r matches Ok(items) ==> (forall|j: int|
                0 <= j < items@.len() ==> crate::models::branch_item_wf(#[trigger] items@[j]))
                && (forall|i: int, j: int|
                0 <= i < j < items@.len() && (#[trigger] items@[i]).current ==> !(
                #[trigger] items@[j]).current),
            r matches Err(e) ==> e matches VcsError::Backend { .. },
    {
        match branches_raw(&self.repo, false) {
            Ok(raw) => Ok(branch_items_of_raw(&raw)),
            Err(e) => Err(map_lg2_err(&e)),
        }
    }

    /// Local branch names, empties dropped.
    pub fn local_branches(&self) -> (r: Result<Vec<String>, VcsError>)
        ensures
            r matches Ok(names) ==> forall|j: int|
                0 <= j < names@.len() ==> (#[trigger] names@[j])@.len() > 0,
            r matches Err(e) ==> e matches VcsError::Backend { .. },
    {
        match branches_raw(&self.repo, true) {
            Ok(raw) => Ok(local_branch_names(&raw)),
            Err(e) => Err(map_lg2_err(&e)),
        }
    }

    /// Create a branch at HEAD and optionally check it out.
    pub fn create_branch(&self, name: &str, checkout: bool) -> (r: Result<(), VcsError>)
        ensures
            r matches Err(e) ==> e matches VcsError::Backend { .. } || (
            e matches VcsError::NoSuchBranch(n) && n@ == name@),
    {
        match branch_create_at_head(&self.repo, name) {
            Ok(()) => {
                if checkout {
                    self.checkout_branch(name)
                } else {
                    Ok(())
                }
            },
            Err(e) => Err(map_lg2_err(&e)),
        }
    }

    /// Check out a local branch; a name that resolves to nothing is the
    /// branch-not-found failure, with the name echoed.
    pub fn checkout_branch(&self, name: &str) -> (r: Result<(), VcsError>)
        ensures
            r matches Err(e) ==> e matches VcsError::Backend { .. } || (
            e matches VcsError::NoSuchBranch(n) && n@ == name@),
    {
        match checkout_local(&self.repo, name) {
            Ok(true) => Ok(()),
            Ok(false) => Err(VcsError::NoSuchBranch(name.to_owned())),
            Err(e) => Err(map_lg2_err(&e)),
        }
    }

    /// Make a remote exist under `name` with `url`: update the URL when
    /// the remote exists with another, create it when missing, and leave
    /// it alone when it already matches; `ensure_remote_action` pins the
    /// choice.
    pub fn ensure_remote(&self, name: &str, url: &str) -> (r: Result<(), VcsError>)
        ensures
            r matches Err(e) ==> e matches VcsError::Backend { .. },
    {
        let existing = remote_url(&self.repo, name);
        match ensure_remote_action(&existing, url) {
            RemoteAction::Keep => Ok(()),
            RemoteAction::SetUrl => {
                match remote_set_url(&self.repo, name, url) {
                    Ok(()) => Ok(()),
                    Err(e) => Err(map_lg2_err(&e)),
                }
            },
            RemoteAction::Add => {
                match remote_add(&self.repo, name, url) {
                    Ok(()) => Ok(()),
                    Err(e) => Err(map_lg2_err(&e)),
                }
            },
        }
    }

    /// The configured remotes as `(name, url)` pairs, read from the
    /// repository configuration.
    pub fn list_remotes(&self) -> (r: Result<Vec<(String, String)>, VcsError>)
        ensures
            r matches Err(e) ==> e matches VcsError::Backend { .. },
    {
        match config_remote_urls(&self.repo) {
            Ok(entries) => Ok(remotes_of_config(&entries)),
            Err(e) => Err(map_lg2_err(&e)),
        }
    }

    /// Delete a remote by name.
    pub fn remove_remote(&self, name: &str) -> (r: Result<(), VcsError>)
        ensures
            r matches Err(e) ==> e matches VcsError::Backend { .. },
    {
        match remote_delete(&self.repo, name) {
            Ok(()) => Ok(()),
            Err(e) => Err(map_lg2_err(&e)),
        }
    }

    /// Fetch a refspec from a remote; the fetched tip when FETCH_HEAD has
    /// one. Transport events are appended to `events`, on failure too.
    pub fn fetch(&self, remote: &str, refspec: &str, events: &mut Vec<crate::models::VcsEvent>)
        -> (r: Result<Option<String>, VcsError>)
        ensures
            r matches Err(e) ==> e matches VcsError::Backend { .. },
            final(events)@.len() >= old(events)@.len(),
            final(events)@.subrange(0, old(events)@.len() as int) == old(events)@,
            forall|k: int|
                old(events)@.len() <= k < final(events)@.len() ==> is_transport_event(
                    #[trigger] final(events)@[k],
                ),
    {
        let sink = crate::embedded_raw::sink_new();
        let cb = remote_callbacks(&sink);
        let fetched = crate::embedded_raw::fetch_refspec(&self.repo, remote, refspec, cb);
        drain_events(&sink, events);
        match fetched {
            Ok(()) => {
                match crate::embedded_raw::fetch_head_target(&self.repo) {
                    Ok(t) => Ok(t),
                    Err(e) => Err(map_lg2_err(&e)),
                }
            },
            Err(e) => Err(map_lg2_err(&e)),
        }
    }

    /// Push a refspec. Transport events are appended to `events`, on
    /// failure too; on success the per-reference reports follow them, in
    /// report order.
    pub fn push(&self, remote: &str, refspec: &str, events: &mut Vec<crate::models::VcsEvent>)
        -> (r: Result<(), VcsError>)
        ensures
            r matches Err(e) ==> e matches VcsError::Backend { .. },
            final(events)@.len() >= old(events)@.len(),
            final(events)@.subrange(0, old(events)@.len() as int) == old(events)@,
            forall|k: int|
                old(events)@.len() <= k < final(events)@.len() ==> is_transport_event(
                    #[trigger] final(events)@[k],
                ),
    {
        let sink = crate::embedded_raw::sink_new();
        let cb = remote_callbacks(&sink);
        let pushed = crate::embedded_raw::push_raw(&self.repo, remote, refspec, cb);
        drain_events(&sink, events);
        match pushed {
            Ok(sts) => {
                let ghost mid = events@;
                let mut reports = push_status_events(&sts);
                let ghost reports_view = reports@;
                proof {
                    assert(forall|k: int|
                        0 <= k < reports_view.len() ==> is_transport_event(
                            #[trigger] reports_view[k],
                        ));
                }
                events.append(&mut reports);
                proof {
                    assert(events@.subrange(0, old(events)@.len() as int) =~= old(events)@);
                }
                Ok(())
            },
            Err(e) => Err(map_lg2_err(&e)),
        }
    }

    /// Fast-forward-only pull: fetch the branch, analyse, and advance HEAD
    /// only onto a descendant; anything else is the non-fast-forward
    /// failure. Transport events of the fetch phase are appended to
    /// `events`, on failure too.
    pub fn pull_ff_only(
        &self,
        remote: &str,
        branch: &str,
        events: &mut Vec<crate::models::VcsEvent>,
    ) -> (r: Result<(), VcsError>)
        ensures
            r matches Err(e) ==> e is NonFastForward || e matches VcsError::Backend { .. },
            final(events)@.len() >= old(events)@.len(),
            final(events)@.subrange(0, old(events)@.len() as int) == old(events)@,
            forall|k: int|
                old(events)@.len() <= k < final(events)@.len() ==> is_transport_event(
                    #[trigger] final(events)@[k],
                ),
    {
        let sink = crate::embedded_raw::sink_new();
        let cb = remote_callbacks(&sink);
        let fetched = crate::embedded_raw::fetch_refspec(&self.repo, remote, branch, cb);
        drain_events(&sink, events);
        match fetched {
            Ok(()) => {},
            Err(e) => {
                return Err(map_lg2_err(&e));
            },
        }
        let full = "refs/remotes/".to_owned().concat(remote).concat("/").concat(branch);
        let info = match crate::embedded_raw::merge_analysis_upstream(&self.repo, full.as_str()) {
            Ok(m) => m,
            Err(e) => {
                return Err(map_lg2_err(&e));
            },
        };
        match ff_decision(info) {
            FfAction::UpToDate => Ok(()),
            FfAction::Advance(target) => {
                let h = match head_info(&self.repo) {
                    Ok(h) => h,
                    Err(e) => {
                        return Err(map_lg2_err(&e));
                    },
                };
                match &h.refname {
                    Some(refname) => {
                        match crate::embedded_raw::ff_advance(
                            &self.repo,
                            refname.as_str(),
                            target.as_str(),
                        ) {
                            Ok(()) => Ok(()),
                            Err(e) => Err(map_lg2_err(&e)),
                        }
                    },
                    None => Err(
                        VcsError::Backend {
                            backend: embedded_backend_id(),
                            msg: "HEAD name missing".to_owned(),
                        },
                    ),
                }
            },
            FfAction::Reject => Err(VcsError::NonFastForward),
        }
    }

    /// Stage and commit: everything with empty `paths`, exactly the given
    /// paths otherwise. A staging result equal to HEAD is refused as
    /// nothing-to-commit; a new commit's id is forty lowercase hex digits,
    /// and its parent is HEAD exactly when HEAD is a born branch.
    pub fn commit(&self, message: &str, name: &str, email: &str, paths: &Vec<String>) -> (r:
        Result<String, VcsError>)
        ensures
            r matches Ok(id) ==> id@.len() == 40 && crate::text::all_lower_hex(id@),
            r matches Err(e) ==> e is NothingToCommit || e matches VcsError::Backend { .. }
                || e matches VcsError::Io(_),
    {
        let count: u64;
        if paths.len() == 0 {
            count = match crate::embedded_raw::stage_all_count(&self.repo) {
                Ok(c) => c,
                Err(e) => {
                    return Err(map_lg2_err(&e));
                },
            };
        } else {
            let mut pairs: Vec<(String, String)> = Vec::new();
            let mut i: usize = 0;
            while i < paths.len()
                decreases paths.len() - i,
            {
                let rel = match crate::system::rel_to_workdir(
                    self.workdir.as_str(),
                    paths[i].as_str(),
                ) {
                    Ok(rl) => rl,
                    Err(e) => {
                        return Err(e);
                    },
                };
                pairs.push((paths[i].clone(), rel));
                i += 1;
            }
            count = match crate::embedded_raw::stage_paths_count(&self.repo, &pairs) {
                Ok(c) => c,
                Err(e) => {
                    return Err(map_lg2_err(&e));
                },
            };
        }
        self.commit_staged(message, name, email, count)
    }

    /// Commit the index exactly as it stands.
    pub fn commit_index(&self, message: &str, name: &str, email: &str) -> (r: Result<
        String,
        VcsError,
    >)
        ensures
            r matches Ok(id) ==> id@.len() == 40 && crate::text::all_lower_hex(id@),
            r matches Err(e) ==> e is NothingToCommit || e matches VcsError::Backend { .. }
                || e matches VcsError::Io(_),
    {
        let count = match crate::embedded_raw::index_entry_count(&self.repo) {
            Ok(c) => c,
            Err(e) => {
                return Err(map_lg2_err(&e));
            },
        };
        self.commit_staged(message, name, email, count)
    }

    /// The shared tail of the commit paths: preflight against HEAD's tree,
    /// pick the parent from HEAD's state, and write the commit.
    fn commit_staged(&self, message: &str, name: &str, email: &str, index_len: u64) -> (r: Result<
        String,
        VcsError,
    >)
        ensures
            r matches Ok(id) ==> id@.len() == 40 && crate::text::all_lower_hex(id@),
            r matches Err(e) ==> e is NothingToCommit || e matches VcsError::Backend { .. }
                || e matches VcsError::Io(_),
    {
        let head_tree = match crate::embedded_raw::head_tree_id(&self.repo) {
            Ok(t) => t,
            Err(e) => {
                return Err(map_lg2_err(&e));
            },
        };
        let index_tree = match crate::embedded_raw::index_tree_id(&self.repo) {
            Ok(t) => t,
            Err(e) => {
                return Err(map_lg2_err(&e));
            },
        };
        match commit_preflight(&head_tree, index_tree.as_str(), index_len) {
            Ok(()) => {},
            Err(e) => {
                return Err(e);
            },
        }
        let h = match head_info(&self.repo) {
            Ok(h) => h,
            Err(e) => {
                return Err(map_lg2_err(&e));
            },
        };
        let with_parent = commit_parents_from_head(&h);
        // An initial commit still has to become HEAD: writing through the
        // symbolic name creates the branch HEAD points at.
        let update_ref: Option<String> = if with_parent {
            match &h.refname {
                Some(n) => Some(n.clone()),
                None => None,
            }
        } else {
            Some("HEAD".to_owned())
        };
        match crate::embedded_raw::commit_from_index(
            &self.repo,
            message,
            name,
            email,
            update_ref.as_ref(),
            with_parent,
        ) {
            Ok(id) => Ok(id),
            Err(e) => Err(map_lg2_err(&e)),
        }
    }

    /// The status counters from one scan.
    pub fn status_summary(&self) -> (r: Result<crate::models::StatusSummary, VcsError>)
        ensures
            r matches Err(e) ==> e matches VcsError::Backend { .. },
    {
        match crate::embedded_raw::statuses_raw(&self.repo, false) {
            Ok(sts) => Ok(summary_of_statuses(&sts)),
            Err(e) => Err(map_lg2_err(&e)),
        }
    }

    /// The full status payload: classified file entries from one scan with
    /// rename detection, and best-effort ahead/behind counts that fall
    /// back to zero without an upstream.
    pub fn status_payload(&self) -> (r: Result<crate::models::StatusPayload, VcsError>)
        ensures
            r matches Ok(p) ==> forall|j: int|
                0 <= j < p.files@.len() ==> crate::models::status_letter_wf(
                    (#[trigger] p.files@[j]).status@,
                ),
            r matches Err(e) ==> e matches VcsError::Backend { .. },
    {
        let sts = match crate::embedded_raw::statuses_raw(&self.repo, true) {
            Ok(s) => s,
            Err(e) => {
                return Err(map_lg2_err(&e));
            },
        };
        let files = files_of_statuses(&sts);
        let (ahead, behind) = counts_or_zero(crate::embedded_raw::upstream_counts(&self.repo));
        Ok(crate::models::StatusPayload { files, ahead, behind })
    }

    /// One page of history: walk from the query's revision (HEAD when
    /// absent), filter, paginate. The page never exceeds the query's
    /// limit, itself capped at 1000.
    pub fn log_commits(&self, q: &crate::models::LogQuery) -> (r: Result<
        Vec<crate::models::CommitItem>,
        VcsError,
    >)
        ensures
            r matches Ok(items) ==> items@.len() <= q.limit && items@.len() <= 1000,
            r matches Err(e) ==> e matches VcsError::Backend { .. },
    {
        let rev: String = match &q.rev {
            Some(rv) => rv.clone(),
            None => "HEAD".to_owned(),
        };
        let ids = match crate::embedded_raw::log_raw_ids(&self.repo, rev.as_str(), q.topo_order) {
            Ok(v) => v,
            Err(e) => {
                return Err(map_lg2_err(&e));
            },
        };
        let mut annotated: Vec<(crate::embedded::RawCommit, bool)> = Vec::new();
        let mut idx: usize = 0;
        while idx < ids.len()
            decreases ids.len() - idx,
        {
            let c = match crate::embedded_raw::commit_meta(&self.repo, ids[idx].as_str()) {
                Ok(c) => c,
                Err(e) => {
                    return Err(map_lg2_err(&e));
                },
            };
            let touches: bool = match &q.path {
                Some(p) => {
                    match crate::embedded_raw::commit_touches(&self.repo, c.id.as_str(), p.as_str())
                        {
                        Ok(t) => t,
                        Err(e) => {
                            return Err(map_lg2_err(&e));
                        },
                    }
                },
                None => true,
            };
            annotated.push((c, touches));
            idx += 1;
        }
        let (since, until, author_lower) = crate::logfilter::resolve_filter(q);
        let eff_limit: u32 = if q.limit > 1000 {
            1000
        } else {
            q.limit
        };
        let page = crate::logfilter::filter_page(
            annotated,
            q,
            since,
            until,
            author_lower,
            q.skip,
            eff_limit,
        );
        Ok(crate::logfilter::commit_items_of(page))
    }

    /// The unified diff of one file: unstaged changes first, staged
    /// changes otherwise. Every line opens with exactly one origin sigil.
    pub fn diff_file(&self, path: &str) -> (r: Result<Vec<String>, VcsError>)
        ensures
            r matches Ok(lines) ==> forall|j: int|
                0 <= j < lines@.len() ==> (#[trigger] lines@[j])@.len() >= 1 && is_origin_sigil(
                    lines@[j]@[0],
                ),
            r matches Err(e) ==> e matches VcsError::Backend { .. },
    {
        let rel: String = match crate::system::rel_to_workdir(self.workdir.as_str(), path) {
            Ok(rl) => rl,
            Err(_) => path.to_owned(),
        };
        let unstaged = match crate::embedded_raw::diff_unstaged_lines(&self.repo, rel.as_str()) {
            Ok(v) => v,
            Err(e) => {
                return Err(map_lg2_err(&e));
            },
        };
        if unstaged.len() > 0 {
            return Ok(unstaged);
        }
        match crate::embedded_raw::diff_staged_lines(&self.repo, rel.as_str()) {
            Ok(v) => Ok(v),
            Err(e) => Err(map_lg2_err(&e)),
        }
    }

    /// The unified diff a commit introduced against its first parent;
    /// every line opens with exactly one origin sigil.
    pub fn diff_commit(&self, rev: &str) -> (r: Result<Vec<String>, VcsError>)
        ensures
            r matches Ok(lines) ==> forall|j: int|
                0 <= j < lines@.len() ==> (#[trigger] lines@[j])@.len() >= 1 && is_origin_sigil(
                    lines@[j]@[0],
                ),
            r matches Err(e) ==> e matches VcsError::Backend { .. },
    {
        match crate::embedded_raw::diff_commit_lines(&self.repo, rev) {
            Ok(v) => Ok(v),
            Err(e) => Err(map_lg2_err(&e)),
        }
    }

    /// Patch staging is not offered by this provider.
    pub fn stage_patch(&self, _patch: &str) -> (r: Result<(), VcsError>)
        ensures
            r matches Err(e) && e matches VcsError::Unsupported(b) && b.chars() == "git-libgit2"@,
    {
        Err(VcsError::Unsupported(embedded_backend_id()))
    }

    /// Selected-path discarding is not offered by this provider.
    pub fn discard_paths(&self, _paths: &Vec<String>) -> (r: Result<(), VcsError>)
        ensures
            r matches Err(e) && e matches VcsError::Unsupported(b) && b.chars() == "git-libgit2"@,
    {
        Err(VcsError::Unsupported(embedded_backend_id()))
    }

    /// Reverse patch application is not offered by this provider.
    pub fn apply_reverse_patch(&self, _patch: &str) -> (r: Result<(), VcsError>)
        ensures
            r matches Err(e) && e matches VcsError::Unsupported(b) && b.chars() == "git-libgit2"@,
    {
        Err(VcsError::Unsupported(embedded_backend_id()))
    }

    /// Reset the working tree and index to HEAD.
    pub fn hard_reset_head(&self) -> (r: Result<(), VcsError>)
        ensures
            r matches Err(e) ==> e matches VcsError::Backend { .. },
    {
        match crate::embedded_raw::reset_hard_head(&self.repo) {
            Ok(()) => Ok(()),
            Err(e) => Err(map_lg2_err(&e)),
        }
    }

    /// The configured identity, present only when both halves are set and
    /// non-empty once trimmed.
    pub fn get_identity(&self) -> (r: Result<Option<(String, String)>, VcsError>)
        ensures
            r is Ok,
    {
        let (n, e) = config_identity(&self.repo);
        let n_ref: Option<&str> = match &n {
            Some(s) => Some(s.as_str()),
            None => None,
        };
        let e_ref: Option<&str> = match &e {
            Some(s) => Some(s.as_str()),
            None => None,
        };
        Ok(identity_from_outputs(n_ref, e_ref))
    }

    /// Write the repository-local identity.
    pub fn set_identity_local(&self, name: &str, email: &str) -> (r: Result<(), VcsError>)
        ensures
            r matches Err(e) ==> e matches VcsError::Backend { .. },
    {
        match config_set_identity(&self.repo, name, email) {
            Ok(()) => Ok(()),
            Err(e) => Err(map_lg2_err(&e)),
        }
    }
}


/// What event a textual transport line classifies to: remote sideband
/// text, authentication breadcrumbs, per-reference push reports
/// (`<ref> \u{2192} <status>` on rejection, `<ref> ok` on acceptance),
/// and plain transfer progress for everything else.
pub open spec fn spec_event_matches(s: Seq<char>, r: crate::models::VcsEvent) -> bool {
    if spec_starts_with(s, "remote: "@) {
        r matches crate::models::VcsEvent::RemoteMessage(m) && m@ == s
    } else if spec_starts_with(s, "auth:"@) {
        r matches crate::models::VcsEvent::Auth { method, detail } && method@ == "ssh"@ && detail@
            == s
    } else if spec_starts_with(s, "push status: "@) {
        let rest = s.skip("push status: "@.len() as int);
        r matches crate::models::VcsEvent::PushStatus { refname, status } && (
        match crate::text::spec_find_sub(rest, " \u{2192} "@) {
            Some(i) => refname@ == rest.subrange(0, i) && (status matches Some(st) && st@
                == rest.skip(i + " \u{2192} "@.len() as int)),
            None => {
                if crate::text::spec_ends_with(rest, " ok"@) {
                    refname@ == rest.subrange(0, rest.len() - " ok"@.len() as int)
                        && status is None
                } else {
                    refname@ == rest && status is None
                }
            },
        })
    } else {
        r matches crate::models::VcsEvent::Progress { phase, detail } && phase@ == "libgit2"@
            && detail@ == s
    }
}

/// An event of the transport: never a plain notice.
pub open spec fn is_transport_event(r: crate::models::VcsEvent) -> bool {
    ||| r is RemoteMessage
    ||| r is Auth
    ||| r is PushStatus
    ||| r is Progress
}

/// Classify one textual progress line from the embedded transport.
pub fn classify_progress_line(s: &str) -> (r: crate::models::VcsEvent)
    ensures
        spec_event_matches(s@, r),
        is_transport_event(r),
{
    if starts_with(s, "remote: ") {
        return crate::models::VcsEvent::RemoteMessage(s.to_owned());
    }
    if starts_with(s, "auth:") {
        return crate::models::VcsEvent::Auth { method: "ssh".to_owned(), detail: s.to_owned() };
    }
    if starts_with(s, "push status: ") {
        proof {
            reveal_strlit("push status: ");
        }
        let n: usize = s.unicode_len();
        let rest = substr(s, 13, n);
        proof {
            assert(rest@ =~= s@.skip("push status: "@.len() as int));
        }
        let rest_len: usize = rest.as_str().unicode_len();
        match crate::text::find_sub(rest.as_str(), " \u{2192} ") {
            Some(i) => {
                proof {
                    reveal_strlit(" \u{2192} ");
                }
                let refname = substr(rest.as_str(), 0, i);
                let status = substr(rest.as_str(), i + 3, rest_len);
                proof {
                    assert(status@ =~= rest@.skip(i as int + " \u{2192} "@.len() as int));
                }
                return crate::models::VcsEvent::PushStatus { refname, status: Some(status) };
            },
            None => {
                if crate::text::ends_with(rest.as_str(), " ok") {
                    proof {
                        reveal_strlit(" ok");
                    }
                    let refname = substr(rest.as_str(), 0, rest_len - 3);
                    return crate::models::VcsEvent::PushStatus { refname, status: None };
                }
                return crate::models::VcsEvent::PushStatus { refname: rest, status: None };
            },
        }
    }
    crate::models::VcsEvent::Progress { phase: "libgit2".to_owned(), detail: s.to_owned() }
}


/// What the credentials callback does on one request: a single agent
/// attempt for the hinted user (or `git`) when an SSH key is acceptable,
/// then an explicit failure rather than a loop.
pub enum CredAction {
    TryAgent(String),
    Fail(String),
}

/// The credential decision, by attempt count and what the server accepts.
pub fn cred_decision(attempt: u64, ssh_key_allowed: bool, user_hint: Option<&String>) -> (r:
    CredAction)
    ensures
        attempt == 1 && ssh_key_allowed ==> (r matches CredAction::TryAgent(u) && u@ == (
        match user_hint {
            Some(h) => h@,
            None => "git"@,
        })),
        attempt != 1 && ssh_key_allowed ==> (r matches CredAction::Fail(m) && m@
            == "auth: agent key rejected; aborting"@),
        !ssh_key_allowed ==> (r matches CredAction::Fail(m) && m@
            == "auth: no usable SSH credential"@),
{
    if ssh_key_allowed {
        if attempt == 1 {
            let user: String = match user_hint {
                Some(h) => h.clone(),
                None => "git".to_owned(),
            };
            CredAction::TryAgent(user)
        } else {
            CredAction::Fail("auth: agent key rejected; aborting".to_owned())
        }
    } else {
        CredAction::Fail("auth: no usable SSH credential".to_owned())
    }
}

/// The line a sideband packet turns into: the remote's text, end-trimmed.
pub fn sideband_line(text: &str) -> (r: String)
    ensures
        r@ == "remote: "@ + crate::text::spec_trim_end(text@),
{
    let t = crate::text::trim_end(text);
    "remote: ".to_owned().concat(t.as_str())
}

/// The line a transfer-progress tick turns into.
pub fn transfer_line(
    indexed_deltas: u64,
    total_deltas: u64,
    indexed_objects: u64,
    total_objects: u64,
) -> (r: String)
    ensures
        r@ == "pushing\u{2026} "@ + crate::text::spec_dec(indexed_deltas as int) + "/"@
            + crate::text::spec_dec(total_deltas as int) + " deltas, "@ + crate::text::spec_dec(
            indexed_objects as int,
        ) + "/"@ + crate::text::spec_dec(total_objects as int) + " objects"@,
{
    "pushing\u{2026} ".to_owned().concat(crate::text::u64_dec(indexed_deltas).as_str()).concat(
        "/",
    ).concat(crate::text::u64_dec(total_deltas).as_str()).concat(" deltas, ").concat(
        crate::text::u64_dec(indexed_objects).as_str(),
    ).concat("/").concat(crate::text::u64_dec(total_objects).as_str()).concat(" objects")
}

/// The events a drained transport log classifies to, in order.
pub fn events_of_lines(lines: &Vec<String>) -> (r: Vec<crate::models::VcsEvent>)
    ensures
        r@.len() == lines@.len(),
        forall|j: int|
            0 <= j < lines@.len() ==> spec_event_matches((#[trigger] lines@[j])@, r@[j]),
        forall|j: int| 0 <= j < r@.len() ==> is_transport_event(#[trigger] r@[j]),
{
    let mut out: Vec<crate::models::VcsEvent> = Vec::new();
    let mut i: usize = 0;
    while i < lines.len()
        invariant
            i <= lines.len(),
            out@.len() == i,
            forall|j: int|
                0 <= j < i ==> spec_event_matches((#[trigger] lines@[j])@, out@[j]),
            forall|j: int| 0 <= j < i ==> is_transport_event(#[trigger] out@[j]),
        decreases lines.len() - i,
    {
        out.push(classify_progress_line(lines[i].as_str()));
        i += 1;
    }
    out
}

} // verus!
