//! History filtering: the merge, date, author and path filters applied to
//! a raw walk, in that order, then pagination. The filters and the page
//! arithmetic are exact, so the pagination laws are proved here.

use vstd::prelude::*;
use crate::dates::{format_rfc3339, parse_rfc3339_epoch, rfc3339_epoch, rfc3339_of};
use crate::embedded::RawCommit;
use crate::models::{CommitItem, LogQuery};
use crate::porcelain::take7;
use crate::text::{contains_sub, lower_of, lowercase, spec_contains_sub, substr};

verus! {

/// The `Name <email>` line the author filter matches against.
pub open spec fn spec_author_line(c: RawCommit) -> Seq<char> {
    c.author_name@ + " <"@ + c.author_email@ + ">"@
}

/// The inclusive lower time bound of a query, when its string parses.
pub open spec fn spec_since_bound(q: LogQuery) -> Option<int> {
    match q.since_utc {
        Some(s) => rfc3339_epoch(s@),
        None => None,
    }
}

/// The inclusive upper time bound of a query, when its string parses.
pub open spec fn spec_until_bound(q: LogQuery) -> Option<int> {
    match q.until_utc {
        Some(u) => rfc3339_epoch(u@),
        None => None,
    }
}

/// Whether a walked commit survives the filters: merges only when asked,
/// commit time inside the parsed bounds, the lowercased author line
/// containing the lowercased query substring, and the path filter's
/// verdict.
pub open spec fn spec_keep(c: RawCommit, touches: bool, q: LogQuery) -> bool {
    &&& (q.include_merges || c.parent_count <= 1)
    &&& (match spec_since_bound(q) {
        Some(s) => c.time_secs >= s,
        None => true,
    })
    &&& (match spec_until_bound(q) {
        Some(u) => c.time_secs <= u,
        None => true,
    })
    &&& (match q.author_contains {
        Some(sub) => spec_contains_sub(lower_of(spec_author_line(c)), lower_of(sub@)),
        None => true,
    })
    &&& touches
}

/// The commits surviving the filters, in walk order.
pub open spec fn spec_filtered(list: Seq<(RawCommit, bool)>, q: LogQuery) -> Seq<RawCommit>
    decreases list.len(),
{
    if list.len() == 0 {
        Seq::empty()
    } else if spec_keep(list[0].0, list[0].1, q) {
        seq![list[0].0] + spec_filtered(list.drop_first(), q)
    } else {
        spec_filtered(list.drop_first(), q)
    }
}

/// One page: skip the first `skip` survivors, take up to `limit`.
pub open spec fn spec_page(f: Seq<RawCommit>, skip: int, limit: int) -> Seq<RawCommit> {
    let lo = if skip <= f.len() {
        skip
    } else {
        f.len() as int
    };
    let hi = if skip + limit <= f.len() {
        skip + limit
    } else {
        f.len() as int
    };
    if lo <= hi {
        f.subrange(lo, hi)
    } else {
        Seq::empty()
    }
}

/// A page never exceeds its limit.
pub proof fn lemma_page_len(f: Seq<RawCommit>, skip: int, limit: int)
    requires
        0 <= skip,
        0 <= limit,
    ensures
        spec_page(f, skip, limit).len() <= limit,
{
}

/// Slicing law: the page at `skip = k, limit = n` is what remains of the
/// page at `skip = 0, limit = k + n` once its first `k` entries are
/// dropped.
pub proof fn lemma_page_slicing(f: Seq<RawCommit>, k: int, n: int)
    requires
        0 <= k,
        0 <= n,
    ensures
        spec_page(f, k, n) == if k <= spec_page(f, 0, k + n).len() {
            spec_page(f, 0, k + n).skip(k)
        } else {
            Seq::<RawCommit>::empty()
        },
{
    let full = spec_page(f, 0, k + n);
    if k <= full.len() {
        assert(spec_page(f, k, n) =~= full.skip(k));
    } else {
        assert(spec_page(f, k, n) =~= Seq::<RawCommit>::empty());
    }
}

/// Executable form of the survival test; the parsed bounds and lowercased
/// author substring are passed in with their meanings pinned.
fn keep_commit(
    c: &RawCommit,
    touches: bool,
    q: &LogQuery,
    since: &Option<i64>,
    until: &Option<i64>,
    author_lower: &Option<String>,
) -> (r: bool)
    requires
        spec_since_bound(*q) == (match since {
            Some(v) => Some(v as int),
            None => None::<int>,
        }),
        spec_until_bound(*q) == (match until {
            Some(v) => Some(v as int),
            None => None::<int>,
        }),
        match (author_lower, q.author_contains) {
            (Some(al), Some(sub)) => al@ == lower_of(sub@),
            (None, None) => true,
            _ => false,
        },
    ensures
        r == spec_keep(*c, touches, *q),
{
    if !touches {
        return false;
    }
    if !q.include_merges && c.parent_count > 1 {
        return false;
    }
    match since {
        Some(s) => {
            if c.time_secs < *s {
                return false;
            }
        },
        None => {},
    }
    match until {
        Some(u) => {
            if c.time_secs > *u {
                return false;
            }
        },
        None => {},
    }
    match author_lower {
        Some(al) => {
            let line = c.author_name.clone().concat(" <").concat(c.author_email.as_str()).concat(
                ">",
            );
            let lc = lowercase(line.as_str());
            contains_sub(lc.as_str(), al.as_str())
        },
        None => true,
    }
}

/// Apply the filters and one page to an annotated walk.
pub fn filter_page(
    annotated: Vec<(RawCommit, bool)>,
    q: &LogQuery,
    since: Option<i64>,
    until: Option<i64>,
    author_lower: Option<String>,
    skip: u32,
    limit: u32,
) -> (r: Vec<RawCommit>)
    requires
        spec_since_bound(*q) == (match since {
            Some(v) => Some(v as int),
            None => None::<int>,
        }),
        spec_until_bound(*q) == (match until {
            Some(v) => Some(v as int),
            None => None::<int>,
        }),
        match (author_lower, q.author_contains) {
            (Some(al), Some(sub)) => al@ == lower_of(sub@),
            (None, None) => true,
            _ => false,
        },
    ensures
        r@ == spec_page(spec_filtered(annotated@, *q), skip as int, limit as int),
        r@.len() <= limit,
{
    let ghost orig = annotated@;
    let mut rest = annotated;
    let mut filtered: Vec<RawCommit> = Vec::new();
    proof {
        assert(spec_filtered(orig, *q) =~= filtered@ + spec_filtered(rest@, *q));
    }
    while rest.len() > 0
        invariant
            spec_since_bound(*q) == (match since {
                Some(v) => Some(v as int),
                None => None::<int>,
            }),
            spec_until_bound(*q) == (match until {
                Some(v) => Some(v as int),
                None => None::<int>,
            }),
            match (author_lower, q.author_contains) {
                (Some(al), Some(sub)) => al@ == lower_of(sub@),
                (None, None) => true,
                _ => false,
            },
            spec_filtered(orig, *q) == filtered@ + spec_filtered(rest@, *q),
        decreases rest.len(),
    {
        let ghost pre = rest@;
        let (c, t) = rest.remove(0);
        proof {
            assert(rest@ =~= pre.drop_first());
            assert((c, t) == pre[0]);
        }
        if keep_commit(&c, t, q, &since, &until, &author_lower) {
            let ghost fv = filtered@;
            filtered.push(c);
            proof {
                assert(filtered@ =~= fv.push(pre[0].0));
                assert(fv.push(pre[0].0) + spec_filtered(pre.drop_first(), *q) =~= fv
                    + spec_filtered(pre, *q));
            }
        } else {
            proof {
                assert(spec_filtered(pre, *q) == spec_filtered(pre.drop_first(), *q));
            }
        }
    }
    proof {
        assert(spec_filtered(rest@, *q) =~= Seq::<RawCommit>::empty());
        assert(filtered@ + Seq::<RawCommit>::empty() =~= filtered@);
        assert(filtered@ == spec_filtered(orig, *q));
    }
    let ghost f = filtered@;
    let mut skipped: usize = 0;
    let skip_n: usize = skip as usize;
    while skipped < skip_n && filtered.len() > 0
        invariant
            skipped <= skip_n,
            skipped as int <= f.len(),
            filtered@ == f.skip(skipped as int),
        decreases skip_n - skipped,
    {
        let ghost pre = filtered@;
        let _ = filtered.remove(0);
        proof {
            assert(filtered@ =~= pre.drop_first());
            assert(pre.drop_first() =~= f.skip(skipped as int + 1));
        }
        skipped += 1;
    }
    proof {
        if skipped < skip_n {
            assert(filtered@.len() == 0);
            assert(skipped as int == f.len());
        }
    }
    let mut out: Vec<RawCommit> = Vec::new();
    let limit_n: usize = limit as usize;
    while out.len() < limit_n && filtered.len() > 0
        invariant
            out@.len() <= limit_n,
            skipped as int <= f.len(),
            filtered@ == f.skip(skipped as int + out@.len()),
            skipped as int + out@.len() <= f.len(),
            out@ == f.subrange(skipped as int, skipped as int + out@.len()),
        decreases limit_n - out.len(),
    {
        let ghost pre = filtered@;
        let ghost ov = out@;
        let c = filtered.remove(0);
        out.push(c);
        proof {
            assert(filtered@ =~= pre.drop_first());
            assert(pre.drop_first() =~= f.skip(skipped as int + out@.len()));
            assert(out@ =~= ov.push(pre[0]));
            assert(pre[0] == f[skipped as int + ov.len()]);
            assert(out@ =~= f.subrange(skipped as int, skipped as int + out@.len()));
        }
    }
    proof {
        let lo = if skip as int <= f.len() {
            skip as int
        } else {
            f.len() as int
        };
        let hi = if skip as int + limit as int <= f.len() {
            skip as int + limit as int
        } else {
            f.len() as int
        };
        if skipped < skip_n {
            assert(out@.len() == 0);
            assert(out@ =~= spec_page(f, skip as int, limit as int));
        } else {
            assert(skipped == skip_n);
            if out@.len() == limit_n {
                assert(out@ =~= f.subrange(lo, hi));
            } else {
                assert(filtered@.len() == 0);
                assert(skipped as int + out@.len() == f.len());
                assert(out@ =~= f.subrange(lo, hi));
            }
        }
    }
    out
}

/// Commit items from the filtered page: the full id, the subject line, the
/// author line, and the date in the commit's own offset joined with the
/// short hash.
pub fn commit_items_of(commits: Vec<RawCommit>) -> (r: Vec<CommitItem>)
    ensures
        r@.len() == commits@.len(),
        forall|j: int|
            0 <= j < commits@.len() ==> ({
                let c = commits@[j];
                &&& (#[trigger] r@[j]).id@ == c.id@
                &&& r@[j].msg@ == c.summary@
                &&& r@[j].author@ == spec_author_line(c)
                &&& r@[j].meta@ == rfc3339_of(c.time_secs as int, c.offset_minutes as int)
                    + " \u{2022} "@ + take7(c.id@)
            }),
{
    let ghost orig = commits@;
    let mut rest = commits;
    let mut out: Vec<CommitItem> = Vec::new();
    while rest.len() > 0
        invariant
            out@.len() + rest@.len() == orig.len(),
            rest@ == orig.skip(out@.len() as int),
            forall|j: int|
                0 <= j < out@.len() ==> ({
                    let c = orig[j];
                    &&& (#[trigger] out@[j]).id@ == c.id@
                    &&& out@[j].msg@ == c.summary@
                    &&& out@[j].author@ == spec_author_line(c)
                    &&& out@[j].meta@ == rfc3339_of(c.time_secs as int, c.offset_minutes as int)
                        + " \u{2022} "@ + take7(c.id@)
                }),
        decreases rest.len(),
    {
        let ghost pre = rest@;
        let c = rest.remove(0);
        proof {
            assert(rest@ =~= pre.drop_first());
            assert(c == orig[out@.len() as int]);
            assert(pre.drop_first() =~= orig.skip(out@.len() as int + 1));
        }
        let id_len: usize = c.id.as_str().unicode_len();
        let short_to: usize = if id_len < 7 {
            id_len
        } else {
            7
        };
        let short = substr(c.id.as_str(), 0, short_to);
        let when = format_rfc3339(c.time_secs, c.offset_minutes);
        let meta = when.concat(" \u{2022} ").concat(short.as_str());
        let author = c.author_name.clone().concat(" <").concat(c.author_email.as_str()).concat(
            ">",
        );
        proof {
            assert(take7(c.id@) =~= short@);
        }
        out.push(CommitItem { id: c.id, msg: c.summary, meta, author });
    }
    proof {
        assert(out@.len() == orig.len());
    }
    out
}

/// Resolve a query's bounds and author substring for the executable
/// filter.
pub fn resolve_filter(q: &LogQuery) -> (r: (Option<i64>, Option<i64>, Option<String>))
    ensures
        spec_since_bound(*q) == (match r.0 {
            Some(v) => Some(v as int),
            None => None::<int>,
        }),
        spec_until_bound(*q) == (match r.1 {
            Some(v) => Some(v as int),
            None => None::<int>,
        }),
        match (r.2, q.author_contains) {
            (Some(al), Some(sub)) => al@ == lower_of(sub@),
            (None, None) => true,
            _ => false,
        },
{
    let since: Option<i64> = match &q.since_utc {
        Some(s) => parse_rfc3339_epoch(s.as_str()),
        None => None,
    };
    let until: Option<i64> = match &q.until_utc {
        Some(u) => parse_rfc3339_epoch(u.as_str()),
        None => None,
    };
    let author_lower: Option<String> = match &q.author_contains {
        Some(a) => Some(lowercase(a.as_str())),
        None => None,
    };
    (since, until, author_lower)
}

} // verus!
