//! The repository session: the currently selected working copy and the
//! most-recently-used list of workdirs, bounded, duplicate-free, most
//! recent first. The shared locking around a session lives outside the
//! library; these are the exact state transitions it guards.

use vstd::prelude::*;
use crate::text::{str_eq, views};

verus! {

/// The fallback bound on the recents list when the configured limit is 0.
pub open spec fn spec_effective_limit(limit: u32) -> int {
    if limit == 0 {
        10
    } else {
        limit as int
    }
}

/// `s` with every occurrence of `x` removed, order kept.
pub open spec fn spec_remove_all(s: Seq<Seq<char>>, x: Seq<char>) -> Seq<Seq<char>>
    decreases s.len(),
{
    if s.len() == 0 {
        Seq::empty()
    } else if s[0] == x {
        spec_remove_all(s.drop_first(), x)
    } else {
        seq![s[0]] + spec_remove_all(s.drop_first(), x)
    }
}

/// The most-recently-used list after recording `path`: `path` first, the
/// old entries minus `path` behind it, cut to the effective limit.
pub open spec fn spec_mru(old_list: Seq<Seq<char>>, path: Seq<char>, limit: u32) -> Seq<Seq<char>> {
    let target = seq![path] + spec_remove_all(old_list, path);
    if target.len() <= spec_effective_limit(limit) {
        target
    } else {
        target.subrange(0, spec_effective_limit(limit))
    }
}

/// Record `path` at the front of a recents list.
pub fn recents_push(recents: &mut Vec<String>, path: String, limit: u32)
    ensures
        views(final(recents)@) == spec_mru(views(old(recents)@), path@, limit),
        final(recents)@.len() >= 1,
        final(recents)@[0]@ == path@,
{
    let eff: usize = if limit == 0 {
        10
    } else {
        limit as usize
    };
    let ghost old_views = views(recents@);
    let mut filtered: Vec<String> = Vec::new();
    let mut i: usize = 0;
    proof {
        assert(old_views.subrange(0, old_views.len() as int) =~= old_views);
        assert(views(filtered@) + spec_remove_all(old_views, path@) =~= spec_remove_all(
            old_views,
            path@,
        ));
    }
    while i < recents.len()
        invariant
            i <= recents.len(),
            old_views == views(recents@),
            old_views.len() == recents@.len(),
            spec_remove_all(old_views, path@) == views(filtered@) + spec_remove_all(
                old_views.subrange(i as int, old_views.len() as int),
                path@,
            ),
        decreases recents.len() - i,
    {
        let ghost remv = old_views.subrange(i as int, old_views.len() as int);
        proof {
            assert(remv[0] == old_views[i as int]);
            assert(old_views[i as int] == recents@[i as int]@);
            assert(remv.drop_first() =~= old_views.subrange(i as int + 1, old_views.len() as int));
        }
        if !str_eq(recents[i].as_str(), path.as_str()) {
            let ghost fv = views(filtered@);
            filtered.push(recents[i].clone());
            proof {
                assert(views(filtered@) =~= fv.push(recents@[i as int]@));
                assert(fv.push(recents@[i as int]@) + spec_remove_all(remv.drop_first(), path@)
                    =~= fv + spec_remove_all(remv, path@));
            }
        } else {
            proof {
                assert(spec_remove_all(remv, path@) == spec_remove_all(remv.drop_first(), path@));
            }
        }
        i += 1;
    }
    proof {
        assert(old_views.subrange(old_views.len() as int, old_views.len() as int) =~= Seq::<
            Seq<char>,
        >::empty());
        assert(views(filtered@) + spec_remove_all(Seq::<Seq<char>>::empty(), path@) =~= views(
            filtered@,
        ));
    }
    let ghost target = seq![path@] + spec_remove_all(old_views, path@);
    let mut out: Vec<String> = Vec::new();
    out.push(path);
    let mut j: usize = 0;
    while j < filtered.len() && out.len() < eff
        invariant
            j <= filtered.len(),
            out@.len() == j + 1,
            out@.len() <= eff,
            eff >= 1,
            views(filtered@).len() == filtered@.len(),
            views(out@) == target.subrange(0, j + 1),
            target == seq![views(out@)[0]] + views(filtered@),
        decreases filtered.len() - j,
    {
        let ghost ov = views(out@);
        out.push(filtered[j].clone());
        proof {
            assert(views(out@) =~= ov.push(filtered@[j as int]@));
            assert(views(filtered@)[j as int] == filtered@[j as int]@);
            assert(target[j as int + 1] == views(filtered@)[j as int]);
            assert(views(out@) =~= target.subrange(0, j + 2));
        }
        j += 1;
    }
    proof {
        if j == filtered@.len() {
            assert(target.subrange(0, j + 1) =~= target);
            if target.len() <= spec_effective_limit(limit) {
            } else {
                assert(out@.len() == target.len());
                assert(false);
            }
        } else {
            assert(out@.len() == eff);
            assert(target.len() > eff);
            assert(views(out@) =~= target.subrange(0, spec_effective_limit(limit)));
        }
        assert(views(out@) == spec_mru(old_views, views(out@)[0], limit));
    }
    *recents = out;
}

/// The process-wide holder of the currently selected working copy.
pub struct SessionState {
    /// Workdir of the open repository, when one is selected.
    pub current: Option<String>,
    /// Most-recently-used workdirs, newest first.
    pub recents: Vec<String>,
}

impl SessionState {
    pub fn new() -> (r: SessionState)
        ensures
            r.current is None,
            r.recents@.len() == 0,
    {
        SessionState { current: None, recents: Vec::new() }
    }

    /// Select a repository: remember its workdir and record it in the
    /// recents list under the configured bound.
    pub fn set_current_repo(&mut self, workdir: String, limit: u32)
        ensures
            final(self).current matches Some(w) && w@ == workdir@,
            views(final(self).recents@) == spec_mru(views(old(self).recents@), workdir@, limit),
    {
        recents_push(&mut self.recents, workdir.clone(), limit);
        self.current = Some(workdir);
    }

    /// Drop the current selection; the recents list stays.
    pub fn clear_current_repo(&mut self)
        ensures
            final(self).current is None,
            final(self).recents == old(self).recents,
    {
        self.current = None;
    }

    /// The workdir of the selected repository, if any.
    pub fn current_repo(&self) -> (r: Option<String>)
        ensures
            match (r, &self.current) {
                (Some(a), Some(b)) => a@ == b@,
                (None, None) => true,
                _ => false,
            },
    {
        match &self.current {
            Some(w) => Some(w.clone()),
            None => None,
        }
    }

    /// The recents list, newest first.
    pub fn recents(&self) -> (r: &Vec<String>)
        ensures
            r == &self.recents,
    {
        &self.recents
    }
}


/// Removing every occurrence leaves no occurrence behind.
proof fn lemma_remove_all_removes(s: Seq<Seq<char>>, x: Seq<char>)
    ensures
        forall|i: int|
            0 <= i < spec_remove_all(s, x).len() ==> #[trigger] spec_remove_all(s, x)[i] != x,
    decreases s.len(),
{
    if s.len() > 0 {
        lemma_remove_all_removes(s.drop_first(), x);
        if s[0] != x {
            assert forall|i: int|
                0 <= i < spec_remove_all(s, x).len() implies #[trigger] spec_remove_all(s, x)[i]
                != x by {
                if i > 0 {
                    assert(spec_remove_all(s, x)[i] == spec_remove_all(s.drop_first(), x)[i - 1]);
                }
            }
        }
    }
}

/// The law of the recents list: after recording a path it sits first, it
/// appears nowhere else, and the list respects the effective bound.
pub proof fn lemma_mru_shape(old_list: Seq<Seq<char>>, path: Seq<char>, limit: u32)
    ensures
        spec_mru(old_list, path, limit).len() >= 1,
        spec_mru(old_list, path, limit).len() <= spec_effective_limit(limit),
        spec_mru(old_list, path, limit)[0] == path,
        forall|i: int|
            1 <= i < spec_mru(old_list, path, limit).len() ==> #[trigger] spec_mru(
                old_list,
                path,
                limit,
            )[i] != path,
{
    let target = seq![path] + spec_remove_all(old_list, path);
    lemma_remove_all_removes(old_list, path);
    assert(target[0] == path);
    assert forall|i: int| 1 <= i < target.len() implies #[trigger] target[i] != path by {
        assert(target[i] == spec_remove_all(old_list, path)[i - 1]);
    }
    if target.len() > spec_effective_limit(limit) {
        assert(spec_mru(old_list, path, limit) == target.subrange(0, spec_effective_limit(limit)));
    }
}

} // verus!
