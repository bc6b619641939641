//! The consumer-facing command layer: branch-list normalization, commit
//! message assembly, identity fallback, and the clone-target inference the
//! dialogs use.

use vstd::prelude::*;
use crate::models::{BranchItem, BranchKind, LogQuery};
use crate::text::{
    ends_with, lemma_lex_le_total, lemma_lex_le_trans, lemma_trim_end_char_characterization,
    lex_le, rfind_char, spec_ends_with, spec_find, spec_rfind, spec_starts_with, spec_trim,
    spec_trim_end_char, starts_with, str_eq, str_le, substr, trim,
};

verus! {

/// The remote a `refs/remotes/...` reference belongs to: the first segment
/// after the prefix, or the word `unknown` when no separator follows.
pub open spec fn spec_infer_remote(full: Seq<char>) -> Seq<char> {
    let after = full.skip("refs/remotes/"@.len() as int);
    match spec_find(after, 0, '/') {
        Some(i) => after.subrange(0, i),
        None => "unknown"@,
    }
}

/// How a normalized item's kind relates to its origin: explicit kinds are
/// kept; an unknown kind is inferred from the full reference.
pub open spec fn kind_matches(out_kind: BranchKind, orig_kind: BranchKind, tf: Seq<char>) -> bool {
    match orig_kind {
        BranchKind::Local => out_kind is Local,
        BranchKind::Remote { remote } => out_kind matches BranchKind::Remote { remote: r2 } && r2@
            == remote@,
        BranchKind::Unknown => {
            if spec_starts_with(tf, "refs/heads/"@) {
                out_kind is Local
            } else if spec_starts_with(tf, "refs/remotes/"@) {
                out_kind matches BranchKind::Remote { remote: r2 } && r2@ == spec_infer_remote(tf)
            } else {
                out_kind is Unknown
            }
        },
    }
}

/// A normalized item against the raw item it came from: names trimmed and
/// non-empty, the kind kept or inferred, and the current flag only on a
/// local branch whose name is the current one.
pub open spec fn clean_rel(orig: BranchItem, out: BranchItem, cur: Option<Seq<char>>) -> bool {
    let tn = spec_trim(orig.name@);
    let tf = spec_trim(orig.full_ref@);
    &&& out.name@ == tn
    &&& out.full_ref@ == tf
    &&& tn.len() > 0
    &&& tf.len() > 0
    &&& kind_matches(out.kind, orig.kind, tf)
    &&& (out.current ==> out.kind is Local && (cur matches Some(c) && tn == c))
}

/// Whether a raw item survives cleaning at all.
pub open spec fn cleanable(b: BranchItem) -> bool {
    spec_trim(b.name@).len() > 0 && spec_trim(b.full_ref@).len() > 0
}

/// An item of the normalized list originates in the raw list.
pub open spec fn cleaned_from(items: Seq<BranchItem>, cur: Option<Seq<char>>, x: BranchItem) -> bool {
    exists|j: int| 0 <= j < items.len() && clean_rel(#[trigger] items[j], x, cur)
}

/// Some item of `s` carries this full reference.
pub open spec fn has_ref(s: Seq<BranchItem>, f: Seq<char>) -> bool {
    exists|i: int| 0 <= i < s.len() && (#[trigger] s[i]).full_ref@ == f
}

/// No two items of `s` share a full reference.
pub open spec fn distinct_refs(s: Seq<BranchItem>) -> bool {
    forall|i: int, j: int|
        0 <= i < j < s.len() ==> (#[trigger] s[i]).full_ref@ != (#[trigger] s[j]).full_ref@
}

/// The display rank: the current branch first, then locals, remotes, and
/// refs of unknown kind.
pub open spec fn bucket_of(b: BranchItem) -> int {
    if b.current {
        0
    } else {
        match b.kind {
            BranchKind::Local => 1,
            BranchKind::Remote { .. } => 2,
            BranchKind::Unknown => 3,
        }
    }
}

/// Sorted by rank, then by name.
pub open spec fn norm_sorted(v: Seq<BranchItem>) -> bool {
    forall|i: int, j: int|
        0 <= i < j < v.len() ==> bucket_of(#[trigger] v[i]) < bucket_of(#[trigger] v[j]) || (
        bucket_of(v[i]) == bucket_of(v[j]) && lex_le(v[i].name@, v[j].name@))
}

/// Sorted by name alone.
pub open spec fn sorted_by_name(v: Seq<BranchItem>) -> bool {
    forall|i: int, j: int|
        0 <= i < j < v.len() ==> lex_le((#[trigger] v[i]).name@, (#[trigger] v[j]).name@)
}

/// Whether any item of `v` carries the full reference `f`.
fn has_ref_vec(v: &Vec<BranchItem>, f: &str) -> (r: bool)
    ensures
        r == has_ref(v@, f@),
{
    let mut i: usize = 0;
    while i < v.len()
        invariant
            i <= v@.len(),
            forall|j: int| 0 <= j < i ==> (#[trigger] v@[j]).full_ref@ != f@,
        decreases v@.len() - i,
    {
        if str_eq(v[i].full_ref.as_str(), f) {
            return true;
        }
        i += 1;
    }
    proof {
        if has_ref(v@, f@) {
            let j = choose|j: int| 0 <= j < v@.len() && (#[trigger] v@[j]).full_ref@ == f@;
            assert(v@[j].full_ref@ != f@);
        }
    }
    false
}

/// Insert an item into a name-sorted vector, after any equals.
fn insert_sorted(v: &mut Vec<BranchItem>, x: BranchItem)
    requires
        sorted_by_name(old(v)@),
    ensures
        exists|k: int| 0 <= k <= old(v)@.len() && final(v)@ == old(v)@.insert(k, x),
        sorted_by_name(final(v)@),
        final(v)@.len() == old(v)@.len() + 1,
{
    let mut p: usize = 0;
    while p < v.len() && str_le(v[p].name.as_str(), x.name.as_str())
        invariant
            p <= v@.len(),
            v@ == old(v)@,
            forall|j: int| 0 <= j < p ==> lex_le((#[trigger] v@[j]).name@, x.name@),
        decreases v@.len() - p,
    {
        p += 1;
    }
    proof {
        if (p as int) < v@.len() {
            lemma_lex_le_total(v@[p as int].name@, x.name@);
        }
    }
    let ghost pos = p as int;
    let ghost pre = v@;
    v.insert(p, x);
    proof {
        assert(v@ == pre.insert(pos, x));
        assert forall|i: int, j: int|
            0 <= i < j < v@.len() implies lex_le((#[trigger] v@[i]).name@, (#[trigger] v@[j]).name@)
            by {
            let a = if i < pos {
                pre[i]
            } else if i == pos {
                x
            } else {
                pre[i - 1]
            };
            let b = if j < pos {
                pre[j]
            } else if j == pos {
                x
            } else {
                pre[j - 1]
            };
            assert(v@[i] == a);
            assert(v@[j] == b);
            if i < pos && j == pos {
            } else if i == pos && j > pos {
                if j - 1 > pos {
                    lemma_lex_le_trans(x.name@, pre[pos].name@, pre[j - 1].name@);
                }
            } else if i < pos && j > pos {
            } else {
            }
        }
    }
}

/// A pairwise-distinct list stays distinct when a fresh reference is
/// inserted.
proof fn lemma_distinct_insert(s: Seq<BranchItem>, x: BranchItem, k: int)
    requires
        distinct_refs(s),
        !has_ref(s, x.full_ref@),
        0 <= k <= s.len(),
    ensures
        distinct_refs(s.insert(k, x)),
{
    let t = s.insert(k, x);
    assert forall|i: int, j: int|
        0 <= i < j < t.len() implies (#[trigger] t[i]).full_ref@ != (#[trigger] t[j]).full_ref@ by {
        let a = if i < k {
            s[i]
        } else if i == k {
            x
        } else {
            s[i - 1]
        };
        let b = if j < k {
            s[j]
        } else if j == k {
            x
        } else {
            s[j - 1]
        };
        assert(t[i] == a);
        assert(t[j] == b);
        if i == k {
            assert(s[j - 1].full_ref@ != x.full_ref@) by {
                if s[j - 1].full_ref@ == x.full_ref@ {
                    assert(has_ref(s, x.full_ref@));
                }
            }
        } else if j == k {
            assert(s[i].full_ref@ != x.full_ref@) by {
                if s[i].full_ref@ == x.full_ref@ {
                    assert(has_ref(s, x.full_ref@));
                }
            }
        }
    }
}

/// Normalize a provider's branch listing for display: names trimmed,
/// empties dropped, unknown kinds inferred from the full reference, the
/// current flag granted to the first local branch matching the current
/// name, duplicates by full reference dropped (first wins), and the rest
/// ordered current-local-remote-unknown, each rank by name. Every raw item
/// that survives cleaning is represented by its full reference.
#[verifier::rlimit(100)]
pub fn normalize_branches(items: &Vec<BranchItem>, current: &Option<String>) -> (r: Vec<
    BranchItem,
>)
    ensures
        crate::models::branches_wf(r@),
        norm_sorted(r@),
        forall|k: int|
            0 <= k < r@.len() ==> cleaned_from(
                items@,
                match current {
                    Some(c) => Some(c@),
                    None => None,
                },
                #[trigger] r@[k],
            ),
        forall|j: int|
            0 <= j < items@.len() && cleanable(#[trigger] items@[j]) ==> has_ref(
                r@,
                spec_trim(items@[j].full_ref@),
            ),
{
    let ghost cur: Option<Seq<char>> = match current {
        Some(c) => Some(c@),
        None => None,
    };
    let mut cur_b: Vec<BranchItem> = Vec::new();
    let mut local_b: Vec<BranchItem> = Vec::new();
    let mut remote_b: Vec<BranchItem> = Vec::new();
    let mut unknown_b: Vec<BranchItem> = Vec::new();
    let mut current_taken: bool = false;
    let mut i: usize = 0;
    while i < items.len()
        invariant
            i <= items@.len(),
            cur == (match current {
                Some(c) => Some(c@),
                None => None::<Seq<char>>,
            }),
            cur_b@.len() <= 1,
            cur_b@.len() == 1 ==> current_taken,
            forall|k: int|
                0 <= k < cur_b@.len() ==> cleaned_from(items@, cur, #[trigger] cur_b@[k])
                    && cur_b@[k].current && cur_b@[k].kind is Local,
            forall|k: int|
                0 <= k < local_b@.len() ==> cleaned_from(items@, cur, #[trigger] local_b@[k])
                    && !local_b@[k].current && local_b@[k].kind is Local,
            forall|k: int|
                0 <= k < remote_b@.len() ==> cleaned_from(items@, cur, #[trigger] remote_b@[k])
                    && !remote_b@[k].current && remote_b@[k].kind is Remote,
            forall|k: int|
                0 <= k < unknown_b@.len() ==> cleaned_from(items@, cur, #[trigger] unknown_b@[k])
                    && !unknown_b@[k].current && unknown_b@[k].kind is Unknown,
            sorted_by_name(local_b@),
            sorted_by_name(remote_b@),
            sorted_by_name(unknown_b@),
            distinct_refs(cur_b@ + local_b@ + remote_b@ + unknown_b@),
            forall|j: int|
                0 <= j < i && cleanable(#[trigger] items@[j]) ==> has_ref(
                    cur_b@ + local_b@ + remote_b@ + unknown_b@,
                    spec_trim(items@[j].full_ref@),
                ),
        decreases items@.len() - i,
    {
        let ghost all_pre = cur_b@ + local_b@ + remote_b@ + unknown_b@;
        let it = &items[i];
        let tn = trim(it.name.as_str());
        let tf = trim(it.full_ref.as_str());
        if tn.as_str().unicode_len() > 0 && tf.as_str().unicode_len() > 0 {
            let dup = {
                let d1 = has_ref_vec(&cur_b, tf.as_str());
                let d2 = has_ref_vec(&local_b, tf.as_str());
                let d3 = has_ref_vec(&remote_b, tf.as_str());
                let d4 = has_ref_vec(&unknown_b, tf.as_str());
                d1 || d2 || d3 || d4
            };
            proof {
                if has_ref(all_pre, tf@) {
                    let k = choose|k: int|
                        0 <= k < all_pre.len() && (#[trigger] all_pre[k]).full_ref@ == tf@;
                    if k < cur_b@.len() {
                        assert(cur_b@[k] == all_pre[k]);
                    } else if k < cur_b@.len() + local_b@.len() {
                        assert(local_b@[k - cur_b@.len()] == all_pre[k]);
                    } else if k < cur_b@.len() + local_b@.len() + remote_b@.len() {
                        assert(remote_b@[k - cur_b@.len() - local_b@.len()] == all_pre[k]);
                    } else {
                        assert(unknown_b@[k - cur_b@.len() - local_b@.len() - remote_b@.len()]
                            == all_pre[k]);
                    }
                }
                if has_ref(cur_b@, tf@) || has_ref(local_b@, tf@) || has_ref(remote_b@, tf@)
                    || has_ref(unknown_b@, tf@) {
                    if has_ref(cur_b@, tf@) {
                        let k = choose|k: int|
                            0 <= k < cur_b@.len() && (#[trigger] cur_b@[k]).full_ref@ == tf@;
                        assert(all_pre[k] == cur_b@[k]);
                    } else if has_ref(local_b@, tf@) {
                        let k = choose|k: int|
                            0 <= k < local_b@.len() && (#[trigger] local_b@[k]).full_ref@ == tf@;
                        assert(all_pre[cur_b@.len() + k] == local_b@[k]);
                    } else if has_ref(remote_b@, tf@) {
                        let k = choose|k: int|
                            0 <= k < remote_b@.len() && (#[trigger] remote_b@[k]).full_ref@ == tf@;
                        assert(all_pre[cur_b@.len() + local_b@.len() + k] == remote_b@[k]);
                    } else {
                        let k = choose|k: int|
                            0 <= k < unknown_b@.len() && (#[trigger] unknown_b@[k]).full_ref@
                                == tf@;
                        assert(all_pre[cur_b@.len() + local_b@.len() + remote_b@.len() + k]
                            == unknown_b@[k]);
                    }
                }
                assert(dup == has_ref(all_pre, tf@));
            }
            if !dup {
                let kind: BranchKind = match &it.kind {
                    BranchKind::Local => BranchKind::Local,
                    BranchKind::Remote { remote } => BranchKind::Remote { remote: remote.clone() },
                    BranchKind::Unknown => {
                        if starts_with(tf.as_str(), "refs/heads/") {
                            BranchKind::Local
                        } else if starts_with(tf.as_str(), "refs/remotes/") {
                            proof {
                                reveal_strlit("refs/remotes/");
                            }
                            let tf_len: usize = tf.as_str().unicode_len();
                            let after = substr(tf.as_str(), 13, tf_len);
                            proof {
                                assert(after@ =~= tf@.skip("refs/remotes/"@.len() as int));
                            }
                            let remote = match crate::text::find_char(after.as_str(), 0, '/') {
                                Some(pp) => substr(after.as_str(), 0, pp),
                                None => "unknown".to_owned(),
                            };
                            BranchKind::Remote { remote }
                        } else {
                            BranchKind::Unknown
                        }
                    },
                };
                let is_local = match &kind {
                    BranchKind::Local => true,
                    _ => false,
                };
                let is_current = is_local && !current_taken && (match current {
                    Some(c) => str_eq(tn.as_str(), c.as_str()),
                    None => false,
                });
                let out_item = BranchItem {
                    name: tn,
                    full_ref: tf,
                    kind,
                    current: is_current,
                };
                proof {
                    assert(clean_rel(items@[i as int], out_item, cur));
                }
                if is_current {
                    current_taken = true;
                    let ghost pre = cur_b@;
                    cur_b.push(out_item);
                    proof {
                        assert(cur_b@ == pre.push(out_item));
                        assert(pre.len() == 0);
                        let all_new = cur_b@ + local_b@ + remote_b@ + unknown_b@;
                        assert(all_new =~= all_pre.insert(pre.len() as int, out_item));
                        lemma_distinct_insert(all_pre, out_item, pre.len() as int);
                        assert forall|f: Seq<char>| has_ref(all_pre, f) implies has_ref(
                            all_new,
                            f,
                        ) by {
                            let k = choose|k: int|
                                0 <= k < all_pre.len() && (#[trigger] all_pre[k]).full_ref@ == f;
                            if k < pre.len() {
                                assert(all_new[k] == all_pre[k]);
                            } else {
                                assert(all_new[k + 1] == all_pre[k]);
                            }
                        }
                        assert(all_new[pre.len() as int] == out_item);
                        assert(has_ref(all_new, out_item.full_ref@));
                    }
                } else {
                    let bucket_choice: usize = match &out_item.kind {
                        BranchKind::Local => 1,
                        BranchKind::Remote { .. } => 2,
                        BranchKind::Unknown => 3,
                    };
                    if bucket_choice == 1 {
                        let ghost pre = local_b@;
                        insert_sorted(&mut local_b, out_item);
                        proof {
                            let k = choose|k: int|
                                0 <= k <= pre.len() && local_b@ == pre.insert(k, out_item);
                            let all_new = cur_b@ + local_b@ + remote_b@ + unknown_b@;
                            assert(all_new =~= all_pre.insert(cur_b@.len() + k, out_item));
                            lemma_distinct_insert(all_pre, out_item, cur_b@.len() + k);
                            assert forall|kk: int|
                                0 <= kk < local_b@.len() implies cleaned_from(
                                items@,
                                cur,
                                #[trigger] local_b@[kk],
                            ) && !local_b@[kk].current && local_b@[kk].kind is Local by {
                                if kk < k {
                                    assert(local_b@[kk] == pre[kk]);
                                } else if kk == k {
                                    assert(local_b@[kk] == out_item);
                                } else {
                                    assert(local_b@[kk] == pre[kk - 1]);
                                }
                            }
                            assert forall|f: Seq<char>| has_ref(all_pre, f) implies has_ref(
                                all_new,
                                f,
                            ) by {
                                let kk = choose|kk: int|
                                    0 <= kk < all_pre.len() && (#[trigger] all_pre[kk]).full_ref@
                                        == f;
                                if kk < cur_b@.len() + k {
                                    assert(all_new[kk] == all_pre[kk]);
                                } else {
                                    assert(all_new[kk + 1] == all_pre[kk]);
                                }
                            }
                            assert(all_new[cur_b@.len() + k] == out_item);
                            assert(has_ref(all_new, out_item.full_ref@));
                        }
                    } else if bucket_choice == 2 {
                        let ghost pre = remote_b@;
                        insert_sorted(&mut remote_b, out_item);
                        proof {
                            let k = choose|k: int|
                                0 <= k <= pre.len() && remote_b@ == pre.insert(k, out_item);
                            let all_new = cur_b@ + local_b@ + remote_b@ + unknown_b@;
                            assert(all_new =~= all_pre.insert(
                                cur_b@.len() + local_b@.len() + k,
                                out_item,
                            ));
                            lemma_distinct_insert(
                                all_pre,
                                out_item,
                                cur_b@.len() + local_b@.len() + k,
                            );
                            assert forall|kk: int|
                                0 <= kk < remote_b@.len() implies cleaned_from(
                                items@,
                                cur,
                                #[trigger] remote_b@[kk],
                            ) && !remote_b@[kk].current && remote_b@[kk].kind is Remote by {
                                if kk < k {
                                    assert(remote_b@[kk] == pre[kk]);
                                } else if kk == k {
                                    assert(remote_b@[kk] == out_item);
                                } else {
                                    assert(remote_b@[kk] == pre[kk - 1]);
                                }
                            }
                            assert forall|f: Seq<char>| has_ref(all_pre, f) implies has_ref(
                                all_new,
                                f,
                            ) by {
                                let kk = choose|kk: int|
                                    0 <= kk < all_pre.len() && (#[trigger] all_pre[kk]).full_ref@
                                        == f;
                                if kk < cur_b@.len() + local_b@.len() + k {
                                    assert(all_new[kk] == all_pre[kk]);
                                } else {
                                    assert(all_new[kk + 1] == all_pre[kk]);
                                }
                            }
                            assert(all_new[cur_b@.len() + local_b@.len() + k] == out_item);
                            assert(has_ref(all_new, out_item.full_ref@));
                        }
                    } else {
                        let ghost pre = unknown_b@;
                        insert_sorted(&mut unknown_b, out_item);
                        proof {
                            let k = choose|k: int|
                                0 <= k <= pre.len() && unknown_b@ == pre.insert(k, out_item);
                            let all_new = cur_b@ + local_b@ + remote_b@ + unknown_b@;
                            assert(all_new =~= all_pre.insert(
                                cur_b@.len() + local_b@.len() + remote_b@.len() + k,
                                out_item,
                            ));
                            lemma_distinct_insert(
                                all_pre,
                                out_item,
                                cur_b@.len() + local_b@.len() + remote_b@.len() + k,
                            );
                            assert forall|kk: int|
                                0 <= kk < unknown_b@.len() implies cleaned_from(
                                items@,
                                cur,
                                #[trigger] unknown_b@[kk],
                            ) && !unknown_b@[kk].current && unknown_b@[kk].kind is Unknown by {
                                if kk < k {
                                    assert(unknown_b@[kk] == pre[kk]);
                                } else if kk == k {
                                    assert(unknown_b@[kk] == out_item);
                                } else {
                                    assert(unknown_b@[kk] == pre[kk - 1]);
                                }
                            }
                            assert forall|f: Seq<char>| has_ref(all_pre, f) implies has_ref(
                                all_new,
                                f,
                            ) by {
                                let kk = choose|kk: int|
                                    0 <= kk < all_pre.len() && (#[trigger] all_pre[kk]).full_ref@
                                        == f;
                                if kk < cur_b@.len() + local_b@.len() + remote_b@.len() + k {
                                    assert(all_new[kk] == all_pre[kk]);
                                } else {
                                    assert(all_new[kk + 1] == all_pre[kk]);
                                }
                            }
                            assert(all_new[cur_b@.len() + local_b@.len() + remote_b@.len() + k]
                                == out_item);
                            assert(has_ref(all_new, out_item.full_ref@));
                        }
                    }
                }
            }
        }
        i += 1;
    }
    let ghost final_cur = cur_b@;
    let ghost final_local = local_b@;
    let ghost final_remote = remote_b@;
    let ghost final_unknown = unknown_b@;
    let mut r: Vec<BranchItem> = cur_b;
    r.append(&mut local_b);
    r.append(&mut remote_b);
    r.append(&mut unknown_b);
    proof {
        assert(r@ == final_cur + final_local + final_remote + final_unknown);
        let all = r@;
        assert forall|k: int| 0 <= k < all.len() implies cleaned_from(
            items@,
            cur,
            #[trigger] all[k],
        ) && crate::models::branch_item_wf(all[k]) by {
            let c0 = final_cur.len() as int;
            let c1 = c0 + final_local.len() as int;
            let c2 = c1 + final_remote.len() as int;
            if k < c0 {
                assert(all[k] == final_cur[k]);
            } else if k < c1 {
                assert(all[k] == final_local[k - c0]);
            } else if k < c2 {
                assert(all[k] == final_remote[k - c1]);
            } else {
                assert(all[k] == final_unknown[k - c2]);
            }
            let j = choose|j: int| 0 <= j < items@.len() && clean_rel(#[trigger] items@[j], all[k], cur);
            assert(clean_rel(items@[j], all[k], cur));
        }
        assert forall|a: int, b: int|
            0 <= a < b < all.len() && (#[trigger] all[a]).current implies !(
        #[trigger] all[b]).current by {
            let c0 = final_cur.len() as int;
            let c1 = c0 + final_local.len() as int;
            let c2 = c1 + final_remote.len() as int;
            if b < c0 {
                assert(all[a] == final_cur[a]);
                assert(all[b] == final_cur[b]);
            } else if b < c1 {
                assert(all[b] == final_local[b - c0]);
            } else if b < c2 {
                assert(all[b] == final_remote[b - c1]);
            } else {
                assert(all[b] == final_unknown[b - c2]);
            }
        }
        assert forall|a: int, b: int|
            0 <= a < b < all.len() implies bucket_of(#[trigger] all[a]) < bucket_of(
            #[trigger] all[b],
        ) || (bucket_of(all[a]) == bucket_of(all[b]) && lex_le(all[a].name@, all[b].name@)) by {
            let c0 = final_cur.len() as int;
            let c1 = c0 + final_local.len() as int;
            let c2 = c1 + final_remote.len() as int;
            if a < c0 {
                assert(all[a] == final_cur[a]);
                assert(bucket_of(all[a]) == 0);
            } else if a < c1 {
                assert(all[a] == final_local[a - c0]);
                assert(bucket_of(all[a]) == 1);
            } else if a < c2 {
                assert(all[a] == final_remote[a - c1]);
                assert(bucket_of(all[a]) == 2);
            } else {
                assert(all[a] == final_unknown[a - c2]);
                assert(bucket_of(all[a]) == 3);
            }
            if b < c0 {
                assert(all[b] == final_cur[b]);
                assert(bucket_of(all[b]) == 0);
            } else if b < c1 {
                assert(all[b] == final_local[b - c0]);
                assert(bucket_of(all[b]) == 1);
            } else if b < c2 {
                assert(all[b] == final_remote[b - c1]);
                assert(bucket_of(all[b]) == 2);
            } else {
                assert(all[b] == final_unknown[b - c2]);
                assert(bucket_of(all[b]) == 3);
            }
        }
    }
    r
}


/// `s` with every trailing `.git` removed.
pub open spec fn spec_strip_git_rep(s: Seq<char>) -> Seq<char>
    decreases s.len(),
{
    if s.len() >= 4 && spec_ends_with(s, ".git"@) {
        proof {
            reveal_strlit(".git");
        }
        spec_strip_git_rep(s.subrange(0, s.len() - 4))
    } else {
        s
    }
}

/// The directory a clone of `url` creates: the last path segment, with
/// trailing slashes and a `.git` suffix stripped.
pub open spec fn spec_repo_dir_of_url(url: Seq<char>) -> Seq<char> {
    let t = spec_trim_end_char(url, '/');
    let last = match spec_rfind(t, '/') {
        Some(i) => t.skip(i + 1),
        None => t,
    };
    spec_strip_git_rep(last)
}

/// Infer the target directory name of a clone from its URL.
pub fn infer_repo_dir_from_url(url: &str) -> (r: String)
    ensures
        r@ == spec_repo_dir_of_url(url@),
{
    let n: usize = url.unicode_len();
    let mut j: usize = n;
    while j > 0 && crate::text::char_at(url, j - 1) == '/'
        invariant
            0 <= j <= n,
            n == url@.len(),
            forall|k: int| j <= k < n ==> url@[k] == '/',
        decreases j,
    {
        j -= 1;
    }
    proof {
        lemma_trim_end_char_characterization(url@, '/', j as int);
    }
    let t = substr(url, 0, j);
    let last: String = match rfind_char(t.as_str(), '/') {
        Some(i) => {
            let tl: usize = t.as_str().unicode_len();
            let piece = substr(t.as_str(), i + 1, tl);
            proof {
                assert(piece@ =~= t@.skip(i as int + 1));
            }
            piece
        },
        None => t,
    };
    let mut cur = last;
    let ghost target = spec_strip_git_rep(cur@);
    proof {
        assert(target == spec_repo_dir_of_url(url@));
    }
    loop
        invariant
            spec_strip_git_rep(cur@) == target,
            target == spec_repo_dir_of_url(url@),
        decreases cur@.len(),
    {
        let cl: usize = cur.as_str().unicode_len();
        if cl >= 4 && ends_with(cur.as_str(), ".git") {
            proof {
                reveal_strlit(".git");
            }
            cur = substr(cur.as_str(), 0, cl - 4);
        } else {
            proof {
                assert(spec_strip_git_rep(cur@) == cur@);
            }
            return cur;
        }
    }
}

/// Join a commit summary and description: the summary alone when the
/// description is blank, else both separated by a blank line.
pub fn join_message(summary: &str, description: &str) -> (r: String)
    ensures
        r@ == if spec_trim(description@).len() == 0 {
            summary@
        } else {
            summary@ + "\n\n"@ + description@
        },
{
    let td = trim(description);
    if td.as_str().unicode_len() == 0 {
        summary.to_owned()
    } else {
        summary.to_owned().concat("\n\n").concat(description)
    }
}

/// The identity a commit is written under: the repository's own identity
/// first, then the caller's environment pair when both halves are
/// non-empty, then the application fallback.
pub fn choose_identity(
    repo_identity: Option<(String, String)>,
    env_name: Option<String>,
    env_email: Option<String>,
) -> (r: (String, String))
    ensures
        match repo_identity {
            Some(p) => r.0@ == p.0@ && r.1@ == p.1@,
            None => {
                match (env_name, env_email) {
                    (Some(n), Some(e)) => {
                        if n@.len() > 0 && e@.len() > 0 {
                            r.0@ == n@ && r.1@ == e@
                        } else {
                            r.0@ == "OpenVCS"@ && r.1@ == "openvcs@example"@
                        }
                    },
                    _ => r.0@ == "OpenVCS"@ && r.1@ == "openvcs@example"@,
                }
            },
        },
{
    match repo_identity {
        Some(p) => p,
        None => {
            match (env_name, env_email) {
                (Some(n), Some(e)) => {
                    if n.as_str().unicode_len() > 0 && e.as_str().unicode_len() > 0 {
                        (n, e)
                    } else {
                        ("OpenVCS".to_owned(), "openvcs@example".to_owned())
                    }
                },
                _ => ("OpenVCS".to_owned(), "openvcs@example".to_owned()),
            }
        },
    }
}

/// The history query the log command issues: newest first from HEAD, in
/// topological order, merges included, the limit defaulted to 100 and
/// capped at 1000.
pub fn git_log_query(limit: Option<u32>) -> (q: LogQuery)
    ensures
        q.rev is None,
        q.path is None,
        q.since_utc is None,
        q.until_utc is None,
        q.author_contains is None,
        q.skip == 0,
        q.limit == (match limit {
            Some(l) => if l > 1000 {
                1000u32
            } else {
                l
            },
            None => 100u32,
        }),
        q.topo_order,
        q.include_merges,
{
    let l: u32 = match limit {
        Some(l) => if l > 1000 {
            1000
        } else {
            l
        },
        None => 100,
    };
    LogQuery {
        rev: None,
        path: None,
        since_utc: None,
        until_utc: None,
        author_contains: None,
        skip: 0,
        limit: l,
        topo_order: true,
        include_merges: true,
    }
}

} // verus!
