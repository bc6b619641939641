//! Verified parsing of the `git` command-line output the system provider
//! consumes: porcelain v2 status records, `for-each-ref` listings, NUL-field
//! log lines, ahead/behind counts, and remote and identity listings.

use vstd::prelude::*;
use crate::text::{
    all_digits, char_at, digits_val, ends_with, find_char, is_space, is_ws, lines_of, parse_u32, split_char,
    spec_ends_with, spec_find, spec_lines, spec_split, spec_starts_with, spec_trim, starts_with, str_eq,
    substr, trim, views,
};

verus! {

/// Length of the run of non-whitespace characters at the front of `s`.
pub open spec fn token_len(s: Seq<char>) -> int
    decreases s.len(),
{
    if s.len() == 0 {
        0
    } else if is_ws(s[0]) {
        0
    } else {
        1 + token_len(s.drop_first())
    }
}

pub proof fn lemma_token_len_characterization(s: Seq<char>, i: int)
    requires
        0 <= i <= s.len(),
        forall|k: int| 0 <= k < i ==> !is_ws(s[k]),
        i == s.len() || is_ws(s[i]),
    ensures
        token_len(s) == i,
    decreases s.len(),
{
    if s.len() > 0 && !is_ws(s[0]) {
        assert(i > 0);
        let t = s.drop_first();
        assert(forall|k: int| 0 <= k < i - 1 ==> !is_ws(#[trigger] t[k]));
        lemma_token_len_characterization(t, i - 1);
    }
}

pub proof fn lemma_token_len_bounds(s: Seq<char>)
    ensures
        0 <= token_len(s) <= s.len(),
        s.len() > 0 && !is_ws(s[0]) ==> token_len(s) >= 1,
    decreases s.len(),
{
    if s.len() > 0 && !is_ws(s[0]) {
        lemma_token_len_bounds(s.drop_first());
    }
}

/// The whitespace-separated tokens of `s`, as `str::split_whitespace`.
pub open spec fn spec_tokens(s: Seq<char>) -> Seq<Seq<char>>
    decreases s.len(),
{
    if s.len() == 0 {
        Seq::empty()
    } else if is_ws(s[0]) {
        spec_tokens(s.drop_first())
    } else {
        let k = token_len(s);
        proof {
            lemma_token_len_bounds(s);
        }
        seq![s.subrange(0, k)] + spec_tokens(s.subrange(k, s.len() as int))
    }
}

/// Split `s` into its whitespace-separated tokens.
pub fn tokens_of(s: &str) -> (r: Vec<String>)
    ensures
        views(r@) == spec_tokens(s@),
{
    let n: usize = s.unicode_len();
    let mut out: Vec<String> = Vec::new();
    let mut pos: usize = 0;
    proof {
        assert(s@.subrange(0, n as int) =~= s@);
        assert(views(out@) + spec_tokens(s@) =~= spec_tokens(s@));
    }
    while pos < n
        invariant
            pos <= n,
            n == s@.len(),
            spec_tokens(s@) == views(out@) + spec_tokens(s@.subrange(pos as int, n as int)),
        decreases n - pos,
    {
        let ghost t = s@.subrange(pos as int, n as int);
        if is_space(char_at(s, pos)) {
            proof {
                assert(t.drop_first() =~= s@.subrange(pos as int + 1, n as int));
            }
            pos += 1;
        } else {
            let mut j: usize = pos + 1;
            while j < n && !is_space(char_at(s, j))
                invariant
                    pos < j <= n,
                    n == s@.len(),
                    forall|k: int| pos <= k < j ==> !is_ws(s@[k]),
                decreases n - j,
            {
                j += 1;
            }
            let piece = substr(s, pos, j);
            proof {
                assert(forall|k: int| 0 <= k < j - pos ==> !is_ws(t[k]));
                lemma_token_len_characterization(t, j as int - pos as int);
                assert(t.subrange(0, j as int - pos as int) =~= piece@);
                assert(t.subrange(j as int - pos as int, t.len() as int) =~= s@.subrange(
                    j as int,
                    n as int,
                ));
                assert(views(out@.push(piece)) =~= views(out@).push(piece@));
                assert(views(out@).push(piece@) + spec_tokens(s@.subrange(j as int, n as int)) =~=
                    views(out@) + spec_tokens(t));
            }
            out.push(piece);
            pos = j;
        }
    }
    proof {
        assert(views(out@) + spec_tokens(s@.subrange(pos as int, n as int)) =~= views(out@));
    }
    out
}

/// `rev-parse --abbrev-ref HEAD` output: the short branch name, or `None`
/// when the trimmed output is the literal `HEAD` (detached).
pub fn parse_current_branch(out: &str) -> (r: Option<String>)
    ensures
        ({
            let t = spec_trim(out@);
            match r {
                Some(name) => name@ == t && t != "HEAD"@,
                None => t == "HEAD"@,
            }
        }),
{
    let t = trim(out);
    if str_eq(t.as_str(), "HEAD") {
        None
    } else {
        Some(t)
    }
}

/// `rev-list --left-right --count @{upstream}...HEAD` output: the pair
/// `(behind, ahead)`; a missing or malformed count reads as 0.
pub fn parse_ahead_behind(out: &str) -> (r: (u32, u32))
    ensures
        ({
            let toks = spec_tokens(out@);
            let behind = if toks.len() >= 1 && toks[0].len() > 0 && all_digits(toks[0])
                && digits_val(toks[0]) <= u32::MAX as int {
                digits_val(toks[0])
            } else {
                0
            };
            let ahead = if toks.len() >= 2 && toks[1].len() > 0 && all_digits(toks[1])
                && digits_val(toks[1]) <= u32::MAX as int {
                digits_val(toks[1])
            } else {
                0
            };
            r.0 == ahead && r.1 == behind
        }),
{
    let toks = tokens_of(out);
    proof {
        assert(toks@.len() == spec_tokens(out@).len());
        if toks@.len() >= 1 {
            assert(views(toks@)[0] == toks@[0]@);
            if all_digits(toks@[0]@) {
                crate::text::lemma_digits_val_nonneg(toks@[0]@);
            }
        }
        if toks@.len() >= 2 {
            assert(views(toks@)[1] == toks@[1]@);
            if all_digits(toks@[1]@) {
                crate::text::lemma_digits_val_nonneg(toks@[1]@);
            }
        }
    }
    let mut behind: u32 = 0;
    let mut ahead: u32 = 0;
    if toks.len() >= 1 {
        match parse_u32(toks[0].as_str()) {
            Some(v) => {
                behind = v;
            },
            None => {},
        }
    }
    if toks.len() >= 2 {
        match parse_u32(toks[1].as_str()) {
            Some(v) => {
                ahead = v;
            },
            None => {},
        }
    }
    (ahead, behind)
}

/// The trimmed, non-empty lines of `s`: the shape of `git remote` and
/// `for-each-ref --format=%(refname:short)` output.
pub open spec fn spec_clean_lines(lines: Seq<Seq<char>>) -> Seq<Seq<char>>
    decreases lines.len(),
{
    if lines.len() == 0 {
        Seq::empty()
    } else {
        let t = spec_trim(lines[0]);
        if t.len() > 0 {
            seq![t] + spec_clean_lines(lines.drop_first())
        } else {
            spec_clean_lines(lines.drop_first())
        }
    }
}

/// Each line trimmed, empty lines dropped.
pub fn clean_lines(out: &str) -> (r: Vec<String>)
    ensures
        views(r@) == spec_clean_lines(spec_lines(out@)),
{
    let ls = lines_of(out);
    let mut out_v: Vec<String> = Vec::new();
    let mut i: usize = 0;
    proof {
        assert(views(ls@).subrange(0, views(ls@).len() as int) =~= views(ls@));
        assert(views(out_v@) + spec_clean_lines(views(ls@)) =~= spec_clean_lines(views(ls@)));
    }
    while i < ls.len()
        invariant
            i <= ls.len(),
            spec_clean_lines(views(ls@)) == views(out_v@) + spec_clean_lines(
                views(ls@).subrange(i as int, views(ls@).len() as int),
            ),
            views(ls@).len() == ls@.len(),
        decreases ls.len() - i,
    {
        let ghost rem = views(ls@).subrange(i as int, views(ls@).len() as int);
        proof {
            assert(rem[0] == views(ls@)[i as int]);
            assert(rem.drop_first() =~= views(ls@).subrange(i as int + 1, views(ls@).len() as int));
        }
        let t = trim(ls[i].as_str());
        if t.unicode_len() > 0 {
            proof {
                assert(views(out_v@.push(t)) =~= views(out_v@).push(t@));
                assert(views(out_v@).push(t@) + spec_clean_lines(rem.drop_first()) =~= views(
                    out_v@,
                ) + spec_clean_lines(rem));
            }
            out_v.push(t);
        } else {
            proof {
                assert(spec_clean_lines(rem) == spec_clean_lines(rem.drop_first()));
            }
        }
        i += 1;
    }
    proof {
        assert(views(ls@).subrange(ls@.len() as int, views(ls@).len() as int) =~= Seq::<
            Seq<char>,
        >::empty());
        assert(views(out_v@) + spec_clean_lines(Seq::<Seq<char>>::empty()) =~= views(out_v@));
    }
    out_v
}

/// Repository identity from two `git config --get` captures: present only
/// when both captures succeeded and are non-empty once trimmed.
pub fn identity_from_outputs(name_out: Option<&str>, email_out: Option<&str>) -> (r: Option<
    (String, String),
>)
    ensures
        ({
            match (name_out, email_out) {
                (Some(n), Some(e)) => {
                    let tn = spec_trim(n@);
                    let te = spec_trim(e@);
                    if tn.len() > 0 && te.len() > 0 {
                        r matches Some(p) && p.0@ == tn && p.1@ == te
                    } else {
                        r is None
                    }
                },
                _ => r is None,
            }
        }),
{
    match (name_out, email_out) {
        (Some(n), Some(e)) => {
            let tn = trim(n);
            let te = trim(e);
            if tn.unicode_len() > 0 && te.unicode_len() > 0 {
                Some((tn, te))
            } else {
                None
            }
        },
        _ => None,
    }
}


/// The last whitespace-separated token of a line; porcelain records put the
/// path there.
pub open spec fn last_token(l: Seq<char>) -> Seq<char> {
    let toks = spec_tokens(l);
    if toks.len() > 0 {
        toks.last()
    } else {
        Seq::empty()
    }
}

pub fn last_token_of(l: &str) -> (r: String)
    ensures
        r@ == last_token(l@),
{
    let toks = tokens_of(l);
    if toks.len() > 0 {
        let r = toks[toks.len() - 1].clone();
        proof {
            assert(views(toks@)[toks@.len() - 1] == toks@[toks@.len() - 1]@);
        }
        r
    } else {
        String::new()
    }
}

/// Porcelain v2 record kinds, told apart by the first two characters.
pub open spec fn line_is_untracked(l: Seq<char>) -> bool {
    l.len() >= 2 && l[0] == '?' && l[1] == ' '
}

pub open spec fn line_is_ordinary(l: Seq<char>) -> bool {
    l.len() >= 4 && l[0] == '1' && l[1] == ' '
}

pub open spec fn line_is_rename(l: Seq<char>) -> bool {
    l.len() >= 2 && l[0] == '2' && l[1] == ' '
}

pub open spec fn line_is_conflict(l: Seq<char>) -> bool {
    l.len() >= 2 && l[0] == 'u' && l[1] == ' '
}

/// An `X` or `Y` showing no change; porcelain v2 writes `.` for it.
pub open spec fn is_unchanged_code(c: char) -> bool {
    c == '.' || c == ' '
}

/// `XY` codes of an ordinary record that count as working-tree modifications.
pub open spec fn sum_code_modified(x: char, y: char) -> bool {
    ||| (is_unchanged_code(x) && (y == 'M' || y == 'T' || y == 'D'))
    ||| (x == 'M' && (y == 'M' || y == 'T' || y == 'D'))
    ||| (x == 'A' && (y == 'M' || y == 'T'))
}

/// `XY` codes of an ordinary record that count as staged.
pub open spec fn sum_code_staged(x: char, y: char) -> bool {
    (x == 'M' || x == 'T' || x == 'A') && is_unchanged_code(y)
}

/// Counts `(untracked, modified, staged, conflicted)` over status lines.
pub open spec fn spec_status_summary(lines: Seq<Seq<char>>) -> (int, int, int, int)
    decreases lines.len(),
{
    if lines.len() == 0 {
        (0, 0, 0, 0)
    } else {
        let rest = spec_status_summary(lines.drop_first());
        let l = lines[0];
        if line_is_untracked(l) {
            (rest.0 + 1, rest.1, rest.2, rest.3)
        } else if line_is_ordinary(l) {
            if sum_code_modified(l[2], l[3]) {
                (rest.0, rest.1 + 1, rest.2, rest.3)
            } else if sum_code_staged(l[2], l[3]) {
                (rest.0, rest.1, rest.2 + 1, rest.3)
            } else {
                rest
            }
        } else if line_is_conflict(l) {
            (rest.0, rest.1, rest.2, rest.3 + 1)
        } else {
            rest
        }
    }
}

/// Derive the status counters from `status --porcelain=v2` output.
pub fn parse_status_summary(out: &str) -> (r: crate::models::StatusSummary)
    ensures
        ({
            let t = spec_status_summary(spec_lines(out@));
            r.untracked == t.0 && r.modified == t.1 && r.staged == t.2 && r.conflicted == t.3
        }),
{
    let ls = lines_of(out);
    let mut r = crate::models::StatusSummary::new();
    let mut i: usize = 0;
    proof {
        assert(views(ls@).subrange(0, views(ls@).len() as int) =~= views(ls@));
    }
    while i < ls.len()
        invariant
            i <= ls.len(),
            views(ls@).len() == ls@.len(),
            r.untracked <= i && r.modified <= i && r.staged <= i && r.conflicted <= i,
            ({
                let rem = spec_status_summary(
                    views(ls@).subrange(i as int, views(ls@).len() as int),
                );
                let t = spec_status_summary(views(ls@));
                r.untracked + rem.0 == t.0 && r.modified + rem.1 == t.1 && r.staged + rem.2 == t.2
                    && r.conflicted + rem.3 == t.3
            }),
        decreases ls.len() - i,
    {
        let ghost remv = views(ls@).subrange(i as int, views(ls@).len() as int);
        proof {
            assert(remv[0] == views(ls@)[i as int]);
            assert(remv.drop_first() =~= views(ls@).subrange(i as int + 1, views(ls@).len() as int));
        }
        let l = ls[i].as_str();
        let n: usize = l.unicode_len();
        if n >= 2 {
            let c0 = char_at(l, 0);
            let c1 = char_at(l, 1);
            if c0 == '?' && c1 == ' ' {
                r.untracked += 1;
            } else if c0 == '1' && c1 == ' ' && n >= 4 {
                let x = char_at(l, 2);
                let y = char_at(l, 3);
                if ((x == '.' || x == ' ') && (y == 'M' || y == 'T' || y == 'D')) || (x == 'M' && (
                y == 'M' || y == 'T' || y == 'D')) || (x == 'A' && (y == 'M' || y == 'T')) {
                    r.modified += 1;
                } else if (x == 'M' || x == 'T' || x == 'A') && (y == '.' || y == ' ') {
                    r.staged += 1;
                }
            } else if c0 == 'u' && c1 == ' ' {
                r.conflicted += 1;
            }
        }
        i += 1;
    }
    proof {
        assert(views(ls@).subrange(ls@.len() as int, views(ls@).len() as int) =~= Seq::<
            Seq<char>,
        >::empty());
    }
    r
}

/// Status letter of an ordinary record: deletion beats modification, and
/// addition applies only when the record is otherwise unclassified;
/// anything else reads as modified.
pub open spec fn xy_status(x: char, y: char) -> Seq<char> {
    if x == 'D' || y == 'D' {
        seq!['D']
    } else if x == 'M' || x == 'T' || y == 'M' || y == 'T' {
        seq!['M']
    } else if x == 'A' || y == 'A' {
        seq!['A']
    } else {
        seq!['M']
    }
}

/// A rename record carries `<newPath>\t<origPath>` after its fields; the
/// part before the tab holds the new path.
pub open spec fn before_tab(l: Seq<char>) -> Seq<char> {
    match spec_find(l, 0, '\t') {
        Some(i) => l.subrange(0, i),
        None => l,
    }
}

/// The `(path, status)` pair a status line contributes, if any. A rename
/// record names the new path.
pub open spec fn line_entry(l: Seq<char>) -> Option<(Seq<char>, Seq<char>)> {
    if line_is_untracked(l) {
        Some((last_token(l), seq!['A']))
    } else if line_is_ordinary(l) {
        Some((last_token(l), xy_status(l[2], l[3])))
    } else if line_is_rename(l) {
        Some((last_token(before_tab(l)), seq!['R']))
    } else if line_is_conflict(l) {
        Some((last_token(l), seq!['U']))
    } else {
        None
    }
}

/// The `(path, status)` pairs of a whole status listing, in order.
pub open spec fn spec_payload_entries(lines: Seq<Seq<char>>) -> Seq<(Seq<char>, Seq<char>)>
    decreases lines.len(),
{
    if lines.len() == 0 {
        Seq::empty()
    } else {
        match line_entry(lines[0]) {
            Some(e) => seq![e] + spec_payload_entries(lines.drop_first()),
            None => spec_payload_entries(lines.drop_first()),
        }
    }
}

/// View of produced file entries as `(path, status)` pairs.
pub open spec fn entry_views(v: Seq<crate::models::FileEntry>) -> Seq<(Seq<char>, Seq<char>)> {
    v.map_values(|f: crate::models::FileEntry| (f.path@, f.status@))
}

/// Every status a listing contributes is one of the five letters.
pub proof fn lemma_payload_statuses(lines: Seq<Seq<char>>)
    ensures
        forall|j: int|
            0 <= j < spec_payload_entries(lines).len() ==> crate::models::status_letter_wf(
                #[trigger] spec_payload_entries(lines)[j].1,
            ),
    decreases lines.len(),
{
    if lines.len() > 0 {
        lemma_payload_statuses(lines.drop_first());
        let rest = spec_payload_entries(lines.drop_first());
        match line_entry(lines[0]) {
            Some(e) => {
                assert(spec_payload_entries(lines) == seq![e] + rest);
                assert forall|j: int|
                    0 <= j < spec_payload_entries(lines).len() implies crate::models::status_letter_wf(
                    spec_payload_entries(lines)[j].1,
                ) by {
                    if j == 0 {
                        assert(spec_payload_entries(lines)[0] == e);
                    } else {
                        assert(spec_payload_entries(lines)[j] == rest[j - 1]);
                    }
                }
            },
            None => {
            },
        }
    }
}

/// Parse the file entries of `status --porcelain=v2` output. Every entry
/// carries exactly one of the five status letters and no hunks.
pub fn parse_status_files(out: &str) -> (r: Vec<crate::models::FileEntry>)
    ensures
        entry_views(r@) == spec_payload_entries(spec_lines(out@)),
        forall|j: int|
            0 <= j < r@.len() ==> crate::models::status_letter_wf((#[trigger] r@[j]).status@),
        forall|j: int| 0 <= j < r@.len() ==> (#[trigger] r@[j]).hunks@.len() == 0,
{
    let ls = lines_of(out);
    let mut out_v: Vec<crate::models::FileEntry> = Vec::new();
    let mut i: usize = 0;
    proof {
        assert(views(ls@).subrange(0, views(ls@).len() as int) =~= views(ls@));
        assert(entry_views(out_v@) + spec_payload_entries(views(ls@)) =~= spec_payload_entries(
            views(ls@),
        ));
    }
    while i < ls.len()
        invariant
            i <= ls.len(),
            views(ls@).len() == ls@.len(),
            spec_payload_entries(views(ls@)) == entry_views(out_v@) + spec_payload_entries(
                views(ls@).subrange(i as int, views(ls@).len() as int),
            ),
            forall|j: int|
                0 <= j < out_v@.len() ==> crate::models::status_letter_wf(
                    (#[trigger] out_v@[j]).status@,
                ),
            forall|j: int| 0 <= j < out_v@.len() ==> (#[trigger] out_v@[j]).hunks@.len() == 0,
        decreases ls.len() - i,
    {
        let ghost remv = views(ls@).subrange(i as int, views(ls@).len() as int);
        proof {
            assert(remv[0] == views(ls@)[i as int]);
            assert(remv.drop_first() =~= views(ls@).subrange(i as int + 1, views(ls@).len() as int));
        }
        let l = ls[i].as_str();
        let n: usize = l.unicode_len();
        let mut status: Option<String> = None;
        if n >= 2 {
            let c0 = char_at(l, 0);
            let c1 = char_at(l, 1);
            if c0 == '?' && c1 == ' ' {
                status = Some(String::from_str("A"));
            } else if c0 == '1' && c1 == ' ' && n >= 4 {
                let x = char_at(l, 2);
                let y = char_at(l, 3);
                if x == 'D' || y == 'D' {
                    status = Some(String::from_str("D"));
                } else if x == 'M' || x == 'T' || y == 'M' || y == 'T' {
                    status = Some(String::from_str("M"));
                } else if x == 'A' || y == 'A' {
                    status = Some(String::from_str("A"));
                } else {
                    status = Some(String::from_str("M"));
                }
            } else if c0 == '2' && c1 == ' ' {
                status = Some(String::from_str("R"));
            } else if c0 == 'u' && c1 == ' ' {
                status = Some(String::from_str("U"));
            }
        }
        match status {
            Some(st) => {
                let head_part: String = match find_char(l, 0, '\t') {
                    Some(t) => substr(l, 0, t),
                    None => substr(l, 0, n),
                };
                proof {
                    assert(before_tab(l@) == head_part@) by {
                        if spec_find(l@, 0, '\t') is None {
                            assert(l@.subrange(0, n as int) =~= l@);
                        }
                    }
                }
                let path: String = if n >= 2 && char_at(l, 0) == '2' && char_at(l, 1) == ' ' {
                    last_token_of(head_part.as_str())
                } else {
                    last_token_of(l)
                };
                proof {
                    reveal_strlit("A");
                    reveal_strlit("D");
                    reveal_strlit("M");
                    reveal_strlit("R");
                    reveal_strlit("U");
                    assert(line_entry(remv[0]) == Some((path@, st@)));
                }
                let fe = crate::models::FileEntry { path, status: st, hunks: Vec::new() };
                proof {
                    assert(entry_views(out_v@.push(fe)) =~= entry_views(out_v@).push(
                        (fe.path@, fe.status@),
                    ));
                    assert(entry_views(out_v@).push((fe.path@, fe.status@))
                        + spec_payload_entries(remv.drop_first()) =~= entry_views(out_v@)
                        + spec_payload_entries(remv));
                }
                out_v.push(fe);
            },
            None => {
                proof {
                    assert(line_entry(remv[0]) is None);
                    assert(spec_payload_entries(remv) == spec_payload_entries(remv.drop_first()));
                }
            },
        }
        i += 1;
    }
    proof {
        assert(views(ls@).subrange(ls@.len() as int, views(ls@).len() as int) =~= Seq::<
            Seq<char>,
        >::empty());
        assert(entry_views(out_v@) + spec_payload_entries(Seq::<Seq<char>>::empty())
            =~= entry_views(out_v@));
    }
    out_v
}


/// Every whitespace-separated token is non-empty.
pub proof fn lemma_tokens_nonempty(s: Seq<char>)
    ensures
        forall|j: int|
            0 <= j < spec_tokens(s).len() ==> (#[trigger] spec_tokens(s)[j]).len() > 0,
    decreases s.len(),
{
    if s.len() > 0 {
        if is_ws(s[0]) {
            lemma_tokens_nonempty(s.drop_first());
            assert(spec_tokens(s) == spec_tokens(s.drop_first()));
        } else {
            lemma_token_len_bounds(s);
            let k = token_len(s);
            lemma_tokens_nonempty(s.subrange(k, s.len() as int));
            assert forall|j: int|
                0 <= j < spec_tokens(s).len() implies (#[trigger] spec_tokens(s)[j]).len()
                > 0 by {
                assert(spec_tokens(s) == seq![s.subrange(0, k)] + spec_tokens(
                    s.subrange(k, s.len() as int),
                ));
                if j == 0 {
                    assert(spec_tokens(s)[0] == s.subrange(0, k));
                } else {
                    assert(spec_tokens(s)[j] == spec_tokens(s.subrange(k, s.len() as int))[j - 1]);
                }
            }
        }
    }
}

/// What a `for-each-ref --format="%(refname) %(refname:short) %(HEAD)"`
/// line contributes: `(name, full_ref, is_remote, remote, current)`. The
/// current flag falls on a starred local line only while no earlier line
/// carried it.
pub open spec fn branch_line(l: Seq<char>, seen: bool) -> Option<
    (Seq<char>, Seq<char>, bool, Seq<char>, bool),
> {
    let toks = spec_tokens(l);
    if toks.len() < 2 {
        None
    } else {
        let full = toks[0];
        let short = toks[1];
        let flag = if toks.len() >= 3 {
            toks[2]
        } else {
            Seq::<char>::empty()
        };
        if spec_starts_with(full, "refs/heads/"@) {
            Some((short, full, false, Seq::empty(), flag == seq!['*'] && !seen))
        } else if spec_starts_with(full, "refs/remotes/"@) {
            if spec_ends_with(full, "/HEAD"@) {
                None
            } else {
                let after = full.skip("refs/remotes/"@.len() as int);
                let remote = match spec_find(after, 0, '/') {
                    Some(i) => after.subrange(0, i),
                    None => after,
                };
                Some((short, full, true, remote, false))
            }
        } else {
            None
        }
    }
}

/// The branch tuples of a whole listing, in order, with the current flag
/// granted at most once.
pub open spec fn spec_branch_lines(lines: Seq<Seq<char>>, seen: bool) -> Seq<
    (Seq<char>, Seq<char>, bool, Seq<char>, bool),
>
    decreases lines.len(),
{
    if lines.len() == 0 {
        Seq::empty()
    } else {
        match branch_line(lines[0], seen) {
            Some(e) => seq![e] + spec_branch_lines(lines.drop_first(), seen || e.4),
            None => spec_branch_lines(lines.drop_first(), seen),
        }
    }
}

/// View of a produced branch item as a plain tuple.
pub open spec fn branch_view(b: crate::models::BranchItem) -> (
    Seq<char>,
    Seq<char>,
    bool,
    Seq<char>,
    bool,
) {
    (
        b.name@,
        b.full_ref@,
        b.kind is Remote,
        match b.kind {
            crate::models::BranchKind::Remote { remote } => remote@,
            _ => Seq::empty(),
        },
        b.current,
    )
}

pub open spec fn branch_views(v: Seq<crate::models::BranchItem>) -> Seq<
    (Seq<char>, Seq<char>, bool, Seq<char>, bool),
> {
    v.map_values(|b: crate::models::BranchItem| branch_view(b))
}

/// Parse the unified branch listing the system provider asks
/// `for-each-ref` for. Local refs carry the head flag, granted at most
/// once; remote refs drop the `HEAD` alias and name their remote; anything
/// else is skipped. The result is well formed.
pub fn parse_branches(out: &str) -> (r: Vec<crate::models::BranchItem>)
    ensures
        branch_views(r@) == spec_branch_lines(spec_lines(out@), false),
        forall|j: int| 0 <= j < r@.len() ==> crate::models::branch_item_wf(#[trigger] r@[j]),
        forall|i: int, j: int|
            0 <= i < j < r@.len() && (#[trigger] r@[i]).current ==> !(#[trigger] r@[j]).current,
{
    let ls = lines_of(out);
    let mut out_v: Vec<crate::models::BranchItem> = Vec::new();
    let mut seen_star: bool = false;
    let mut i: usize = 0;
    proof {
        assert(views(ls@).subrange(0, views(ls@).len() as int) =~= views(ls@));
        assert(branch_views(out_v@) + spec_branch_lines(views(ls@), false) =~= spec_branch_lines(
            views(ls@),
            false,
        ));
    }
    while i < ls.len()
        invariant
            i <= ls.len(),
            views(ls@).len() == ls@.len(),
            spec_branch_lines(views(ls@), false) == branch_views(out_v@) + spec_branch_lines(
                views(ls@).subrange(i as int, views(ls@).len() as int),
                seen_star,
            ),
            forall|j: int|
                0 <= j < out_v@.len() ==> crate::models::branch_item_wf(#[trigger] out_v@[j]),
            forall|j: int| 0 <= j < out_v@.len() ==> ((#[trigger] out_v@[j]).current ==> seen_star),
            forall|i2: int, j2: int|
                0 <= i2 < j2 < out_v@.len() && (#[trigger] out_v@[i2]).current ==> !(
                #[trigger] out_v@[j2]).current,
        decreases ls.len() - i,
    {
        let ghost remv = views(ls@).subrange(i as int, views(ls@).len() as int);
        proof {
            assert(remv[0] == views(ls@)[i as int]);
            assert(remv.drop_first() =~= views(ls@).subrange(i as int + 1, views(ls@).len() as int));
            lemma_tokens_nonempty(remv[0]);
        }
        let l = ls[i].as_str();
        let toks = tokens_of(l);
        proof {
            assert(toks@.len() == spec_tokens(l@).len());
            if toks@.len() >= 1 {
                assert(views(toks@)[0] == toks@[0]@);
            }
            if toks@.len() >= 2 {
                assert(views(toks@)[1] == toks@[1]@);
            }
            if toks@.len() >= 3 {
                assert(views(toks@)[2] == toks@[2]@);
            }
        }
        let mut item: Option<crate::models::BranchItem> = None;
        if toks.len() >= 2 {
            let full = toks[0].as_str();
            let short = toks[1].clone();
            if starts_with(full, "refs/heads/") {
                let starred = if toks.len() >= 3 {
                    str_eq(toks[2].as_str(), "*")
                } else {
                    false
                };
                proof {
                    reveal_strlit("*");
                    assert(seq!['*'] =~= "*"@);
                    if toks@.len() < 3 {
                        assert(Seq::<char>::empty() != seq!['*']);
                    }
                }
                let current = starred && !seen_star;
                item = Some(
                    crate::models::BranchItem {
                        name: short,
                        full_ref: toks[0].clone(),
                        kind: crate::models::BranchKind::Local,
                        current,
                    },
                );
            } else if starts_with(full, "refs/remotes/") {
                if !ends_with(full, "/HEAD") {
                    proof {
                        reveal_strlit("refs/remotes/");
                    }
                    let flen: usize = full.unicode_len();
                    let after = substr(full, 13, flen);
                    proof {
                        assert(after@ =~= full@.skip("refs/remotes/"@.len() as int));
                    }
                    let remote = match find_char(after.as_str(), 0, '/') {
                        Some(p) => substr(after.as_str(), 0, p),
                        None => after.clone(),
                    };
                    item = Some(
                        crate::models::BranchItem {
                            name: short,
                            full_ref: toks[0].clone(),
                            kind: crate::models::BranchKind::Remote { remote },
                            current: false,
                        },
                    );
                }
            }
        }
        match item {
            Some(b) => {
                proof {
                    assert(branch_line(remv[0], seen_star) == Some(branch_view(b)));
                    assert(branch_views(out_v@.push(b)) =~= branch_views(out_v@).push(
                        branch_view(b),
                    ));
                    assert(branch_views(out_v@).push(branch_view(b)) + spec_branch_lines(
                        remv.drop_first(),
                        seen_star || b.current,
                    ) =~= branch_views(out_v@) + spec_branch_lines(remv, seen_star));
                }
                if b.current {
                    seen_star = true;
                }
                out_v.push(b);
            },
            None => {
                proof {
                    assert(branch_line(remv[0], seen_star) is None);
                    assert(spec_branch_lines(remv, seen_star) == spec_branch_lines(
                        remv.drop_first(),
                        seen_star,
                    ));
                }
            },
        }
        i += 1;
    }
    proof {
        assert(views(ls@).subrange(ls@.len() as int, views(ls@).len() as int) =~= Seq::<
            Seq<char>,
        >::empty());
        assert(branch_views(out_v@) + spec_branch_lines(Seq::<Seq<char>>::empty(), seen_star)
            =~= branch_views(out_v@));
    }
    out_v
}

/// At most the first seven characters: the short form of a commit hash.
pub open spec fn take7(s: Seq<char>) -> Seq<char> {
    if s.len() <= 7 {
        s
    } else {
        s.subrange(0, 7)
    }
}

/// What a NUL-separated `log --pretty` line contributes:
/// `(id, msg, meta, author)`, where `meta` joins the date and short hash.
pub open spec fn log_line(l: Seq<char>) -> Option<(Seq<char>, Seq<char>, Seq<char>, Seq<char>)> {
    let fs = spec_split(l, '\0');
    if fs[0].len() == 0 {
        None
    } else {
        let id = fs[0];
        let author = if fs.len() >= 2 {
            fs[1]
        } else {
            Seq::<char>::empty()
        };
        let when = if fs.len() >= 3 {
            fs[2]
        } else {
            Seq::<char>::empty()
        };
        let msg = if fs.len() >= 4 {
            fs[3]
        } else {
            Seq::<char>::empty()
        };
        Some((id, msg, when + " \u{2022} "@ + take7(id), author))
    }
}

/// The commit tuples of a whole log capture, in order.
pub open spec fn spec_log_lines(lines: Seq<Seq<char>>) -> Seq<
    (Seq<char>, Seq<char>, Seq<char>, Seq<char>),
>
    decreases lines.len(),
{
    if lines.len() == 0 {
        Seq::empty()
    } else {
        match log_line(lines[0]) {
            Some(e) => seq![e] + spec_log_lines(lines.drop_first()),
            None => spec_log_lines(lines.drop_first()),
        }
    }
}

/// View of produced commit items as plain tuples.
pub open spec fn commit_views(v: Seq<crate::models::CommitItem>) -> Seq<
    (Seq<char>, Seq<char>, Seq<char>, Seq<char>),
> {
    v.map_values(|c: crate::models::CommitItem| (c.id@, c.msg@, c.meta@, c.author@))
}

/// Parse `log --pretty=format:%H%x00%an <%ae>%x00%ad%x00%s` output: one
/// commit per line, fields separated by NUL, lines with an empty hash
/// skipped.
pub fn parse_log_output(out: &str) -> (r: Vec<crate::models::CommitItem>)
    ensures
        commit_views(r@) == spec_log_lines(spec_lines(out@)),
{
    let ls = lines_of(out);
    let mut out_v: Vec<crate::models::CommitItem> = Vec::new();
    let mut i: usize = 0;
    proof {
        assert(views(ls@).subrange(0, views(ls@).len() as int) =~= views(ls@));
        assert(commit_views(out_v@) + spec_log_lines(views(ls@)) =~= spec_log_lines(views(ls@)));
    }
    while i < ls.len()
        invariant
            i <= ls.len(),
            views(ls@).len() == ls@.len(),
            spec_log_lines(views(ls@)) == commit_views(out_v@) + spec_log_lines(
                views(ls@).subrange(i as int, views(ls@).len() as int),
            ),
        decreases ls.len() - i,
    {
        let ghost remv = views(ls@).subrange(i as int, views(ls@).len() as int);
        proof {
            assert(remv[0] == views(ls@)[i as int]);
            assert(remv.drop_first() =~= views(ls@).subrange(i as int + 1, views(ls@).len() as int));
        }
        let l = ls[i].as_str();
        let fs = split_char(l, '\0');
        proof {
            assert(views(fs@).len() == fs@.len());
            assert(views(fs@)[0] == fs@[0]@);
            if fs@.len() >= 2 {
                assert(views(fs@)[1] == fs@[1]@);
            }
            if fs@.len() >= 3 {
                assert(views(fs@)[2] == fs@[2]@);
            }
            if fs@.len() >= 4 {
                assert(views(fs@)[3] == fs@[3]@);
            }
        }
        let id = fs[0].clone();
        let id_len: usize = id.as_str().unicode_len();
        if id_len == 0 {
            proof {
                assert(log_line(remv[0]) is None);
                assert(spec_log_lines(remv) == spec_log_lines(remv.drop_first()));
            }
        } else {
            let author = if fs.len() >= 2 {
                fs[1].clone()
            } else {
                String::new()
            };
            let when = if fs.len() >= 3 {
                fs[2].clone()
            } else {
                String::new()
            };
            let msg = if fs.len() >= 4 {
                fs[3].clone()
            } else {
                String::new()
            };
            let short_to: usize = if id_len < 7 {
                id_len
            } else {
                7
            };
            let short = substr(id.as_str(), 0, short_to);
            let meta = when.clone().concat(" \u{2022} ").concat(short.as_str());
            proof {
                assert(take7(id@) =~= short@);
                assert(meta@ == when@ + " \u{2022} "@ + take7(id@));
            }
            let item = crate::models::CommitItem { id, msg, meta, author };
            proof {
                assert(log_line(remv[0]) == Some((item.id@, item.msg@, item.meta@, item.author@)));
                assert(commit_views(out_v@.push(item)) =~= commit_views(out_v@).push(
                    (item.id@, item.msg@, item.meta@, item.author@),
                ));
                assert(commit_views(out_v@).push((item.id@, item.msg@, item.meta@, item.author@))
                    + spec_log_lines(remv.drop_first()) =~= commit_views(out_v@) + spec_log_lines(
                    remv,
                ));
            }
            out_v.push(item);
        }
        i += 1;
    }
    proof {
        assert(views(ls@).subrange(ls@.len() as int, views(ls@).len() as int) =~= Seq::<
            Seq<char>,
        >::empty());
        assert(commit_views(out_v@) + spec_log_lines(Seq::<Seq<char>>::empty()) =~= commit_views(
            out_v@,
        ));
    }
    out_v
}

} // verus!
