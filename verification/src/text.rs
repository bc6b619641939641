//! Verified text utilities: exact specifications for the character-level
//! scanning that the porcelain parsers and the models are built on.

use vstd::prelude::*;

verus! {

/// The whitespace characters that `git` output separates fields with.
pub open spec fn is_ws(c: char) -> bool {
    c == ' ' || c == '\t' || c == '\n' || c == '\r'
}

/// First index `i >= from` with `s[i] == c`, if any.
pub open spec fn spec_find(s: Seq<char>, from: int, c: char) -> Option<int>
    decreases s.len() - from,
{
    if from < 0 || from >= s.len() {
        None
    } else if s[from] == c {
        Some(from)
    } else {
        spec_find(s, from + 1, c)
    }
}

/// `spec_find` returns exactly the first occurrence at or after `from`.
pub proof fn lemma_find_characterization(s: Seq<char>, from: int, c: char, i: int)
    requires
        0 <= from <= i <= s.len(),
        forall|k: int| from <= k < i ==> s[k] != c,
        i == s.len() || s[i] == c,
    ensures
        spec_find(s, from, c) == if i == s.len() {
            None::<int>
        } else {
            Some(i)
        },
    decreases i - from,
{
    if from < s.len() && s[from] != c {
        lemma_find_characterization(s, from + 1, c, i);
    }
}

/// Character at index `i`.
pub fn char_at(s: &str, i: usize) -> (c: char)
    requires
        i < s@.len(),
    ensures
        c == s@[i as int],
{
    s.get_char(i)
}

/// First occurrence of `c` in `s` at or after `from`.
pub fn find_char(s: &str, from: usize, c: char) -> (r: Option<usize>)
    ensures
        spec_find(s@, from as int, c) == (match r {
            Some(i) => Some(i as int),
            None => None::<int>,
        }),
        match r {
            Some(i) => from <= i < s@.len() && s@[i as int] == c,
            None => true,
        },
{
    let n: usize = s.unicode_len();
    if from >= n {
        return None;
    }
    let mut i: usize = from;
    while i < n
        invariant
            from <= i <= n,
            n == s@.len(),
            forall|k: int| from <= k < i ==> s@[k] != c,
        decreases n - i,
    {
        if s.get_char(i) == c {
            proof {
                lemma_find_characterization(s@, from as int, c, i as int);
            }
            return Some(i);
        }
        i += 1;
    }
    proof {
        lemma_find_characterization(s@, from as int, c, n as int);
    }
    None
}

/// Copy of the characters `from..to` of `s`.
pub fn substr(s: &str, from: usize, to: usize) -> (r: String)
    requires
        from <= to <= s@.len(),
    ensures
        r@ == s@.subrange(from as int, to as int),
{
    s.substring_char(from, to).to_owned()
}

/// Whether `p` is a prefix of `s`.
pub open spec fn spec_starts_with(s: Seq<char>, p: Seq<char>) -> bool {
    s.len() >= p.len() && s.subrange(0, p.len() as int) == p
}

/// Whether `p` is a suffix of `s`.
pub open spec fn spec_ends_with(s: Seq<char>, p: Seq<char>) -> bool {
    s.len() >= p.len() && s.subrange(s.len() - p.len(), s.len() as int) == p
}

pub fn starts_with(s: &str, p: &str) -> (r: bool)
    ensures
        r == spec_starts_with(s@, p@),
{
    let n: usize = s.unicode_len();
    let m: usize = p.unicode_len();
    if n < m {
        return false;
    }
    let mut i: usize = 0;
    while i < m
        invariant
            0 <= i <= m,
            m <= n,
            n == s@.len(),
            m == p@.len(),
            forall|k: int| 0 <= k < i ==> s@[k] == p@[k],
        decreases m - i,
    {
        if s.get_char(i) != p.get_char(i) {
            proof {
                assert(!spec_starts_with(s@, p@)) by {
                    if spec_starts_with(s@, p@) {
                        assert(s@.subrange(0, p@.len() as int)[i as int] == p@[i as int]);
                    }
                }
            }
            return false;
        }
        i += 1;
    }
    proof {
        assert(s@.subrange(0, p@.len() as int) =~= p@);
    }
    true
}

pub fn ends_with(s: &str, p: &str) -> (r: bool)
    ensures
        r == spec_ends_with(s@, p@),
{
    let n: usize = s.unicode_len();
    let m: usize = p.unicode_len();
    if n < m {
        return false;
    }
    let base: usize = n - m;
    let mut i: usize = 0;
    while i < m
        invariant
            0 <= i <= m,
            base == n - m,
            m <= n,
            n == s@.len(),
            m == p@.len(),
            forall|k: int| 0 <= k < i ==> s@[base + k] == p@[k],
        decreases m - i,
    {
        if s.get_char(base + i) != p.get_char(i) {
            proof {
                assert(!spec_ends_with(s@, p@)) by {
                    if spec_ends_with(s@, p@) {
                        assert(s@.subrange(s@.len() - p@.len(), s@.len() as int)[i as int]
                            == p@[i as int]);
                    }
                }
            }
            return false;
        }
        i += 1;
    }
    proof {
        assert(s@.subrange(s@.len() - p@.len(), s@.len() as int) =~= p@);
    }
    true
}

/// `spec_find` only answers `Some(i)` for a real first occurrence.
pub proof fn lemma_find_bounds(s: Seq<char>, from: int, c: char)
    requires
        0 <= from,
    ensures
        match spec_find(s, from, c) {
            Some(i) => from <= i < s.len() && s[i] == c && forall|k: int|
                from <= k < i ==> s[k] != c,
            None => forall|k: int| from <= k < s.len() ==> s[k] != c,
        },
    decreases s.len() - from,
{
    if from < s.len() && s[from] != c {
        lemma_find_bounds(s, from + 1, c);
    }
}

/// Last index with `s[i] == c`, if any.
pub open spec fn spec_rfind(s: Seq<char>, c: char) -> Option<int>
    decreases s.len(),
{
    if s.len() == 0 {
        None
    } else if s[s.len() - 1] == c {
        Some(s.len() - 1)
    } else {
        spec_rfind(s.drop_last(), c)
    }
}

pub proof fn lemma_rfind_characterization(s: Seq<char>, c: char, i: int)
    requires
        0 <= i <= s.len(),
        forall|k: int| i <= k < s.len() ==> s[k] != c,
        i == 0 || s[i - 1] == c,
    ensures
        spec_rfind(s, c) == if i == 0 {
            None::<int>
        } else {
            Some(i - 1)
        },
    decreases s.len(),
{
    if s.len() > 0 && s[s.len() - 1] != c {
        assert(s.drop_last() =~= s.subrange(0, s.len() - 1));
        lemma_rfind_characterization(s.drop_last(), c, i);
    }
}

/// Last occurrence of `c` in `s`.
pub fn rfind_char(s: &str, c: char) -> (r: Option<usize>)
    ensures
        spec_rfind(s@, c) == (match r {
            Some(i) => Some(i as int),
            None => None::<int>,
        }),
        match r {
            Some(i) => i < s@.len() && s@[i as int] == c,
            None => true,
        },
{
    let n: usize = s.unicode_len();
    let mut i: usize = n;
    while i > 0
        invariant
            0 <= i <= n,
            n == s@.len(),
            forall|k: int| i <= k < n ==> s@[k] != c,
        decreases i,
    {
        if s.get_char(i - 1) == c {
            proof {
                lemma_rfind_characterization(s@, c, i as int);
            }
            return Some(i - 1);
        }
        i -= 1;
    }
    proof {
        lemma_rfind_characterization(s@, c, 0);
    }
    None
}

/// Whether two string slices hold the same characters.
pub fn str_eq(a: &str, b: &str) -> (r: bool)
    ensures
        r == (a@ == b@),
{
    let n: usize = a.unicode_len();
    let m: usize = b.unicode_len();
    if n != m {
        return false;
    }
    let mut i: usize = 0;
    while i < n
        invariant
            0 <= i <= n,
            n == a@.len(),
            n == b@.len(),
            forall|k: int| 0 <= k < i ==> a@[k] == b@[k],
        decreases n - i,
    {
        if a.get_char(i) != b.get_char(i) {
            proof {
                assert(a@[i as int] != b@[i as int]);
            }
            return false;
        }
        i += 1;
    }
    proof {
        assert(a@ =~= b@);
    }
    true
}


/// Executable test matching `is_ws`.
pub fn is_space(c: char) -> (r: bool)
    ensures
        r == is_ws(c),
{
    c == ' ' || c == '\t' || c == '\n' || c == '\r'
}

/// Count of whitespace characters at the front of `s`.
pub open spec fn ws_start(s: Seq<char>) -> int
    decreases s.len(),
{
    if s.len() == 0 {
        0
    } else if !is_ws(s[0]) {
        0
    } else {
        1 + ws_start(s.drop_first())
    }
}

/// Length of `s` once trailing whitespace is dropped.
pub open spec fn ws_end(s: Seq<char>) -> int
    decreases s.len(),
{
    if s.len() == 0 {
        0
    } else if !is_ws(s[s.len() - 1]) {
        s.len() as int
    } else {
        ws_end(s.drop_last())
    }
}

/// `s` with trailing whitespace removed.
pub open spec fn spec_trim_end(s: Seq<char>) -> Seq<char> {
    s.subrange(0, ws_end(s))
}

/// `s` with leading and trailing whitespace removed.
pub open spec fn spec_trim(s: Seq<char>) -> Seq<char> {
    if ws_start(s) >= ws_end(s) {
        Seq::empty()
    } else {
        s.subrange(ws_start(s), ws_end(s))
    }
}

pub proof fn lemma_ws_start_characterization(s: Seq<char>, i: int)
    requires
        0 <= i <= s.len(),
        forall|k: int| 0 <= k < i ==> is_ws(s[k]),
        i == s.len() || !is_ws(s[i]),
    ensures
        ws_start(s) == i,
    decreases s.len(),
{
    if s.len() > 0 && is_ws(s[0]) {
        assert(i > 0);
        let t = s.drop_first();
        assert(forall|k: int| 0 <= k < i - 1 ==> is_ws(#[trigger] t[k]));
        lemma_ws_start_characterization(t, i - 1);
    }
}

pub proof fn lemma_ws_end_characterization(s: Seq<char>, j: int)
    requires
        0 <= j <= s.len(),
        forall|k: int| j <= k < s.len() ==> is_ws(s[k]),
        j == 0 || !is_ws(s[j - 1]),
    ensures
        ws_end(s) == j,
    decreases s.len(),
{
    if s.len() > 0 && is_ws(s[s.len() - 1]) {
        assert(j < s.len());
        let t = s.drop_last();
        assert(forall|k: int| j <= k < t.len() ==> is_ws(#[trigger] t[k]));
        lemma_ws_end_characterization(t, j);
    }
}

/// Copy of `s` without leading or trailing whitespace.
pub fn trim(s: &str) -> (r: String)
    ensures
        r@ == spec_trim(s@),
{
    let n: usize = s.unicode_len();
    let mut i: usize = 0;
    while i < n && is_space(s.get_char(i))
        invariant
            0 <= i <= n,
            n == s@.len(),
            forall|k: int| 0 <= k < i ==> is_ws(s@[k]),
        decreases n - i,
    {
        i += 1;
    }
    proof {
        lemma_ws_start_characterization(s@, i as int);
    }
    let mut j: usize = n;
    while j > i && is_space(s.get_char(j - 1))
        invariant
            i <= j <= n,
            n == s@.len(),
            forall|k: int| 0 <= k < i ==> is_ws(s@[k]),
            forall|k: int| j <= k < n ==> is_ws(s@[k]),
        decreases j,
    {
        j -= 1;
    }
    if j == i {
        proof {
            // The two scans met, so every character of `s` is whitespace.
            if (i as int) < s@.len() {
                assert(is_ws(s@[i as int]));
            }
            lemma_ws_start_characterization(s@, i as int);
            lemma_ws_end_characterization(s@, 0);
        }
        let r = String::new();
        proof {
            assert(r@ =~= spec_trim(s@));
        }
        r
    } else {
        proof {
            assert(!is_ws(s@[j - 1]));
            lemma_ws_end_characterization(s@, j as int);
        }
        substr(s, i, j)
    }
}

/// Copy of `s` without trailing whitespace.
pub fn trim_end(s: &str) -> (r: String)
    ensures
        r@ == spec_trim_end(s@),
{
    let n: usize = s.unicode_len();
    let mut j: usize = n;
    while j > 0 && is_space(s.get_char(j - 1))
        invariant
            0 <= j <= n,
            n == s@.len(),
            forall|k: int| j <= k < n ==> is_ws(s@[k]),
        decreases j,
    {
        j -= 1;
    }
    proof {
        lemma_ws_end_characterization(s@, j as int);
    }
    substr(s, 0, j)
}


/// A line with a trailing carriage return removed, as `str::lines` yields it.
pub open spec fn strip_cr(l: Seq<char>) -> Seq<char> {
    if l.len() > 0 && l[l.len() - 1] == '\r' {
        l.drop_last()
    } else {
        l
    }
}

/// The lines of `s`: segments between `'\n'` separators, each without a
/// trailing `'\r'`, and no final empty segment after a terminating newline.
pub open spec fn spec_lines(s: Seq<char>) -> Seq<Seq<char>>
    decreases s.len(),
{
    if s.len() == 0 {
        Seq::empty()
    } else {
        match spec_find(s, 0, '\n') {
            None => seq![strip_cr(s)],
            Some(i) => {
                proof {
                    lemma_find_bounds(s, 0, '\n');
                }
                seq![strip_cr(s.subrange(0, i))] + spec_lines(s.subrange(i + 1, s.len() as int))
            },
        }
    }
}

/// The fields of `s` split on every occurrence of `c`; empty fields are kept.
pub open spec fn spec_split(s: Seq<char>, c: char) -> Seq<Seq<char>>
    decreases s.len(),
{
    match spec_find(s, 0, c) {
        None => seq![s],
        Some(i) => {
            proof {
                lemma_find_bounds(s, 0, c);
            }
            seq![s.subrange(0, i)] + spec_split(s.subrange(i + 1, s.len() as int), c)
        },
    }
}

/// The views of a sequence of owned strings.
pub open spec fn views(v: Seq<String>) -> Seq<Seq<char>> {
    v.map_values(|x: String| x@)
}

/// Split `s` into its lines, as `str::lines` would.
pub fn lines_of(s: &str) -> (r: Vec<String>)
    ensures
        views(r@) == spec_lines(s@),
{
    let n: usize = s.unicode_len();
    let mut out: Vec<String> = Vec::new();
    let mut pos: usize = 0;
    proof {
        assert(s@.subrange(0, n as int) =~= s@);
        assert(views(out@) + spec_lines(s@) =~= spec_lines(s@));
    }
    while pos < n
        invariant
            pos <= n,
            n == s@.len(),
            spec_lines(s@) == views(out@) + spec_lines(s@.subrange(pos as int, n as int)),
        decreases n - pos,
    {
        let ghost t = s@.subrange(pos as int, n as int);
        match find_char(s, pos, '\n') {
            Some(i) => {
                let mut line_end: usize = i;
                if i > pos && char_at(s, i - 1) == '\r' {
                    line_end = i - 1;
                }
                let piece = substr(s, pos, line_end);
                proof {
                    lemma_find_bounds(s@, pos as int, '\n');
                    assert(forall|k: int| 0 <= k < i - pos ==> t[k] != '\n');
                    lemma_find_characterization(t, 0, '\n', i as int - pos as int);
                    assert(t.subrange(0, i as int - pos as int) =~= s@.subrange(
                        pos as int,
                        i as int,
                    ));
                    assert(strip_cr(s@.subrange(pos as int, i as int)) =~= piece@);
                    assert(t.subrange(i as int - pos as int + 1, t.len() as int) =~= s@.subrange(
                        i as int + 1,
                        n as int,
                    ));
                    assert(views(out@.push(piece)) =~= views(out@).push(piece@));
                    assert(views(out@).push(piece@) + spec_lines(
                        s@.subrange(i as int + 1, n as int),
                    ) =~= views(out@) + spec_lines(t));
                }
                out.push(piece);
                pos = i + 1;
            },
            None => {
                let mut line_end: usize = n;
                if n > pos && char_at(s, n - 1) == '\r' {
                    line_end = n - 1;
                }
                let piece = substr(s, pos, line_end);
                proof {
                    lemma_find_bounds(s@, pos as int, '\n');
                    assert(forall|k: int| 0 <= k < t.len() ==> t[k] != '\n');
                    lemma_find_characterization(t, 0, '\n', t.len() as int);
                    assert(strip_cr(t) =~= piece@);
                    assert(spec_lines(t) =~= seq![piece@]);
                    assert(views(out@.push(piece)) =~= views(out@).push(piece@));
                    assert(views(out@).push(piece@) + spec_lines(s@.subrange(n as int, n as int))
                        =~= views(out@) + spec_lines(t));
                }
                out.push(piece);
                pos = n;
            },
        }
    }
    proof {
        assert(views(out@) + spec_lines(s@.subrange(pos as int, n as int)) =~= views(out@));
    }
    out
}

/// Split `s` on `c`, keeping empty fields, as `str::split` would.
pub fn split_char(s: &str, c: char) -> (r: Vec<String>)
    ensures
        views(r@) == spec_split(s@, c),
        r@.len() >= 1,
{
    let n: usize = s.unicode_len();
    let mut out: Vec<String> = Vec::new();
    let mut pos: usize = 0;
    proof {
        assert(s@.subrange(0, n as int) =~= s@);
        assert(views(out@) + spec_split(s@, c) =~= spec_split(s@, c));
    }
    loop
        invariant
            pos <= n,
            n == s@.len(),
            spec_split(s@, c) == views(out@) + spec_split(s@.subrange(pos as int, n as int), c),
        decreases n - pos,
    {
        let ghost t = s@.subrange(pos as int, n as int);
        match find_char(s, pos, c) {
            Some(i) => {
                let piece = substr(s, pos, i);
                proof {
                    lemma_find_bounds(s@, pos as int, c);
                    assert(forall|k: int| 0 <= k < i - pos ==> t[k] != c);
                    lemma_find_characterization(t, 0, c, i as int - pos as int);
                    assert(t.subrange(0, i as int - pos as int) =~= piece@);
                    assert(t.subrange(i as int - pos as int + 1, t.len() as int) =~= s@.subrange(
                        i as int + 1,
                        n as int,
                    ));
                    assert(views(out@.push(piece)) =~= views(out@).push(piece@));
                    assert(views(out@).push(piece@) + spec_split(
                        s@.subrange(i as int + 1, n as int),
                        c,
                    ) =~= views(out@) + spec_split(t, c));
                }
                out.push(piece);
                pos = i + 1;
            },
            None => {
                let piece = substr(s, pos, n);
                proof {
                    lemma_find_bounds(s@, pos as int, c);
                    assert(forall|k: int| 0 <= k < t.len() ==> t[k] != c);
                    lemma_find_characterization(t, 0, c, t.len() as int);
                    assert(t =~= piece@);
                    assert(spec_split(t, c) =~= seq![piece@]);
                    assert(views(out@.push(piece)) =~= views(out@).push(piece@));
                    assert(views(out@) + spec_split(t, c) =~= views(out@.push(piece)));
                }
                out.push(piece);
                return out;
            },
        }
    }
}


/// Decimal digit test.
pub open spec fn is_digit(c: char) -> bool {
    48 <= c as int && c as int <= 57
}

pub open spec fn all_digits(s: Seq<char>) -> bool {
    forall|k: int| 0 <= k < s.len() ==> is_digit(s[k])
}

/// Value of a digit string, most significant digit first.
pub open spec fn digits_val(s: Seq<char>) -> int
    decreases s.len(),
{
    if s.len() == 0 {
        0
    } else {
        10 * digits_val(s.drop_last()) + (s[s.len() - 1] as int - 48)
    }
}

pub proof fn lemma_digits_val_nonneg(s: Seq<char>)
    requires
        all_digits(s),
    ensures
        digits_val(s) >= 0,
    decreases s.len(),
{
    if s.len() > 0 {
        assert(forall|k: int| 0 <= k < s.drop_last().len() ==> is_digit(#[trigger] s.drop_last()[k]));
        lemma_digits_val_nonneg(s.drop_last());
    }
}

/// Parse a `u32` the way `str::parse::<u32>` does on ASCII-digit input:
/// `None` on an empty string, a non-digit, or overflow.
pub fn parse_u32(s: &str) -> (r: Option<u32>)
    ensures
        r == (if s@.len() > 0 && all_digits(s@) && digits_val(s@) <= u32::MAX as int {
            Some(digits_val(s@) as u32)
        } else {
            None::<u32>
        }),
{
    let n: usize = s.unicode_len();
    if n == 0 {
        return None;
    }
    let mut acc: u64 = 0;
    let mut big: bool = false;
    let mut i: usize = 0;
    while i < n
        invariant
            0 <= i <= n,
            n == s@.len(),
            all_digits(s@.subrange(0, i as int)),
            !big ==> acc == digits_val(s@.subrange(0, i as int)) && acc <= u32::MAX as u64,
            big ==> digits_val(s@.subrange(0, i as int)) > u32::MAX as int,
        decreases n - i,
    {
        let c = s.get_char(i);
        let u = c as u32;
        if u < 48 || u > 57 {
            proof {
                assert(!is_digit(s@[i as int]));
            }
            return None;
        }
        let d: u64 = (u - 48) as u64;
        let ghost pre = s@.subrange(0, i as int);
        let ghost cur = s@.subrange(0, i as int + 1);
        proof {
            assert(cur.drop_last() =~= pre);
            assert(cur[cur.len() - 1] == s@[i as int]);
            assert(digits_val(cur) == 10 * digits_val(pre) + (s@[i as int] as int - 48));
            assert(forall|k: int| 0 <= k < cur.len() ==> is_digit(cur[k]));
            lemma_digits_val_nonneg(pre);
        }
        if big {
            proof {
                assert(digits_val(cur) > u32::MAX as int);
            }
        } else {
            let nv: u64 = acc * 10 + d;
            if nv > u32::MAX as u64 {
                big = true;
            } else {
                acc = nv;
            }
        }
        i += 1;
    }
    proof {
        assert(s@.subrange(0, n as int) =~= s@);
    }
    if big {
        None
    } else {
        Some(acc as u32)
    }
}

/// Lowercase hexadecimal digit test.
pub open spec fn is_lower_hex_digit(c: char) -> bool {
    (48 <= c as int && c as int <= 57) || (97 <= c as int && c as int <= 102)
}

pub open spec fn all_lower_hex(s: Seq<char>) -> bool {
    forall|k: int| 0 <= k < s.len() ==> is_lower_hex_digit(s[k])
}

/// Whether `s` consists of lowercase hexadecimal digits only.
pub fn is_lower_hex(s: &str) -> (r: bool)
    ensures
        r == all_lower_hex(s@),
{
    let n: usize = s.unicode_len();
    let mut i: usize = 0;
    while i < n
        invariant
            0 <= i <= n,
            n == s@.len(),
            forall|k: int| 0 <= k < i ==> is_lower_hex_digit(s@[k]),
        decreases n - i,
    {
        let u = s.get_char(i) as u32;
        if !((u >= 48 && u <= 57) || (u >= 97 && u <= 102)) {
            proof {
                assert(!is_lower_hex_digit(s@[i as int]));
            }
            return false;
        }
        i += 1;
    }
    true
}

/// Whether `p` occurs as a contiguous subsequence of `s`.
pub open spec fn spec_contains_sub(s: Seq<char>, p: Seq<char>) -> bool {
    exists|i: int|
        0 <= i <= s.len() - p.len() && #[trigger] s.subrange(i, i + p.len() as int) == p
}

/// Substring search, as `str::contains` with a `&str` pattern.
pub fn contains_sub(s: &str, p: &str) -> (r: bool)
    ensures
        r == spec_contains_sub(s@, p@),
{
    let n: usize = s.unicode_len();
    let m: usize = p.unicode_len();
    if m > n {
        return false;
    }
    let mut i: usize = 0;
    while i <= n - m
        invariant
            0 <= i <= n - m + 1,
            m <= n,
            n == s@.len(),
            m == p@.len(),
            forall|j: int| 0 <= j < i ==> #[trigger] s@.subrange(j, j + p@.len() as int) != p@,
        decreases n - m - i + 1,
    {
        let mut k: usize = 0;
        while k < m && s.get_char(i + k) == p.get_char(k)
            invariant
                0 <= k <= m,
                i <= n - m,
                m <= n,
                n == s@.len(),
                m == p@.len(),
                forall|l: int| 0 <= l < k ==> s@[i + l] == p@[l],
            decreases m - k,
        {
            k += 1;
        }
        if k == m {
            proof {
                assert(s@.subrange(i as int, i as int + p@.len() as int) =~= p@);
            }
            return true;
        }
        proof {
            assert(s@[i + k as int] != p@[k as int]);
            assert(s@.subrange(i as int, i as int + p@.len() as int) != p@) by {
                if s@.subrange(i as int, i as int + p@.len() as int) == p@ {
                    assert(s@.subrange(i as int, i as int + p@.len() as int)[k as int]
                        == p@[k as int]);
                }
            }
        }
        i += 1;
    }
    proof {
        assert(!spec_contains_sub(s@, p@)) by {
            if spec_contains_sub(s@, p@) {
                let j = choose|j: int|
                    0 <= j <= s@.len() - p@.len() && #[trigger] s@.subrange(j, j + p@.len() as int) == p@;
                assert(s@.subrange(j, j + p@.len() as int) != p@);
            }
        }
    }
    false
}


/// Render a decimal digit.
pub fn digit_str(d: u32) -> (r: &'static str)
    requires
        d < 10,
    ensures
        r@.len() == 1,
        is_digit(r@[0]),
        r@[0] as int == 48 + d,
{
    let r: &'static str = if d == 0 {
        "0"
    } else if d == 1 {
        "1"
    } else if d == 2 {
        "2"
    } else if d == 3 {
        "3"
    } else if d == 4 {
        "4"
    } else if d == 5 {
        "5"
    } else if d == 6 {
        "6"
    } else if d == 7 {
        "7"
    } else if d == 8 {
        "8"
    } else {
        "9"
    };
    proof {
        reveal_strlit("0");
        reveal_strlit("1");
        reveal_strlit("2");
        reveal_strlit("3");
        reveal_strlit("4");
        reveal_strlit("5");
        reveal_strlit("6");
        reveal_strlit("7");
        reveal_strlit("8");
        reveal_strlit("9");
    }
    r
}


/// The canonical decimal rendering of a non-negative integer.
pub open spec fn spec_dec(v: int) -> Seq<char>
    decreases v,
{
    if v < 0 {
        Seq::empty()
    } else if v < 10 {
        seq![((48 + v) as char)]
    } else {
        spec_dec(v / 10).push(((48 + v % 10) as char))
    }
}

/// Render `v` in its canonical decimal form.
pub fn u32_dec(v: u32) -> (r: String)
    ensures
        r@ == spec_dec(v as int),
    decreases v,
{
    if v < 10 {
        let s = digit_str(v).to_owned();
        proof {
            assert(s@[0] as int == 48 + v);
            assert(s@[0] == ((48 + v as int) as char));
            assert(s@ =~= spec_dec(v as int));
        }
        s
    } else {
        let high = u32_dec(v / 10);
        let ghost high_view = high@;
        let low = digit_str(v % 10);
        let r = high.concat(low);
        proof {
            assert(low@[0] == ((48 + (v as int) % 10) as char));
            assert(r@ =~= high_view.push(low@[0]));
        }
        r
    }
}


/// What `str::to_lowercase` yields for a given character sequence.
pub uninterp spec fn lower_of(s: Seq<char>) -> Seq<char>;

/// Relies on `str::to_lowercase`: the result depends on the characters
/// alone, and an empty string stays empty.
#[verifier::external_body]
pub fn lowercase(s: &str) -> (r: String)
    ensures
        r@ == lower_of(s@),
        s@.len() == 0 ==> r@.len() == 0,
{
    s.to_lowercase()
}


/// Render a `u64` in its canonical decimal form.
pub fn u64_dec(v: u64) -> (r: String)
    ensures
        r@ == spec_dec(v as int),
    decreases v,
{
    if v < 10 {
        let s = digit_str(v as u32).to_owned();
        proof {
            assert(s@[0] as int == 48 + v);
            assert(s@[0] == ((48 + v as int) as char));
            assert(s@ =~= spec_dec(v as int));
        }
        s
    } else {
        let high = u64_dec(v / 10);
        let ghost high_view = high@;
        let low = digit_str((v % 10) as u32);
        let r = high.concat(low);
        proof {
            assert(low@[0] == ((48 + (v as int) % 10) as char));
            assert(r@ =~= high_view.push(low@[0]));
        }
        r
    }
}

/// `s` with every trailing `c` removed.
pub open spec fn spec_trim_end_char(s: Seq<char>, c: char) -> Seq<char>
    decreases s.len(),
{
    if s.len() > 0 && s[s.len() - 1] == c {
        spec_trim_end_char(s.drop_last(), c)
    } else {
        s
    }
}

pub proof fn lemma_trim_end_char_characterization(s: Seq<char>, c: char, j: int)
    requires
        0 <= j <= s.len(),
        forall|k: int| j <= k < s.len() ==> s[k] == c,
        j == 0 || s[j - 1] != c,
    ensures
        spec_trim_end_char(s, c) == s.subrange(0, j),
    decreases s.len(),
{
    if s.len() > 0 && s[s.len() - 1] == c {
        assert(j < s.len());
        let t = s.drop_last();
        assert(forall|k: int| j <= k < t.len() ==> #[trigger] t[k] == c);
        lemma_trim_end_char_characterization(t, c, j);
        assert(t.subrange(0, j) =~= s.subrange(0, j));
    } else {
        assert(s.subrange(0, s.len() as int) =~= s);
    }
}

/// Lexicographic order on character sequences, by code point.
pub open spec fn lex_le(a: Seq<char>, b: Seq<char>) -> bool
    decreases a.len(),
{
    if a.len() == 0 {
        true
    } else if b.len() == 0 {
        false
    } else if (a[0] as int) < (b[0] as int) {
        true
    } else if (a[0] as int) > (b[0] as int) {
        false
    } else {
        lex_le(a.drop_first(), b.drop_first())
    }
}

/// The order is total.
pub proof fn lemma_lex_le_total(a: Seq<char>, b: Seq<char>)
    ensures
        lex_le(a, b) || lex_le(b, a),
    decreases a.len(),
{
    if a.len() > 0 && b.len() > 0 && a[0] == b[0] {
        lemma_lex_le_total(a.drop_first(), b.drop_first());
    }
}

/// The order is transitive.
pub proof fn lemma_lex_le_trans(a: Seq<char>, b: Seq<char>, c: Seq<char>)
    requires
        lex_le(a, b),
        lex_le(b, c),
    ensures
        lex_le(a, c),
    decreases a.len(),
{
    if a.len() > 0 {
        if b.len() > 0 && c.len() > 0 {
            if a[0] == b[0] && b[0] == c[0] {
                lemma_lex_le_trans(a.drop_first(), b.drop_first(), c.drop_first());
            }
        }
    }
}

/// Equal prefixes can be peeled off without changing the order.
pub proof fn lemma_lex_le_skip(a: Seq<char>, b: Seq<char>, i: int)
    requires
        0 <= i <= a.len(),
        i <= b.len(),
        forall|k: int| 0 <= k < i ==> a[k] == b[k],
    ensures
        lex_le(a, b) == lex_le(a.skip(i), b.skip(i)),
    decreases i,
{
    if i > 0 {
        assert(a.len() > 0 && b.len() > 0 && a[0] == b[0]);
        let ta = a.drop_first();
        let tb = b.drop_first();
        assert(forall|k: int| 0 <= k < i - 1 ==> #[trigger] ta[k] == tb[k]);
        lemma_lex_le_skip(ta, tb, i - 1);
        assert(ta.skip(i - 1) =~= a.skip(i));
        assert(tb.skip(i - 1) =~= b.skip(i));
    } else {
        assert(a.skip(0) =~= a);
        assert(b.skip(0) =~= b);
    }
}

/// Compare two strings in lexicographic code-point order.
pub fn str_le(a: &str, b: &str) -> (r: bool)
    ensures
        r == lex_le(a@, b@),
{
    let n: usize = a.unicode_len();
    let m: usize = b.unicode_len();
    let stop: usize = if n < m {
        n
    } else {
        m
    };
    let mut i: usize = 0;
    while i < stop
        invariant
            0 <= i <= stop,
            stop == if n < m {
                n
            } else {
                m
            },
            n == a@.len(),
            m == b@.len(),
            forall|k: int| 0 <= k < i ==> a@[k] == b@[k],
        decreases stop - i,
    {
        let ca = a.get_char(i);
        let cb = b.get_char(i);
        if ca != cb {
            proof {
                lemma_lex_le_skip(a@, b@, i as int);
            }
            return (ca as u32) < (cb as u32);
        }
        i += 1;
    }
    proof {
        lemma_lex_le_skip(a@, b@, stop as int);
    }
    n <= m
}


/// First index at which `p` occurs as a contiguous subsequence of `s`.
pub open spec fn spec_find_sub(s: Seq<char>, p: Seq<char>) -> Option<int>
    decreases s.len(),
{
    if p.len() == 0 {
        Some(0)
    } else if s.len() < p.len() {
        None
    } else if s.subrange(0, p.len() as int) == p {
        Some(0)
    } else {
        match spec_find_sub(s.drop_first(), p) {
            Some(i) => Some(i + 1),
            None => None,
        }
    }
}

pub proof fn lemma_find_sub_found(s: Seq<char>, p: Seq<char>, i: int)
    requires
        0 <= i,
        i + p.len() <= s.len(),
        forall|k: int| 0 <= k < i ==> #[trigger] s.subrange(k, k + p.len() as int) != p,
        s.subrange(i, i + p.len() as int) == p,
    ensures
        spec_find_sub(s, p) == Some(i),
    decreases s.len(),
{
    if p.len() == 0 {
        assert(i == 0) by {
            if i > 0 {
                assert(s.subrange(0, 0 + p.len() as int) =~= p);
            }
        }
    } else if s.subrange(0, p.len() as int) == p {
        assert(i == 0) by {
            if i > 0 {
                assert(s.subrange(0, 0 + p.len() as int) == p);
            }
        }
    } else {
        assert(i >= 1);
        let t = s.drop_first();
        assert(forall|k: int|
            0 <= k < i - 1 ==> #[trigger] t.subrange(k, k + p.len() as int) =~= s.subrange(
                k + 1,
                k + 1 + p.len() as int,
            ));
        assert(t.subrange(i - 1, i - 1 + p.len() as int) =~= s.subrange(i, i + p.len() as int));
        lemma_find_sub_found(t, p, i - 1);
    }
}

pub proof fn lemma_find_sub_none(s: Seq<char>, p: Seq<char>)
    requires
        p.len() > 0,
        forall|k: int|
            0 <= k <= s.len() - p.len() ==> #[trigger] s.subrange(k, k + p.len() as int) != p,
    ensures
        spec_find_sub(s, p) is None,
    decreases s.len(),
{
    if s.len() >= p.len() {
        assert(s.subrange(0, 0 + p.len() as int) != p);
        assert(s.subrange(0, 0 + p.len() as int) == s.subrange(0, p.len() as int));
        let t = s.drop_first();
        assert(forall|k: int|
            0 <= k <= t.len() - p.len() ==> #[trigger] t.subrange(k, k + p.len() as int)
                =~= s.subrange(k + 1, k + 1 + p.len() as int));
        lemma_find_sub_none(t, p);
    }
}

/// First occurrence of `p` in `s`, as `str::find` with a string pattern.
pub fn find_sub(s: &str, p: &str) -> (r: Option<usize>)
    ensures
        spec_find_sub(s@, p@) == (match r {
            Some(i) => Some(i as int),
            None => None::<int>,
        }),
        match r {
            Some(i) => i + p@.len() <= s@.len() && s@.subrange(i as int, i as int + p@.len() as int)
                == p@,
            None => true,
        },
{
    let n: usize = s.unicode_len();
    let m: usize = p.unicode_len();
    if m == 0 {
        return Some(0);
    }
    if m > n {
        return None;
    }
    let mut i: usize = 0;
    while i <= n - m
        invariant
            0 <= i <= n - m + 1,
            0 < m <= n,
            n == s@.len(),
            m == p@.len(),
            forall|k: int| 0 <= k < i ==> #[trigger] s@.subrange(k, k + p@.len() as int) != p@,
        decreases n - m - i + 1,
    {
        let mut k: usize = 0;
        while k < m && s.get_char(i + k) == p.get_char(k)
            invariant
                0 <= k <= m,
                i <= n - m,
                m <= n,
                n == s@.len(),
                m == p@.len(),
                forall|l: int| 0 <= l < k ==> s@[i + l] == p@[l],
            decreases m - k,
        {
            k += 1;
        }
        if k == m {
            proof {
                assert(s@.subrange(i as int, i as int + p@.len() as int) =~= p@);
                lemma_find_sub_found(s@, p@, i as int);
            }
            return Some(i);
        }
        proof {
            assert(s@[i + k as int] != p@[k as int]);
            assert(s@.subrange(i as int, i as int + p@.len() as int) != p@) by {
                if s@.subrange(i as int, i as int + p@.len() as int) == p@ {
                    assert(s@.subrange(i as int, i as int + p@.len() as int)[k as int]
                        == p@[k as int]);
                }
            }
        }
        i += 1;
    }
    proof {
        lemma_find_sub_none(s@, p@);
    }
    None
}

} // verus!
