//! Input validation for the add-repository and clone dialogs. The checks on
//! the string shapes are exact; probing the filesystem happens outside the
//! library, and the probed facts are passed in as plain values.

use vstd::prelude::*;
use crate::text::{
    char_at, ends_with, spec_ends_with, spec_find, spec_starts_with, spec_trim, starts_with, trim,
};

verus! {

/// The verdict on one dialog input.
#[derive(Clone, Debug, PartialEq, Eq)]
pub struct Validation {
    pub ok: bool,
    pub reason: Option<String>,
}

/// A word character: letter, digit or underscore.
pub open spec fn is_word_char(c: char) -> bool {
    (65 <= c as int && c as int <= 90) || (97 <= c as int && c as int <= 122) || (48 <= c as int
        && c as int <= 57) || c == '_'
}

/// Characters allowed in the user and host of an scp-like address.
pub open spec fn is_host_char(c: char) -> bool {
    is_word_char(c) || c == '.' || c == '-'
}

/// Characters allowed in the path of an scp-like address.
pub open spec fn is_path_char(c: char) -> bool {
    is_word_char(c) || c == '.' || c == '/' || c == '-'
}

/// An scp-like address: `user@host:path.git`, with user and host made of
/// host characters, and a non-empty path of path characters before `.git`.
pub open spec fn spec_scp_like(s: Seq<char>) -> bool {
    match spec_find(s, 0, '@') {
        Some(i) => {
            &&& i >= 1
            &&& (forall|k: int| 0 <= k < i ==> is_host_char(s[k]))
            &&& (match spec_find(s, i + 1, ':') {
                Some(j) => {
                    &&& j >= i + 2
                    &&& (forall|k: int| i + 1 <= k < j ==> is_host_char(s[k]))
                    &&& s.len() >= j + 6
                    &&& (forall|k: int| j + 1 <= k < s.len() ==> is_path_char(s[k]))
                    &&& spec_ends_with(s, ".git"@)
                },
                None => false,
            })
        },
        None => false,
    }
}

/// What the clone dialog accepts as a Git URL once trimmed: `http(s)` or
/// `ssh` URLs ending in `.git`, or an scp-like address.
pub open spec fn spec_git_url(t: Seq<char>) -> bool {
    ||| ((spec_starts_with(t, "http://"@) || spec_starts_with(t, "https://"@)) && spec_ends_with(
        t,
        ".git"@,
    ))
    ||| (spec_starts_with(t, "ssh://"@) && spec_ends_with(t, ".git"@))
    ||| spec_scp_like(t)
}

fn is_host_char_exec(c: char) -> (r: bool)
    ensures
        r == is_host_char(c),
{
    let u = c as u32;
    (u >= 65 && u <= 90) || (u >= 97 && u <= 122) || (u >= 48 && u <= 57) || c == '_' || c == '.'
        || c == '-'
}

fn is_path_char_exec(c: char) -> (r: bool)
    ensures
        r == is_path_char(c),
{
    is_host_char_exec(c) && c != '-' || c == '/' || c == '-'
}

/// Check every character of `s` in `[from, to)` against a class.
fn all_host_chars(s: &str, from: usize, to: usize) -> (r: bool)
    requires
        from <= to <= s@.len(),
    ensures
        r == forall|k: int| from <= k < to ==> is_host_char(s@[k]),
{
    let mut i: usize = from;
    while i < to
        invariant
            from <= i <= to,
            to <= s@.len(),
            forall|k: int| from <= k < i ==> is_host_char(s@[k]),
        decreases to - i,
    {
        if !is_host_char_exec(char_at(s, i)) {
            return false;
        }
        i += 1;
    }
    true
}

fn all_path_chars(s: &str, from: usize, to: usize) -> (r: bool)
    requires
        from <= to <= s@.len(),
    ensures
        r == forall|k: int| from <= k < to ==> is_path_char(s@[k]),
{
    let mut i: usize = from;
    while i < to
        invariant
            from <= i <= to,
            to <= s@.len(),
            forall|k: int| from <= k < i ==> is_path_char(s@[k]),
        decreases to - i,
    {
        if !is_path_char_exec(char_at(s, i)) {
            return false;
        }
        i += 1;
    }
    true
}

fn scp_like(s: &str) -> (r: bool)
    ensures
        r == spec_scp_like(s@),
{
    let n: usize = s.unicode_len();
    match crate::text::find_char(s, 0, '@') {
        Some(i) => {
            if i < 1 || !all_host_chars(s, 0, i) {
                return false;
            }
            match crate::text::find_char(s, i + 1, ':') {
                Some(j) => {
                    if j < i + 2 || !all_host_chars(s, i + 1, j) {
                        return false;
                    }
                    if n < 6 || n - 6 < j {
                        return false;
                    }
                    if !all_path_chars(s, j + 1, n) {
                        return false;
                    }
                    ends_with(s, ".git")
                },
                None => false,
            }
        },
        None => false,
    }
}

/// Whether a trimmed candidate is recognisably a Git URL.
pub fn is_probably_git_url(u: &str) -> (r: bool)
    ensures
        r == (spec_trim(u@).len() > 0 && spec_git_url(spec_trim(u@))),
{
    let t = trim(u);
    let ts = t.as_str();
    if ts.unicode_len() == 0 {
        return false;
    }
    if (starts_with(ts, "http://") || starts_with(ts, "https://")) && ends_with(ts, ".git") {
        return true;
    }
    if starts_with(ts, "ssh://") && ends_with(ts, ".git") {
        return true;
    }
    scp_like(ts)
}

/// Whether a trimmed candidate looks like an absolute path: POSIX absolute,
/// home-relative, or a Windows drive prefix.
pub open spec fn spec_looks_like_path(t: Seq<char>) -> bool {
    t.len() > 0 && (t[0] == '/' || t[0] == '~' || (t.len() >= 3 && ((65 <= t[0] as int && t[0] as int
        <= 90) || (97 <= t[0] as int && t[0] as int <= 122)) && t[1] == ':' && (t[2] == '/' || t[2]
        == '\\')))
}

pub fn looks_like_path(s: &str) -> (r: bool)
    ensures
        r == spec_looks_like_path(spec_trim(s@)),
{
    let t = trim(s);
    let ts = t.as_str();
    let n: usize = ts.unicode_len();
    if n == 0 {
        return false;
    }
    let c0 = char_at(ts, 0);
    if c0 == '/' || c0 == '~' {
        return true;
    }
    if n >= 3 {
        let u0 = c0 as u32;
        let c1 = char_at(ts, 1);
        let c2 = char_at(ts, 2);
        ((u0 >= 65 && u0 <= 90) || (u0 >= 97 && u0 <= 122)) && c1 == ':' && (c2 == '/' || c2
            == '\\')
    } else {
        false
    }
}

/// Validate a clone URL: accepted exactly when it is recognisably a Git
/// URL; otherwise the reason says what shapes are accepted.
pub fn validate_git_url(url: String) -> (r: Validation)
    ensures
        r.ok == (spec_trim(url@).len() > 0 && spec_git_url(spec_trim(url@))),
        r.ok ==> r.reason is None,
        !r.ok ==> (r.reason matches Some(m) && m@
            == "Not a recognized Git URL (http(s), ssh, or scp-like ending in .git)"@),
{
    if is_probably_git_url(url.as_str()) {
        Validation { ok: true, reason: None }
    } else {
        Validation {
            ok: false,
            reason: Some(
                "Not a recognized Git URL (http(s), ssh, or scp-like ending in .git)".to_owned(),
            ),
        }
    }
}

/// Validate an add-repository path, given what a probe of the filesystem
/// saw: the normalized path, whether it exists, whether it is a directory,
/// and whether it holds a `.git` entry.
pub fn validate_add_path_probed(path: &str, norm: &str, exists: bool, is_dir: bool, has_git: bool)
    -> (r: Validation)
    ensures
        r.ok == (spec_looks_like_path(spec_trim(path@)) && exists && is_dir && has_git),
        r.ok ==> r.reason is None,
        !spec_looks_like_path(spec_trim(path@)) ==> (r.reason matches Some(m) && m@
            == "Enter an absolute path"@),
        spec_looks_like_path(spec_trim(path@)) && !exists ==> (r.reason matches Some(m) && m@
            == "Path does not exist: "@ + norm@),
        spec_looks_like_path(spec_trim(path@)) && exists && !is_dir ==> (r.reason matches Some(
            m,
        ) && m@ == "Not a directory: "@ + norm@),
        spec_looks_like_path(spec_trim(path@)) && exists && is_dir && !has_git ==> (r.reason
            matches Some(m) && m@
            == "Folder does not look like a Git repository (.git missing)"@),
{
    if !looks_like_path(path) {
        return Validation { ok: false, reason: Some("Enter an absolute path".to_owned()) };
    }
    if !exists {
        return Validation {
            ok: false,
            reason: Some("Path does not exist: ".to_owned().concat(norm)),
        };
    }
    if !is_dir {
        return Validation { ok: false, reason: Some("Not a directory: ".to_owned().concat(norm)) };
    }
    if !has_git {
        return Validation {
            ok: false,
            reason: Some("Folder does not look like a Git repository (.git missing)".to_owned()),
        };
    }
    Validation { ok: true, reason: None }
}

/// Validate a clone request, given the probed facts about the destination:
/// a good URL and a path-shaped destination that is either absent with an
/// existing parent, or an existing directory without a repository in it.
pub fn validate_clone_input_probed(
    url: &str,
    dest: &str,
    exists: bool,
    is_dir: bool,
    parent_exists: bool,
    has_git: bool,
) -> (r: Validation)
    ensures
        ({
            let good_url = spec_trim(url@).len() > 0 && spec_git_url(spec_trim(url@));
            let pathish = spec_looks_like_path(spec_trim(dest@));
            &&& r.ok == (good_url && pathish && (if !exists {
                parent_exists
            } else {
                is_dir && !has_git
            }))
            &&& (r.ok ==> r.reason is None)
            &&& (!good_url ==> (r.reason matches Some(m) && m@ == "Invalid Git URL"@))
            &&& (good_url && !pathish ==> (r.reason matches Some(m) && m@
                == "Destination must be an absolute path"@))
            &&& (good_url && pathish && !exists && !parent_exists ==> (r.reason matches Some(m)
                && m@ == "Parent folder does not exist"@))
            &&& (good_url && pathish && exists && !is_dir ==> (r.reason matches Some(m) && m@
                == "Destination is not a directory"@))
            &&& (good_url && pathish && exists && is_dir && has_git ==> (r.reason matches Some(
                m,
            ) && m@ == "Destination already contains a Git repo"@))
        }),
{
    if !is_probably_git_url(url) {
        return Validation { ok: false, reason: Some("Invalid Git URL".to_owned()) };
    }
    if !looks_like_path(dest) {
        return Validation {
            ok: false,
            reason: Some("Destination must be an absolute path".to_owned()),
        };
    }
    if !exists {
        if !parent_exists {
            return Validation {
                ok: false,
                reason: Some("Parent folder does not exist".to_owned()),
            };
        }
        return Validation { ok: true, reason: None };
    }
    if !is_dir {
        return Validation { ok: false, reason: Some("Destination is not a directory".to_owned()) };
    }
    if has_git {
        return Validation {
            ok: false,
            reason: Some("Destination already contains a Git repo".to_owned()),
        };
    }
    Validation { ok: true, reason: None }
}

} // verus!
