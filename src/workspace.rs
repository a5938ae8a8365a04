//! Reading the workspace's root manifest: whether a manifest declares a
//! workspace, and which members it lists.
use vstd::prelude::*;
use crate::text::{chars_of, copy_range, is_whitespace_char, skip_white, string_of, views_of};

verus! {

/// Whether `pat` occurs in `s` at index `i`.
pub open spec fn occurs_at(s: Seq<char>, pat: Seq<char>, i: int) -> bool {
    0 <= i && i + pat.len() <= s.len() && s.subrange(i, i + pat.len()) == pat
}

/// Whether `pat` occurs somewhere in `s`.
pub open spec fn occurs(s: Seq<char>, pat: Seq<char>) -> bool {
    exists|i: int| occurs_at(s, pat, i)
}

fn occurs_at_exec(s: &Vec<char>, pat: &Vec<char>, i: usize) -> (r: bool)
    ensures
        r == occurs_at(s@, pat@, i as int),
{
    if i > s.len() || pat.len() > s.len() - i {
        return false;
    }
    let mut k: usize = 0;
    while k < pat.len()
        invariant
            k <= pat.len(),
            i + pat.len() <= s.len(),
            forall|m: int| 0 <= m < k ==> s@[i + m] == pat@[m],
        decreases pat.len() - k,
    {
        if s[i + k] != pat[k] {
            assert(s@.subrange(i as int, i + pat.len())[k as int] != pat@[k as int]);
            return false;
        }
        k = k + 1;
    }
    assert(s@.subrange(i as int, i + pat.len()) =~= pat@);
    true
}

/// The marker of a workspace manifest.
pub open spec fn workspace_marker() -> Seq<char> {
    seq!['[', 'w', 'o', 'r', 'k', 's', 'p', 'a', 'c', 'e', ']']
}

/// Whether a manifest's text declares a workspace: it holds `[workspace]`.
pub fn is_workspace_manifest(content: &str) -> (r: bool)
    ensures
        r == occurs(content@, workspace_marker()),
{
    let s = chars_of(content);
    let pat: Vec<char> = vec!['[', 'w', 'o', 'r', 'k', 's', 'p', 'a', 'c', 'e', ']'];
    assert(pat@ =~= workspace_marker());
    let mut i: usize = 0;
    while i < s.len()
        invariant
            i <= s.len(),
            s@ == content@,
            pat@ == workspace_marker(),
            forall|j: int| 0 <= j < i ==> !occurs_at(s@, pat@, j),
        decreases s.len() - i,
    {
        if occurs_at_exec(&s, &pat, i) {
            return true;
        }
        i = i + 1;
    }
    assert forall|j: int| !occurs_at(s@, pat@, j) by {
        if 0 <= j < i {
        }
    }
    false
}

/// The key of the member list.
pub open spec fn members_key() -> Seq<char> {
    seq!['m', 'e', 'm', 'b', 'e', 'r', 's']
}

/// Where the member list's items start when `members = [` starts at `p`
/// (with any white space around `=`).
pub open spec fn list_start_at(s: Seq<char>, p: int) -> Option<int> {
    let a = skip_white(s, p + 7);
    let b = skip_white(s, a + 1);
    if occurs_at(s, members_key(), p) && a < s.len() && s[a] == '=' && b < s.len() && s[b]
        == '[' {
        Some(b + 1)
    } else {
        None
    }
}

/// Where the items of the first member list at or after `p` start.
pub open spec fn first_list_start(s: Seq<char>, p: int) -> Option<int>
    decreases s.len() - p,
{
    if p < 0 || p >= s.len() {
        None
    } else if list_start_at(s, p) is Some {
        list_start_at(s, p)
    } else {
        first_list_start(s, p + 1)
    }
}

/// The first index at or after `i` that holds `c`; the length of `s` when
/// none does.
pub open spec fn find_char(s: Seq<char>, c: char, i: int) -> int
    decreases s.len() - i,
{
    if i < 0 || i >= s.len() {
        s.len() as int
    } else if s[i] == c {
        i
    } else {
        find_char(s, c, i + 1)
    }
}

/// The text between `[` and the first `]` after it, in the first
/// `members = [ ... ]` of a manifest.
pub open spec fn members_section(s: Seq<char>) -> Option<Seq<char>> {
    match first_list_start(s, 0) {
        Some(st) => if find_char(s, ']', st) < s.len() {
            Some(s.subrange(st, find_char(s, ']', st)))
        } else {
            None
        },
        None => None,
    }
}

/// The non-empty quoted strings of `s[i..]`, read left to right: a quote,
/// one or more other characters, a quote.
pub open spec fn quoted_from(s: Seq<char>, i: int) -> Seq<Seq<char>>
    decreases s.len() - i,
{
    if i < 0 || i >= s.len() {
        seq![]
    } else if s[i] == '"' && find_char(s, '"', i + 1) > i + 1 && find_char(s, '"', i + 1)
        < s.len() {
        seq![s.subrange(i + 1, find_char(s, '"', i + 1))] + quoted_from(
            s,
            find_char(s, '"', i + 1) + 1,
        )
    } else {
        quoted_from(s, i + 1)
    }
}

/// Why a manifest lists no members.
pub enum ManifestError {
    /// The manifest has no `members = [ ... ]` list.
    NoMemberList,
}

fn skip_white_exec(s: &Vec<char>, i: usize) -> (r: usize)
    requires
        i <= s.len(),
    ensures
        r as int == skip_white(s@, i as int),
        i <= r <= s.len(),
{
    let mut j = i;
    while j < s.len() && is_whitespace_char(s[j])
        invariant
            i <= j <= s.len(),
            skip_white(s@, j as int) == skip_white(s@, i as int),
        decreases s.len() - j,
    {
        j = j + 1;
    }
    j
}

fn find_char_exec(s: &Vec<char>, c: char, i: usize) -> (r: usize)
    requires
        i <= s.len(),
    ensures
        r as int == find_char(s@, c, i as int),
        i <= r <= s.len(),
{
    let mut j = i;
    while j < s.len() && s[j] != c
        invariant
            i <= j <= s.len(),
            find_char(s@, c, j as int) == find_char(s@, c, i as int),
        decreases s.len() - j,
    {
        j = j + 1;
    }
    j
}

fn list_start_exec(s: &Vec<char>, key: &Vec<char>, p: usize) -> (r: Option<usize>)
    requires
        p <= s.len(),
        key@ == members_key(),
    ensures
        match r {
            Some(x) => list_start_at(s@, p as int) == Some(x as int) && x <= s.len(),
            None => list_start_at(s@, p as int) is None,
        },
{
    if !occurs_at_exec(s, key, p) {
        return None;
    }
    let a = skip_white_exec(s, p + 7);
    if !(a < s.len() && s[a] == '=') {
        return None;
    }
    let b = skip_white_exec(s, a + 1);
    if !(b < s.len() && s[b] == '[') {
        return None;
    }
    Some(b + 1)
}

fn first_list_start_exec(s: &Vec<char>, key: &Vec<char>) -> (r: Option<usize>)
    requires
        key@ == members_key(),
    ensures
        match r {
            Some(x) => first_list_start(s@, 0) == Some(x as int) && x <= s.len(),
            None => first_list_start(s@, 0) is None,
        },
{
    let mut p: usize = 0;
    while p < s.len()
        invariant
            p <= s.len(),
            key@ == members_key(),
            first_list_start(s@, p as int) == first_list_start(s@, 0),
        decreases s.len() - p,
    {
        match list_start_exec(s, key, p) {
            Some(x) => {
                return Some(x);
            },
            None => {},
        }
        p = p + 1;
    }
    None
}

/// The member names that a root manifest lists in `members = [ ... ]`: the
/// quoted names between the brackets, in order.
pub fn parse_workspace_members(content: &str) -> (r: Result<Vec<String>, ManifestError>)
    ensures
        match r {
            Ok(names) => members_section(content@) is Some && views_of(names@) == quoted_from(
                members_section(content@)->Some_0,
                0,
            ),
            Err(_) => members_section(content@) is None,
        },
{
    let s = chars_of(content);
    let key: Vec<char> = vec!['m', 'e', 'm', 'b', 'e', 'r', 's'];
    assert(key@ =~= members_key());
    let st = match first_list_start_exec(&s, &key) {
        Some(x) => x,
        None => {
            return Err(ManifestError::NoMemberList);
        },
    };
    let end = find_char_exec(&s, ']', st);
    if end == s.len() {
        return Err(ManifestError::NoMemberList);
    }
    let sec = copy_range(&s, st, end);
    let ghost all = quoted_from(sec@, 0);
    let mut names: Vec<String> = Vec::new();
    let mut i: usize = 0;
    while i < sec.len()
        invariant
            i <= sec.len(),
            views_of(names@) + quoted_from(sec@, i as int) == all,
        decreases sec.len() - i,
    {
        if sec[i] == '"' {
            let j = find_char_exec(&sec, '"', i + 1);
            if j > i + 1 && j < sec.len() {
                let name = string_of(&copy_range(&sec, i + 1, j));
                let ghost before = views_of(names@);
                names.push(name);
                assert(views_of(names@) =~= before.push(name@));
                assert(views_of(names@) + quoted_from(sec@, j + 1) =~= before + quoted_from(
                    sec@,
                    i as int,
                ));
                i = j + 1;
                continue;
            }
        }
        i = i + 1;
    }
    assert(views_of(names@) =~= all);
    Ok(names)
}

} // verus!
