//! Normalisation of workspace paths to the form the Codex desktop app shows:
//! Windows extended-length prefixes (`\\?\`, `\\?\UNC\`) are removed and
//! trailing separators are trimmed, without ever turning a drive root or a
//! UNC share root into something else.
use vstd::prelude::*;
use crate::text::{chars_eq, chars_of, has_prefix, lower_chars, lower_seq, push_char, push_str, starts_with_chars, string_from_range, trim, trim_bounds};

verus! {

/// A path separator, forward or backward slash.
pub open spec fn is_sep(c: char) -> bool {
    c == '\\' || c == '/'
}

/// The `\\?\UNC\` prefix, compared in lower case.
pub open spec fn unc_prefix() -> Seq<char> {
    seq!['\\', '\\', '?', '\\', 'u', 'n', 'c', '\\']
}

/// The `\\?\` prefix.
pub open spec fn extended_prefix() -> Seq<char> {
    seq!['\\', '\\', '?', '\\']
}

/// A path that looks like a Windows path: a UNC path (`\\`, `//`) or one whose
/// second byte is a drive colon.
pub open spec fn is_windows_path(s: Seq<char>) -> bool {
    ||| (s.len() >= 2 && s[0] == '\\' && s[1] == '\\')
    ||| (s.len() >= 2 && s[0] == '/' && s[1] == '/')
    ||| (s.len() >= 2 && (s[0] as u32) < 0x80 && s[1] == ':')
}

/// The number of non-empty components of `s` between separators.
pub open spec fn component_count(s: Seq<char>) -> nat
    decreases s.len(),
{
    if s.len() == 0 {
        0
    } else {
        component_count(s.drop_last()) + if !is_sep(s.last()) && (s.len() == 1 || is_sep(
            s[s.len() - 2],
        )) {
            1nat
        } else {
            0nat
        }
    }
}

/// A drive root such as `C:\`.
pub open spec fn is_drive_root(s: Seq<char>) -> bool {
    s.len() == 3 && (s[0] as u32) < 0x80 && s[1] == ':' && is_sep(s[2])
}

/// Starts with two separators.
pub open spec fn has_unc_start(s: Seq<char>) -> bool {
    s.len() >= 2 && is_sep(s[0]) && is_sep(s[1])
}

/// A trailing separator of `s` must stay: `s` is a drive root, a UNC path with
/// fewer than two components (server and share), or at most one character long.
pub open spec fn keeps_trailing_separator(s: Seq<char>) -> bool {
    ||| is_drive_root(s)
    ||| (has_unc_start(s) && component_count(s.subrange(2, s.len() as int)) < 2)
    ||| (!has_unc_start(s) && s.len() <= 1)
}

/// `s` with trailing separators removed while that is safe.
pub open spec fn trim_safe_separators(s: Seq<char>) -> Seq<char>
    decreases s.len(),
{
    if s.len() > 0 && is_sep(s.last()) && !keeps_trailing_separator(s) {
        trim_safe_separators(s.drop_last())
    } else {
        s
    }
}

/// `v` with the extended-length prefix removed, if it has one.
pub open spec fn strip_extended_prefix(v: Seq<char>) -> Seq<char> {
    if has_prefix(lower_seq(v), unc_prefix()) {
        seq!['\\', '\\'] + v.subrange(8, v.len() as int)
    } else if has_prefix(lower_seq(v), extended_prefix()) {
        v.subrange(4, v.len() as int)
    } else {
        v
    }
}

/// The desktop form of a workspace path; `None` for a blank path.
pub open spec fn desktop_workspace_path(value: Seq<char>) -> Option<Seq<char>> {
    let v = trim(value);
    if v.len() == 0 {
        None
    } else {
        let n = strip_extended_prefix(v);
        Some(
            if is_windows_path(n) {
                trim_safe_separators(n)
            } else {
                n
            },
        )
    }
}

/// The view of an optional string.
pub open spec fn opt_view(o: Option<String>) -> Option<Seq<char>> {
    match o {
        Some(s) => Some(s@),
        None => None,
    }
}

fn is_windows_chars(s: &Vec<char>) -> (b: bool)
    ensures
        b == is_windows_path(s@),
{
    s.len() >= 2 && ((s[0] == '\\' && s[1] == '\\') || (s[0] == '/' && s[1] == '/') || ((
    s[0] as u32) < 0x80 && s[1] == ':'))
}

/// Whether `value` looks like a Windows path (UNC, or a drive letter and colon).
pub fn is_windows_workspace_path(value: &str) -> (b: bool)
    ensures
        b == is_windows_path(value@),
{
    let v = chars_of(value);
    is_windows_chars(&v)
}

fn is_sep_char(c: char) -> (b: bool)
    ensures
        b == is_sep(c),
{
    c == '\\' || c == '/'
}

/// The number of components of `v[a..b]`.
fn component_count_range(v: &Vec<char>, a: usize, b: usize) -> (n: usize)
    requires
        a <= b <= v.len(),
    ensures
        n == component_count(v@.subrange(a as int, b as int)),
{
    let mut n: usize = 0;
    let mut i: usize = a;
    assert(v@.subrange(a as int, a as int).len() == 0);
    while i < b
        invariant
            a <= i <= b <= v.len(),
            n == component_count(v@.subrange(a as int, i as int)),
            n <= i - a,
        decreases b - i,
    {
        let starts = !is_sep_char(v[i]) && (i == a || is_sep_char(v[i - 1]));
        proof {
            let t = v@.subrange(a as int, i + 1);
            assert(t.drop_last() == v@.subrange(a as int, i as int));
            assert(t.last() == v@[i as int]);
            if i > a {
                assert(t[t.len() - 2] == v@[i - 1]);
            }
        }
        if starts {
            n = n + 1;
        }
        i = i + 1;
    }
    n
}

/// Whether the trailing separator of `v[0..k]` has to stay.
fn keeps_trailing(v: &Vec<char>, k: usize) -> (b: bool)
    requires
        k <= v.len(),
    ensures
        b == keeps_trailing_separator(v@.subrange(0, k as int)),
{
    let s = Ghost(v@.subrange(0, k as int));
    let drive = k == 3 && (v[0] as u32) < 0x80 && v[1] == ':' && is_sep_char(v[2]);
    let unc = k >= 2 && is_sep_char(v[0]) && is_sep_char(v[1]);
    assert(drive == is_drive_root(s@));
    assert(unc == has_unc_start(s@));
    if drive {
        return true;
    }
    if unc {
        let count = component_count_range(v, 2, k);
        assert(s@.subrange(2, k as int) == v@.subrange(2, k as int));
        count < 2
    } else {
        k <= 1
    }
}

/// Removes trailing separators from a Windows path while that is safe:
/// a drive root (`C:\`) and a UNC path without both server and share keep theirs.
pub fn trim_safe_windows_trailing_separators(value: &mut String)
    ensures
        final(value)@ == trim_safe_separators(old(value)@),
{
    let v = chars_of(value.as_str());
    let mut k: usize = v.len();
    assert(v@.subrange(0, k as int) == v@);
    while k > 0 && is_sep_char(v[k - 1]) && !keeps_trailing(&v, k)
        invariant
            k <= v.len(),
            trim_safe_separators(v@) == trim_safe_separators(v@.subrange(0, k as int)),
        decreases k,
    {
        assert(v@.subrange(0, k as int).drop_last() == v@.subrange(0, k - 1));
        k = k - 1;
    }
    *value = string_from_range(&v, 0, k);
}

/// The path as the Codex desktop app stores it: trimmed, without a Windows
/// extended-length prefix, and without unsafe-to-keep trailing separators.
/// Returns `None` for a blank path.
pub fn to_desktop_workspace_path(value: &str) -> (r: Option<String>)
    ensures
        opt_view(r) == desktop_workspace_path(value@),
{
    let raw = chars_of(value);
    let (lo, hi) = trim_bounds(&raw);
    if lo == hi {
        return None;
    }
    let v = string_from_range(&raw, lo, hi);
    let vc = chars_of(v.as_str());
    let lower = lower_chars(&vc);
    let unc = vec!['\\', '\\', '?', '\\', 'u', 'n', 'c', '\\'];
    let ext = vec!['\\', '\\', '?', '\\'];
    assert(unc@ == unc_prefix());
    assert(ext@ == extended_prefix());
    let mut normalized: String;
    if starts_with_chars(&lower, &unc) {
        normalized = String::new();
        push_char(&mut normalized, '\\');
        push_char(&mut normalized, '\\');
        let rest = string_from_range(&vc, 8, vc.len());
        push_str(&mut normalized, rest.as_str());
        assert(normalized@ == seq!['\\', '\\'] + vc@.subrange(8, vc@.len() as int));
    } else if starts_with_chars(&lower, &ext) {
        normalized = string_from_range(&vc, 4, vc.len());
    } else {
        normalized = v;
    }
    if is_windows_workspace_path(normalized.as_str()) {
        trim_safe_windows_trailing_separators(&mut normalized);
    }
    Some(normalized)
}

/// `s` with every `/` replaced by `\`.
pub open spec fn backslashed(s: Seq<char>) -> Seq<char> {
    s.map_values(|c: char| if c == '/' { '\\' } else { c })
}

/// `s` without trailing backslashes.
pub open spec fn trim_end_backslashes(s: Seq<char>) -> Seq<char>
    decreases s.len(),
{
    if s.len() > 0 && s.last() == '\\' {
        trim_end_backslashes(s.drop_last())
    } else {
        s
    }
}

/// The form under which two workspace paths count as the same entry.
pub open spec fn comparable_path(s: Seq<char>) -> Seq<char> {
    lower_seq(trim_end_backslashes(backslashed(s)))
}

/// The first `i` inputs normalised, dropping blanks and later duplicates,
/// together with the comparable forms seen so far.
pub open spec fn normalized_paths_upto(values: Seq<Seq<char>>, i: int) -> (Seq<Seq<char>>, Seq<
    Seq<char>,
>)
    decreases i,
{
    if i <= 0 {
        (seq![], seq![])
    } else {
        let (kept, seen) = normalized_paths_upto(values, i - 1);
        match desktop_workspace_path(values[i - 1]) {
            None => (kept, seen),
            Some(n) => if seen.contains(comparable_path(n)) {
                (kept, seen)
            } else {
                (kept.push(n), seen.push(comparable_path(n)))
            },
        }
    }
}

/// All inputs normalised, blanks and duplicates (by comparable form) dropped,
/// first occurrence kept.
pub open spec fn normalized_paths(values: Seq<Seq<char>>) -> Seq<Seq<char>> {
    normalized_paths_upto(values, values.len() as int).0
}

/// The views of a vector of strings.
pub open spec fn views(v: Seq<String>) -> Seq<Seq<char>> {
    v.map_values(|s: String| s@)
}

fn comparable_of(s: &String) -> (c: Vec<char>)
    ensures
        c@ == comparable_path(s@),
{
    let v = chars_of(s.as_str());
    let mut b: Vec<char> = Vec::new();
    let mut i: usize = 0;
    while i < v.len()
        invariant
            i <= v.len(),
            b@ == backslashed(v@.subrange(0, i as int)),
        decreases v.len() - i,
    {
        let c = if v[i] == '/' {
            '\\'
        } else {
            v[i]
        };
        b.push(c);
        assert(backslashed(v@.subrange(0, i + 1)) == backslashed(v@.subrange(0, i as int)).push(
            c,
        ));
        i = i + 1;
    }
    assert(v@.subrange(0, v.len() as int) == v@);
    let mut k: usize = b.len();
    assert(b@.subrange(0, k as int) == b@);
    while k > 0 && b[k - 1] == '\\'
        invariant
            k <= b.len(),
            trim_end_backslashes(b@) == trim_end_backslashes(b@.subrange(0, k as int)),
        decreases k,
    {
        assert(b@.subrange(0, k as int).drop_last() == b@.subrange(0, k - 1));
        k = k - 1;
    }
    b.truncate(k);
    assert(b@ == trim_end_backslashes(backslashed(s@)));
    lower_chars(&b)
}

fn seen_contains(seen: &Vec<Vec<char>>, c: &Vec<char>) -> (r: bool)
    ensures
        r == seen@.map_values(|x: Vec<char>| x@).contains(c@),
{
    let ghost sv = seen@.map_values(|x: Vec<char>| x@);
    let mut i: usize = 0;
    while i < seen.len()
        invariant
            i <= seen.len(),
            sv == seen@.map_values(|x: Vec<char>| x@),
            forall|j: int| 0 <= j < i ==> sv[j] != c@,
        decreases seen.len() - i,
    {
        if chars_eq(&seen[i], c) {
            assert(sv[i as int] == c@);
            return true;
        }
        i = i + 1;
    }
    false
}

/// The desktop forms of `values`, without blanks and without repeats of the
/// same path (compared case-insensitively, with `/` and `\` alike, and
/// ignoring trailing backslashes); the first occurrence wins.
pub fn normalized_workspace_paths(values: &Vec<String>) -> (r: Vec<String>)
    ensures
        views(r@) == normalized_paths(views(values@)),
{
    let ghost vs = views(values@);
    let mut kept: Vec<String> = Vec::new();
    let mut seen: Vec<Vec<char>> = Vec::new();
    let mut i: usize = 0;
    while i < values.len()
        invariant
            i <= values.len(),
            vs == views(values@),
            (views(kept@), seen@.map_values(|x: Vec<char>| x@)) == normalized_paths_upto(
                vs,
                i as int,
            ),
        decreases values.len() - i,
    {
        let n = to_desktop_workspace_path(values[i].as_str());
        assert(vs[i as int] == values@[i as int]@);
        match n {
            None => {},
            Some(p) => {
                let c = comparable_of(&p);
                if !seen_contains(&seen, &c) {
                    proof {
                        assert(views(kept@.push(p)) == views(kept@).push(p@));
                        assert(seen@.push(c).map_values(|x: Vec<char>| x@) == seen@.map_values(
                            |x: Vec<char>| x@,
                        ).push(c@));
                    }
                    kept.push(p);
                    seen.push(c);
                }
            },
        }
        i = i + 1;
    }
    kept
}

} // verus!
