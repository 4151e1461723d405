//! The directory of the IDE executable in the form that its DevTools target
//! URLs carry it.

use vstd::prelude::*;
use crate::text::{contains_seq, contains_str, push_char};

verus! {

/// `c` with an ASCII capital letter turned into its small letter.
pub open spec fn ascii_lower(c: char) -> char {
    if 'A' <= c && c <= 'Z' {
        ((c as u32) + 32) as char
    } else {
        c
    }
}

/// `dir` starts with an ASCII character followed by `:`, as a drive letter does.
pub open spec fn has_drive_prefix(dir: Seq<char>) -> bool {
    dir.len() >= 2 && (dir[0] as u32) < 128 && dir[1] == ':'
}

/// Character `i` of the normalized directory: the drive letter in small
/// letters, and `/` in place of every `\`.
pub open spec fn cdp_dir_char(dir: Seq<char>, i: int) -> char {
    let c = if i == 0 && has_drive_prefix(dir) {
        ascii_lower(dir[i])
    } else {
        dir[i]
    };
    if c == '\\' {
        '/'
    } else {
        c
    }
}

/// The directory as the DevTools target URLs show it.
pub open spec fn cdp_dir(dir: Seq<char>) -> Seq<char> {
    Seq::new(dir.len(), |i: int| cdp_dir_char(dir, i))
}

/// Every separator of the normalized directory is `/`: no backslash is left, and
/// the length is unchanged.
pub proof fn lemma_cdp_dir_has_no_backslash(dir: Seq<char>)
    ensures
        cdp_dir(dir).len() == dir.len(),
        forall|i: int| 0 <= i < dir.len() ==> #[trigger] cdp_dir(dir)[i] != '\\',
{
}

pub(crate) fn lower_ascii_char(c: char) -> (r: char)
    ensures
        r == ascii_lower(c),
{
    if 'A' <= c && c <= 'Z' {
        let b = c as u8;
        (b + 32) as char
    } else {
        c
    }
}

/// Normalizes a directory: a leading drive letter in small letters, and `/` as
/// the only separator.
pub fn normalize_cdp_dir(dir: &str) -> (r: String)
    ensures
        r@ == cdp_dir(dir@),
{
    let n = dir.unicode_len();
    let drive = n >= 2 && (dir.get_char(0) as u32) < 128 && dir.get_char(1) == ':';
    let mut out = String::new();
    let mut i: usize = 0;
    while i < n
        invariant
            n == dir@.len(),
            i <= n,
            drive == has_drive_prefix(dir@),
            out@ == cdp_dir(dir@).take(i as int),
        decreases n - i,
    {
        let c = dir.get_char(i);
        let c = if i == 0 && drive {
            lower_ascii_char(c)
        } else {
            c
        };
        let c = if c == '\\' {
            '/'
        } else {
            c
        };
        push_char(&mut out, c);
        i = i + 1;
        assert(out@ =~= cdp_dir(dir@).take(i as int));
    }
    assert(cdp_dir(dir@).take(n as int) =~= cdp_dir(dir@));
    out
}

/// A path component that is a plain name on every platform: not empty, not
/// `.` or `..`, and without `/`, `\\` or `:` (so neither a separator, a root
/// nor a drive prefix can occur in it).
pub open spec fn is_plain_component(s: Seq<char>) -> bool {
    &&& s.len() > 0
    &&& s != seq!['.']
    &&& s != seq!['.', '.']
    &&& forall|i: int| 0 <= i < s.len() ==> s[i] != '/' && s[i] != '\\' && s[i] != ':'
}

/// `dir` reads as a directory path the same way on every platform: it does not
/// end in `/`, holds no `\\`, no two `/` in a row, no `.` or `..` part, and a
/// `:` only as a drive letter `X:` followed by `/` and more.
pub open spec fn is_simple_dir(dir: Seq<char>) -> bool {
    &&& dir.len() > 0
    &&& dir.last() != '/'
    &&& forall|k: int| 0 <= k < dir.len() ==> #[trigger] dir[k] != '\\'
    &&& forall|k: int|
        0 <= k < dir.len() && #[trigger] dir[k] == ':' ==> k == 1 && ('A' <= dir[0] <= 'Z'
            || 'a' <= dir[0] <= 'z') && dir.len() > 3 && dir[2] == '/'
    &&& forall|k: int| 0 <= k < dir.len() - 1 && #[trigger] dir[k] == '/' ==> dir[k + 1] != '/'
    &&& forall|k: int|
        0 <= k < dir.len() && #[trigger] dir[k] == '.' && (k == 0 || dir[k - 1] == '/') ==> {
            &&& k + 1 < dir.len()
            &&& dir[k + 1] != '/'
            &&& !(dir[k + 1] == '.' && (k + 2 == dir.len() || dir[k + 2] == '/'))
        }
}

/// `path` is `dir/name` with a plain `name` after the `/` at position `k`,
/// and `dir` either empty (the root) or a simple directory path.
pub open spec fn splits_at_last_slash(path: Seq<char>, k: int) -> bool {
    &&& 0 <= k < path.len()
    &&& path[k] == '/'
    &&& (k == 0 || is_simple_dir(path.subrange(0, k)))
    &&& is_plain_component(path.subrange(k + 1, path.len() as int))
}

/// `r` is a path whose characters are `expected`.
pub open spec fn holds_path(r: Option<String>, expected: Seq<char>) -> bool {
    r matches Some(p) && p@ == expected
}

/// `path` is the root alone.
pub open spec fn is_root_path(path: Seq<char>) -> bool {
    path == seq!['/']
}

/// The parent of `path` in the cases where the documentation of
/// `std::path::Path::parent` ("the path without its final component") reads
/// the same on every platform: `foo` has the empty parent, `dir/bar` has
/// `dir`, `/foo` has `/`.
pub open spec fn documented_parent(path: Seq<char>, k: int) -> Seq<char> {
    if k == 0 {
        seq!['/']
    } else {
        path.subrange(0, k)
    }
}

/// `path` is a drive letter, `:\`, then plain names separated by single `\`
/// (no `/`, no `:` after the drive, no empty, `.` or `..` part, and no `\` at
/// the end), as in `C:\Program Files\Trae\Trae.exe`. Such a path has a
/// parent on every platform: where `\` separates, the directory; elsewhere it
/// is one relative name, whose parent is empty.
pub open spec fn is_backslash_drive_path(path: Seq<char>) -> bool {
    &&& path.len() > 3
    &&& ('A' <= path[0] <= 'Z' || 'a' <= path[0] <= 'z')
    &&& path[1] == ':'
    &&& path[2] == '\\'
    &&& path.last() != '\\'
    &&& forall|k: int| 3 <= k < path.len() ==> #[trigger] path[k] != '/' && path[k] != ':'
    &&& forall|k: int|
        2 <= k < path.len() - 1 && #[trigger] path[k] == '\\' ==> {
            &&& path[k + 1] != '\\'
            &&& !(path[k + 1] == '.' && (k + 2 == path.len() || path[k + 2] == '\\'))
            &&& !(k + 2 < path.len() && path[k + 1] == '.' && path[k + 2] == '.' && (k + 3
                == path.len() || path[k + 3] == '\\'))
        }
}

/// The parent of `raw_path`, by `std::path::Path::parent`. Which part is the
/// parent depends on the platform's path syntax; what holds everywhere is
/// that it is a leading part of the path, that an empty path and the root
/// have none, and the cases where "the path without its final component"
/// reads the same on every platform: a single plain name has the empty parent,
/// and `dir/name` or `/name` (a plain name after a simple directory path) has
/// `dir` or `/`. A drive path with backslashes (`is_backslash_drive_path`) has
/// a parent, which one depends on the platform. Other paths are left unsaid.
#[verifier::external_body]
fn path_parent(raw_path: &str) -> (r: Option<String>)
    ensures
        r matches Some(p) ==> p@.len() <= raw_path@.len() && p@ == raw_path@.subrange(
            0,
            p@.len() as int,
        ),
        raw_path@.len() == 0 ==> r is None,
        is_root_path(raw_path@) ==> r is None,
        is_plain_component(raw_path@) ==> holds_path(r, Seq::empty()),
        is_backslash_drive_path(raw_path@) ==> r is Some,
        forall|k: int|
            #[trigger] splits_at_last_slash(raw_path@, k) ==> holds_path(
                r,
                documented_parent(raw_path@, k),
            ),
{
    match std::path::Path::new(raw_path).parent() {
        Some(parent) => Some(parent.to_string_lossy().into_owned()),
        None => None,
    }
}

/// The directory of the executable at `raw_path`, normalized for matching
/// against DevTools target URLs; `None` when the path has no parent. A drive
/// path with backslashes, as the default configuration writes it, always has
/// one.
pub fn normalize_executable_path_for_cdp(raw_path: &str) -> (r: Option<String>)
    ensures
        r matches Some(s) ==> exists|k: int|
            0 <= k <= raw_path@.len() && s@ == cdp_dir(#[trigger] raw_path@.subrange(0, k)),
        raw_path@.len() == 0 ==> r is None,
        is_root_path(raw_path@) ==> r is None,
        is_plain_component(raw_path@) ==> holds_path(r, Seq::empty()),
        is_backslash_drive_path(raw_path@) ==> r is Some,
        forall|k: int|
            #[trigger] splits_at_last_slash(raw_path@, k) ==> holds_path(
                r,
                cdp_dir(documented_parent(raw_path@, k)),
            ),
{
    match path_parent(raw_path) {
        Some(parent) => {
            let normalized = normalize_cdp_dir(parent.as_str());
            assert(normalized@ == cdp_dir(raw_path@.subrange(0, parent@.len() as int)));
            assert(parent@.len() == 0 ==> normalized@ =~= Seq::<char>::empty());
            Some(normalized)
        },
        None => None,
    }
}

/// The URL of the main workbench page of an IDE installed in `dir`.
pub open spec fn spec_workbench_url(dir: Seq<char>) -> Seq<char> {
    "vscode-file://vscode-app/"@ + dir
        + "/resources/app/out/vs/code/electron-browser/workbench/workbench.html"@
}

pub fn workbench_url(normalized_dir: &str) -> (r: String)
    ensures
        r@ == spec_workbench_url(normalized_dir@),
{
    let mut out = String::from_str("vscode-file://vscode-app/");
    out.append(normalized_dir);
    out.append("/resources/app/out/vs/code/electron-browser/workbench/workbench.html");
    out
}

/// Whether a DevTools target with `url` is the main workbench of the IDE
/// installed in `normalized_dir`.
pub fn is_workbench_target(url: &str, normalized_dir: &str) -> (r: bool)
    ensures
        r == contains_seq(url@, spec_workbench_url(normalized_dir@)),
{
    let expected = workbench_url(normalized_dir);
    contains_str(url, expected.as_str())
}

/// The position of the last DevTools target in `urls` that is the main
/// workbench of the IDE installed in `normalized_dir`.
pub fn last_workbench_target(urls: &[String], normalized_dir: &str) -> (r: Option<usize>)
    ensures
        match r {
            Some(i) => i < urls@.len() && contains_seq(
                urls@[i as int]@,
                spec_workbench_url(normalized_dir@),
            ) && forall|j: int|
                i < j < urls@.len() ==> !contains_seq(
                    #[trigger] urls@[j]@,
                    spec_workbench_url(normalized_dir@),
                ),
            None => forall|j: int|
                0 <= j < urls@.len() ==> !contains_seq(
                    #[trigger] urls@[j]@,
                    spec_workbench_url(normalized_dir@),
                ),
        },
{
    let mut i: usize = urls.len();
    while i > 0
        invariant
            i <= urls@.len(),
            forall|j: int|
                i <= j < urls@.len() ==> !contains_seq(
                    #[trigger] urls@[j]@,
                    spec_workbench_url(normalized_dir@),
                ),
        decreases i,
    {
        if is_workbench_target(urls[i - 1].as_str(), normalized_dir) {
            return Some(i - 1);
        }
        i = i - 1;
    }
    None
}

} // verus!
