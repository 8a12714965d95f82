use vstd::prelude::*;

use crate::json::opt_view;
use crate::session::store::join_path;
use crate::session::store::path_join;
use crate::text::chars_of;
use crate::text::contains;
use crate::text::contains_chars;
use crate::text::ends_with;
use crate::text::ends_with_chars;
use crate::text::starts_with;
use crate::text::starts_with_chars;
use crate::text::str_eq;

verus! {

/// `Path::parent` of a path, as text; `None` for a root or an empty path.
pub uninterp spec fn path_parent_of(path: Seq<char>) -> Option<Seq<char>>;

/// `Path::file_name` of a path, as text; `None` when it ends in `..` or is a root.
pub uninterp spec fn path_file_name_of(path: Seq<char>) -> Option<Seq<char>>;

/// `std::path::Path::parent`, read as text; its result is named `path_parent_of`.
#[verifier::external_body]
fn path_parent(path: &str) -> (r: Option<String>)
    ensures
        opt_view(r) == path_parent_of(path@),
{
    std::path::Path::new(path).parent().map(|p| p.to_string_lossy().to_string())
}

/// `std::path::Path::file_name`, read as text; its result is named `path_file_name_of`.
#[verifier::external_body]
fn path_file_name(path: &str) -> (r: Option<String>)
    ensures
        opt_view(r) == path_file_name_of(path@),
{
    std::path::Path::new(path).file_name().map(|n| n.to_string_lossy().to_string())
}

/// The name of the directory that holds a session file ("" where there is none).
pub open spec fn parent_dir_name_of(path: Seq<char>) -> Seq<char> {
    match path_parent_of(path) {
        Some(p) => match path_file_name_of(p) {
            Some(n) => n,
            None => ""@,
        },
        None => ""@,
    }
}

/// The name of the directory that holds a session file.
pub fn parent_dir_name(path: &str) -> (r: String)
    ensures
        r@ == parent_dir_name_of(path@),
{
    proof {
        reveal_strlit("");
    }
    match path_parent(path) {
        Some(p) => match path_file_name(p.as_str()) {
            Some(n) => n,
            None => String::new(),
        },
        None => String::new(),
    }
}

/// `Path::strip_prefix` of a path by a base, as text; `None` when the base is not a
/// prefix of the path's components.
pub uninterp spec fn path_strip_prefix_of(path: Seq<char>, base: Seq<char>) -> Option<Seq<char>>;

/// `std::path::Path::strip_prefix`, read as text; its result is named `path_strip_prefix_of`.
#[verifier::external_body]
fn path_strip_prefix(path: &str, base: &str) -> (r: Option<String>)
    ensures
        opt_view(r) == path_strip_prefix_of(path@, base@),
{
    std::path::Path::new(path).strip_prefix(base).ok().map(|p| p.to_string_lossy().to_string())
}

/// Whether the components of `base` begin those of `path` (`Path::starts_with`).
pub uninterp spec fn path_starts_with_of(path: Seq<char>, base: Seq<char>) -> bool;

/// `std::path::Path::starts_with`; its result is named `path_starts_with_of`.
#[verifier::external_body]
fn path_starts_with(path: &str, base: &str) -> (r: bool)
    ensures
        r == path_starts_with_of(path@, base@),
{
    std::path::Path::new(path).starts_with(base)
}

/// A session file's path relative to the sessions directory, or the whole path when it
/// lies elsewhere.
pub open spec fn relative_path_of(path: Seq<char>, sessions_dir: Seq<char>) -> Seq<char> {
    match path_strip_prefix_of(path, sessions_dir) {
        Some(rel) => rel,
        None => path,
    }
}

/// A session file's path relative to the sessions directory.
pub fn relative_jsonl_path(path: &str, sessions_dir: &str) -> (r: String)
    ensures
        r@ == relative_path_of(path@, sessions_dir@),
{
    match path_strip_prefix(path, sessions_dir) {
        Some(rel) => rel,
        None => String::from_str(path),
    }
}

/// A relative path climbs out of its base: one of its `/`-separated components is `..`.
pub open spec fn has_parent_component(p: Seq<char>) -> bool {
    p == ".."@ || starts_with(p, "../"@) || ends_with(p, "/.."@) || contains(p, "/../"@)
}

/// Whether a path has a `..` component.
pub fn climbs_out(p: &str) -> (r: bool)
    ensures
        r == has_parent_component(p@),
{
    let c = chars_of(p);
    let up = chars_of("../");
    let tail = chars_of("/..");
    let mid = chars_of("/../");
    str_eq(p, "..") || starts_with_chars(c.as_slice(), up.as_slice()) || ends_with_chars(c.as_slice(), tail.as_slice())
        || contains_chars(c.as_slice(), mid.as_slice())
}

/// The file that a raw-line request names: `jsonl_file` under the sessions directory,
/// refused (`None`) when it has a `..` component or the joined path leaves the
/// directory.
pub open spec fn raw_event_path_of(sessions_dir: Seq<char>, jsonl_file: Seq<char>) -> Option<Seq<char>> {
    let full = path_join(sessions_dir, jsonl_file);
    if !has_parent_component(jsonl_file) && path_starts_with_of(full, sessions_dir) {
        Some(full)
    } else {
        None
    }
}

/// The file that a raw-line request names, unless it lies outside the sessions directory.
pub fn raw_event_path(sessions_dir: &str, jsonl_file: &str) -> (r: Option<String>)
    ensures
        opt_view(r) == raw_event_path_of(sessions_dir@, jsonl_file@),
{
    if climbs_out(jsonl_file) {
        return None;
    }
    let full = join_path(sessions_dir, jsonl_file);
    if path_starts_with(full.as_str(), sessions_dir) {
        Some(full)
    } else {
        None
    }
}

} // verus!
