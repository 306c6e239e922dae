use vstd::prelude::*;

use crate::error::{ToolError, ToolErrorView};
use crate::text::{chars_of, concat, has_prefix, push_char, string_from_chars};

verus! {

/// What `Path::strip_prefix` gives for `path` and `base`: the rest of `path` after the
/// components of `base`, or the message of its error.
pub uninterp spec fn path_strip_prefix(path: Seq<char>, base: Seq<char>) -> Result<
    Seq<char>,
    Seq<char>,
>;

/// What `Path::starts_with` gives: whether `base`'s components are a prefix of `path`'s.
pub uninterp spec fn path_starts_with(path: Seq<char>, base: Seq<char>) -> bool;

/// What `Path::join` gives on Unix: `rel` when it is absolute; otherwise `base` and `rel`,
/// with a `/` between them unless `base` is empty or already ends in one.
pub open spec fn path_join(base: Seq<char>, rel: Seq<char>) -> Seq<char> {
    if is_absolute(rel) {
        rel
    } else if base.len() == 0 || base.last() == '/' {
        base + rel
    } else {
        base + "/"@ + rel
    }
}

/// Calls `Path::strip_prefix`; a result path is rendered with `to_string_lossy`, which leaves
/// a path made from a `&str` unchanged.
#[verifier::external_body]
pub(crate) fn strip_path_prefix(path: &str, base: &str) -> (r: Result<String, String>)
    ensures
        match r {
            Ok(s) => path_strip_prefix(path@, base@) == Ok::<Seq<char>, Seq<char>>(s@),
            Err(e) => path_strip_prefix(path@, base@) == Err::<Seq<char>, Seq<char>>(e@),
        },
{
    std::path::Path::new(path).strip_prefix(base).map(|p| p.to_string_lossy().into_owned()).map_err(
        |e| e.to_string(),
    )
}

/// Calls `Path::starts_with`.
#[verifier::external_body]
pub(crate) fn path_has_base(path: &str, base: &str) -> (b: bool)
    ensures
        b == path_starts_with(path@, base@),
{
    std::path::Path::new(path).starts_with(base)
}

/// Calls `Path::join` and renders the result with `to_string_lossy`.
#[verifier::external_body]
pub(crate) fn join_path(base: &str, rel: &str) -> (r: String)
    ensures
        r@ == path_join(base@, rel@),
{
    std::path::Path::new(base).join(rel).to_string_lossy().into_owned()
}

/// What `Path::file_name` gives for `path`, read as UTF-8.
pub uninterp spec fn path_file_name(path: Seq<char>) -> Option<Seq<char>>;

/// Calls `Path::file_name` and `OsStr::to_str`.
#[verifier::external_body]
pub(crate) fn file_name_of(path: &str) -> (r: Option<String>)
    ensures
        match r {
            Some(s) => path_file_name(path@) == Some(s@),
            None => path_file_name(path@) == None::<Seq<char>>,
        },
{
    std::path::Path::new(path).file_name().and_then(|name| name.to_str()).map(|name| name.to_owned())
}

/// What `Path::extension` gives for `path`, read as UTF-8.
pub uninterp spec fn path_extension(path: Seq<char>) -> Option<Seq<char>>;

/// Calls `Path::extension` and `OsStr::to_str`.
#[verifier::external_body]
pub(crate) fn extension_of(path: &str) -> (r: Option<String>)
    ensures
        match r {
            Some(s) => path_extension(path@) == Some(s@),
            None => path_extension(path@) == None::<Seq<char>>,
        },
{
    std::path::Path::new(path).extension().and_then(|ext| ext.to_str()).map(|ext| ext.to_owned())
}

/// `Path::is_absolute` on Unix: the path starts at the root.
pub open spec fn is_absolute(p: Seq<char>) -> bool {
    p.len() > 0 && p[0] == '/'
}

/// `p` has a `..` component: some `/`-separated segment of it is exactly `..`.
pub open spec fn has_parent_component(p: Seq<char>) -> bool {
    exists|i: int| #[trigger] parent_component_at(p, i)
}

/// A `..` component of `p` starts at position `i`.
pub open spec fn parent_component_at(p: Seq<char>, i: int) -> bool {
    0 <= i && i + 2 <= p.len() && p[i] == '.' && p[i + 1] == '.' && (i == 0 || p[i - 1] == '/')
        && (i + 2 == p.len() || p[i + 2] == '/')
}

/// Whether `p` is absolute.
pub fn is_absolute_exec(p: &str) -> (b: bool)
    ensures
        b == is_absolute(p@),
{
    let v = chars_of(p);
    v.len() > 0 && v[0] == '/'
}

/// Whether `p` has a `..` component.
pub fn has_parent_component_exec(p: &str) -> (b: bool)
    ensures
        b == has_parent_component(p@),
{
    let v = chars_of(p);
    let n = v.len();
    let mut i: usize = 0;
    while i < n
        invariant
            v@ == p@,
            n == v.len(),
            i <= n,
            forall|k: int| 0 <= k < i ==> !#[trigger] parent_component_at(p@, k),
        decreases n - i,
    {
        if 2 <= n - i && v[i] == '.' && v[i + 1] == '.' && (i == 0 || v[i - 1] == '/') && (n - i
            == 2 || v[i + 2] == '/') {
            assert(parent_component_at(p@, i as int));
            return true;
        }
        i += 1;
    }
    assert forall|k: int| !#[trigger] parent_component_at(p@, k) by {
        if 0 <= k < i {
        }
    }
    false
}

/// `s` with every backslash replaced by a slash.
pub open spec fn backslash_to_slash(s: Seq<char>) -> Seq<char> {
    s.map_values(|c: char| if c == '\\' { '/' } else { c })
}

/// `s.replace('\\', "/")`.
pub fn replace_backslashes(s: &str) -> (r: String)
    ensures
        r@ == backslash_to_slash(s@),
{
    let v = chars_of(s);
    let mut r = String::new();
    let mut i: usize = 0;
    while i < v.len()
        invariant
            i <= v.len(),
            v@ == s@,
            r@ == backslash_to_slash(s@).subrange(0, i as int),
        decreases v.len() - i,
    {
        let c = if v[i] == '\\' {
            '/'
        } else {
            v[i]
        };
        push_char(&mut r, c);
        assert(backslash_to_slash(s@).subrange(0, i + 1) =~= backslash_to_slash(s@).subrange(
            0,
            i as int,
        ).push(c));
        i += 1;
    }
    assert(backslash_to_slash(s@).subrange(0, v.len() as int) =~= backslash_to_slash(s@));
    r
}

/// The workspace-relative form of `path`: `.` for the root itself, `/`-separated otherwise;
/// an error when `path` is not under `root`.
pub open spec fn relative_path_spec(root: Seq<char>, path: Seq<char>) -> Result<
    Seq<char>,
    ToolErrorView,
> {
    match path_strip_prefix(path, root) {
        Ok(rel) => if rel.len() == 0 {
            Ok("."@)
        } else {
            Ok(backslash_to_slash(rel))
        },
        Err(e) => Err(ToolErrorView::ExecutionFailed("failed to build relative path: "@ + e)),
    }
}

/// The workspace-relative form of `path`.
pub fn relative_path(workspace_root: &str, path: &str) -> (r: Result<String, ToolError>)
    ensures
        match r {
            Ok(s) => relative_path_spec(workspace_root@, path@) == Ok::<
                Seq<char>,
                ToolErrorView,
            >(s@),
            Err(e) => relative_path_spec(workspace_root@, path@) == Err::<
                Seq<char>,
                ToolErrorView,
            >(e@),
        },
{
    match strip_path_prefix(path, workspace_root) {
        Ok(rel) => {
            if rel.as_str().is_empty() {
                Ok(".".to_owned())
            } else {
                Ok(replace_backslashes(rel.as_str()))
            }
        },
        Err(e) => Err(ToolError::ExecutionFailed(concat("failed to build relative path: ", e.as_str()))),
    }
}

} // verus!
