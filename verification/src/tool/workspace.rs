use vstd::prelude::*;

use crate::error::{ToolError, ToolErrorView};
use crate::path::{is_absolute, is_absolute_exec, join_path, path_has_base, path_join, path_starts_with};
use crate::text::{concat, trim, trim_str, utf8_to_string};
use vstd::utf8::{decode_utf8, valid_utf8};

verus! {

/// The path that a call names in its argument `field`: trimmed; an empty path is the
/// workspace root `.` where `empty_is_root`, and refused otherwise.
pub open spec fn requested_path_spec(field: Seq<char>, path: Seq<char>, empty_is_root: bool) -> Result<
    Seq<char>,
    ToolErrorView,
> {
    let p = trim(path);
    if p.len() == 0 {
        if empty_is_root {
            Ok("."@)
        } else {
            Err(ToolErrorView::InvalidArguments(field + " must not be empty"@))
        }
    } else {
        Ok(p)
    }
}

/// The path that a call names, trimmed.
pub fn requested_path(field: &str, path: &str, empty_is_root: bool) -> (r: Result<String, ToolError>)
    ensures
        match r {
            Ok(p) => requested_path_spec(field@, path@, empty_is_root) == Ok::<Seq<char>, ToolErrorView>(
                p@,
            ),
            Err(e) => requested_path_spec(field@, path@, empty_is_root) == Err::<
                Seq<char>,
                ToolErrorView,
            >(e@),
        },
{
    let p = trim_str(path);
    if p.as_str().is_empty() {
        if empty_is_root {
            Ok(".".to_owned())
        } else {
            Err(ToolError::InvalidArguments(concat(field, " must not be empty")))
        }
    } else {
        Ok(p)
    }
}

/// Where a requested path points before it is made canonical: itself when absolute,
/// else joined onto `root`.
pub open spec fn target_path_spec(root: Seq<char>, requested: Seq<char>) -> Seq<char> {
    if is_absolute(requested) {
        requested
    } else {
        path_join(root, requested)
    }
}

/// Where a requested path points before it is made canonical.
pub fn target_path(root: &str, requested: &str) -> (r: String)
    ensures
        r@ == target_path_spec(root@, requested@),
{
    if is_absolute_exec(requested) {
        requested.to_owned()
    } else {
        join_path(root, requested)
    }
}

/// The check that a canonical path lies under the canonical workspace root; `shown` is the
/// path as the call named it in its argument `field`.
pub open spec fn inside_workspace_spec(
    field: Seq<char>,
    root: Seq<char>,
    resolved: Seq<char>,
    shown: Seq<char>,
) -> Result<
    (),
    ToolErrorView,
> {
    if path_starts_with(resolved, root) {
        Ok(())
    } else {
        Err(ToolErrorView::ExecutionFailed(field + " is outside workspace: "@ + shown))
    }
}

/// Refuses a canonical path that is not under the canonical workspace root.
pub fn check_inside_workspace(field: &str, root: &str, resolved: &str, shown: &str) -> (r: Result<
    (),
    ToolError,
>)
    ensures
        match r {
            Ok(()) => inside_workspace_spec(field@, root@, resolved@, shown@) == Ok::<(), ToolErrorView>(
                (),
            ),
            Err(e) => inside_workspace_spec(field@, root@, resolved@, shown@) == Err::<
                (),
                ToolErrorView,
            >(e@),
        },
{
    if path_has_base(resolved, root) {
        Ok(())
    } else {
        let m = concat(field, " is outside workspace: ");
        Err(ToolError::ExecutionFailed(concat(m.as_str(), shown)))
    }
}

/// The content of a file as text: its bytes must be valid UTF-8.
pub fn file_text(bytes: Vec<u8>) -> (r: Result<String, ToolError>)
    ensures
        r is Ok <==> valid_utf8(bytes@),
        r matches Ok(s) ==> s@ == decode_utf8(bytes@),
        r matches Err(e) ==> e@ == ToolErrorView::ExecutionFailed("file is not valid UTF-8"@),
{
    match utf8_to_string(bytes) {
        Some(s) => Ok(s),
        None => Err(ToolError::ExecutionFailed("file is not valid UTF-8".to_owned())),
    }
}

} // verus!
