use vstd::prelude::*;

use crate::error::{execution_failed, invalid_arguments, ToolError, ToolErrorView};
use crate::model::ToolPermissionMode;
use crate::path::{has_parent_component, has_parent_component_exec};
use crate::text::{concat, trim, trim_str};

verus! {

/// What `Path::parent` gives for `path`.
pub uninterp spec fn path_parent(path: Seq<char>) -> Option<Seq<char>>;

/// Calls `Path::parent` and renders the result with `to_string_lossy`, which leaves a path
/// made from a `&str` unchanged.
#[verifier::external_body]
fn parent_of(path: &str) -> (r: Option<String>)
    ensures
        match r {
            Some(p) => path_parent(path@) == Some(p@),
            None => path_parent(path@) == None::<Seq<char>>,
        },
{
    std::path::Path::new(path).parent().map(|p| p.to_string_lossy().into_owned())
}

/// Writes UTF-8 text to a file inside the workspace, creating parent directories and
/// overwriting an existing file.
#[derive(Clone)]
pub struct FileWriteTool {
    workspace_root: String,
}

impl FileWriteTool {
    pub fn new(workspace_root: String) -> (t: Self)
        ensures
            t.workspace_root() == workspace_root@,
    {
        Self { workspace_root }
    }

    pub closed spec fn workspace_root(&self) -> Seq<char> {
        self.workspace_root@
    }

    /// The workspace root that written paths are taken from.
    pub fn workspace_root_path(&self) -> (s: &str)
        ensures
            s@ == self.workspace_root(),
    {
        self.workspace_root.as_str()
    }

    pub fn name(&self) -> (s: &'static str)
        ensures
            s@ == "file_write"@,
    {
        "file_write"
    }

    pub fn description(&self) -> (s: &'static str)
        ensures
            s@ == "Write UTF-8 text to a file inside the workspace. Creates parent directories as needed and overwrites existing files."@,
    {
        "Write UTF-8 text to a file inside the workspace. Creates parent directories as needed and overwrites existing files."
    }

    pub fn default_permission(&self) -> (m: ToolPermissionMode)
        ensures
            m == ToolPermissionMode::Allow,
    {
        ToolPermissionMode::Allow
    }
}

/// The path a write names: trimmed, not empty and without `..`.
pub open spec fn write_path_spec(path: Seq<char>) -> Result<Seq<char>, ToolErrorView> {
    let p = trim(path);
    if p.len() == 0 {
        Err(ToolErrorView::InvalidArguments("path must not be empty"@))
    } else if has_parent_component(p) {
        Err(ToolErrorView::InvalidArguments("path must not contain '..'"@))
    } else {
        Ok(p)
    }
}

/// Checks the path a write names and returns it trimmed.
pub fn check_write_path(path: &str) -> (r: Result<String, ToolError>)
    ensures
        match r {
            Ok(p) => write_path_spec(path@) == Ok::<Seq<char>, ToolErrorView>(p@),
            Err(e) => write_path_spec(path@) == Err::<Seq<char>, ToolErrorView>(e@),
        },
{
    let p = trim_str(path);
    if p.as_str().is_empty() {
        Err(invalid_arguments("path must not be empty"))
    } else if has_parent_component_exec(p.as_str()) {
        Err(invalid_arguments("path must not contain '..'"))
    } else {
        Ok(p)
    }
}

/// The directory a written file goes in; a path without one is refused.
pub fn write_parent(target: &str) -> (r: Result<String, ToolError>)
    ensures
        match path_parent(target@) {
            Some(p) => r matches Ok(s) && s@ == p,
            None => r matches Err(e) && e@ == ToolErrorView::InvalidArguments(
                "path must have a parent directory"@,
            ),
        },
{
    match parent_of(target) {
        Some(p) => Ok(p),
        None => Err(invalid_arguments("path must have a parent directory")),
    }
}

/// The next directory up while looking for one that exists; the search fails at the top.
pub fn next_ancestor(current: &str) -> (r: Result<String, ToolError>)
    ensures
        match path_parent(current@) {
            Some(p) => r matches Ok(s) && s@ == p,
            None => r matches Err(e) && e@ == ToolErrorView::ExecutionFailed(
                "failed to find existing parent directory"@,
            ),
        },
{
    match parent_of(current) {
        Some(p) => Ok(p),
        None => Err(execution_failed("failed to find existing parent directory")),
    }
}

/// What is already at a write's target, as `symlink_metadata` tells it.
pub struct ExistingTarget {
    pub is_symlink: bool,
    pub is_dir: bool,
}

/// Refuses to write through a symbolic link or over a directory; `shown` is the path as the
/// call named it.
pub fn check_write_target(existing: Option<ExistingTarget>, shown: &str) -> (r: Result<(), ToolError>)
    ensures
        match existing {
            None => r is Ok,
            Some(t) => if t.is_symlink {
                r matches Err(e) && e@ == ToolErrorView::ExecutionFailed(
                    "refusing to write through symlink: "@ + shown@,
                )
            } else if t.is_dir {
                r matches Err(e) && e@ == ToolErrorView::ExecutionFailed("path is a directory: "@ + shown@)
            } else {
                r is Ok
            },
        },
{
    match existing {
        None => Ok(()),
        Some(t) => if t.is_symlink {
            Err(ToolError::ExecutionFailed(concat("refusing to write through symlink: ", shown)))
        } else if t.is_dir {
            Err(ToolError::ExecutionFailed(concat("path is a directory: ", shown)))
        } else {
            Ok(())
        },
    }
}

/// A path that a write accepts is trimmed, not empty and has no `..` component.
pub proof fn law_write_paths_never_climb(path: Seq<char>)
    ensures
        write_path_spec(path) matches Ok(p) ==> p == trim(path) && p.len() > 0 && !has_parent_component(p),
{
}

} // verus!
