use vstd::prelude::*;

use crate::error::{unavailable, ToolError, ToolErrorView};
use crate::text::concat;

verus! {

/// Default number of characters a PDF read returns.
pub const DEFAULT_MAX_CHARS: usize = 50_000;

/// Largest number of characters a PDF read returns.
pub const MAX_OUTPUT_CHARS: usize = 200_000;

/// Reads a PDF file from the workspace as Markdown text; the reading itself is not available yet.
pub struct PdfFileReadTool {
    workspace_root: String,
}

impl PdfFileReadTool {
    /// A PDF tool for the workspace root as canonicalization gave it (or its error), which must
    /// be a directory.
    pub fn new(resolved_root: Result<String, String>, is_dir: bool) -> (r: Result<Self, ToolError>)
        ensures
            match resolved_root {
                Err(m) => r matches Err(e) && e@ == ToolErrorView::Unavailable(
                    "failed to resolve workspace root: "@ + m@,
                ),
                Ok(root) => if is_dir {
                    r matches Ok(t) && t.workspace_root() == root@
                } else {
                    r matches Err(e) && e@ == ToolErrorView::Unavailable("workspace root must be a directory"@)
                },
            },
    {
        match resolved_root {
            Err(m) => Err(ToolError::Unavailable(concat("failed to resolve workspace root: ", m.as_str()))),
            Ok(root) => if is_dir {
                Ok(Self { workspace_root: root })
            } else {
                Err(unavailable("workspace root must be a directory"))
            },
        }
    }

    pub closed spec fn workspace_root(&self) -> Seq<char> {
        self.workspace_root@
    }

    pub fn name(&self) -> (s: &'static str)
        ensures
            s@ == "pdf_read"@,
    {
        "pdf_read"
    }

    pub fn description(&self) -> (s: &'static str)
        ensures
            s@ == "Read a PDF (.pdf) file from the workspace and return its extracted Markdown text."@,
    {
        "Read a PDF (.pdf) file from the workspace and return its extracted Markdown text."
    }

    /// Runs the tool: every call is answered that reading is not available yet.
    pub fn execute(&self) -> (r: Result<String, ToolError>)
        ensures
            r matches Err(e) && e@ == ToolErrorView::Unavailable("pdf_read execution is not implemented yet"@),
    {
        Err(unavailable("pdf_read execution is not implemented yet"))
    }
}

} // verus!
