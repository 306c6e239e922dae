use vstd::prelude::*;

use crate::error::{execution_failed, invalid_arguments, ToolError, ToolErrorView};
use crate::model::ToolPermissionMode;
use crate::path::{extension_of, path_extension};
use crate::text::{
    byte_cut, byte_len, chars_of, concat, decimal, decimal_string, lossy_string, prefix_cut_exec,
    str_eq, string_from_chars, string_from_range, trim, trim_str, utf8_lossy,
};

verus! {

/// Largest presentation file, in bytes.
pub const MAX_SOURCE_BYTES: u64 = 1_000_000_000;

/// Most bytes of extracted text that a read returns.
pub const MAX_CONTENT_BYTES: usize = 100_000_000;

/// Longest the converter may run, in seconds.
pub const TIMEOUT_SECONDS: u64 = 60;

/// Extracts readable text from a PPTX presentation as Markdown, with `markitdown`.
#[derive(Clone)]
pub struct PptxReadTool {
    workspace_root: String,
}

impl PptxReadTool {
    pub fn new(workspace_root: String) -> (t: Self)
        ensures
            t.workspace_root() == workspace_root@,
    {
        Self { workspace_root }
    }

    pub closed spec fn workspace_root(&self) -> Seq<char> {
        self.workspace_root@
    }

    /// The workspace root that read paths are taken from.
    pub fn workspace_root_path(&self) -> (s: &str)
        ensures
            s@ == self.workspace_root(),
    {
        self.workspace_root.as_str()
    }

    pub fn name(&self) -> (s: &'static str)
        ensures
            s@ == "pptx_read"@,
    {
        "pptx_read"
    }

    pub fn description(&self) -> (s: &'static str)
        ensures
            s@ == "Extract readable text from a PPTX presentation as Markdown."@,
    {
        "Extract readable text from a PPTX presentation as Markdown."
    }

    pub fn default_permission(&self) -> (m: ToolPermissionMode)
        ensures
            m == ToolPermissionMode::Allow,
    {
        ToolPermissionMode::Allow
    }
}

/// Refuses a path whose extension is not exactly `pptx`.
pub fn check_pptx_extension(path: &str) -> (r: Result<(), ToolError>)
    ensures
        r is Ok <==> path_extension(path@) == Some("pptx"@),
        r matches Err(e) ==> e@ == ToolErrorView::InvalidArguments("path must point to a .pptx file"@),
{
    let ok = match extension_of(path) {
        Some(e) => str_eq(e.as_str(), "pptx"),
        None => false,
    };
    if ok {
        Ok(())
    } else {
        Err(invalid_arguments("path must point to a .pptx file"))
    }
}

/// Refuses a presentation that is not a file, is empty or is larger than [`MAX_SOURCE_BYTES`];
/// `requested` is the path as the call named it.
pub fn check_presentation(is_file: bool, len: u64, requested: &str) -> (r: Result<(), ToolError>)
    ensures
        !is_file ==> (r matches Err(e) && e@ == ToolErrorView::ExecutionFailed(
            "path is not a file: "@ + requested@,
        )),
        is_file && len == 0 ==> (r matches Err(e) && e@ == ToolErrorView::ExecutionFailed(
            "pptx file is empty"@,
        )),
        is_file && len > MAX_SOURCE_BYTES ==> (r matches Err(e) && e@ == ToolErrorView::ExecutionFailed(
            "pptx file is too large; limit is "@ + decimal(MAX_SOURCE_BYTES as nat) + " bytes"@,
        )),
        is_file && 0 < len <= MAX_SOURCE_BYTES ==> r is Ok,
{
    if !is_file {
        return Err(ToolError::ExecutionFailed(concat("path is not a file: ", requested)));
    }
    if len == 0 {
        return Err(execution_failed("pptx file is empty"));
    }
    if len > MAX_SOURCE_BYTES {
        let m = concat("pptx file is too large; limit is ", decimal_string(MAX_SOURCE_BYTES as u128).as_str());
        return Err(ToolError::ExecutionFailed(concat(m.as_str(), " bytes")));
    }
    Ok(())
}

/// The error of a converter run that did not finish within [`TIMEOUT_SECONDS`].
pub fn converter_timed_out() -> (e: ToolError)
    ensures
        e@ == ToolErrorView::ExecutionFailed(
            "markitdown timed out after "@ + decimal(TIMEOUT_SECONDS as nat) + " seconds"@,
        ),
{
    let m = concat("markitdown timed out after ", decimal_string(TIMEOUT_SECONDS as u128).as_str());
    ToolError::ExecutionFailed(concat(m.as_str(), " seconds"))
}

/// `text` cut to at most `max` bytes on a character boundary; the flag tells that it was cut.
pub open spec fn truncated_text(text: Seq<char>, max: nat) -> (Seq<char>, bool) {
    if byte_len(text) <= max {
        (text, false)
    } else {
        (text.take(byte_cut(text, max) as int), true)
    }
}

/// Cuts `text` to at most `max_bytes` bytes on a character boundary.
pub fn truncate_text(text: &str, max_bytes: usize) -> (r: (String, bool))
    ensures
        (r.0@, r.1) == truncated_text(text@, max_bytes as nat),
{
    let v = chars_of(text);
    let k = prefix_cut_exec(&v, max_bytes);
    if k == v.len() {
        assert(v@.take(k as int) =~= v@);
        return (string_from_chars(&v), false);
    }
    proof {
        crate::text::lemma_byte_len_take_mono(v@, k + 1, v@.len() as int);
        assert(v@.take(v@.len() as int) =~= v@);
    }
    let s = string_from_range(&v, 0, k);
    assert(v@.subrange(0, k as int) =~= v@.take(k as int));
    (s, true)
}

/// What a converter run gives: its error output (trimmed) when it failed, else its output
/// trimmed, which must not be empty, cut to [`MAX_CONTENT_BYTES`].
pub open spec fn conversion_spec(success: bool, stdout: Seq<u8>, stderr: Seq<u8>) -> Result<
    (Seq<char>, bool),
    ToolErrorView,
> {
    if !success {
        Err(ToolErrorView::ExecutionFailed("markitdown failed: "@ + trim(utf8_lossy(stderr))))
    } else {
        let raw = trim(utf8_lossy(stdout));
        if raw.len() == 0 {
            Err(ToolErrorView::ExecutionFailed("pptx contained no extractable text"@))
        } else {
            Ok(truncated_text(raw, MAX_CONTENT_BYTES as nat))
        }
    }
}

/// Reads the outcome of a converter run.
pub fn conversion_result(success: bool, stdout: &Vec<u8>, stderr: &Vec<u8>) -> (r: Result<
    (String, bool),
    ToolError,
>)
    ensures
        match r {
            Ok((c, t)) => conversion_spec(success, stdout@, stderr@) == Ok::<
                (Seq<char>, bool),
                ToolErrorView,
            >((c@, t)),
            Err(e) => conversion_spec(success, stdout@, stderr@) == Err::<(Seq<char>, bool), ToolErrorView>(
                e@,
            ),
        },
{
    if !success {
        let err = trim_str(lossy_string(stderr).as_str());
        return Err(ToolError::ExecutionFailed(concat("markitdown failed: ", err.as_str())));
    }
    let raw = trim_str(lossy_string(stdout).as_str());
    if raw.as_str().is_empty() {
        return Err(execution_failed("pptx contained no extractable text"));
    }
    Ok(truncate_text(raw.as_str(), MAX_CONTENT_BYTES))
}

} // verus!
