use vstd::prelude::*;

use crate::text::{truncate_bytes_with, truncated_with};

verus! {

/// A shell command to run, with its time limit in seconds and an optional working directory.
#[derive(Debug, Clone)]
pub struct ProcessRequest {
    pub command: String,
    pub timeout_seconds: u64,
    pub cwd: Option<String>,
}

/// What a finished command produced.
#[derive(Debug, Clone)]
pub struct ProcessOutput {
    pub exit_code: i32,
    pub stdout: String,
    pub stderr: String,
    pub truncated: bool,
}

/// The marker placed after output that was cut.
pub open spec fn truncation_marker() -> Seq<char> {
    "\n... [truncated]"@
}

/// `text` cut to `max_bytes` on a character boundary, with the truncation marker after a cut.
pub fn truncate_text(text: &str, max_bytes: usize) -> (r: (String, bool))
    ensures
        (r.0@, r.1) == truncated_with(text@, max_bytes as nat, truncation_marker()),
{
    truncate_bytes_with(text, max_bytes, "\n... [truncated]")
}

/// The output record for a command that exited with `exit_code` (`None` when it was ended by
/// a signal, reported as -1), each stream cut to `max_bytes`.
pub open spec fn finished_output(
    exit_code: Option<i32>,
    stdout: Seq<char>,
    stderr: Seq<char>,
    max_bytes: nat,
) -> (i32, Seq<char>, Seq<char>, bool) {
    let out = truncated_with(stdout, max_bytes, truncation_marker());
    let err = truncated_with(stderr, max_bytes, truncation_marker());
    (
        match exit_code {
            Some(c) => c,
            None => -1i32,
        },
        out.0,
        err.0,
        out.1 || err.1,
    )
}

/// Builds the output record of a finished command.
pub fn finish_output(exit_code: Option<i32>, stdout: &str, stderr: &str, max_bytes: usize) -> (o:
    ProcessOutput)
    ensures
        (o.exit_code, o.stdout@, o.stderr@, o.truncated) == finished_output(
            exit_code,
            stdout@,
            stderr@,
            max_bytes as nat,
        ),
{
    let (out, out_truncated) = truncate_text(stdout, max_bytes);
    let (err, err_truncated) = truncate_text(stderr, max_bytes);
    let code = match exit_code {
        Some(c) => c,
        None => -1,
    };
    ProcessOutput { exit_code: code, stdout: out, stderr: err, truncated: out_truncated || err_truncated }
}

/// Runs shell commands directly on the host, from the workspace by default.
#[derive(Debug, Clone)]
pub struct ProcessRunner {
    workspace_root: String,
    max_output_bytes: usize,
}

impl ProcessRunner {
    pub fn new(workspace_root: String, max_output_bytes: usize) -> (r: Self)
        ensures
            r.workspace_root() == workspace_root@,
            r.max_output_bytes() == max_output_bytes,
    {
        Self { workspace_root, max_output_bytes }
    }

    pub closed spec fn workspace_root(&self) -> Seq<char> {
        self.workspace_root@
    }

    pub closed spec fn max_output_bytes(&self) -> usize {
        self.max_output_bytes
    }

    /// The directory a request runs in: its own, else the workspace root.
    pub fn working_dir(&self, request: &ProcessRequest) -> (d: String)
        ensures
            d@ == match request.cwd {
                Some(c) => c@,
                None => self.workspace_root(),
            },
    {
        match &request.cwd {
            Some(c) => c.clone(),
            None => self.workspace_root.clone(),
        }
    }

    /// The output record of a command that this runner ran.
    pub fn finish(&self, exit_code: Option<i32>, stdout: &str, stderr: &str) -> (o: ProcessOutput)
        ensures
            (o.exit_code, o.stdout@, o.stderr@, o.truncated) == finished_output(
                exit_code,
                stdout@,
                stderr@,
                self.max_output_bytes() as nat,
            ),
    {
        finish_output(exit_code, stdout, stderr, self.max_output_bytes)
    }
}

} // verus!
