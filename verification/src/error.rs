use vstd::prelude::*;

use crate::text::{concat, decimal, decimal_string};

verus! {

/// Why a tool refused or failed a call.
#[derive(Debug)]
pub enum ToolError {
    InvalidArguments(String),
    ExecutionFailed(String),
    Unavailable(String),
    Timeout,
}

/// The abstract value of a [`ToolError`].
pub enum ToolErrorView {
    InvalidArguments(Seq<char>),
    ExecutionFailed(Seq<char>),
    Unavailable(Seq<char>),
    Timeout,
}

impl View for ToolError {
    type V = ToolErrorView;

    open spec fn view(&self) -> ToolErrorView {
        match self {
            ToolError::InvalidArguments(m) => ToolErrorView::InvalidArguments(m@),
            ToolError::ExecutionFailed(m) => ToolErrorView::ExecutionFailed(m@),
            ToolError::Unavailable(m) => ToolErrorView::Unavailable(m@),
            ToolError::Timeout => ToolErrorView::Timeout,
        }
    }
}

/// The view of a result whose error is a [`ToolError`].
pub open spec fn tool_result_view<T>(r: Result<T, ToolError>) -> Result<T, ToolErrorView> {
    match r {
        Ok(v) => Ok(v),
        Err(e) => Err(e@),
    }
}

/// A [`ToolError::InvalidArguments`] with the given message.
pub fn invalid_arguments(message: &str) -> (e: ToolError)
    ensures
        e@ == ToolErrorView::InvalidArguments(message@),
{
    ToolError::InvalidArguments(message.to_owned())
}

/// A [`ToolError::ExecutionFailed`] with the given message.
pub fn execution_failed(message: &str) -> (e: ToolError)
    ensures
        e@ == ToolErrorView::ExecutionFailed(message@),
{
    ToolError::ExecutionFailed(message.to_owned())
}

/// A [`ToolError::Unavailable`] with the given message.
pub fn unavailable(message: &str) -> (e: ToolError)
    ensures
        e@ == ToolErrorView::Unavailable(message@),
{
    ToolError::Unavailable(message.to_owned())
}

/// Failures of a one-shot command run.
#[derive(Debug)]
pub enum ProcessRunnerError {
    TimedOut { seconds: u64 },
    ExecutionFailed(String),
}

impl ProcessRunnerError {
    /// The error's message.
    pub fn message(&self) -> (m: String)
        ensures
            m@ == (match self {
                ProcessRunnerError::TimedOut { seconds } => "command timed out after "@ + decimal(
                    *seconds as nat,
                ) + " seconds"@,
                ProcessRunnerError::ExecutionFailed(e) => "failed to execute process: "@ + e@,
            }),
    {
        match self {
            ProcessRunnerError::TimedOut { seconds } => {
                let n = decimal_string(*seconds as u128);
                let a = concat("command timed out after ", n.as_str());
                concat(a.as_str(), " seconds")
            },
            ProcessRunnerError::ExecutionFailed(e) => concat(
                "failed to execute process: ",
                e.as_str(),
            ),
        }
    }
}

/// Failures of background process management.
#[derive(Debug)]
pub enum ProcessManagerError {
    NotFound(String),
    StartFailed(String),
    ControlFailed(String),
}

impl ProcessManagerError {
    /// The error's message.
    pub fn message(&self) -> (m: String)
        ensures
            m@ == (match self {
                ProcessManagerError::NotFound(id) => "process not found: "@ + id@,
                ProcessManagerError::StartFailed(e) => "failed to start process: "@ + e@,
                ProcessManagerError::ControlFailed(e) => "failed to control process: "@ + e@,
            }),
    {
        match self {
            ProcessManagerError::NotFound(id) => concat("process not found: ", id.as_str()),
            ProcessManagerError::StartFailed(e) => concat("failed to start process: ", e.as_str()),
            ProcessManagerError::ControlFailed(e) => concat(
                "failed to control process: ",
                e.as_str(),
            ),
        }
    }
}

} // verus!
