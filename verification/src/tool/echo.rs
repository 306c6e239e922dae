use vstd::prelude::*;

use crate::model::ToolPermissionMode;

verus! {

/// Returns the provided arguments unchanged.
#[derive(Clone, Copy, Default)]
pub struct EchoTool;

impl EchoTool {
    pub fn name(&self) -> (s: &'static str)
        ensures
            s@ == "echo"@,
    {
        "echo"
    }

    pub fn description(&self) -> (s: &'static str)
        ensures
            s@ == "Return the provided text unchanged."@,
    {
        "Return the provided text unchanged."
    }

    pub fn default_permission(&self) -> (m: ToolPermissionMode)
        ensures
            m == ToolPermissionMode::Allow,
    {
        ToolPermissionMode::Allow
    }

    /// Runs the tool: the arguments come back as they were given.
    pub fn execute<A>(&self, arguments: A) -> (r: A)
        ensures
            r == arguments,
    {
        arguments
    }
}

} // verus!
