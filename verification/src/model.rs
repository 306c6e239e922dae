use vstd::prelude::*;

use crate::text::str_eq;

verus! {

/// How a tool call is gated: run it, ask first, or refuse it.
#[derive(Debug, Clone, Copy, PartialEq, Eq, Structural)]
pub enum ToolPermissionMode {
    Allow,
    Ask,
    Deny,
}

/// The stored name of a permission mode.
pub open spec fn permission_mode_name(mode: ToolPermissionMode) -> Seq<char> {
    match mode {
        ToolPermissionMode::Allow => "allow"@,
        ToolPermissionMode::Ask => "ask"@,
        ToolPermissionMode::Deny => "deny"@,
    }
}

impl ToolPermissionMode {
    /// The stored name of this mode.
    pub fn as_str(&self) -> (s: &'static str)
        ensures
            s@ == permission_mode_name(*self),
    {
        match self {
            ToolPermissionMode::Allow => "allow",
            ToolPermissionMode::Ask => "ask",
            ToolPermissionMode::Deny => "deny",
        }
    }

    /// The mode stored under `value`, if any.
    pub fn from_db(value: &str) -> (r: Option<ToolPermissionMode>)
        ensures
            match r {
                Some(m) => permission_mode_name(m) == value@,
                None => forall|m: ToolPermissionMode| permission_mode_name(m) != value@,
            },
    {
        if str_eq(value, "allow") {
            Some(ToolPermissionMode::Allow)
        } else if str_eq(value, "ask") {
            Some(ToolPermissionMode::Ask)
        } else if str_eq(value, "deny") {
            Some(ToolPermissionMode::Deny)
        } else {
            None
        }
    }
}

/// Reading back a stored mode gives the mode that was stored: no two modes share a name.
pub proof fn law_permission_mode_round_trip(mode: ToolPermissionMode)
    ensures
        forall|other: ToolPermissionMode| permission_mode_name(other) == permission_mode_name(mode) ==> other == mode,
{
    reveal_strlit("allow");
    reveal_strlit("ask");
    reveal_strlit("deny");
    assert forall|other: ToolPermissionMode| permission_mode_name(other) == permission_mode_name(mode) implies other
        == mode by {
        if other != mode {
            assert(permission_mode_name(other).len() != permission_mode_name(mode).len()
                || permission_mode_name(other)[0] != permission_mode_name(mode)[0]);
        }
    }
}

} // verus!

verus! {

/// Who a chat message is from.
#[derive(Debug, Clone, Copy, PartialEq, Eq, Structural)]
pub enum Role {
    System,
    User,
    Assistant,
    Tool,
}

} // verus!
