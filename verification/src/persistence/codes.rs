use vstd::prelude::*;

use crate::model::Role;
use crate::persistence::schedules::Timestamp;
use crate::text::{concat, contains_exec, contains_seq, chars_of, str_eq, trim, trim_str};

verus! {

/// The stored name of a role.
pub open spec fn role_name(role: Role) -> Seq<char> {
    match role {
        Role::System => "system"@,
        Role::User => "user"@,
        Role::Assistant => "assistant"@,
        Role::Tool => "tool"@,
    }
}

/// The stored name of a role.
pub fn role_to_db(role: Role) -> (s: &'static str)
    ensures
        s@ == role_name(role),
{
    match role {
        Role::System => "system",
        Role::User => "user",
        Role::Assistant => "assistant",
        Role::Tool => "tool",
    }
}

/// The role of a stored name; any other name is an error.
pub fn role_from_db(value: &str) -> (r: Result<Role, String>)
    ensures
        match r {
            Ok(role) => role_name(role) == value@,
            Err(m) => m@ == "unknown role: "@ + value@ && forall|role: Role| role_name(role) != value@,
        },
{
    if str_eq(value, "system") {
        Ok(Role::System)
    } else if str_eq(value, "user") {
        Ok(Role::User)
    } else if str_eq(value, "assistant") {
        Ok(Role::Assistant)
    } else if str_eq(value, "tool") {
        Ok(Role::Tool)
    } else {
        Err(concat("unknown role: ", value))
    }
}

/// Reading back a stored role gives the role that was stored: no two roles share a name.
pub proof fn law_role_round_trip(role: Role)
    ensures
        forall|other: Role| role_name(other) == role_name(role) ==> other == role,
{
    reveal_strlit("system");
    reveal_strlit("user");
    reveal_strlit("assistant");
    reveal_strlit("tool");
    assert forall|other: Role| role_name(other) == role_name(role) implies other == role by {
        if other != role {
            assert(role_name(other).len() != role_name(role).len() || role_name(other)[0] != role_name(role)[0]);
        }
    }
}

/// Where a task stands.
#[derive(Debug, Clone, Copy, PartialEq, Eq, Structural)]
pub enum TaskStatus {
    Queued,
    Running,
    AwaitingApproval,
    Completed,
    Failed,
    Cancelled,
}

/// The stored name of a task status.
pub open spec fn status_name(status: TaskStatus) -> Seq<char> {
    match status {
        TaskStatus::Queued => "queued"@,
        TaskStatus::Running => "running"@,
        TaskStatus::AwaitingApproval => "awaiting_approval"@,
        TaskStatus::Completed => "completed"@,
        TaskStatus::Failed => "failed"@,
        TaskStatus::Cancelled => "cancelled"@,
    }
}

impl TaskStatus {
    /// The stored name of this status.
    pub fn as_str(&self) -> (s: &'static str)
        ensures
            s@ == status_name(*self),
    {
        match self {
            TaskStatus::Queued => "queued",
            TaskStatus::Running => "running",
            TaskStatus::AwaitingApproval => "awaiting_approval",
            TaskStatus::Completed => "completed",
            TaskStatus::Failed => "failed",
            TaskStatus::Cancelled => "cancelled",
        }
    }
}

/// The status of a stored name, if it names one.
pub fn task_status_from_db(value: &str) -> (r: Option<TaskStatus>)
    ensures
        match r {
            Some(s) => status_name(s) == value@,
            None => forall|s: TaskStatus| status_name(s) != value@,
        },
{
    if str_eq(value, "queued") {
        Some(TaskStatus::Queued)
    } else if str_eq(value, "running") {
        Some(TaskStatus::Running)
    } else if str_eq(value, "awaiting_approval") {
        Some(TaskStatus::AwaitingApproval)
    } else if str_eq(value, "completed") {
        Some(TaskStatus::Completed)
    } else if str_eq(value, "failed") {
        Some(TaskStatus::Failed)
    } else if str_eq(value, "cancelled") {
        Some(TaskStatus::Cancelled)
    } else {
        None
    }
}

/// Reading back a stored status gives the status that was stored.
pub proof fn law_status_round_trip(status: TaskStatus)
    ensures
        forall|other: TaskStatus| status_name(other) == status_name(status) ==> other == status,
{
    reveal_strlit("queued");
    reveal_strlit("running");
    reveal_strlit("awaiting_approval");
    reveal_strlit("completed");
    reveal_strlit("failed");
    reveal_strlit("cancelled");
    assert forall|other: TaskStatus| status_name(other) == status_name(status) implies other == status by {
        if other != status {
            assert(status_name(other).len() != status_name(status).len() || status_name(other)[0]
                != status_name(status)[0] || status_name(other)[1] != status_name(status)[1]);
        }
    }
}

/// What started a task.
#[derive(Clone, Copy, PartialEq, Eq, Structural)]
pub enum TaskSource {
    Direct,
    Session { session_id: u128 },
    Schedule { schedule_id: u128, scheduled_at: Timestamp },
    Watch { scheduled_at: Timestamp },
}

/// The columns a task source is stored in: session, schedule, scheduled time.
pub open spec fn source_columns(source: TaskSource) -> (Option<u128>, Option<u128>, Option<Timestamp>) {
    match source {
        TaskSource::Direct => (None, None, None),
        TaskSource::Session { session_id } => (Some(session_id), None, None),
        TaskSource::Schedule { schedule_id, scheduled_at } => (None, Some(schedule_id), Some(scheduled_at)),
        TaskSource::Watch { scheduled_at } => (None, None, Some(scheduled_at)),
    }
}

/// The columns a task source is stored in.
pub fn task_source_columns(source: TaskSource) -> (r: (Option<u128>, Option<u128>, Option<Timestamp>))
    ensures
        r == source_columns(source),
{
    match source {
        TaskSource::Direct => (None, None, None),
        TaskSource::Session { session_id } => (Some(session_id), None, None),
        TaskSource::Schedule { schedule_id, scheduled_at } => (None, Some(schedule_id), Some(scheduled_at)),
        TaskSource::Watch { scheduled_at } => (None, None, Some(scheduled_at)),
    }
}

/// The task source of stored columns; a combination that no source is stored as is an error.
pub fn task_source_from_columns(
    session_id: Option<u128>,
    schedule_id: Option<u128>,
    scheduled_at: Option<Timestamp>,
) -> (r: Result<TaskSource, String>)
    ensures
        match r {
            Ok(s) => source_columns(s) == (session_id, schedule_id, scheduled_at),
            Err(m) => m@ == "invalid task source: session_id, schedule_id, and scheduled_at combination is invalid"@
                && forall|s: TaskSource| source_columns(s) != (session_id, schedule_id, scheduled_at),
        },
{
    match (session_id, schedule_id, scheduled_at) {
        (None, None, None) => Ok(TaskSource::Direct),
        (Some(session_id), None, None) => Ok(TaskSource::Session { session_id }),
        (None, Some(schedule_id), Some(scheduled_at)) => Ok(TaskSource::Schedule { schedule_id, scheduled_at }),
        (None, None, Some(scheduled_at)) => Ok(TaskSource::Watch { scheduled_at }),
        _ => Err(
            "invalid task source: session_id, schedule_id, and scheduled_at combination is invalid".to_owned(),
        ),
    }
}

/// Reading back the columns a source was stored in gives that source.
pub proof fn law_source_round_trip(source: TaskSource)
    ensures
        forall|other: TaskSource| source_columns(other) == source_columns(source) ==> other == source,
{
}

/// A token usage record to store.
pub struct CreateTokenUsage {
    pub model: String,
    pub input_tokens: i64,
    pub output_tokens: i64,
    pub cache_read_tokens: i64,
    pub cache_write_tokens: i64,
}

/// Checks a token usage record: a model name that is not blank, and no negative count.
pub fn validate(input: &CreateTokenUsage) -> (r: Result<(), String>)
    ensures
        trim(input.model@).len() == 0 ==> (r matches Err(m) && m@ == "model must not be empty"@),
        trim(input.model@).len() > 0 && (input.input_tokens < 0 || input.output_tokens < 0
            || input.cache_read_tokens < 0 || input.cache_write_tokens < 0) ==> (r matches Err(m) && m@
            == "token counts must be greater than or equal to zero"@),
        trim(input.model@).len() > 0 && input.input_tokens >= 0 && input.output_tokens >= 0
            && input.cache_read_tokens >= 0 && input.cache_write_tokens >= 0 ==> r is Ok,
{
    if trim_str(input.model.as_str()).as_str().is_empty() {
        return Err("model must not be empty".to_owned());
    }
    if input.input_tokens < 0 || input.output_tokens < 0 || input.cache_read_tokens < 0
        || input.cache_write_tokens < 0 {
        return Err("token counts must be greater than or equal to zero".to_owned());
    }
    Ok(())
}

/// A database failure, as far as the stores tell failures apart: one the database reported,
/// with its message, or another with its text.
pub enum DbFailure {
    Database(String),
    Other(String),
}

/// How a store reports a database failure: a violation of the named foreign key becomes the
/// store's "not found" (`Ok`), anything else an unexpected error with the failure's text.
pub open spec fn fk_violation_spec(failure: DbFailure, constraint: Seq<char>) -> Result<(), Seq<char>> {
    match failure {
        DbFailure::Database(m) => if contains_seq(m@, constraint) {
            Ok(())
        } else {
            Err(m@)
        },
        DbFailure::Other(t) => Err(t@),
    }
}

/// Tells a violation of the foreign key `constraint` from other database failures.
pub fn fk_violation(failure: &DbFailure, constraint: &str) -> (r: Result<(), String>)
    ensures
        match r {
            Ok(()) => fk_violation_spec(*failure, constraint@) == Ok::<(), Seq<char>>(()),
            Err(m) => fk_violation_spec(*failure, constraint@) == Err::<(), Seq<char>>(m@),
        },
{
    match failure {
        DbFailure::Database(m) => {
            if contains_exec(&chars_of(m.as_str()), &chars_of(constraint)) {
                Ok(())
            } else {
                Err(m.clone())
            }
        },
        DbFailure::Other(t) => Err(t.clone()),
    }
}

} // verus!
