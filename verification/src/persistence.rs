pub mod chat_messages;
pub mod codes;
pub mod schedules;
pub mod subagents;
pub mod tool_permissions;
pub mod watch;
