use commander::model::{Role, ToolPermissionMode};
use commander::persistence::chat_messages::{restore_message, split_message, MessageContent, ToolCall, ToolResultMessage};
use commander::persistence::codes::{
    fk_violation, role_from_db, role_to_db, task_source_columns, task_source_from_columns, task_status_from_db,
    validate, CreateTokenUsage, DbFailure, TaskSource, TaskStatus,
};
use commander::persistence::schedules::{
    check_version, required_text, sort_schedules, try_into_model, validate_create, validate_update, CreateSchedule,
    Schedule, ScheduleRepositoryError, ScheduleTable, Timestamp, UpdateSchedule,
};
use commander::persistence::subagents::{profile_name, sort_subagents, FileSubagentRepository, Subagent};
use commander::persistence::tool_permissions::{
    check_version as check_permissions_version, lookup_name, mode_from_row, normalize_tool_name,
    ToolPermissionRepositoryError, ToolPermissionTable,
};
use commander::persistence::watch::{collect_schedules, FileWatchRepository, WatchRepositoryError};

fn at(secs: i64) -> Timestamp {
    Timestamp { secs, nanos: 0 }
}

fn schedule(id: u128, title: &str, updated: i64) -> Schedule {
    Schedule {
        id,
        title: title.to_string(),
        request: "run the report".to_string(),
        cron: "0 9 * * *".to_string(),
        timezone: "UTC".to_string(),
        enabled: true,
        created_at: at(1),
        updated_at: at(updated),
    }
}

fn invalid_message(e: ScheduleRepositoryError) -> String {
    match e {
        ScheduleRepositoryError::InvalidSchedule(m) => m,
        _ => panic!("expected an invalid schedule"),
    }
}

#[test]
fn roles_round_trip_through_their_stored_names() {
    for role in [Role::System, Role::User, Role::Assistant, Role::Tool] {
        assert_eq!(role_from_db(role_to_db(role)).ok(), Some(role));
    }
    assert_eq!(role_to_db(Role::Assistant), "assistant");
    assert_eq!(role_from_db("robot").err().unwrap(), "unknown role: robot");
}

#[test]
fn task_statuses_round_trip() {
    let all = [
        TaskStatus::Queued,
        TaskStatus::Running,
        TaskStatus::AwaitingApproval,
        TaskStatus::Completed,
        TaskStatus::Failed,
        TaskStatus::Cancelled,
    ];
    for status in all {
        assert_eq!(task_status_from_db(status.as_str()), Some(status));
    }
    assert_eq!(TaskStatus::AwaitingApproval.as_str(), "awaiting_approval");
    assert_eq!(task_status_from_db("paused"), None);
}

#[test]
fn task_sources_round_trip_and_bad_combinations_fail() {
    let sources = [
        TaskSource::Direct,
        TaskSource::Session { session_id: 7 },
        TaskSource::Schedule { schedule_id: 9, scheduled_at: at(100) },
        TaskSource::Watch { scheduled_at: at(5) },
    ];
    for source in sources {
        let (a, b, c) = task_source_columns(source);
        let back = task_source_from_columns(a, b, c).ok().unwrap();
        assert!(back == source);
    }
    let err = task_source_from_columns(Some(1), Some(2), None).err().unwrap();
    assert_eq!(err, "invalid task source: session_id, schedule_id, and scheduled_at combination is invalid");
}

#[test]
fn token_usage_validation() {
    let mut usage = CreateTokenUsage {
        model: "  ".to_string(),
        input_tokens: 1,
        output_tokens: 2,
        cache_read_tokens: 0,
        cache_write_tokens: 0,
    };
    assert_eq!(validate(&usage).err().unwrap(), "model must not be empty");
    usage.model = "m".to_string();
    usage.output_tokens = -1;
    assert_eq!(validate(&usage).err().unwrap(), "token counts must be greater than or equal to zero");
    usage.output_tokens = 0;
    assert!(validate(&usage).is_ok());
}

#[test]
fn foreign_key_violations_are_told_apart() {
    let fk = DbFailure::Database("violates foreign key constraint \"tasks_session_id_fkey\"".to_string());
    assert!(fk_violation(&fk, "tasks_session_id_fkey").is_ok());
    assert_eq!(fk_violation(&fk, "other_fkey").err().unwrap(), "violates foreign key constraint \"tasks_session_id_fkey\"");
    let other = DbFailure::Other("pool closed".to_string());
    assert_eq!(fk_violation(&other, "tasks_session_id_fkey").err().unwrap(), "pool closed");
}

#[test]
fn permission_names_are_trimmed_and_checked() {
    assert_eq!(normalize_tool_name("  shell ").ok().unwrap(), "shell");
    match normalize_tool_name("   ").err().unwrap() {
        ToolPermissionRepositoryError::InvalidPermission(m) => assert_eq!(m, "tool_name must not be empty"),
        _ => panic!("expected an invalid permission"),
    }
    assert_eq!(lookup_name(" web_fetch"), Some("web_fetch".to_string()));
    assert_eq!(lookup_name(""), None);
    assert!(check_permissions_version(1).is_ok());
    match check_permissions_version(3).err().unwrap() {
        ToolPermissionRepositoryError::Unexpected(m) => assert_eq!(m, "unsupported tool permissions file version: 3"),
        _ => panic!("expected an unexpected error"),
    }
    assert_eq!(mode_from_row("deny").ok(), Some(ToolPermissionMode::Deny));
    match mode_from_row("maybe").err().unwrap() {
        ToolPermissionRepositoryError::Unexpected(m) => assert_eq!(m, "unknown tool permission mode: maybe"),
        _ => panic!("expected an unexpected error"),
    }
}

#[test]
fn permission_mode_names_round_trip() {
    for mode in [ToolPermissionMode::Allow, ToolPermissionMode::Ask, ToolPermissionMode::Deny] {
        assert_eq!(ToolPermissionMode::from_db(mode.as_str()), Some(mode));
    }
    assert_eq!(ToolPermissionMode::from_db("sometimes"), None);
}

#[test]
fn upsert_then_get_returns_the_new_mode_and_keeps_others() {
    let mut table = ToolPermissionTable::new();
    table.upsert("shell".to_string(), ToolPermissionMode::Ask);
    table.upsert("file_read".to_string(), ToolPermissionMode::Allow);
    table.upsert("shell".to_string(), ToolPermissionMode::Deny);
    assert_eq!(table.get("shell"), Some(ToolPermissionMode::Deny));
    assert_eq!(table.get("file_read"), Some(ToolPermissionMode::Allow));
    assert_eq!(table.get("web_fetch"), None);
    let listed: Vec<(String, ToolPermissionMode)> =
        table.list().into_iter().map(|p| (p.tool_name, p.mode)).collect();
    assert_eq!(
        listed,
        vec![("file_read".to_string(), ToolPermissionMode::Allow), ("shell".to_string(), ToolPermissionMode::Deny)]
    );
}

#[test]
fn an_upserted_permission_is_found_under_its_trimmed_name() {
    let mut table = ToolPermissionTable::new();
    table.upsert_permission("file_read", ToolPermissionMode::Allow).ok().unwrap();
    let p = table.upsert_permission("  shell ", ToolPermissionMode::Ask).ok().unwrap();
    assert_eq!((p.tool_name.as_str(), p.mode), ("shell", ToolPermissionMode::Ask));
    let found = table.find_permission(" shell").unwrap();
    assert_eq!((found.tool_name.as_str(), found.mode), ("shell", ToolPermissionMode::Ask));
    let other = table.find_permission("file_read").unwrap();
    assert_eq!(other.mode, ToolPermissionMode::Allow);
    assert!(table.find_permission("   ").is_none());
    assert!(table.find_permission("web_fetch").is_none());
    match table.upsert_permission("  ", ToolPermissionMode::Deny) {
        Err(ToolPermissionRepositoryError::InvalidPermission(m)) => assert_eq!(m, "tool_name must not be empty"),
        _ => panic!("a blank name must be refused"),
    }
    assert_eq!(table.list().len(), 2);
}

#[test]
fn schedule_text_fields_are_required() {
    assert_eq!(required_text("title", "  Daily  ").ok().unwrap(), "Daily");
    assert_eq!(required_text("title", " ").err().unwrap(), "title must not be empty");
    let input = CreateSchedule {
        title: "Daily".to_string(),
        request: " ".to_string(),
        cron: "bad".to_string(),
        timezone: "UTC".to_string(),
        enabled: true,
    };
    let e = validate_create(&input, Ok(()), Ok(())).err().unwrap();
    assert_eq!(invalid_message(e), "request must not be empty");
    let input = CreateSchedule { request: "go".to_string(), ..input };
    let e = validate_create(&input, Err("invalid cron".to_string()), Ok(())).err().unwrap();
    assert_eq!(invalid_message(e), "invalid cron");
    let e = validate_create(&input, Ok(()), Err("invalid timezone".to_string())).err().unwrap();
    assert_eq!(invalid_message(e), "invalid timezone");
    assert!(validate_create(&input, Ok(()), Ok(())).is_ok());
}

#[test]
fn schedule_updates_check_only_given_fields() {
    let update = UpdateSchedule { title: None, request: None, cron: None, timezone: None, enabled: Some(false) };
    assert!(validate_update(&update, None, None).is_ok());
    let update = UpdateSchedule { title: Some(" ".to_string()), ..update };
    let e = validate_update(&update, None, None).err().unwrap();
    assert_eq!(invalid_message(e), "title must not be empty");
    let update = UpdateSchedule { title: None, request: None, cron: None, timezone: None, enabled: None };
    let e = validate_update(&update, Some(Err("bad cron".to_string())), None).err().unwrap();
    assert_eq!(invalid_message(e), "bad cron");
}

#[test]
fn schedules_file_version_is_checked() {
    assert!(check_version(1).is_ok());
    match check_version(2).err().unwrap() {
        ScheduleRepositoryError::Unexpected(m) => assert_eq!(m, "unsupported schedules file version: 2"),
        _ => panic!("expected an unexpected error"),
    }
}

#[test]
fn schedules_are_listed_most_recent_first() {
    let sorted = sort_schedules(vec![schedule(1, "a", 10), schedule(2, "b", 30), schedule(3, "c", 10)]);
    let ids: Vec<u128> = sorted.iter().map(|s| s.id).collect();
    assert_eq!(ids, vec![2, 3, 1]);
}

#[test]
fn created_schedule_is_found_by_its_id() {
    let mut table = ScheduleTable::from_stored(vec![schedule(1, "a", 10)]);
    let input = CreateSchedule {
        title: " Nightly ".to_string(),
        request: "summarize".to_string(),
        cron: "0 0 * * *".to_string(),
        timezone: "Europe/Berlin".to_string(),
        enabled: true,
    };
    let created = table
        .create(&input, 42, at(50), Ok("0 0 * * *".to_string()), Ok("Europe/Berlin".to_string()))
        .ok()
        .unwrap();
    assert_eq!(created.title, "Nightly");
    let found = table.find_by_id(42).unwrap();
    assert_eq!(found.title, "Nightly");
    assert_eq!(found.created_at.secs, 50);
    assert_eq!(table.stored().len(), 2);
    assert_eq!(table.stored()[0].id, 42);
    let refused = table.create(&input, 43, at(60), Err("invalid cron".to_string()), Ok("UTC".to_string()));
    assert_eq!(invalid_message(refused.err().unwrap()), "invalid cron");
    assert_eq!(table.stored().len(), 2);
}

#[test]
fn updated_schedule_is_found_with_its_new_fields() {
    let mut table = ScheduleTable::from_stored(vec![schedule(1, "a", 10), schedule(2, "b", 20)]);
    let update = UpdateSchedule {
        title: Some("renamed".to_string()),
        request: None,
        cron: None,
        timezone: None,
        enabled: Some(false),
    };
    let candidate = table.update_candidate(1, &update, at(99)).ok().unwrap();
    assert_eq!(candidate.request, "run the report");
    let updated = table
        .apply_update(&candidate, Ok(candidate.cron.clone()), Ok(candidate.timezone.clone()))
        .ok()
        .unwrap();
    assert_eq!(updated.title, "renamed");
    let found = table.find_by_id(1).unwrap();
    assert!(!found.enabled);
    assert_eq!(found.updated_at.secs, 99);
    assert_eq!(table.stored()[0].id, 1);
    match table.update_candidate(7, &update, at(100)).err().unwrap() {
        ScheduleRepositoryError::NotFound(id) => assert_eq!(id, 7),
        _ => panic!("expected not found"),
    }
}

#[test]
fn invalid_stored_schedules_name_their_id() {
    let stored = schedule(0, " ", 1);
    let e = try_into_model(&stored, Ok("0 9 * * *".to_string()), Ok("UTC".to_string())).err().unwrap();
    match e {
        ScheduleRepositoryError::Unexpected(m) => {
            assert_eq!(m, "invalid stored schedule 00000000-0000-0000-0000-000000000000: title must not be empty")
        }
        _ => panic!("expected an unexpected error"),
    }
    let stored = schedule(0x67e5504410b1426f9247bb680e5fe0c8, " ", 1);
    match try_into_model(&stored, Ok("0 9 * * *".to_string()), Ok("UTC".to_string())).err().unwrap() {
        ScheduleRepositoryError::Unexpected(m) => assert_eq!(
            m,
            "invalid stored schedule 67e55044-10b1-426f-9247-bb680e5fe0c8: title must not be empty"
        ),
        _ => panic!("expected an unexpected error"),
    }
    let ok = try_into_model(&schedule(5, "t", 1), Ok("0 9 * * *".to_string()), Ok("UTC".to_string()));
    assert_eq!(ok.ok().unwrap().id, 5);
}

#[test]
fn messages_split_and_restore() {
    let (kind, text, payload) = split_message(MessageContent::Text("hello".to_string()));
    assert_eq!(kind, "text");
    let back = restore_message("user", &kind, text, payload).ok().unwrap();
    assert_eq!(back.role, Role::User);
    assert!(matches!(back.content, MessageContent::Text(ref t) if t == "hello"));

    let call = ToolCall { id: "c1".to_string(), name: "shell".to_string(), arguments: serde_json::Value::Null };
    let (kind, text, payload) =
        split_message(MessageContent::ToolCall { text: Some("running".to_string()), tool_calls: vec![call] });
    assert_eq!(kind, "tool_call");
    let back = restore_message("assistant", &kind, text, payload).ok().unwrap();
    match back.content {
        MessageContent::ToolCall { text, tool_calls } => {
            assert_eq!(text, Some("running".to_string()));
            assert_eq!(tool_calls.len(), 1);
            assert_eq!(tool_calls[0].name, "shell");
        }
        _ => panic!("expected a tool call"),
    }

    let result =
        ToolResultMessage { tool_call_id: "c1".to_string(), output: serde_json::Value::Bool(true), is_error: true };
    let (kind, text, payload) = split_message(MessageContent::ToolResults(vec![result]));
    assert_eq!(kind, "tool_results");
    let back = restore_message("tool", &kind, text, payload).ok().unwrap();
    match back.content {
        MessageContent::ToolResults(rs) => {
            assert_eq!(rs.len(), 1);
            assert!(rs[0].is_error);
            assert_eq!(rs[0].tool_call_id, "c1");
        }
        _ => panic!("expected tool results"),
    }
}

#[test]
fn multimodal_messages_restore_as_text() {
    let (kind, text, payload) = split_message(MessageContent::Multimodal { text: "see image".to_string() });
    let back = restore_message("user", &kind, text, payload).ok().unwrap();
    assert!(matches!(back.content, MessageContent::Text(ref t) if t == "see image"));
}

#[test]
fn restoring_bad_columns_fails() {
    assert_eq!(restore_message("robot", "text", None, None).err().unwrap(), "unknown role: robot");
    assert_eq!(restore_message("user", "video", None, None).err().unwrap(), "unknown kind: video");
    assert_eq!(restore_message("assistant", "tool_call", None, None).err().unwrap(), "missing tool_calls payload");
    assert_eq!(restore_message("tool", "tool_results", None, None).err().unwrap(), "missing tool_results payload");
}

#[test]
fn subagent_profiles_are_json_files_listed_by_name() {
    assert_eq!(profile_name("/agents/planner.json"), Some("planner".to_string()));
    assert_eq!(profile_name("/agents/notes.txt"), None);
    let repo = FileSubagentRepository::new("/agents".to_string());
    assert_eq!(repo.root_path(), "/agents");
    let agent = |name: &str| Subagent {
        name: name.to_string(),
        description: String::new(),
        instruction: String::new(),
        allowed_tools: vec![],
    };
    let sorted = sort_subagents(vec![agent("writer"), agent("analyst"), agent("planner")]);
    let names: Vec<&str> = sorted.iter().map(|s| s.name.as_str()).collect();
    assert_eq!(names, vec!["analyst", "planner", "writer"]);
}

#[test]
fn watch_schedules_stop_at_the_first_refusal() {
    let repo = FileWatchRepository::new("/watch.json".to_string());
    assert_eq!(repo.path_str(), "/watch.json");
    let ok: Vec<Result<u32, String>> = vec![Ok(1), Ok(2)];
    assert_eq!(collect_schedules(ok).ok().unwrap(), vec![1, 2]);
    let bad: Vec<Result<u32, String>> = vec![Ok(1), Err("first".to_string()), Err("second".to_string())];
    match collect_schedules(bad).err().unwrap() {
        WatchRepositoryError::InvalidConfig(m) => assert_eq!(m, "first"),
        WatchRepositoryError::Unexpected(_) => panic!("expected an invalid configuration"),
    }
}
