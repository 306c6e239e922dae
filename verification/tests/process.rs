use commander::error::{ProcessManagerError, ProcessRunnerError};
use commander::persistence::schedules::Timestamp;
use commander::process::docker::{container_name, DockerSandboxRunner};
use commander::process::log_buffer::ProcessLogBuffer;
use commander::process::manager::{ending_outcome, shell_program, Ending, ManagedProcess, ProcessStatus, ProcessTable};
use commander::process::runner::{finish_output, truncate_text, ProcessRequest, ProcessRunner};

fn at(secs: i64) -> Timestamp {
    Timestamp { secs, nanos: 0 }
}

#[test]
fn log_buffer_keeps_the_most_recent_bytes() {
    let mut log = ProcessLogBuffer::new(5);
    log.append_stdout("abc");
    assert_eq!(log.stdout(), "abc");
    assert!(!log.truncated());
    log.append_stdout("");
    assert_eq!(log.stdout(), "abc");
    log.append_stdout("defg");
    assert_eq!(log.stdout(), "cdefg");
    assert!(log.truncated());
    assert_eq!(log.stderr(), "");
    log.append_stderr("xy");
    assert_eq!(log.stderr(), "xy");
    assert_eq!(log.stdout(), "cdefg");
}

#[test]
fn log_buffer_cuts_on_character_boundaries() {
    let mut log = ProcessLogBuffer::new(4);
    log.append_stderr("aé€");
    assert_eq!(log.stderr(), "€");
    assert!(log.truncated());
}

#[test]
fn runner_output_is_truncated_with_a_marker() {
    assert_eq!(truncate_text("hello", 10), ("hello".to_string(), false));
    assert_eq!(truncate_text("hello world", 5), ("hello\n... [truncated]".to_string(), true));
    let out = finish_output(None, "out", "a long error", 4);
    assert_eq!(out.exit_code, -1);
    assert_eq!(out.stdout, "out");
    assert_eq!(out.stderr, "a lo\n... [truncated]");
    assert!(out.truncated);
    let runner = ProcessRunner::new("/work".to_string(), 100);
    let request = ProcessRequest { command: "ls".to_string(), timeout_seconds: 5, cwd: None };
    assert_eq!(runner.working_dir(&request), "/work");
    let request = ProcessRequest { cwd: Some("/work/src".to_string()), ..request };
    assert_eq!(runner.working_dir(&request), "/work/src");
    let out = runner.finish(Some(0), "ok", "");
    assert_eq!((out.exit_code, out.truncated), (0, false));
}

#[test]
fn runner_error_messages() {
    assert_eq!(ProcessRunnerError::TimedOut { seconds: 30 }.message(), "command timed out after 30 seconds");
    assert_eq!(
        ProcessRunnerError::ExecutionFailed("no such file".to_string()).message(),
        "failed to execute process: no such file"
    );
    assert_eq!(ProcessManagerError::NotFound("p1".to_string()).message(), "process not found: p1");
    assert_eq!(ProcessManagerError::StartFailed("e".to_string()).message(), "failed to start process: e");
    assert_eq!(ProcessManagerError::ControlFailed("e".to_string()).message(), "failed to control process: e");
}

#[test]
fn docker_sandbox_arguments() {
    let runner = DockerSandboxRunner::new(
        "/home/u/work".to_string(),
        "/home/u/work/.env".to_string(),
        "commander-sandbox:latest".to_string(),
        1000,
    );
    assert_eq!(runner.workspace_root_path(), "/home/u/work");
    assert_eq!(runner.env_file_path(), "/home/u/work/.env");
    assert_eq!(runner.container_cwd(None).ok().unwrap(), "/workspace");
    assert_eq!(runner.container_cwd(Some("/home/u/work/src/app")).ok().unwrap(), "/workspace/src/app");
    assert!(runner.container_cwd(Some("/etc")).is_err());
    let name = container_name("42");
    assert_eq!(name, "commander-shell-42");
    let args = runner.run_args(&name, "/workspace", true, Some("1000:1000"), "echo hi");
    let expected = vec![
        "run", "--rm", "--name", "commander-shell-42", "--read-only", "--tmpfs", "/tmp", "--tmpfs", "/var/tmp",
        "--cap-drop", "ALL", "--security-opt", "no-new-privileges", "-v", "/home/u/work:/workspace", "-w",
        "/workspace", "-e", "HOME=/workspace", "-e", "LANG=C.UTF-8", "-e", "LC_ALL=C.UTF-8", "--env-file",
        "/home/u/work/.env", "--user", "1000:1000", "commander-sandbox:latest", "/bin/sh", "-lc", "echo hi",
    ];
    assert_eq!(args, expected);
    let base = runner.base_run_args("/workspace", false, None);
    assert_eq!(base.len(), 19);
    assert_eq!(base.last().unwrap(), "LC_ALL=C.UTF-8");
    let out = runner.finish(Some(2), "", "");
    assert_eq!(out.exit_code, 2);
}

#[test]
fn process_endings() {
    let (status, code, note) = ending_outcome(&Ending::Exited(Some(0)));
    assert_eq!((status, code, note), (ProcessStatus::Exited, Some(0), None));
    let (status, _, note) = ending_outcome(&Ending::WaitFailed("gone".to_string()));
    assert_eq!((status, note), (ProcessStatus::Failed, Some("failed to wait process: gone".to_string())));
    let (status, _, _) = ending_outcome(&Ending::TimedOut);
    assert_eq!(status, ProcessStatus::TimedOut);
    let (status, code, _) = ending_outcome(&Ending::Killed(None));
    assert_eq!((status, code), (ProcessStatus::Killed, None));
    let (status, _, note) = ending_outcome(&Ending::KillFailed("denied".to_string()));
    assert_eq!((status, note), (ProcessStatus::Failed, Some("failed to kill process: denied".to_string())));
    assert_eq!(shell_program(None), "/bin/sh");
    assert_eq!(shell_program(Some("/bin/zsh".to_string())), "/bin/zsh");
}

#[test]
fn a_finished_process_is_no_longer_running() {
    let mut p = ManagedProcess::start("p1".to_string(), "sleep 1".to_string(), "/work".to_string(), Some(7), at(1), 1024);
    assert_eq!(p.snapshot().status, ProcessStatus::Running);
    p.append_stdout("tick\n");
    p.read_failed("stderr", "broken pipe");
    p.finish(&Ending::KillFailed("denied".to_string()), at(9));
    let snap = p.snapshot();
    assert_eq!(snap.status, ProcessStatus::Failed);
    assert_eq!(snap.finished_at.map(|t| t.secs), Some(9));
    let logs = p.logs();
    assert_eq!(logs.stdout, "tick\n");
    assert_eq!(
        logs.stderr,
        "\n[process_manager] failed to read stderr: broken pipe\n\n[process_manager] failed to kill process: denied\n"
    );
}

#[test]
fn process_table_lookup() {
    let mut table = ProcessTable::new();
    table.insert(ManagedProcess::start("a".to_string(), "true".to_string(), "/".to_string(), None, at(0), 16));
    assert_eq!(table.get_process("a").ok().unwrap().process_id(), "a");
    match table.get_process("b") {
        Err(ProcessManagerError::NotFound(id)) => assert_eq!(id, "b"),
        _ => panic!("expected not found"),
    }
}

#[test]
fn a_process_added_again_under_its_id_replaces_the_old_one() {
    let mut table = ProcessTable::new();
    table.insert(ManagedProcess::start("a".to_string(), "first".to_string(), "/".to_string(), None, at(0), 16));
    table.insert(ManagedProcess::start("b".to_string(), "other".to_string(), "/".to_string(), None, at(0), 16));
    table.insert(ManagedProcess::start("a".to_string(), "second".to_string(), "/".to_string(), None, at(1), 16));
    assert_eq!(table.get_process("a").ok().unwrap().snapshot().command, "second");
    assert_eq!(table.get_process("b").ok().unwrap().snapshot().command, "other");
}

#[test]
fn each_log_keeps_the_recent_part_of_what_went_to_it() {
    let mut log = ProcessLogBuffer::new(6);
    log.append_stdout("ab");
    log.append_stderr("1234");
    log.append_stdout("cd");
    assert_eq!((log.stdout(), log.stderr(), log.truncated()), ("abcd", "1234", false));
    log.append_stderr("56789");
    assert_eq!((log.stdout(), log.stderr(), log.truncated()), ("abcd", "456789", true));
    log.append_stdout("e");
    assert_eq!((log.stdout(), log.truncated()), ("abcde", true));
}

#[test]
fn a_finished_process_keeps_its_outcome() {
    let mut p = ManagedProcess::start("p2".to_string(), "true".to_string(), "/".to_string(), None, at(1), 64);
    p.finish(&Ending::Exited(Some(0)), at(3));
    p.append_stdout("late\n");
    p.append_stderr("late\n");
    p.read_failed("stdout", "closed");
    let snap = p.snapshot();
    assert_eq!(snap.status, ProcessStatus::Exited);
    assert_eq!(snap.exit_code, Some(0));
    assert_eq!(snap.finished_at.map(|t| t.secs), Some(3));
}

#[test]
fn the_process_table_works_on_processes_by_id() {
    let mut table = ProcessTable::new();
    table.insert(ManagedProcess::start("a".to_string(), "echo".to_string(), "/".to_string(), None, at(0), 16));
    table.insert(ManagedProcess::start("b".to_string(), "cat".to_string(), "/".to_string(), None, at(0), 128));
    table.append_output("a", true, "out").unwrap();
    table.append_output("a", false, "err").unwrap();
    table.note_read_failure("b", "stdout", "closed").unwrap();
    table.finish_process("a", &Ending::Exited(Some(3)), at(5)).unwrap();
    let a = table.status("a").unwrap();
    assert_eq!((a.status, a.exit_code, a.finished_at.map(|t| t.secs)), (ProcessStatus::Exited, Some(3), Some(5)));
    let logs = table.logs("a").unwrap();
    assert_eq!((logs.stdout.as_str(), logs.stderr.as_str(), logs.truncated), ("out", "err", false));
    assert_eq!(table.status("b").unwrap().status, ProcessStatus::Running);
    assert_eq!(table.logs("b").unwrap().stderr, "\n[process_manager] failed to read stdout: closed\n");
    assert!(matches!(table.status("c"), Err(ProcessManagerError::NotFound(ref id)) if id == "c"));
    assert!(matches!(table.append_output("c", true, "x"), Err(ProcessManagerError::NotFound(_))));
}
