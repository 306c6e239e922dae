use commander::error::ToolError;
use commander::model::ToolPermissionMode;
use commander::tool::shell::{
    accept_workspace_cwd, check_shell_call, contains_shell_word, resolve_workspace_cwd, validate_hard_block, ShellTool,
};
use commander::tool::web_fetch::{
    body_kind, check_fetch_call, check_response_size, extract_text, truncate_chars, validate_url, BodyKind,
    WebFetchTool,
};
use commander::tool::web_search::{
    is_valid_domain, normalize_domains, plan_search, tavily_error, truncate_text, validate_enum, WebSearchTool,
};
use commander::tool::workspace::{check_inside_workspace, requested_path, target_path};

fn invalid(e: ToolError) -> String {
    match e {
        ToolError::InvalidArguments(m) => m,
        other => panic!("expected invalid arguments, got {:?}", other),
    }
}

fn failed(e: ToolError) -> String {
    match e {
        ToolError::ExecutionFailed(m) => m,
        other => panic!("expected an execution failure, got {:?}", other),
    }
}

#[test]
fn workspace_paths() {
    assert_eq!(requested_path("path", "  src/lib.rs ", false).ok().unwrap(), "src/lib.rs");
    assert_eq!(requested_path("path", "  ", true).ok().unwrap(), ".");
    assert_eq!(invalid(requested_path("path", " ", false).err().unwrap()), "path must not be empty");
    assert_eq!(target_path("/work", "/etc/hosts"), "/etc/hosts");
    assert_eq!(target_path("/work", "src/lib.rs"), "/work/src/lib.rs");
    assert!(check_inside_workspace("path", "/work", "/work/src", "src").is_ok());
    assert_eq!(
        failed(check_inside_workspace("path", "/work", "/workshop/x", "../workshop/x").err().unwrap()),
        "path is outside workspace: ../workshop/x"
    );
}

#[test]
fn shell_tool_identity() {
    let tool = ShellTool::new("/work".to_string(), "/real/work".to_string(), "/work/.env".to_string(), "img".to_string());
    assert_eq!(tool.name(), "shell");
    assert_eq!(tool.workspace_root_path(), "/work");
    assert_eq!(tool.sandbox_runner().workspace_root_path(), "/real/work");
    assert_eq!(tool.default_permission(), ToolPermissionMode::Ask);
    assert!(tool.description().starts_with("Run a non-interactive shell command"));
}

#[test]
fn shell_words_are_whole_words() {
    assert!(contains_shell_word("sudo ls", "sudo"));
    assert!(contains_shell_word("echo hi;su -", "su"));
    assert!(!contains_shell_word("sudoku solver", "sudo"));
    assert!(!contains_shell_word("pseudo", "sudo"));
    assert!(!contains_shell_word("a b", "a b"));
}

#[test]
fn dangerous_commands_are_blocked() {
    for command in ["rm -rf /", "RM -RF ~", "sudo apt install x", "cat /etc/shadow", "docker run --privileged x", "mkfs.ext4 /dev/sda"] {
        assert_eq!(failed(validate_hard_block(command).err().unwrap()), "command is blocked by shell safety policy");
    }
    for command in ["ls -la", "rm -rf ./build", "echo pseudo"] {
        assert!(validate_hard_block(command).is_ok());
    }
}

#[test]
fn shell_calls_are_checked() {
    assert_eq!(check_shell_call("  ls  ", None).ok().unwrap(), ("ls".to_string(), 120));
    assert_eq!(check_shell_call("ls", Some(600)).ok().unwrap(), ("ls".to_string(), 600));
    assert_eq!(invalid(check_shell_call(" ", None).err().unwrap()), "command must not be empty");
    assert_eq!(invalid(check_shell_call("ls", Some(0)).err().unwrap()), "timeout must be between 1 and 600 seconds");
    assert_eq!(invalid(check_shell_call("ls", Some(601)).err().unwrap()), "timeout must be between 1 and 600 seconds");
    assert_eq!(failed(check_shell_call("reboot", Some(0)).err().unwrap()), "command is blocked by shell safety policy");
}

#[test]
fn working_directories_stay_in_the_workspace() {
    assert_eq!(resolve_workspace_cwd(None).ok().unwrap(), None);
    assert_eq!(resolve_workspace_cwd(Some("  ")).ok().unwrap(), None);
    assert_eq!(resolve_workspace_cwd(Some(" src ")).ok().unwrap(), Some("src".to_string()));
    assert_eq!(invalid(resolve_workspace_cwd(Some("/tmp")).err().unwrap()), "cwd must be relative to the workspace root");
    assert_eq!(accept_workspace_cwd(Ok("/w".to_string()), Ok("/w/src".to_string()), true).ok().unwrap(), "/w/src");
    assert_eq!(
        invalid(accept_workspace_cwd(Ok("/w".to_string()), Ok("/etc".to_string()), true).err().unwrap()),
        "cwd must stay inside the workspace root"
    );
    assert_eq!(
        invalid(accept_workspace_cwd(Ok("/w".to_string()), Ok("/w/a.txt".to_string()), false).err().unwrap()),
        "cwd must be a directory"
    );
    assert_eq!(
        invalid(accept_workspace_cwd(Ok("/w".to_string()), Err("No such file".to_string()), true).err().unwrap()),
        "cwd must be an existing directory inside the workspace: No such file"
    );
    assert_eq!(failed(accept_workspace_cwd(Err("gone".to_string()), Ok("/w".to_string()), true).err().unwrap()), "gone");
}

#[test]
fn urls_are_validated() {
    assert_eq!(validate_url(" https://example.com ").ok().unwrap(), "https://example.com/");
    assert_eq!(invalid(validate_url("  ").err().unwrap()), "url must not be empty");
    assert_eq!(invalid(validate_url("ftp://example.com").err().unwrap()), "url must start with http:// or https://");
    assert_eq!(invalid(validate_url("http://localhost:8080").err().unwrap()), "localhost URLs are not allowed");
    assert_eq!(invalid(validate_url("http://api.localhost").err().unwrap()), "localhost URLs are not allowed");
    assert_eq!(invalid(validate_url("http://127.0.0.1/").err().unwrap()), "private or local IP URLs are not allowed");
    assert_eq!(invalid(validate_url("http://10.1.2.3/").err().unwrap()), "private or local IP URLs are not allowed");
    assert!(validate_url("http://8.8.8.8/").is_ok());
    assert!(invalid(validate_url("not a url").err().unwrap()).len() > 0);
}

#[test]
fn fetch_calls_and_bodies() {
    assert_eq!(check_fetch_call("https://example.com", None).ok().unwrap(), ("https://example.com/".to_string(), 100000));
    assert_eq!(invalid(check_fetch_call("https://example.com", Some(0)).err().unwrap()), "max_chars must be between 1 and 500000");
    assert_eq!(invalid(check_fetch_call("https://example.com", Some(500001)).err().unwrap()), "max_chars must be between 1 and 500000");
    assert!(check_response_size(1000000).is_ok());
    assert_eq!(failed(check_response_size(1000001).err().unwrap()), "response is too large; limit is 1000000 bytes");
    assert_eq!(truncate_chars("héllo", 10), ("héllo".to_string(), false));
    assert_eq!(truncate_chars("héllo", 2), ("hé\n... [truncated]".to_string(), true));
    assert!(matches!(body_kind(""), BodyKind::Html));
    assert!(matches!(body_kind("text/html; charset=utf-8"), BodyKind::Html));
    assert!(matches!(body_kind("application/ld+json"), BodyKind::Json));
    assert!(matches!(body_kind("text/plain"), BodyKind::Text));
    assert!(matches!(body_kind("application/xml"), BodyKind::Text));
    assert!(matches!(body_kind("image/png"), BodyKind::Unsupported));
    assert_eq!(extract_text("application/json", "{\"a\":1}").ok().unwrap(), "{\n  \"a\": 1\n}");
    assert_eq!(extract_text("application/json", "{broken").ok().unwrap(), "{broken");
    assert_eq!(extract_text("text/plain", "  raw  ").ok().unwrap(), "  raw  ");
    assert!(extract_text("text/html", "<p>Hello <b>world</b></p>").ok().unwrap().contains("Hello"));
    assert_eq!(failed(extract_text("image/png", "x").err().unwrap()), "unsupported content type: image/png");
    let tool = WebFetchTool {};
    assert_eq!(tool.name(), "web_fetch");
    assert_eq!(tool.default_permission(), ToolPermissionMode::Allow);
}

#[test]
fn search_arguments_are_validated() {
    assert_eq!(validate_enum(Some(" NEWS ".to_string()), "topic", &["general", "news"]).ok().unwrap(), Some("news".to_string()));
    assert_eq!(validate_enum(Some(" ".to_string()), "topic", &["general", "news"]).ok().unwrap(), None);
    assert_eq!(
        invalid(validate_enum(Some("sports".to_string()), "topic", &["general", "news"]).err().unwrap()),
        "topic must be one of: general, news"
    );
    assert!(is_valid_domain("docs.rs"));
    assert!(!is_valid_domain("localhost"));
    assert!(!is_valid_domain("exa mple.com"));
    let domains = normalize_domains(Some(vec![
        "https://Docs.RS/crates".to_string(),
        "docs.rs".to_string(),
        " ".to_string(),
        "example.org".to_string(),
    ]));
    assert_eq!(domains.ok().unwrap(), vec!["docs.rs".to_string(), "example.org".to_string()]);
    assert_eq!(normalize_domains(None).ok().unwrap(), Vec::<String>::new());
    assert_eq!(invalid(normalize_domains(Some(vec!["intranet".to_string()])).err().unwrap()), "invalid domain: intranet");
    let many: Vec<String> = (0..21).map(|i| format!("d{}.com", i)).collect();
    assert_eq!(invalid(normalize_domains(Some(many)).err().unwrap()), "domains must contain at most 20 entries");
}

#[test]
fn search_plans() {
    let plan = plan_search(" rust verus ", None, Some("Advanced".to_string()), None, Some("week".to_string()), None)
        .ok()
        .unwrap();
    assert_eq!(plan.query, "rust verus");
    assert_eq!(plan.max_results, 5);
    assert_eq!(plan.search_depth, Some("advanced".to_string()));
    assert_eq!(plan.topic, None);
    assert_eq!(plan.time_range, Some("week".to_string()));
    assert!(plan.include_domains.is_empty());
    assert_eq!(invalid(plan_search(" ", None, None, None, None, None).err().unwrap()), "query must not be empty");
    assert_eq!(invalid(plan_search("q", Some(21), None, None, None, None).err().unwrap()), "max_results must be between 1 and 20");
    assert_eq!(
        invalid(plan_search("q", None, None, None, Some("decade".to_string()), None).err().unwrap()),
        "time_range must be one of: day, week, month, year"
    );
}

#[test]
fn search_errors_carry_a_short_body() {
    assert_eq!(truncate_text("abcdef", 3), "abc... [truncated]");
    assert_eq!(truncate_text("abc", 3), "abc");
    assert_eq!(failed(tavily_error("401", "unauthorized")), "Tavily search failed: HTTP 401: unauthorized");
    let long = "x".repeat(2500);
    let message = failed(tavily_error("500", &long));
    assert!(message.ends_with("... [truncated]"));
    assert_eq!(message.len(), "Tavily search failed: HTTP 500: ".len() + 2000 + "... [truncated]".len());
}

#[test]
fn search_tool_needs_a_key() {
    assert_eq!(failed(WebSearchTool::new("  ").err().unwrap()), "TAVILY_API_KEY must not be empty");
    let tool = WebSearchTool::new(" key ").ok().unwrap();
    assert_eq!(tool.api_key_str(), "key");
    assert_eq!(tool.name(), "web_search");
    assert_eq!(tool.default_permission(), ToolPermissionMode::Allow);
}
