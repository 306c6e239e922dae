use commander::error::ToolError;
use commander::mcp::{
    arguments_object, exposed_tool_name, sanitize_name, server_command, to_tool_error, unique_tool_name,
    ArgumentsShape, LoadedToolNames, McpToolIndex, McpToolListing,
};

fn listing(name: &str, description: Option<&str>) -> McpToolListing {
    McpToolListing { name: name.to_string(), description: description.map(|d| d.to_string()) }
}

fn failed(e: ToolError) -> String {
    match e {
        ToolError::ExecutionFailed(m) => m,
        other => panic!("expected an execution failure, got {:?}", other),
    }
}

#[test]
fn names_are_sanitized() {
    assert_eq!(sanitize_name("  My Server! "), "my_server");
    assert_eq!(sanitize_name("__a-B__"), "a-b");
    assert_eq!(sanitize_name("***"), "unnamed");
    assert_eq!(sanitize_name(""), "unnamed");
    assert_eq!(exposed_tool_name("Git Hub", "list.issues"), "mcp__git_hub__list_issues");
}

#[test]
fn unique_names_count_up_from_two() {
    let taken = vec!["mcp__a__b".to_string(), "mcp__a__b__2".to_string()];
    assert_eq!(unique_tool_name("mcp__a__b", &taken), "mcp__a__b__3");
    assert_eq!(unique_tool_name("mcp__x__y", &taken), "mcp__x__y");
}

#[test]
fn registered_tools_get_distinct_exposed_names() {
    let mut index = McpToolIndex::new();
    let tools = vec![listing("search", Some("Finds things")), listing("  ", None), listing("Search", None)];
    let found = index.register_server_tools("docs", &tools);
    assert_eq!(found.len(), 2);
    assert_eq!(found[0].exposed_name, "mcp__docs__search");
    assert_eq!(found[0].description, "[MCP:docs] Finds things");
    assert_eq!(found[0].listing_index, 0);
    assert_eq!(found[1].exposed_name, "mcp__docs__search__2");
    assert_eq!(found[1].description, "[MCP:docs] MCP tool from docs server");
    assert_eq!(found[1].listing_index, 2);
    let again = index.register_server_tools("docs", &vec![listing("search", None)]);
    assert_eq!(again[0].exposed_name, "mcp__docs__search__3");
    assert_eq!(index.len(), 3);
    let names = index.exposed_names();
    assert_eq!(names, vec!["mcp__docs__search", "mcp__docs__search__2", "mcp__docs__search__3"]);
    let entry = index.get("mcp__docs__search__2").unwrap();
    assert_eq!(entry.original_tool_name, "Search");
    assert!(index.get("mcp__docs__nothing").is_none());
}

#[test]
fn calls_are_routed_to_connected_servers() {
    let mut index = McpToolIndex::new();
    index.register_server_tools("docs", &vec![listing("search", None)]);
    let connected = vec!["docs".to_string()];
    let (server, original) = index.route_call("mcp__docs__search", &connected).ok().unwrap();
    assert_eq!((server.as_str(), original.as_str()), ("docs", "search"));
    assert_eq!(failed(index.route_call("mcp__docs__other", &connected).err().unwrap()), "unknown MCP tool: mcp__docs__other");
    assert_eq!(failed(index.route_call("mcp__docs__search", &vec![]).err().unwrap()), "MCP server not connected: docs");
}

#[test]
fn loading_skips_names_already_loaded() {
    let mut loaded = LoadedToolNames::new();
    let first = loaded.load_server_tools("fs", &vec![listing("read", None), listing("read", Some("again"))]);
    assert_eq!(first.len(), 1);
    assert_eq!(first[0].name, "mcp__fs__read");
    assert_eq!(first[0].original_tool_name, "read");
    let second = loaded.load_server_tools("fs", &vec![listing("read", None), listing("write", None)]);
    assert_eq!(second.len(), 1);
    assert_eq!(second[0].name, "mcp__fs__write");
    assert_eq!(second[0].listing_index, 1);
}

#[test]
fn server_commands_and_arguments() {
    assert_eq!(server_command("fs", Some("npx")).ok().unwrap(), "npx");
    assert_eq!(failed(server_command("fs", None).err().unwrap()), "MCP server fs requires command");
    assert_eq!(failed(server_command("fs", Some("  ")).err().unwrap()), "MCP server fs command cannot be empty");
    assert!(matches!(arguments_object(&ArgumentsShape::Object), Ok(true)));
    assert!(matches!(arguments_object(&ArgumentsShape::Null), Ok(false)));
    assert_eq!(
        failed(arguments_object(&ArgumentsShape::Other("[1,2]".to_string())).err().unwrap()),
        "MCP tool arguments must be a JSON object, got [1,2]"
    );
    assert_eq!(failed(to_tool_error("boom".to_string())), "boom");
}

#[test]
fn sanitized_names_are_safe_and_stable() {
    for value in ["  My Server! ", "!!!", "__a-B__", "Ünïcode tool", "x", " _-_ "] {
        let once = sanitize_name(value);
        assert!(!once.is_empty());
        assert!(once.chars().all(|c| c.is_ascii_lowercase() || c.is_ascii_digit() || c == '_' || c == '-'));
        assert!(!once.starts_with('_') && !once.ends_with('_'));
        assert_eq!(sanitize_name(&once), once);
    }
    assert_eq!(sanitize_name("!!!"), "unnamed");
}
