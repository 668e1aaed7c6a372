use mcp_cli::commands::call::{call_failure_error, parse_target as parse_call_target};
use mcp_cli::commands::grep::{
    compile_search_pattern, failed_servers_warning, glob_to_regex, no_matches_message, search_tools,
};
use mcp_cli::commands::info::{find_tool, parse_target as parse_info_target, tool_names};
use mcp_cli::commands::list::{server_infos, sort_by_name, ServerWithTools};
use mcp_cli::json::JsonValue;
use mcp_cli::output::ToolInfo;

fn tool(name: &str) -> ToolInfo {
    ToolInfo { name: name.to_string(), description: None, input_schema: JsonValue::Object(vec![]) }
}

fn server(name: &str, error: Option<&str>) -> ServerWithTools {
    ServerWithTools {
        name: name.to_string(),
        tools: vec![tool("t")],
        instructions: None,
        error: error.map(|e| e.to_string()),
    }
}

#[test]
fn call_targets_need_a_slash() {
    assert_eq!(parse_call_target("fs/read").unwrap(), ("fs".to_string(), "read".to_string()));
    assert_eq!(parse_call_target("fs/a/b").unwrap(), ("fs".to_string(), "a/b".to_string()));
    assert_eq!(parse_call_target("fs").unwrap_err().error_type, "INVALID_TARGET");
}

#[test]
fn info_targets_split_at_the_first_slash() {
    assert_eq!(parse_info_target("fs"), ("fs".to_string(), None));
    assert_eq!(parse_info_target("fs/a/b"), ("fs".to_string(), Some("a/b".to_string())));
}

#[test]
fn failed_calls_are_classified_by_message() {
    let e = call_failure_error("t", "s", "Tool not found", Some(vec!["a".to_string()]));
    assert_eq!(e.error_type, "TOOL_NOT_FOUND");
    assert_eq!(e.details.as_deref(), Some("Available tools: a"));
    let e = call_failure_error("t", "s", "unknown tool: t", None);
    assert_eq!(e.error_type, "TOOL_NOT_FOUND");
    let e = call_failure_error("t", "s", "crashed", None);
    assert_eq!(e.error_type, "TOOL_EXECUTION_FAILED");
}

#[test]
fn search_globs_match_whole_names_ignoring_case() {
    let tools = vec![tool("read_file"), tool("write_file"), tool("READ_dir"), tool("a/b_file")];
    let hits = search_tools("fs", tools, "read_*");
    let names: Vec<&str> = hits.iter().map(|h| h.tool.name.as_str()).collect();
    assert_eq!(names, vec!["read_file", "READ_dir"]);
    assert!(hits.iter().all(|h| h.server == "fs"));
    let hits = search_tools("fs", vec![tool("a/b_file"), tool("x_file")], "*_file");
    assert_eq!(hits.len(), 1);
    let hits = search_tools("fs", vec![tool("a/b_file")], "**file");
    assert_eq!(hits.len(), 1);
    let re = glob_to_regex("fi?e").unwrap();
    assert!(re.is_match("FILE"));
    assert!(compile_search_pattern("ok*").is_ok());
}

#[test]
fn grep_messages() {
    assert!(no_matches_message("zz").starts_with("No tools found matching \"zz\"\n  Tip:"));
    assert_eq!(
        failed_servers_warning(&["a".to_string(), "b".to_string()]),
        "Warning: 2 server(s) failed to connect: a, b"
    );
}

#[test]
fn tools_are_found_by_exact_name() {
    let tools = vec![tool("a"), tool("b"), tool("b")];
    assert_eq!(find_tool(&tools, "b"), Some(1));
    assert_eq!(find_tool(&tools, "B"), None);
    assert_eq!(tool_names(&tools), vec!["a".to_string(), "b".to_string(), "b".to_string()]);
}

#[test]
fn servers_are_listed_in_name_order_with_errors_shown() {
    let sorted = sort_by_name(vec![server("b", None), server("a", None), server("c", None)]);
    let names: Vec<&str> = sorted.iter().map(|s| s.name.as_str()).collect();
    assert_eq!(names, vec!["a", "b", "c"]);
    let infos = server_infos(vec![server("z", Some("down")), server("m", None)]);
    assert_eq!(infos[0].name, "m");
    assert_eq!(infos[0].tools[0].name, "t");
    assert_eq!(infos[1].tools.len(), 1);
    assert_eq!(infos[1].tools[0].name, "<error: down>");
}
