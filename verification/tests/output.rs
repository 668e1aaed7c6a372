use mcp_cli::config::{ServerConfig, StdioServerConfig};
use mcp_cli::json::JsonValue;
use mcp_cli::output::{
    color, format_error, format_json, format_search_results, format_server_details,
    format_server_list, format_tool_result, format_tool_schema, tool_result_text, SearchResult,
    ServerInfo, ToolInfo, RESET, YELLOW,
};

fn s(t: &str) -> JsonValue {
    JsonValue::Str(t.to_string())
}

fn obj(members: Vec<(&str, JsonValue)>) -> JsonValue {
    JsonValue::Object(members.into_iter().map(|(k, v)| (k.to_string(), v)).collect())
}

fn tool(name: &str, description: Option<&str>, schema: JsonValue) -> ToolInfo {
    ToolInfo {
        name: name.to_string(),
        description: description.map(|d| d.to_string()),
        input_schema: schema,
    }
}

#[test]
fn test_format_tool_result_with_text() {
    let payload = obj(vec![(
        "content",
        JsonValue::Array(vec![obj(vec![("type", s("text")), ("text", s("Hello world from tool"))])]),
    )]);
    let formatted = format_tool_result(&payload);
    assert_eq!(formatted, "Hello world from tool");
}

#[test]
fn test_format_tool_result_raw_json() {
    let payload = obj(vec![("some_key", s("some_value"))]);
    let formatted = format_tool_result(&payload);
    assert!(formatted.contains("\"some_key\": \"some_value\""));
}

#[test]
fn results_without_text_are_indented_json() {
    let payload = obj(vec![("n", JsonValue::Number("1".to_string())), ("content", JsonValue::Array(vec![]))]);
    assert_eq!(format_tool_result(&payload), "{\n  \"content\": [],\n  \"n\": 1\n}");
    let v = obj(vec![("a", JsonValue::Array(vec![JsonValue::Bool(true), JsonValue::Null])), ("b", s("q\"\n"))]);
    assert_eq!(format_json(&v), "{\n  \"a\": [\n    true,\n    null\n  ],\n  \"b\": \"q\\\"\\n\"\n}");
}

#[test]
fn test_format_error() {
    let formatted = format_error("Something went wrong", false);
    assert!(formatted.contains("Error: Something went wrong"));
}

#[test]
fn format_error_in_colour_is_red() {
    assert_eq!(format_error("x", true), "\x1b[31mError: x\x1b[0m");
}

#[test]
fn colour_is_applied_only_when_asked() {
    assert_eq!(color("t", YELLOW, false), "t");
    assert_eq!(color("t", YELLOW, true), format!("{}t{}", YELLOW, RESET));
}

#[test]
fn tool_result_joins_text_items_and_skips_others() {
    let payload = obj(vec![(
        "content",
        JsonValue::Array(vec![
            obj(vec![("type", s("text")), ("text", s("a"))]),
            obj(vec![("type", s("image")), ("data", s("xx"))]),
            obj(vec![("type", s("text")), ("text", s("b"))]),
        ]),
    )]);
    assert_eq!(tool_result_text(&payload).as_deref(), Some("a\nb"));
}

#[test]
fn tool_result_without_text_items_has_no_text() {
    let payload = obj(vec![
        ("content", JsonValue::Array(vec![])),
        ("n", JsonValue::Number("1".to_string())),
    ]);
    assert_eq!(tool_result_text(&payload), None);
    assert_eq!(tool_result_text(&JsonValue::Array(vec![])), None);
}

#[test]
fn server_list_shows_tools_and_instructions() {
    let servers = vec![ServerInfo {
        name: "fs".to_string(),
        tools: vec![tool("read", Some("Reads"), obj(vec![])), tool("write", None, obj(vec![]))],
        instructions: Some("Use carefully\nmore".to_string()),
    }];
    let plain = format_server_list(&servers, false, false);
    assert_eq!(plain, "fs\n  Instructions: Use carefully...\n  • read\n  • write");
    let described = format_server_list(&servers, true, false);
    assert_eq!(described, "fs\n  Instructions: Use carefully...\n  • read - Reads\n  • write");
}

#[test]
fn server_list_cuts_long_instructions_at_a_hundred_bytes() {
    let long = "x".repeat(150);
    let servers = vec![ServerInfo { name: "a".to_string(), tools: vec![], instructions: Some(long) }];
    let text = format_server_list(&servers, false, false);
    assert_eq!(text, format!("a\n  Instructions: {}...", "x".repeat(100)));
}

#[test]
fn search_results_show_server_tool_and_description() {
    let results = vec![
        SearchResult { server: "fs".to_string(), tool: tool("read", Some("Reads"), obj(vec![])) },
        SearchResult { server: "gh".to_string(), tool: tool("search", None, obj(vec![])) },
    ];
    assert_eq!(format_search_results(&results, false, false), "fs read Reads\ngh search");
}

#[test]
fn server_details_list_parameters() {
    let config = ServerConfig::Stdio(StdioServerConfig {
        command: "npx".to_string(),
        args: Some(vec!["-y".to_string(), "srv".to_string()]),
        env: None,
        cwd: None,
        allowed_tools: None,
        disabled_tools: None,
    });
    let schema = obj(vec![
        (
            "properties",
            obj(vec![
                ("path", obj(vec![("type", s("string")), ("description", s("File"))])),
                ("n", obj(vec![])),
            ]),
        ),
        ("required", JsonValue::Array(vec![s("path")])),
    ]);
    let tools = vec![tool("read", Some("Reads"), schema)];
    let text = format_server_details("fs", &config, &tools, true, Some("Hi\nthere"), false);
    assert_eq!(
        text,
        "Server: fs\nTransport: stdio\nCommand: npx -y srv\n\nInstructions:\n  Hi\n  there\n\nTools (1):\n  read\n    Reads\n    Parameters:\n      • path (string, required) - File\n      • n (any, optional)"
    );
}

#[test]
fn tool_schema_shows_description_and_schema_text() {
    let t = tool("read", Some("Reads"), obj(vec![("type", s("object"))]));
    assert_eq!(
        format_tool_schema("fs", &t, false),
        "Tool: read\nServer: fs\n\nDescription:\n  Reads\n\nInput Schema:\n{\n  \"type\": \"object\"\n}"
    );
}
