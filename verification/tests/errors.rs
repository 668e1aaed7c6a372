use mcp_cli::errors::{
    ambiguous_command_error, config_invalid_json_error, config_missing_field_error,
    config_not_found_error, config_search_error, invalid_json_args_error, invalid_target_error,
    missing_argument_error, server_connection_error, server_not_found_error,
    too_many_arguments_error, tool_disabled_error, tool_execution_error, tool_not_found_error,
    unknown_option_error, unknown_subcommand_error, ErrorCode,
};

#[test]
fn test_error_formatting() {
    let err = config_not_found_error("/path/to/config");
    assert_eq!(err.code.exit_code(), 1);
    assert_eq!(err.error_type, "CONFIG_NOT_FOUND");
    let formatted = err.format();
    assert!(formatted.contains("Config file not found: /path/to/config"));
    assert!(formatted.contains("Suggestion:"));
}

#[test]
fn test_server_not_found_error() {
    let err = server_not_found_error("my-server", &["srv1".to_string(), "srv2".to_string()]);
    assert_eq!(err.code.exit_code(), 1);
    assert_eq!(err.error_type, "SERVER_NOT_FOUND");
    assert!(err.format().contains("srv1, srv2"));
}

#[test]
fn test_server_connection_error_enoent() {
    let err = server_connection_error("my-server", "ENOENT: command not found");
    assert_eq!(err.code.exit_code(), 3);
    assert!(err.format().contains("Install the MCP server"));
}

#[test]
fn test_unknown_option_error() {
    let err = unknown_option_error("--server");
    assert!(err.format().contains("Server is a positional argument"));
}

#[test]
fn test_unknown_subcommand_error() {
    let err = unknown_subcommand_error("run");
    assert!(err.format().contains("Did you mean 'mcp-cli call'?"));
}

#[test]
fn exit_codes_follow_the_error_class() {
    assert_eq!(ErrorCode::ClientError.exit_code(), 1);
    assert_eq!(ErrorCode::ServerError.exit_code(), 2);
    assert_eq!(ErrorCode::NetworkError.exit_code(), 3);
    assert_eq!(ErrorCode::AuthError.exit_code(), 4);
}

#[test]
fn format_puts_details_and_suggestion_on_their_own_lines() {
    let err = config_not_found_error("/x");
    let text = err.format();
    let lines: Vec<&str> = text.split('\n').collect();
    assert_eq!(lines[0], "Error [CONFIG_NOT_FOUND]: Config file not found: /x");
    assert!(lines[1].starts_with("  Suggestion: "));
}

#[test]
fn config_errors_name_the_file() {
    let e = config_search_error();
    assert_eq!(e.error_type, "CONFIG_NOT_FOUND");
    let e = config_invalid_json_error("/a.json", "expected value");
    assert_eq!(e.error_type, "CONFIG_INVALID_JSON");
    assert!(e.format().contains("/a.json"));
    assert!(e.format().contains("expected value"));
    let e = config_missing_field_error("/b.json");
    assert_eq!(e.error_type, "CONFIG_MISSING_FIELD");
    assert_eq!(e.details.as_deref(), Some("File: /b.json"));
}

#[test]
fn connection_suggestions_follow_the_cause() {
    let s = |cause: &str| server_connection_error("s", cause).suggestion.unwrap();
    assert!(s("connect ECONNREFUSED").starts_with("Server refused connection"));
    assert!(s("ETIMEDOUT").starts_with("Connection timed out"));
    assert!(s("HTTP 401").starts_with("Authentication required"));
    assert!(s("403 Forbidden").starts_with("Access forbidden"));
    assert!(s("something else").starts_with("Check server configuration"));
    assert_eq!(server_connection_error("s", "x").message, "Failed to connect to server \"s\"");
}

#[test]
fn tool_errors_carry_their_class_and_type() {
    let e = tool_not_found_error("t", "s", None);
    assert_eq!(e.error_type, "TOOL_NOT_FOUND");
    assert_eq!(e.code, ErrorCode::ClientError);
    let e = tool_execution_error("t", "s", "validation failed");
    assert_eq!(e.error_type, "TOOL_EXECUTION_FAILED");
    assert_eq!(e.code, ErrorCode::ServerError);
    assert_eq!(
        e.suggestion.as_deref(),
        Some("Run 'mcp-cli s/t' to see the input schema, then fix arguments")
    );
    let e = tool_disabled_error("t", "s");
    assert_eq!(e.error_type, "TOOL_DISABLED");
}

#[test]
fn tool_not_found_lists_at_most_five_tools() {
    let tools: Vec<String> = (1..=7).map(|i| format!("t{}", i)).collect();
    let e = tool_not_found_error("x", "s", Some(&tools));
    let details = e.details.unwrap();
    assert!(details.contains("t1, t2, t3, t4, t5"));
    assert!(!details.contains("t6,"));
    assert!(details.contains("2 more"));
}

#[test]
fn argument_errors_have_their_types() {
    assert_eq!(invalid_target_error("abc").error_type, "INVALID_TARGET");
    assert_eq!(invalid_json_args_error("{x", None).error_type, "INVALID_JSON_ARGUMENTS");
    assert_eq!(missing_argument_error("call", "server").error_type, "MISSING_ARGUMENT");
    assert_eq!(ambiguous_command_error("s", "t", true).error_type, "AMBIGUOUS_COMMAND");
    assert_eq!(too_many_arguments_error("info", 3, 2).error_type, "TOO_MANY_ARGUMENTS");
    assert_eq!(unknown_subcommand_error("RUN").suggestion.as_deref(), unknown_subcommand_error("run").suggestion.as_deref());
}

#[test]
fn documented_error_messages() {
    let e = server_not_found_error("github", &["filesystem".to_string(), "sqlite".to_string()]);
    assert_eq!(
        e.format(),
        "Error [SERVER_NOT_FOUND]: Server \"github\" not found in config\n  Details: Available servers: filesystem, sqlite\n  Suggestion: Use one of: mcp-cli info filesystem, mcp-cli info sqlite"
    );
    let tools: Vec<String> = ["read_file", "write_file", "list_directory"].iter().map(|s| s.to_string()).collect();
    let e = tool_not_found_error("search", "filesystem", Some(&tools));
    assert_eq!(e.message, "Tool \"search\" not found in server \"filesystem\"");
    assert_eq!(e.details.as_deref(), Some("Available tools: read_file, write_file, list_directory"));
    assert_eq!(e.suggestion.as_deref(), Some("Run 'mcp-cli info filesystem' to see all available tools"));
    let e = invalid_json_args_error("{test}", Some("Unexpected identifier \"test\""));
    assert_eq!(e.message, "Invalid JSON in tool arguments");
    assert_eq!(e.details.as_deref(), Some("Parse error: Unexpected identifier \"test\""));
    assert_eq!(e.suggestion.as_deref(), Some("Arguments must be valid JSON. Use single quotes: '{\"key\": \"value\"}'"));
}
