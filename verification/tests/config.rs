use mcp_cli::config::{
    allowed_tool_list, check_tool_allowed, config_hash_of, config_location, filter_tools, get_concurrency_limit, get_daemon_timeout_ms,
    get_default_config_paths, get_max_retries, get_pid_path, get_retry_delay_ms,
    get_server_config, get_socket_dir, get_socket_path, get_timeout_ms, is_daemon_enabled,
    is_strict_env_mode, is_tool_allowed, join_path, list_server_names, prepare_config,
    validate_servers, ConfigLocation, HttpServerConfig, McpServersConfig, ServerConfig,
    StdioServerConfig,
};
use mcp_cli::json::JsonValue;
use mcp_cli::matching::{matches_any_pattern, matches_pattern};
use mcp_cli::substitution::{substitute_env_vars, substitute_value};

fn stdio(command: &str, allowed: Option<Vec<&str>>, disabled: Option<Vec<&str>>) -> ServerConfig {
    ServerConfig::Stdio(StdioServerConfig {
        command: command.to_string(),
        args: None,
        env: None,
        cwd: None,
        allowed_tools: allowed.map(|v| v.into_iter().map(|s| s.to_string()).collect()),
        disabled_tools: disabled.map(|v| v.into_iter().map(|s| s.to_string()).collect()),
    })
}

fn http(url: &str) -> ServerConfig {
    ServerConfig::Http(HttpServerConfig {
        url: url.to_string(),
        headers: None,
        timeout: None,
        allowed_tools: None,
        disabled_tools: None,
    })
}

fn env(pairs: &[(&str, &str)]) -> Vec<(String, String)> {
    pairs.iter().map(|(k, v)| (k.to_string(), v.to_string())).collect()
}

#[test]
fn test_matches_pattern() {
    assert!(matches_pattern("read_file", "read_file"));
    assert!(matches_pattern("read_file", "read_*"));
    assert!(matches_pattern("read_file", "*_file"));
    assert!(matches_pattern("read_file", "*"));
    assert!(matches_pattern("read_file", "r?ad_file"));
    assert!(!matches_pattern("read_file", "write_*"));
    assert!(matches_pattern("Read_File", "read_*"));
}

#[test]
fn test_is_tool_allowed() {
    let config_default = stdio("node", None, None);
    assert!(is_tool_allowed("read_file", &config_default));

    let config_allowed = stdio("node", Some(vec!["read_*", "list_*"]), None);
    assert!(is_tool_allowed("read_file", &config_allowed));
    assert!(is_tool_allowed("list_directory", &config_allowed));
    assert!(!is_tool_allowed("write_file", &config_allowed));

    let config_disabled = stdio("node", None, Some(vec!["write_*"]));
    assert!(is_tool_allowed("read_file", &config_disabled));
    assert!(!is_tool_allowed("write_file", &config_disabled));

    let config_both = stdio("node", Some(vec!["read_*", "write_*"]), Some(vec!["write_secure"]));
    assert!(is_tool_allowed("read_file", &config_both));
    assert!(is_tool_allowed("write_file", &config_both));
    assert!(!is_tool_allowed("write_secure", &config_both));
}

#[test]
fn test_substitute_env_vars() {
    let vars = env(&[("TEST_VAR_XYZ", "hello_world")]);
    let (output, warning) = substitute_env_vars("path/${TEST_VAR_XYZ}/file.txt", &vars, true).unwrap();
    assert_eq!(output, "path/hello_world/file.txt");
    assert_eq!(warning, None);

    let missing = "path/${NONEXISTENT_VAR_ABC}/file.txt";
    let (output_missing, warning) = substitute_env_vars(missing, &vars, false).unwrap();
    assert_eq!(output_missing, "path//file.txt");
    assert_eq!(warning.as_deref(), Some("Missing environment variable: ${NONEXISTENT_VAR_ABC}"));

    let result_err = substitute_env_vars(missing, &vars, true);
    assert!(result_err.is_err());
}

#[test]
fn strict_missing_variables_name_them_all() {
    let err = substitute_env_vars("${A}-${B}", &[], true).unwrap_err();
    assert_eq!(err.error_type, "MISSING_ENV_VAR");
    assert_eq!(err.message, "Missing environment variables: ${A}, ${B}");
    assert!(err.suggestion.unwrap().contains("export A=\"value\""));
}

#[test]
fn plain_text_and_unclosed_placeholders_stay() {
    let (t, w) = substitute_env_vars("no placeholders $ here ${", &[], true).unwrap();
    assert_eq!(t, "no placeholders $ here ${");
    assert_eq!(w, None);
    let (t, _) = substitute_env_vars("${}", &[], true).unwrap();
    assert_eq!(t, "${}");
}

#[test]
fn substitution_reaches_every_string_of_a_document() {
    let doc = JsonValue::Object(vec![(
        "mcpServers".to_string(),
        JsonValue::Object(vec![(
            "s".to_string(),
            JsonValue::Object(vec![
                ("command".to_string(), JsonValue::Str("${CMD}".to_string())),
                ("args".to_string(), JsonValue::Array(vec![JsonValue::Str("-${X}".to_string())])),
            ]),
        )]),
    )]);
    let (out, warnings) = substitute_value(doc, &env(&[("CMD", "node")]), false).unwrap();
    assert_eq!(warnings, vec!["Missing environment variable: ${X}".to_string()]);
    let server = out.get("mcpServers").unwrap().get("s").unwrap();
    assert_eq!(server.get("command").unwrap().as_str(), Some("node"));
    match server.get("args").unwrap() {
        JsonValue::Array(a) => assert_eq!(a[0].as_str(), Some("-")),
        _ => panic!("args must stay an array"),
    }
}

#[test]
fn prepare_config_requires_mcp_servers_object() {
    let doc = JsonValue::Object(vec![("servers".to_string(), JsonValue::Object(vec![]))]);
    let err = prepare_config("/c.json", doc, &[], true).unwrap_err();
    assert_eq!(err.error_type, "CONFIG_MISSING_FIELD");
    let doc = JsonValue::Object(vec![("mcpServers".to_string(), JsonValue::Array(vec![]))]);
    assert!(prepare_config("/c.json", doc, &[], true).is_err());
    let doc = JsonValue::Object(vec![("mcpServers".to_string(), JsonValue::Object(vec![]))]);
    assert!(prepare_config("/c.json", doc, &[], true).is_ok());
}

#[test]
fn disabled_patterns_win_over_allowed_ones() {
    let c = stdio("node", Some(vec!["*"]), Some(vec!["delete_*"]));
    assert!(!is_tool_allowed("delete_file", &c));
    assert!(is_tool_allowed("read_file", &c));
}

#[test]
fn filter_keeps_allowed_tools_in_order_and_is_idempotent() {
    let c = stdio("node", Some(vec!["*file*"]), Some(vec!["delete_file"]));
    let tools: Vec<String> = ["read_file", "delete_file", "list", "write_file"]
        .iter()
        .map(|s| s.to_string())
        .collect();
    let once = filter_tools(&tools, &c);
    assert_eq!(once, vec!["read_file".to_string(), "write_file".to_string()]);
    assert_eq!(filter_tools(&once, &c), once);
}

#[test]
fn matches_any_pattern_needs_one_match() {
    let pats = vec!["a*".to_string(), "b?".to_string()];
    assert!(matches_any_pattern("bx", &pats));
    assert!(!matches_any_pattern("cx", &pats));
    assert!(!matches_any_pattern("x", &[]));
}

#[test]
fn glob_special_characters_are_literal() {
    assert!(matches_pattern("a.b", "a.b"));
    assert!(!matches_pattern("axb", "a.b"));
    assert!(matches_pattern("a+b(1)", "a+b(1)"));
}

#[test]
fn lookup_and_listing_agree() {
    let config = McpServersConfig {
        mcp_servers: vec![("one".to_string(), stdio("a", None, None)), ("two".to_string(), http("u"))],
    };
    assert_eq!(list_server_names(&config), vec!["one".to_string(), "two".to_string()]);
    assert!(matches!(get_server_config(&config, "two"), Ok(ServerConfig::Http(_))));
    let err = get_server_config(&config, "three").unwrap_err();
    assert_eq!(err.error_type, "SERVER_NOT_FOUND");
    assert!(err.format().contains("one, two"));
}

#[test]
fn validation_reports_the_first_empty_server() {
    let ok = McpServersConfig { mcp_servers: vec![("a".to_string(), stdio("x", None, None))] };
    assert!(validate_servers(&ok).is_ok());
    let bad = McpServersConfig {
        mcp_servers: vec![("a".to_string(), stdio("x", None, None)), ("b".to_string(), http(""))],
    };
    let err = validate_servers(&bad).unwrap_err();
    assert_eq!(err.error_type, "CONFIG_INVALID_SERVER");
    assert_eq!(err.message, "Server \"b\" has empty URL");
    let bad = McpServersConfig { mcp_servers: vec![("test-server".to_string(), stdio("", None, None))] };
    assert_eq!(validate_servers(&bad).unwrap_err().message, "Server \"test-server\" has empty command");
}

#[test]
fn settings_from_environment_values() {
    assert_eq!(get_timeout_ms(None), 1_800_000);
    assert_eq!(get_timeout_ms(Some("5")), 5000);
    assert_eq!(get_timeout_ms(Some("0")), 1_800_000);
    assert_eq!(get_timeout_ms(Some("abc")), 1_800_000);
    assert_eq!(get_concurrency_limit(Some("8")), 8);
    assert_eq!(get_concurrency_limit(Some("0")), 5);
    assert_eq!(get_max_retries(Some("0")), 0);
    assert_eq!(get_max_retries(Some("-1")), 3);
    assert_eq!(get_retry_delay_ms(Some("250")), 250);
    assert_eq!(get_retry_delay_ms(None), 1000);
    assert!(!is_daemon_enabled(Some("1")));
    assert!(is_daemon_enabled(Some("true")));
    assert!(is_daemon_enabled(None));
    assert_eq!(get_daemon_timeout_ms(Some("120")), 120_000);
    assert_eq!(get_daemon_timeout_ms(None), 60_000);
    assert!(is_strict_env_mode(None));
    assert!(!is_strict_env_mode(Some("FALSE")));
    assert!(!is_strict_env_mode(Some("0")));
    assert!(is_strict_env_mode(Some("no")));
}

#[test]
fn daemon_files_live_in_the_user_directory() {
    let dir = get_socket_dir(1000);
    assert_eq!(dir, "/tmp/mcp-cli-1000");
    assert_eq!(get_socket_path(&dir, "fs"), "/tmp/mcp-cli-1000/fs.sock");
    assert_eq!(get_pid_path(&dir, "fs"), "/tmp/mcp-cli-1000/fs.pid");
    assert_eq!(join_path("/a/", "b"), "/a/b");
    assert_eq!(join_path("/a", "/b"), "/b");
}

#[test]
fn config_paths_in_search_order() {
    assert_eq!(get_default_config_paths(None), vec!["./mcp_servers.json".to_string()]);
    assert_eq!(
        get_default_config_paths(Some("/home/u")),
        vec![
            "./mcp_servers.json".to_string(),
            "/home/u/.mcp_servers.json".to_string(),
            "/home/u/.config/mcp/mcp_servers.json".to_string(),
        ]
    );
    assert!(matches!(config_location(Some("/x"), Some("/y"), None), ConfigLocation::Given(p) if p == "/y"));
    assert!(matches!(config_location(Some("/x"), None, None), ConfigLocation::Given(p) if p == "/x"));
    assert!(matches!(config_location(None, None, None), ConfigLocation::Search(v) if v.len() == 1));
}

#[test]
fn config_hash_is_sixteen_hex_digits_of_sha256() {
    assert_eq!(config_hash_of(""), "e3b0c44298fc1c14");
    assert_eq!(config_hash_of("abc"), "ba7816bf8f01cfea");
    assert_eq!(config_hash_of("{\"a\":1}"), config_hash_of("{\"a\":1}"));
    assert_ne!(config_hash_of("{\"a\":1}"), config_hash_of("{\"a\":2}"));
}

#[test]
fn commands_see_only_allowed_tools() {
    let c = stdio("node", Some(vec!["read_*", "write_*"]), Some(vec!["write_secure"]));
    let tools: Vec<mcp_cli::output::ToolInfo> = ["write_secure", "read_file", "delete", "write_file"]
        .iter()
        .map(|n| mcp_cli::output::ToolInfo {
            name: n.to_string(),
            description: None,
            input_schema: JsonValue::Null,
        })
        .collect();
    let kept: Vec<String> = allowed_tool_list(tools, &c).into_iter().map(|t| t.name).collect();
    assert_eq!(kept, vec!["read_file".to_string(), "write_file".to_string()]);
    assert!(check_tool_allowed("read_file", "fs", &c).is_ok());
    let err = check_tool_allowed("write_secure", "fs", &c).unwrap_err();
    assert_eq!(err.error_type, "TOOL_DISABLED");
    assert_eq!(err.message, "Tool \"write_secure\" is disabled by configuration");
}

#[test]
fn collected_servers_have_distinct_names() {
    let config = McpServersConfig::from_entries(vec![
        ("a".to_string(), stdio("first", None, None)),
        ("b".to_string(), http("u")),
        ("a".to_string(), stdio("second", None, None)),
    ]);
    assert_eq!(list_server_names(&config), vec!["a".to_string(), "b".to_string()]);
    match get_server_config(&config, "a") {
        Ok(ServerConfig::Stdio(s)) => assert_eq!(s.command, "second"),
        _ => panic!("expected the last stdio entry"),
    }
}
