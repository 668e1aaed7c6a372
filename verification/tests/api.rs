use mcp_cli::api::McpClient;
use mcp_cli::config::{McpServersConfig, ServerConfig, StdioServerConfig};

#[test]
fn exposes_server_names_from_config() {
    let servers = vec![(
        "filesystem".to_string(),
        ServerConfig::Stdio(StdioServerConfig {
            command: "npx".to_string(),
            args: Some(vec![
                "-y".to_string(),
                "@modelcontextprotocol/server-filesystem".to_string(),
                ".".to_string(),
            ]),
            env: None,
            cwd: None,
            allowed_tools: None,
            disabled_tools: None,
        }),
    )];

    let client = McpClient::from_config(McpServersConfig { mcp_servers: servers });

    assert_eq!(client.server_names(), vec!["filesystem".to_string()]);
    assert!(matches!(client.server_config("filesystem"), Ok(ServerConfig::Stdio(_))));
}

#[test]
fn every_listed_name_resolves_and_others_do_not() {
    let client = McpClient::from_config(McpServersConfig {
        mcp_servers: vec![(
            "a".to_string(),
            ServerConfig::Stdio(StdioServerConfig {
                command: "x".to_string(),
                args: None,
                env: None,
                cwd: None,
                allowed_tools: None,
                disabled_tools: None,
            }),
        )],
    });
    for name in client.server_names() {
        assert!(client.server_config(&name).is_ok());
    }
    assert_eq!(client.server_config("b").unwrap_err().error_type, "SERVER_NOT_FOUND");
    assert_eq!(client.config().mcp_servers.len(), 1);
}
