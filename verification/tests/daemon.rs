use mcp_cli::client::empty_object;
use mcp_cli::daemon::{
    check_daemon, daemon_addr_for_hash, daemon_reply, get_daemon_addr, instructions_value,
    invalid_request_reply, plan_request, DaemonAction, DaemonErrorDetail, DaemonHealth,
    DaemonRequest, DaemonResponse, PidFileContent,
};
use mcp_cli::daemon_client::{
    call_tool_reply, call_tool_request, daemon_args, instructions_reply, instructions_request,
    is_ready_line, list_tools_reply, list_tools_request, pid_file_server_name, ping_request,
    request_id, DaemonConnection,
};
use mcp_cli::json::JsonValue;

fn request(kind: &str, tool: Option<&str>, args: Option<JsonValue>) -> DaemonRequest {
    DaemonRequest {
        id: "r1".to_string(),
        req_type: kind.to_string(),
        tool_name: tool.map(|t| t.to_string()),
        args,
    }
}

fn response(success: bool, data: Option<JsonValue>, error: Option<&str>) -> DaemonResponse {
    DaemonResponse {
        id: "x".to_string(),
        success,
        data,
        error: error.map(|m| DaemonErrorDetail { code: "EXECUTION_ERROR".to_string(), message: m.to_string() }),
    }
}

#[test]
fn requests_map_to_actions() {
    let (id, a) = plan_request(request("ping", None, None));
    assert_eq!(id, "r1");
    assert!(matches!(a, DaemonAction::Answer(Ok(JsonValue::Str(t))) if t == "pong"));
    assert!(matches!(plan_request(request("listTools", None, None)).1, DaemonAction::ListTools));
    assert!(matches!(plan_request(request("getInstructions", None, None)).1, DaemonAction::GetInstructions));
    assert!(matches!(plan_request(request("close", None, None)).1, DaemonAction::Close(JsonValue::Str(t)) if t == "closing"));
    match plan_request(request("callTool", Some("read"), None)).1 {
        DaemonAction::CallTool(name, JsonValue::Object(m)) => {
            assert_eq!(name, "read");
            assert!(m.is_empty());
        }
        _ => panic!("expected a tool call with empty arguments"),
    }
    assert!(matches!(plan_request(request("callTool", None, None)).1, DaemonAction::Answer(Err(e)) if e == "toolName required"));
    assert!(matches!(plan_request(request("bogus", None, None)).1, DaemonAction::Answer(Err(e)) if e == "Unknown request type: bogus"));
}

#[test]
fn replies_keep_the_request_id() {
    let ok = daemon_reply("r9".to_string(), Ok(JsonValue::Bool(true)));
    assert_eq!(ok.id, "r9");
    assert!(ok.success && ok.data.is_some() && ok.error.is_none());
    let bad = daemon_reply("r9".to_string(), Err("nope".to_string()));
    assert!(!bad.success && bad.data.is_none());
    let detail = bad.error.unwrap();
    assert_eq!((detail.code.as_str(), detail.message.as_str()), ("EXECUTION_ERROR", "nope"));
    let invalid = invalid_request_reply();
    assert_eq!(invalid.id, "unknown");
    assert_eq!(invalid.error.unwrap().code, "INVALID_REQUEST");
    assert!(matches!(instructions_value(None), JsonValue::Null));
}

#[test]
fn daemon_health_checks_in_order() {
    let pid = PidFileContent { pid: 10, config_hash: "abc".to_string(), started_at: "t".to_string() };
    assert!(matches!(check_daemon(None, true, "abc", true), DaemonHealth::NoPidFile));
    assert!(matches!(check_daemon(Some(&pid), false, "zzz", false), DaemonHealth::NotRunning));
    assert!(matches!(check_daemon(Some(&pid), true, "zzz", false), DaemonHealth::ConfigChanged));
    assert!(matches!(check_daemon(Some(&pid), true, "abc", false), DaemonHealth::SocketMissing));
    let valid = check_daemon(Some(&pid), true, "abc", true);
    assert!(valid.is_valid());
    let c = DaemonHealth::ConfigChanged.cleanup();
    assert!(c.kill_process && c.remove_pid_file && c.remove_socket);
    let c = DaemonHealth::SocketMissing.cleanup();
    assert!(c.kill_process && c.remove_pid_file && !c.remove_socket);
    let c = DaemonHealth::NotRunning.cleanup();
    assert!(!c.kill_process && c.remove_pid_file && c.remove_socket);
}

#[test]
fn daemon_ports_stay_in_their_range() {
    assert_eq!(daemon_addr_for_hash(0), "127.0.0.1:40000");
    assert_eq!(daemon_addr_for_hash(20001), "127.0.0.1:40001");
    let addr = get_daemon_addr("fs", "abc");
    assert_eq!(addr, get_daemon_addr("fs", "abc"));
    let mut hasher = std::collections::hash_map::DefaultHasher::new();
    std::hash::Hash::hash("fs", &mut hasher);
    std::hash::Hash::hash("abc", &mut hasher);
    let expected = format!("127.0.0.1:{}", 40000 + std::hash::Hasher::finish(&hasher) % 20000);
    assert_eq!(addr, expected);
    let port: u32 = addr.strip_prefix("127.0.0.1:").unwrap().parse().unwrap();
    assert!((40000..60000).contains(&port));
}

#[test]
fn client_requests_and_ids() {
    assert_eq!(request_id(1700000000000, 42), "1700000000000-42");
    assert_eq!(request_id(-5, 0), "-5-0");
    let p = ping_request("i".to_string());
    assert_eq!(p.req_type, "ping");
    assert_eq!(list_tools_request("i".to_string()).req_type, "listTools");
    assert_eq!(instructions_request("i".to_string()).req_type, "getInstructions");
    let c = call_tool_request("i".to_string(), "read", empty_object());
    assert_eq!((c.req_type.as_str(), c.tool_name.as_deref()), ("callTool", Some("read")));
    assert_eq!(daemon_args("fs", "{}"), vec!["--daemon".to_string(), "fs".to_string(), "{}".to_string()]);
    let conn = DaemonConnection { server_name: "fs".to_string(), socket_path: "/tmp/x.sock".to_string() };
    assert_eq!(conn.server_name, "fs");
}

#[test]
fn daemon_replies_become_results_or_errors() {
    assert!(list_tools_reply(response(true, Some(JsonValue::Array(vec![])), None)).is_ok());
    let e = list_tools_reply(response(false, None, None)).unwrap_err();
    assert_eq!((e.error_type.as_str(), e.message.as_str()), ("DAEMON_ERROR", "listTools failed"));
    let e = list_tools_reply(response(true, None, None)).unwrap_err();
    assert_eq!(e.message, "Daemon listTools returned no data");
    let e = call_tool_reply(response(true, None, None)).unwrap_err();
    assert_eq!(e.message, "Daemon call_tool returned no data");
    let e = call_tool_reply(response(false, None, Some("tool broke"))).unwrap_err();
    assert_eq!(e.message, "tool broke");
}

#[test]
fn instructions_from_a_daemon() {
    assert_eq!(instructions_reply(response(true, None, None)).unwrap(), None);
    assert_eq!(instructions_reply(response(true, Some(JsonValue::Null), None)).unwrap(), None);
    assert_eq!(
        instructions_reply(response(true, Some(JsonValue::Str("hi".to_string())), None)).unwrap().as_deref(),
        Some("hi")
    );
    let other = JsonValue::Array(vec![JsonValue::Number("5".to_string()), JsonValue::Bool(false)]);
    assert_eq!(instructions_reply(response(true, Some(other), None)).unwrap().as_deref(), Some("[5,false]"));
    assert_eq!(instructions_reply(response(false, None, None)).unwrap_err().message, "getInstructions failed");
}

#[test]
fn pid_files_name_their_server() {
    assert_eq!(pid_file_server_name("fs.pid").as_deref(), Some("fs"));
    assert_eq!(pid_file_server_name("my.server.pid").as_deref(), Some("my.server"));
    assert_eq!(pid_file_server_name("fs.sock"), None);
    assert_eq!(pid_file_server_name(".pid"), None);
    assert_eq!(pid_file_server_name("pid"), None);
    assert!(is_ready_line("DAEMON_READY\n"));
    assert!(!is_ready_line("starting"));
}

#[test]
fn fresh_ids_and_pid_contents() {
    let id = mcp_cli::daemon_client::generate_request_id();
    let (millis, nonce) = id.split_once('-').unwrap();
    assert!(millis.parse::<i64>().unwrap() > 0);
    assert!(nonce.parse::<u32>().is_ok());
    let content = mcp_cli::daemon::pid_file_content(42, "abcd");
    assert_eq!(content.pid, 42);
    assert_eq!(content.config_hash, "abcd");
    assert!(content.started_at.contains('T'));
}
