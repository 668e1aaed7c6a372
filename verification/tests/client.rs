use mcp_cli::client::{
    backoff_delay_ms, call_tool_params, empty_object, event_outcome, initialize_params,
    is_event_stream, is_transient_error, response_id, retry_wait_ms, rpc_notification,
    rpc_outcome, rpc_request, should_retry, sse_data_payloads, tool_entries, tools_value,
};
use mcp_cli::json::JsonValue;
use mcp_cli::output::ToolInfo;

fn s(t: &str) -> JsonValue {
    JsonValue::Str(t.to_string())
}

/// The value as compact JSON, members in their order (test inputs need no escapes).
fn to_json_string(v: &JsonValue) -> String {
    match v {
        JsonValue::Null => "null".to_string(),
        JsonValue::Bool(b) => b.to_string(),
        JsonValue::Number(n) => n.clone(),
        JsonValue::Str(t) => format!("\"{}\"", t),
        JsonValue::Array(a) => format!("[{}]", a.iter().map(to_json_string).collect::<Vec<_>>().join(",")),
        JsonValue::Object(m) => format!(
            "{{{}}}",
            m.iter().map(|(k, v)| format!("\"{}\":{}", k, to_json_string(v))).collect::<Vec<_>>().join(",")
        ),
    }
}

fn obj(members: Vec<(&str, JsonValue)>) -> JsonValue {
    JsonValue::Object(members.into_iter().map(|(k, v)| (k.to_string(), v)).collect())
}

#[test]
fn transient_errors_are_recognised_without_regard_to_case() {
    assert!(is_transient_error("connect ECONNREFUSED 127.0.0.1:80"));
    assert!(is_transient_error("HTTP 503 Service Unavailable"));
    assert!(is_transient_error("Request Timeout"));
    assert!(is_transient_error("Network Error while reading"));
    assert!(!is_transient_error("HTTP 401 Unauthorized"));
    assert!(!is_transient_error("validation failed: field required"));
}

#[test]
fn retries_need_attempts_left_a_transient_failure_and_time() {
    assert!(should_retry(0, 3, true, 5000));
    assert!(!should_retry(3, 3, true, 5000));
    assert!(!should_retry(0, 3, false, 5000));
    assert!(!should_retry(0, 3, true, 1000));
    assert!(!should_retry(0, 0, true, 5000));
}

#[test]
fn backoff_doubles_up_to_ten_seconds() {
    assert_eq!(backoff_delay_ms(1000, 0), 1000);
    assert_eq!(backoff_delay_ms(1000, 1), 2000);
    assert_eq!(backoff_delay_ms(1000, 3), 8000);
    assert_eq!(backoff_delay_ms(1000, 4), 10000);
    assert_eq!(backoff_delay_ms(300, 2), 1200);
    let mut last = 0;
    for a in 0..10 {
        let d = backoff_delay_ms(700, a);
        assert!(d >= last && d <= 10000);
        last = d;
    }
}

#[test]
fn waits_leave_a_second_of_budget() {
    assert_eq!(retry_wait_ms(500, 5000), 500);
    assert_eq!(retry_wait_ms(4500, 5000), 4000);
    assert_eq!(retry_wait_ms(100, 800), 0);
}

#[test]
fn requests_and_notifications_have_the_json_rpc_shape() {
    let r = rpc_request(7, "tools/list", empty_object());
    assert_eq!(to_json_string(&r), "{\"jsonrpc\":\"2.0\",\"id\":7,\"method\":\"tools/list\",\"params\":{}}");
    let n = rpc_notification("notifications/initialized", empty_object());
    assert_eq!(to_json_string(&n), "{\"jsonrpc\":\"2.0\",\"method\":\"notifications/initialized\",\"params\":{}}");
    assert_eq!(
        to_json_string(&initialize_params()),
        "{\"protocolVersion\":\"2024-11-05\",\"capabilities\":{},\"clientInfo\":{\"name\":\"mcp-cli\",\"version\":\"0.3.0\"}}"
    );
    assert_eq!(
        to_json_string(&call_tool_params("read", obj(vec![("p", s("/x"))]))),
        "{\"name\":\"read\",\"arguments\":{\"p\":\"/x\"}}"
    );
}

#[test]
fn replies_give_their_result_or_error_message() {
    let ok = obj(vec![("id", JsonValue::Number("3".to_string())), ("result", s("done"))]);
    assert_eq!(response_id(&ok), Some(3));
    assert!(matches!(rpc_outcome(ok), Ok(JsonValue::Str(t)) if t == "done"));
    let no_result = obj(vec![("id", JsonValue::Number("4".to_string()))]);
    assert!(matches!(rpc_outcome(no_result), Ok(JsonValue::Null)));
    let err = obj(vec![("error", obj(vec![("message", s("boom"))]))]);
    assert_eq!(rpc_outcome(err).unwrap_err(), "boom");
    let bare = obj(vec![("error", obj(vec![("code", JsonValue::Number("1".to_string()))]))]);
    assert_eq!(rpc_outcome(bare).unwrap_err(), "Unknown error");
}

#[test]
fn reply_ids_are_whole_numbers() {
    assert_eq!(response_id(&obj(vec![("id", JsonValue::Number("1.5".to_string()))])), None);
    assert_eq!(response_id(&obj(vec![("id", JsonValue::Number("-1".to_string()))])), None);
    assert_eq!(response_id(&obj(vec![("id", s("1"))])), None);
    assert_eq!(
        response_id(&obj(vec![("id", JsonValue::Number("18446744073709551615".to_string()))])),
        Some(u64::MAX)
    );
}

#[test]
fn event_streams_carry_data_lines() {
    assert!(is_event_stream("text/event-stream; charset=utf-8"));
    assert!(!is_event_stream("application/json"));
    let chunk = "event: message\r\ndata: {\"a\":1}\r\n\ndata:data: x \nid: 2\n";
    assert_eq!(sse_data_payloads(chunk), vec!["{\"a\":1}".to_string(), "x".to_string()]);
    assert_eq!(sse_data_payloads(""), Vec::<String>::new());
}

#[test]
fn events_without_result_or_error_are_skipped() {
    assert!(event_outcome(obj(vec![("method", s("ping"))])).is_none());
    assert!(matches!(event_outcome(obj(vec![("result", JsonValue::Null)])), Some(Ok(JsonValue::Null))));
    assert!(matches!(
        event_outcome(obj(vec![("error", obj(vec![("message", s("bad"))]))])),
        Some(Err(m)) if m == "bad"
    ));
}

#[test]
fn tool_listings_need_a_tools_array() {
    let ok = obj(vec![("tools", JsonValue::Array(vec![obj(vec![("name", s("a"))])]))]);
    assert_eq!(tool_entries(ok, "srv").unwrap().len(), 1);
    let err = tool_entries(obj(vec![]), "srv").unwrap_err();
    assert_eq!(err.error_type, "TOOL_EXECUTION_FAILED");
    assert_eq!(err.details.as_deref(), Some("Invalid tools response format"));
}

#[test]
fn tools_turn_into_json_objects() {
    let tools = vec![
        ToolInfo { name: "a".to_string(), description: Some("d".to_string()), input_schema: empty_object() },
        ToolInfo { name: "b".to_string(), description: None, input_schema: JsonValue::Null },
    ];
    assert_eq!(
        to_json_string(&tools_value(tools)),
        "[{\"name\":\"a\",\"description\":\"d\",\"inputSchema\":{}},{\"name\":\"b\",\"description\":null,\"inputSchema\":null}]"
    );
}
