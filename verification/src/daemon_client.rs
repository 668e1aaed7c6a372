//! The client side of the daemon protocol: the requests it sends, how it
//! reads a daemon's replies, and how it recognises the files of a daemon.
use crate::daemon::{DaemonErrorDetail, DaemonRequest, DaemonResponse};
use crate::errors::{error_view, make_error, CliError, CliErrorView, ErrorCode};
use crate::json::{opt_text, JsonValue};
use crate::json_text::{compact_json, to_compact_json};
use crate::text::{cat2, cat3, chars_of, contains, decimal, decimal_string, has_substr, str_eq, string_from_chars, string_of};
use vstd::prelude::*;
use vstd::string::*;

verus! {

/// A connection to a server's daemon through its socket.
pub struct DaemonConnection {
    pub server_name: String,
    pub socket_path: String,
}

// ============================================================================
// Requests
// ============================================================================

/// The text of a whole number, with a minus sign where it is negative.
pub open spec fn signed_decimal(n: int) -> Seq<char> {
    if n < 0 {
        "-"@ + decimal((-n) as nat)
    } else {
        decimal(n as nat)
    }
}

/// A request identifier from the time in milliseconds and a random number.
pub fn request_id(millis: i64, nonce: u32) -> (r: String)
    ensures
        r@ == signed_decimal(millis as int) + "-"@ + decimal(nonce as nat),
{
    let time_text = if millis < 0 {
        let magnitude: u64 = (0i128 - millis as i128) as u64;
        cat2("-", decimal_string(magnitude).as_str())
    } else {
        decimal_string(millis as u64)
    };
    cat3(time_text.as_str(), "-", decimal_string(nonce as u64).as_str())
}

/// The current time in milliseconds since the Unix epoch
/// (`chrono::Utc::now().timestamp_millis()`). Nothing is stated of the
/// reading: it is the clock's.
#[verifier::external_body]
fn now_millis() -> i64 {
    chrono::Utc::now().timestamp_millis()
}

/// A random number (`rand::random::<u32>`). Nothing is stated of it.
#[verifier::external_body]
fn random_nonce() -> u32 {
    rand::random::<u32>()
}

/// A fresh request identifier from the clock and a random number.
pub fn generate_request_id() -> (r: String)
    ensures
        exists|millis: i64, nonce: u32| r@ == signed_decimal(millis as int) + "-"@ + decimal(nonce as nat),
{
    request_id(now_millis(), random_nonce())
}

/// `r` is a request `id` of type `req_type` with no tool and no arguments.
pub open spec fn is_plain_request(r: DaemonRequest, id: Seq<char>, req_type: Seq<char>) -> bool {
    r.id@ == id && r.req_type@ == req_type && r.tool_name is None && r.args is None
}

fn plain_request(id: String, req_type: &str) -> (r: DaemonRequest)
    ensures
        is_plain_request(r, id@, req_type@),
{
    DaemonRequest { id, req_type: string_of(req_type), tool_name: None, args: None }
}

/// The request that checks a daemon answers.
pub fn ping_request(id: String) -> (r: DaemonRequest)
    ensures
        is_plain_request(r, id@, "ping"@),
{
    plain_request(id, "ping")
}

/// The request for a server's tools.
pub fn list_tools_request(id: String) -> (r: DaemonRequest)
    ensures
        is_plain_request(r, id@, "listTools"@),
{
    plain_request(id, "listTools")
}

/// The request for a server's instructions.
pub fn instructions_request(id: String) -> (r: DaemonRequest)
    ensures
        is_plain_request(r, id@, "getInstructions"@),
{
    plain_request(id, "getInstructions")
}

/// The request that calls a tool with its arguments.
pub fn call_tool_request(id: String, tool_name: &str, args: JsonValue) -> (r: DaemonRequest)
    ensures
        r.id@ == id@,
        r.req_type@ == "callTool"@,
        r.tool_name matches Some(n) && n@ == tool_name@,
        r.args == Some(args),
{
    DaemonRequest {
        id,
        req_type: string_of("callTool"),
        tool_name: Some(string_of(tool_name)),
        args: Some(args),
    }
}

// ============================================================================
// Replies
// ============================================================================

/// The error for a failed daemon request: the daemon's message, or `fallback`
/// where it sent none.
pub open spec fn daemon_error_view(message: Seq<char>) -> CliErrorView {
    error_view(ErrorCode::ServerError, "DAEMON_ERROR"@, message, None, None)
}

/// The message of a failure reply.
pub open spec fn failure_message(error: Option<DaemonErrorDetail>, fallback: Seq<char>) -> Seq<char> {
    match error {
        Some(d) => d.message@,
        None => fallback,
    }
}

fn daemon_error(message: String) -> (e: CliError)
    ensures
        e@ == daemon_error_view(message@),
{
    make_error(ErrorCode::ServerError, "DAEMON_ERROR", message, None, None)
}

/// The data of a reply to a request of type `req_type`: a failure gives the
/// daemon's message (or "`req_type` failed"), and a success without data
/// gives "Daemon `label` returned no data".
pub open spec fn reply_data_of(
    response: DaemonResponse,
    req_type: Seq<char>,
    label: Seq<char>,
) -> Result<JsonValue, CliErrorView> {
    if !response.success {
        Err(daemon_error_view(failure_message(response.error, req_type + " failed"@)))
    } else {
        match response.data {
            Some(d) => Ok(d),
            None => Err(daemon_error_view("Daemon "@ + label + " returned no data"@)),
        }
    }
}

fn reply_data(response: DaemonResponse, req_type: &str, label: &str) -> (r: Result<JsonValue, CliError>)
    ensures
        match r {
            Ok(d) => reply_data_of(response, req_type@, label@) == Ok::<JsonValue, CliErrorView>(d),
            Err(e) => reply_data_of(response, req_type@, label@) == Err::<JsonValue, CliErrorView>(e@),
        },
{
    let DaemonResponse { id: _, success, data, error } = response;
    if !success {
        let message = match error {
            Some(d) => d.message,
            None => cat2(req_type, " failed"),
        };
        return Err(daemon_error(message));
    }
    match data {
        Some(d) => Ok(d),
        None => Err(daemon_error(cat3("Daemon ", label, " returned no data"))),
    }
}

/// The tool list a daemon sent, still in its JSON form.
pub fn list_tools_reply(response: DaemonResponse) -> (r: Result<JsonValue, CliError>)
    ensures
        match r {
            Ok(d) => reply_data_of(response, "listTools"@, "listTools"@) == Ok::<JsonValue, CliErrorView>(d),
            Err(e) => reply_data_of(response, "listTools"@, "listTools"@) == Err::<JsonValue, CliErrorView>(e@),
        },
{
    reply_data(response, "listTools", "listTools")
}

/// The result of a tool call made through a daemon.
pub fn call_tool_reply(response: DaemonResponse) -> (r: Result<JsonValue, CliError>)
    ensures
        match r {
            Ok(d) => reply_data_of(response, "callTool"@, "call_tool"@) == Ok::<JsonValue, CliErrorView>(d),
            Err(e) => reply_data_of(response, "callTool"@, "call_tool"@) == Err::<JsonValue, CliErrorView>(e@),
        },
{
    reply_data(response, "callTool", "call_tool")
}

/// The instructions in a daemon's reply: none for no data or `null`, the text
/// of a string, and the compact JSON text of any other value.
pub open spec fn instructions_of(data: Option<JsonValue>) -> Option<Seq<char>> {
    match data {
        None => None,
        Some(JsonValue::Null) => None,
        Some(JsonValue::Str(s)) => Some(s@),
        Some(other) => Some(compact_json(other)),
    }
}

/// The reading of an instructions reply: a failure is an error as for the
/// other requests.
pub fn instructions_reply(response: DaemonResponse) -> (r: Result<Option<String>, CliError>)
    ensures
        !response.success ==> (r matches Err(e) && e@ == daemon_error_view(
            failure_message(response.error, "getInstructions failed"@),
        )),
        response.success ==> (r matches Ok(i) && opt_text(i) == instructions_of(response.data)),
{
    let DaemonResponse { id: _, success, data, error } = response;
    if !success {
        let message = match error {
            Some(d) => d.message,
            None => string_of("getInstructions failed"),
        };
        return Err(daemon_error(message));
    }
    match data {
        None => Ok(None),
        Some(JsonValue::Null) => Ok(None),
        Some(JsonValue::Str(s)) => Ok(Some(s)),
        Some(other) => Ok(Some(to_compact_json(&other))),
    }
}

// ============================================================================
// Daemon files
// ============================================================================

/// The index of the last occurrence of `c` in `s`, if any.
pub open spec fn last_index_of(s: Seq<char>, c: char) -> Option<int> {
    if exists|i: int| 0 <= i < s.len() && s[i] == c {
        Some(choose|i: int| 0 <= i < s.len() && s[i] == c && forall|j: int| i < j < s.len() ==> s[j] != c)
    } else {
        None
    }
}

/// The server whose PID file has the name `file_name`: the name's stem where
/// its extension (after the last dot, which must not lead the name) is `pid`.
pub open spec fn pid_file_server(file_name: Seq<char>) -> Option<Seq<char>> {
    match last_index_of(file_name, '.') {
        Some(i) => if i > 0 && file_name.skip(i + 1) == "pid"@ {
            Some(file_name.take(i))
        } else {
            None
        },
        None => None,
    }
}

/// The server whose PID file has the name `file_name`, if it is one.
pub fn pid_file_server_name(file_name: &str) -> (r: Option<String>)
    ensures
        match r {
            Some(s) => pid_file_server(file_name@) == Some(s@),
            None => pid_file_server(file_name@) is None,
        },
{
    let v = chars_of(file_name);
    let mut i: usize = v.len();
    while i > 0
        invariant
            v@ == file_name@,
            i <= v.len(),
            forall|j: int| i <= j < v.len() ==> v@[j] != '.',
        decreases i,
    {
        if v[i - 1] == '.' {
            let dot: usize = i - 1;
            proof {
                assert(exists|k: int| 0 <= k < v@.len() && v@[k] == '.' && forall|j: int|
                    k < j < v@.len() ==> v@[j] != '.') by {
                    assert(v@[dot as int] == '.');
                }
                let k = choose|k: int|
                    0 <= k < v@.len() && v@[k] == '.' && forall|j: int| k < j < v@.len() ==> v@[j] != '.';
                if k < dot {
                    assert(v@[dot as int] != '.');
                }
                if k > dot {
                    assert(v@[k] != '.');
                }
                assert(k == dot);
            }
            if dot == 0 {
                return None;
            }
            let ext = string_from_chars(&v, dot + 1, v.len());
            assert(v@.subrange(dot + 1, v.len() as int) == v@.skip(dot + 1));
            if str_eq(ext.as_str(), "pid") {
                assert(v@.subrange(0, dot as int) == v@.take(dot as int));
                return Some(string_from_chars(&v, 0, dot));
            }
            return None;
        }
        i = i - 1;
    }
    None
}

/// The line a daemon prints once it is ready for requests.
pub const DAEMON_READY: &'static str = "DAEMON_READY";

/// Whether a line printed by a starting daemon says it is ready.
pub fn is_ready_line(line: &str) -> (r: bool)
    ensures
        r == has_substr(line@, DAEMON_READY@),
{
    contains(line, DAEMON_READY)
}

/// The arguments that start a daemon for a server with its configuration.
pub fn daemon_args(server_name: &str, config_json: &str) -> (r: Vec<String>)
    ensures
        r@.len() == 3,
        r@[0]@ == "--daemon"@,
        r@[1]@ == server_name@,
        r@[2]@ == config_json@,
{
    let mut r: Vec<String> = Vec::new();
    r.push(string_of("--daemon"));
    r.push(string_of(server_name));
    r.push(string_of(config_json));
    r
}

} // verus!
