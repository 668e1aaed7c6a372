//! The per-server daemon: the messages it exchanges with clients, what it
//! does for each request, how a client judges whether a running daemon can
//! be reused, and the address a daemon listens on where there are no Unix
//! sockets.
use crate::client::{is_empty_object, is_text_value, empty_object};
use crate::json::{json_str, JsonValue};
use crate::text::{cat2, decimal, decimal_string, str_eq, string_of};
use std::collections::hash_map::DefaultHasher;
use std::hash::Hash;
use std::hash::Hasher;
use vstd::std_specs::hash::DefaultHasherAdditionalSpecFns;
use vstd::prelude::*;
use vstd::string::*;

verus! {

// ============================================================================
// Types
// ============================================================================

/// A request sent to a daemon: its identifier, its type and, for a tool
/// call, the tool and its arguments.
pub struct DaemonRequest {
    pub id: String,
    pub req_type: String,
    pub tool_name: Option<String>,
    pub args: Option<JsonValue>,
}

/// A daemon's answer to one request.
pub struct DaemonResponse {
    pub id: String,
    pub success: bool,
    pub data: Option<JsonValue>,
    pub error: Option<DaemonErrorDetail>,
}

/// Why a daemon request failed.
pub struct DaemonErrorDetail {
    pub code: String,
    pub message: String,
}

/// What a daemon writes to its PID file.
pub struct PidFileContent {
    pub pid: i32,
    pub config_hash: String,
    pub started_at: String,
}

/// The current time as an RFC 3339 text (`chrono::Utc::now().to_rfc3339()`).
/// Nothing is stated of the reading: it is the clock's.
#[verifier::external_body]
fn now_rfc3339() -> String {
    chrono::Utc::now().to_rfc3339()
}

/// What a daemon started now, as process `pid`, for a configuration with the
/// fingerprint `config_hash`, writes to its PID file.
pub fn pid_file_content(pid: i32, config_hash: &str) -> (r: PidFileContent)
    ensures
        r.pid == pid,
        r.config_hash@ == config_hash@,
{
    PidFileContent { pid, config_hash: string_of(config_hash), started_at: now_rfc3339() }
}

/// A response is consistent: it carries data exactly when it succeeded and
/// an error exactly when it failed.
pub open spec fn consistent_response(r: DaemonResponse) -> bool {
    &&& r.success == r.data is Some
    &&& r.success == r.error is None
}

// ============================================================================
// Requests
// ============================================================================

/// What a daemon does for a request.
pub enum DaemonAction {
    /// Answer at once with this outcome.
    Answer(Result<JsonValue, String>),
    /// List the server's tools.
    ListTools,
    /// Call the named tool with these arguments.
    CallTool(String, JsonValue),
    /// Fetch the server's instructions.
    GetInstructions,
    /// Answer with this value, then shut down shortly after.
    Close(JsonValue),
}

/// The action for a request of type `req_type`: `ping` answers `pong`, a tool
/// call needs a tool name and takes `{}` for missing arguments, `close`
/// answers `closing`, and an unknown type is an error that names it.
pub open spec fn is_action_for(
    a: DaemonAction,
    req_type: Seq<char>,
    tool_name: Option<String>,
    args: Option<JsonValue>,
) -> bool {
    if req_type == "ping"@ {
        a matches DaemonAction::Answer(Ok(v)) && is_text_value(v, "pong"@)
    } else if req_type == "listTools"@ {
        a is ListTools
    } else if req_type == "callTool"@ {
        match tool_name {
            Some(n) => a matches DaemonAction::CallTool(m, x) && m@ == n@ && match args {
                Some(given) => x == given,
                None => is_empty_object(x),
            },
            None => a matches DaemonAction::Answer(Err(e)) && e@ == "toolName required"@,
        }
    } else if req_type == "getInstructions"@ {
        a is GetInstructions
    } else if req_type == "close"@ {
        a matches DaemonAction::Close(v) && is_text_value(v, "closing"@)
    } else {
        a matches DaemonAction::Answer(Err(e)) && e@ == "Unknown request type: "@ + req_type
    }
}

/// The identifier of a request and the action it asks for.
pub fn plan_request(request: DaemonRequest) -> (r: (String, DaemonAction))
    ensures
        r.0@ == request.id@,
        is_action_for(r.1, request.req_type@, request.tool_name, request.args),
{
    let DaemonRequest { id, req_type, tool_name, args } = request;
    let t = req_type.as_str();
    let action = if str_eq(t, "ping") {
        DaemonAction::Answer(Ok(json_str("pong")))
    } else if str_eq(t, "listTools") {
        DaemonAction::ListTools
    } else if str_eq(t, "callTool") {
        match tool_name {
            Some(n) => {
                let a = match args {
                    Some(given) => given,
                    None => empty_object(),
                };
                DaemonAction::CallTool(n, a)
            },
            None => DaemonAction::Answer(Err(string_of("toolName required"))),
        }
    } else if str_eq(t, "getInstructions") {
        DaemonAction::GetInstructions
    } else if str_eq(t, "close") {
        DaemonAction::Close(json_str("closing"))
    } else {
        DaemonAction::Answer(Err(cat2("Unknown request type: ", t)))
    };
    (id, action)
}

/// The reply to the request `id` with its outcome: the value on success,
/// an `EXECUTION_ERROR` with the message on failure.
pub fn daemon_reply(id: String, outcome: Result<JsonValue, String>) -> (r: DaemonResponse)
    ensures
        r.id@ == id@,
        consistent_response(r),
        match outcome {
            Ok(v) => r.success && r.data == Some(v),
            Err(m) => !r.success && (r.error matches Some(d) && d.code@ == "EXECUTION_ERROR"@
                && d.message@ == m@),
        },
{
    match outcome {
        Ok(v) => DaemonResponse { id, success: true, data: Some(v), error: None },
        Err(m) => DaemonResponse {
            id,
            success: false,
            data: None,
            error: Some(DaemonErrorDetail { code: string_of("EXECUTION_ERROR"), message: m }),
        },
    }
}

/// The reply to bytes that are not a request.
pub fn invalid_request_reply() -> (r: DaemonResponse)
    ensures
        r.id@ == "unknown"@,
        consistent_response(r),
        !r.success,
        r.error matches Some(d) && d.code@ == "INVALID_REQUEST"@ && d.message@ == "Invalid JSON"@,
{
    DaemonResponse {
        id: string_of("unknown"),
        success: false,
        data: None,
        error: Some(
            DaemonErrorDetail { code: string_of("INVALID_REQUEST"), message: string_of("Invalid JSON") },
        ),
    }
}

/// The value a daemon sends for a server's instructions: the text, or `null`.
pub fn instructions_value(instructions: Option<String>) -> (r: JsonValue)
    ensures
        match instructions {
            Some(s) => is_text_value(r, s@),
            None => r is Null,
        },
{
    match instructions {
        Some(s) => JsonValue::Str(s),
        None => JsonValue::Null,
    }
}

// ============================================================================
// Reusing a running daemon
// ============================================================================

/// The state of a server's daemon as a client finds it.
pub enum DaemonHealth {
    /// Running with the current configuration and its socket in place.
    Valid,
    /// No PID file could be read.
    NoPidFile,
    /// The process in the PID file is gone.
    NotRunning,
    /// The daemon was started with another configuration.
    ConfigChanged,
    /// The daemon runs but its socket is missing.
    SocketMissing,
}

/// The verdict on a daemon from its PID file, whether its process runs, the
/// fingerprint of the current configuration and whether its socket exists,
/// checked in that order.
pub open spec fn health_of(
    pid_info: Option<PidFileContent>,
    running: bool,
    current_hash: Seq<char>,
    socket_exists: bool,
) -> DaemonHealth {
    match pid_info {
        None => DaemonHealth::NoPidFile,
        Some(p) => if !running {
            DaemonHealth::NotRunning
        } else if p.config_hash@ != current_hash {
            DaemonHealth::ConfigChanged
        } else if !socket_exists {
            DaemonHealth::SocketMissing
        } else {
            DaemonHealth::Valid
        },
    }
}

/// `running` is read only where there is a PID file; it does not matter otherwise.
pub fn check_daemon(
    pid_info: Option<&PidFileContent>,
    running: bool,
    current_hash: &str,
    socket_exists: bool,
) -> (r: DaemonHealth)
    ensures
        r == health_of(
            match pid_info {
                Some(p) => Some(*p),
                None => None,
            },
            running,
            current_hash@,
            socket_exists,
        ),
{
    match pid_info {
        None => DaemonHealth::NoPidFile,
        Some(p) => if !running {
            DaemonHealth::NotRunning
        } else if !str_eq(p.config_hash.as_str(), current_hash) {
            DaemonHealth::ConfigChanged
        } else if !socket_exists {
            DaemonHealth::SocketMissing
        } else {
            DaemonHealth::Valid
        },
    }
}

/// What a client clears away for a daemon it will not reuse.
pub struct DaemonCleanup {
    pub kill_process: bool,
    pub remove_pid_file: bool,
    pub remove_socket: bool,
}

impl DaemonHealth {
    /// Whether the daemon can be reused.
    pub fn is_valid(&self) -> (r: bool)
        ensures
            r == (*self is Valid),
    {
        match self {
            DaemonHealth::Valid => true,
            _ => false,
        }
    }

    /// A gone process leaves its PID file and socket behind; a daemon with an
    /// old configuration is stopped and both are removed; a daemon without its
    /// socket is stopped and its PID file removed.
    pub fn cleanup(&self) -> (r: DaemonCleanup)
        ensures
            r.kill_process == (*self is ConfigChanged || *self is SocketMissing),
            r.remove_pid_file == (*self is NotRunning || *self is ConfigChanged || *self is SocketMissing),
            r.remove_socket == (*self is NotRunning || *self is ConfigChanged),
    {
        match self {
            DaemonHealth::NotRunning => DaemonCleanup {
                kill_process: false,
                remove_pid_file: true,
                remove_socket: true,
            },
            DaemonHealth::ConfigChanged => DaemonCleanup {
                kill_process: true,
                remove_pid_file: true,
                remove_socket: true,
            },
            DaemonHealth::SocketMissing => DaemonCleanup {
                kill_process: true,
                remove_pid_file: true,
                remove_socket: false,
            },
            _ => DaemonCleanup { kill_process: false, remove_pid_file: false, remove_socket: false },
        }
    }
}

/// Law: a daemon is reused only when its PID file exists, its process runs,
/// it was started with the current configuration and its socket exists.
pub proof fn law_reuse_needs_all_checks(
    pid_info: Option<PidFileContent>,
    running: bool,
    current_hash: Seq<char>,
    socket_exists: bool,
)
    ensures
        health_of(pid_info, running, current_hash, socket_exists) is Valid <==> (pid_info matches Some(
            p,
        ) && running && p.config_hash@ == current_hash && socket_exists),
{
}

// ============================================================================
// Loopback address
// ============================================================================

/// The loopback address for a port drawn from a hash: a port from 40000 to 59999.
pub open spec fn daemon_addr(hash: u64) -> Seq<char> {
    "127.0.0.1:"@ + decimal((40000 + hash % 20000) as nat)
}

/// The loopback address for the port drawn from `hash`.
pub fn daemon_addr_for_hash(hash: u64) -> (r: String)
    ensures
        r@ == daemon_addr(hash),
{
    cat2("127.0.0.1:", decimal_string(40000 + hash % 20000).as_str())
}

/// The writes of bytes that `<str as Hash>::hash` makes to a hasher for the
/// text `s` (std hashes a `str` as its UTF-8 bytes and a closing marker byte).
pub uninterp spec fn str_hash_writes(s: Seq<char>) -> Seq<Seq<u8>>;

/// Feeds `s` to `state` (`<str as Hash>::hash`). Claims: the hasher's record
/// of writes (vstd's model of `DefaultHasher`) grows by the writes for `s`,
/// which depend on the text alone.
#[verifier::external_body]
fn hash_text(s: &str, state: &mut DefaultHasher)
    ensures
        final(state)@ == old(state)@ + str_hash_writes(s@),
{
    s.hash(state)
}

/// The hash from which the daemon of a server takes its port: std's default
/// hasher, fresh, fed the server's name and then the configuration fingerprint.
pub open spec fn daemon_port_hash(server_name: Seq<char>, config_hash: Seq<char>) -> u64 {
    DefaultHasher::spec_finish(str_hash_writes(server_name) + str_hash_writes(config_hash))
}

/// The address of a server's daemon where it listens on TCP: a port chosen by
/// hashing the server's name and the configuration fingerprint.
pub fn get_daemon_addr(server_name: &str, config_hash: &str) -> (r: String)
    ensures
        r@ == daemon_addr(daemon_port_hash(server_name@, config_hash@)),
{
    let mut hasher = DefaultHasher::new();
    hash_text(server_name, &mut hasher);
    hash_text(config_hash, &mut hasher);
    assert(hasher@ =~= str_hash_writes(server_name@) + str_hash_writes(config_hash@));
    let h = hasher.finish();
    daemon_addr_for_hash(h)
}

} // verus!
