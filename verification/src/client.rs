//! The decisions of an MCP client: which failures are worth retrying and
//! after how long, the JSON-RPC messages it sends, and how it reads the
//! replies of a server, whether as plain JSON or as a server-sent event stream.
use crate::config::{parse_unsigned, parse_unsigned_text};
use crate::errors::{error_view, execution_suggestion, tool_execution_error, CliError, ErrorCode};
use crate::json::{get, text_member, JsonValue, get_text, json_str};
use crate::output::ToolInfo;
use crate::text::{
    ascii_lower, char_count, contains, decimal, occurs_at, decimal_string, has_substr, is_prefix, lowercase, split, split_string,
    starts_with, string_from_chars, chars_of, string_of, to_lowercase, trim, trim_string, views,
};
use vstd::arithmetic::mul::lemma_mul_inequality;
use vstd::arithmetic::power2::{lemma_pow2_strictly_increases, lemma_pow2_unfold, pow2};
use vstd::prelude::*;
use vstd::string::*;

verus! {

// ============================================================================
// Transient errors and retries
// ============================================================================

/// Whether the lower-cased text of an error names a failure that may pass
/// by itself: a refused, reset or timed out connection, an unreachable or
/// unknown host, a gateway or rate-limit status, or a network failure.
pub open spec fn is_transient_text(lower: Seq<char>) -> bool {
    ||| has_substr(lower, "econnrefused"@)
    ||| has_substr(lower, "econnreset"@)
    ||| has_substr(lower, "etimedout"@)
    ||| has_substr(lower, "enotfound"@)
    ||| has_substr(lower, "epipe"@)
    ||| has_substr(lower, "enetunreach"@)
    ||| has_substr(lower, "ehostunreach"@)
    ||| has_substr(lower, "eai_again"@)
    ||| has_substr(lower, "502"@)
    ||| has_substr(lower, "503"@)
    ||| has_substr(lower, "504"@)
    ||| has_substr(lower, "429"@)
    ||| has_substr(lower, "network error"@)
    ||| has_substr(lower, "network fail"@)
    ||| has_substr(lower, "connection reset"@)
    ||| has_substr(lower, "connection refused"@)
    ||| has_substr(lower, "connection timeout"@)
    ||| has_substr(lower, "timeout"@)
}

/// Whether an error message, compared without regard to case, describes a
/// transient failure.
pub fn is_transient_error(error_msg: &str) -> (r: bool)
    ensures
        r == is_transient_text(lowercase(error_msg@)),
        (forall|i: int| 0 <= i < error_msg@.len() ==> (#[trigger] error_msg@[i] as u32) < 128) ==> r
            == is_transient_text(ascii_lower(error_msg@)),
{
    let lower = to_lowercase(error_msg);
    let l = lower.as_str();
    contains(l, "econnrefused") || contains(l, "econnreset") || contains(l, "etimedout")
        || contains(l, "enotfound") || contains(l, "epipe") || contains(l, "enetunreach")
        || contains(l, "ehostunreach") || contains(l, "eai_again") || contains(l, "502")
        || contains(l, "503") || contains(l, "504") || contains(l, "429") || contains(
        l,
        "network error",
    ) || contains(l, "network fail") || contains(l, "connection reset") || contains(
        l,
        "connection refused",
    ) || contains(l, "connection timeout") || contains(l, "timeout")
}

/// Lower-casing ASCII capitals leaves every text without capitals where it
/// occurs: in particular digits, so a status code stays in place.
proof fn lemma_lower_keeps(m: Seq<char>, needle: Seq<char>)
    requires
        has_substr(m, needle),
        forall|k: int| 0 <= k < needle.len() ==> !('A' <= #[trigger] needle[k] && needle[k] <= 'Z'),
    ensures
        has_substr(ascii_lower(m), needle),
{
    let i = choose|i: int| occurs_at(m, needle, i);
    let l = ascii_lower(m);
    assert forall|k: int| 0 <= k < needle.len() implies #[trigger] l.subrange(i, i + needle.len())[k]
        == needle[k] by {
        assert(m.subrange(i, i + needle.len())[k] == m[i + k]);
        assert(l[i + k] == m[i + k]);
    }
    assert(l.subrange(i, i + needle.len()) =~= needle);
    assert(occurs_at(l, needle, i));
}

/// Law: an error that reports a bad gateway (502), an unavailable service
/// (503), a gateway timeout (504) or too many requests (429) is transient,
/// whatever else its message says.
pub proof fn law_gateway_and_rate_limit_statuses_are_transient(message: Seq<char>)
    requires
        has_substr(message, "502"@) || has_substr(message, "503"@) || has_substr(message, "504"@)
            || has_substr(message, "429"@),
    ensures
        is_transient_text(ascii_lower(message)),
{
    reveal_strlit("502");
    reveal_strlit("503");
    reveal_strlit("504");
    reveal_strlit("429");
    if has_substr(message, "502"@) {
        lemma_lower_keeps(message, "502"@);
    } else if has_substr(message, "503"@) {
        lemma_lower_keeps(message, "503"@);
    } else if has_substr(message, "504"@) {
        lemma_lower_keeps(message, "504"@);
    } else {
        lemma_lower_keeps(message, "429"@);
    }
}

/// Law: a refused, reset or timed out connection is transient, however its
/// code is capitalised.
pub proof fn law_connection_failures_are_transient(message: Seq<char>)
    requires
        has_substr(message, "ECONNREFUSED"@) || has_substr(message, "ECONNRESET"@) || has_substr(
            message,
            "ETIMEDOUT"@,
        ),
    ensures
        is_transient_text(ascii_lower(message)),
{
    reveal_strlit("ECONNREFUSED");
    reveal_strlit("ECONNRESET");
    reveal_strlit("ETIMEDOUT");
    reveal_strlit("econnrefused");
    reveal_strlit("econnreset");
    reveal_strlit("etimedout");
    let l = ascii_lower(message);
    let (upper, lower) = if has_substr(message, "ECONNREFUSED"@) {
        ("ECONNREFUSED"@, "econnrefused"@)
    } else if has_substr(message, "ECONNRESET"@) {
        ("ECONNRESET"@, "econnreset"@)
    } else {
        ("ETIMEDOUT"@, "etimedout"@)
    };
    let i = choose|i: int| occurs_at(message, upper, i);
    assert forall|k: int| 0 <= k < lower.len() implies #[trigger] l.subrange(i, i + lower.len())[k]
        == lower[k] by {
        assert(message.subrange(i, i + upper.len())[k] == message[i + k]);
        assert(l[i + k] == ascii_lower(message)[i + k]);
    }
    assert(l.subrange(i, i + lower.len()) =~= lower);
    assert(occurs_at(l, lower, i));
}

/// The longest wait between two attempts, in milliseconds.
pub const MAX_BACKOFF_MS: u64 = 10000;

/// The budget that must remain, in milliseconds, for another attempt.
pub const RETRY_RESERVE_MS: u64 = 1000;

/// Whether a failed attempt (counted from 0) is followed by another one: only
/// while attempts remain, for a transient failure, and with more than a
/// second of the time budget left.
pub open spec fn retry_allowed(attempt: nat, max_retries: nat, transient: bool, remaining_ms: nat) -> bool {
    attempt < max_retries && transient && remaining_ms > RETRY_RESERVE_MS
}

/// Whether the failed attempt `attempt` is retried.
pub fn should_retry(attempt: u32, max_retries: u32, transient: bool, remaining_ms: u64) -> (r: bool)
    ensures
        r == retry_allowed(attempt as nat, max_retries as nat, transient, remaining_ms as nat),
{
    attempt < max_retries && transient && remaining_ms > RETRY_RESERVE_MS
}

/// The exponential wait after the failed attempt `attempt`: the base delay
/// doubled once per earlier attempt, capped at ten seconds.
pub open spec fn backoff_delay(base_ms: nat, attempt: nat) -> nat {
    let d = base_ms * pow2(attempt);
    if d <= MAX_BACKOFF_MS {
        d
    } else {
        MAX_BACKOFF_MS as nat
    }
}

/// The doubled delay can be computed in 64 bits.
pub open spec fn backoff_fits(base_ms: nat, attempt: nat) -> bool {
    pow2(attempt) <= u64::MAX && base_ms * pow2(attempt) <= u64::MAX
}

/// The wait after the failed attempt `attempt`, before jitter.
pub fn backoff_delay_ms(base_ms: u64, attempt: u32) -> (r: u64)
    requires
        backoff_fits(base_ms as nat, attempt as nat),
    ensures
        r == backoff_delay(base_ms as nat, attempt as nat),
        r <= MAX_BACKOFF_MS,
{
    let mut factor: u64 = 1;
    let mut i: u32 = 0;
    proof {
        vstd::arithmetic::power2::lemma2_to64();
    }
    while i < attempt
        invariant
            i <= attempt,
            factor == pow2(i as nat),
            pow2(attempt as nat) <= u64::MAX,
        decreases attempt - i,
    {
        proof {
            lemma_pow2_unfold((i + 1) as nat);
            if i + 1 < attempt {
                lemma_pow2_strictly_increases((i + 1) as nat, attempt as nat);
            }
        }
        factor = factor * 2;
        i = i + 1;
    }
    let d = base_ms * factor;
    if d <= MAX_BACKOFF_MS {
        d
    } else {
        MAX_BACKOFF_MS
    }
}

/// The wait actually taken, given the delay after jitter: never so long that
/// less than a second of the remaining budget is left.
pub open spec fn bounded_wait(jittered_ms: nat, remaining_ms: nat) -> nat {
    let room: nat = if remaining_ms > RETRY_RESERVE_MS {
        (remaining_ms - RETRY_RESERVE_MS) as nat
    } else {
        0
    };
    if jittered_ms <= room {
        jittered_ms
    } else {
        room
    }
}

/// The wait taken, given the delay after jitter and the budget left.
pub fn retry_wait_ms(jittered_ms: u64, remaining_ms: u64) -> (r: u64)
    ensures
        r == bounded_wait(jittered_ms as nat, remaining_ms as nat),
        remaining_ms > RETRY_RESERVE_MS ==> r + RETRY_RESERVE_MS <= remaining_ms,
{
    let room = remaining_ms.saturating_sub(RETRY_RESERVE_MS);
    if jittered_ms <= room {
        jittered_ms
    } else {
        room
    }
}

/// Law: a later attempt never waits less than an earlier one.
pub proof fn law_backoff_monotone(base_ms: nat, a: nat, b: nat)
    requires
        a <= b,
    ensures
        backoff_delay(base_ms, a) <= backoff_delay(base_ms, b),
{
    if a < b {
        lemma_pow2_strictly_increases(a, b);
        lemma_mul_inequality(pow2(a) as int, pow2(b) as int, base_ms as int);
        assert(pow2(a) * base_ms == base_ms * pow2(a)) by (nonlinear_arith);
        assert(pow2(b) * base_ms == base_ms * pow2(b)) by (nonlinear_arith);
    }
}

/// Law: no attempt is retried once the retries are used up, whatever the
/// failure and the time left.
pub proof fn law_no_retry_past_limit(attempt: nat, max_retries: nat, transient: bool, remaining_ms: nat)
    requires
        attempt >= max_retries,
    ensures
        !retry_allowed(attempt, max_retries, transient, remaining_ms),
{
}

// ============================================================================
// JSON-RPC messages
// ============================================================================

/// `v` is the string value `t`.
pub open spec fn is_text_value(v: JsonValue, t: Seq<char>) -> bool {
    v matches JsonValue::Str(s) && s@ == t
}

/// The member names of an object, in order.
pub open spec fn member_names(m: Seq<(String, JsonValue)>) -> Seq<Seq<char>> {
    m.map_values(|e: (String, JsonValue)| e.0@)
}

/// `v` is the object with no members.
pub open spec fn is_empty_object(v: JsonValue) -> bool {
    v matches JsonValue::Object(m) && m@.len() == 0
}

/// `r` is the JSON-RPC 2.0 request number `id` calling `method` with `params`.
pub open spec fn is_rpc_request(r: JsonValue, id: u64, method: Seq<char>, params: JsonValue) -> bool {
    &&& r matches JsonValue::Object(m)
    &&& member_names(m@) == seq!["jsonrpc"@, "id"@, "method"@, "params"@]
    &&& is_text_value(m@[0].1, "2.0"@)
    &&& m@[1].1 matches JsonValue::Number(n) && n@ == decimal(id as nat)
    &&& is_text_value(m@[2].1, method)
    &&& m@[3].1 == params
}

/// `r` is the JSON-RPC 2.0 notification of `method` with `params`.
pub open spec fn is_rpc_notification(r: JsonValue, method: Seq<char>, params: JsonValue) -> bool {
    &&& r matches JsonValue::Object(m)
    &&& member_names(m@) == seq!["jsonrpc"@, "method"@, "params"@]
    &&& is_text_value(m@[0].1, "2.0"@)
    &&& is_text_value(m@[1].1, method)
    &&& m@[2].1 == params
}

/// An object with no members.
pub fn empty_object() -> (r: JsonValue)
    ensures
        is_empty_object(r),
{
    JsonValue::Object(Vec::new())
}

/// A request with its number, method and parameters.
pub fn rpc_request(id: u64, method: &str, params: JsonValue) -> (r: JsonValue)
    ensures
        is_rpc_request(r, id, method@, params),
{
    let mut m: Vec<(String, JsonValue)> = Vec::new();
    m.push((string_of("jsonrpc"), json_str("2.0")));
    m.push((string_of("id"), JsonValue::Number(decimal_string(id))));
    m.push((string_of("method"), json_str(method)));
    m.push((string_of("params"), params));
    assert(member_names(m@) == seq!["jsonrpc"@, "id"@, "method"@, "params"@]);
    JsonValue::Object(m)
}

/// A notification, which carries no number and gets no reply.
pub fn rpc_notification(method: &str, params: JsonValue) -> (r: JsonValue)
    ensures
        is_rpc_notification(r, method@, params),
{
    let mut m: Vec<(String, JsonValue)> = Vec::new();
    m.push((string_of("jsonrpc"), json_str("2.0")));
    m.push((string_of("method"), json_str(method)));
    m.push((string_of("params"), params));
    assert(member_names(m@) == seq!["jsonrpc"@, "method"@, "params"@]);
    JsonValue::Object(m)
}

/// The protocol version the client asks for.
pub const PROTOCOL_VERSION: &'static str = "2024-11-05";

/// The version of this client, as it introduces itself and reports itself.
pub const CLIENT_VERSION: &'static str = "0.3.0";

/// The parameters of the `initialize` handshake: the protocol version, no
/// capabilities, and the client's name and version.
pub open spec fn is_initialize_params(r: JsonValue) -> bool {
    &&& r matches JsonValue::Object(m)
    &&& member_names(m@) == seq!["protocolVersion"@, "capabilities"@, "clientInfo"@]
    &&& is_text_value(m@[0].1, PROTOCOL_VERSION@)
    &&& is_empty_object(m@[1].1)
    &&& m@[2].1 matches JsonValue::Object(info)
    &&& member_names(info@) == seq!["name"@, "version"@]
    &&& is_text_value(info@[0].1, "mcp-cli"@)
    &&& is_text_value(info@[1].1, CLIENT_VERSION@)
}

/// The parameters of the `initialize` request.
pub fn initialize_params() -> (r: JsonValue)
    ensures
        is_initialize_params(r),
{
    let mut info: Vec<(String, JsonValue)> = Vec::new();
    info.push((string_of("name"), json_str("mcp-cli")));
    info.push((string_of("version"), json_str(CLIENT_VERSION)));
    assert(member_names(info@) == seq!["name"@, "version"@]);
    let mut m: Vec<(String, JsonValue)> = Vec::new();
    m.push((string_of("protocolVersion"), json_str(PROTOCOL_VERSION)));
    m.push((string_of("capabilities"), empty_object()));
    m.push((string_of("clientInfo"), JsonValue::Object(info)));
    assert(member_names(m@) == seq!["protocolVersion"@, "capabilities"@, "clientInfo"@]);
    JsonValue::Object(m)
}

/// The parameters of a `tools/call` request: the tool's name and its arguments.
pub open spec fn is_call_params(r: JsonValue, tool_name: Seq<char>, args: JsonValue) -> bool {
    &&& r matches JsonValue::Object(m)
    &&& member_names(m@) == seq!["name"@, "arguments"@]
    &&& is_text_value(m@[0].1, tool_name)
    &&& m@[1].1 == args
}

/// The parameters of a `tools/call` request.
pub fn call_tool_params(tool_name: &str, args: JsonValue) -> (r: JsonValue)
    ensures
        is_call_params(r, tool_name@, args),
{
    let mut m: Vec<(String, JsonValue)> = Vec::new();
    m.push((string_of("name"), json_str(tool_name)));
    m.push((string_of("arguments"), args));
    assert(member_names(m@) == seq!["name"@, "arguments"@]);
    JsonValue::Object(m)
}

// ============================================================================
// Replies
// ============================================================================

/// The message of a JSON-RPC error object, or a stand-in where it has none.
pub open spec fn error_message(e: JsonValue) -> Seq<char> {
    match text_member(e, "message"@) {
        Some(t) => t,
        None => "Unknown error"@,
    }
}

/// What a reply means: its error's message where it has an error, else its
/// result, or `null` where it has none.
pub open spec fn rpc_outcome_of(v: JsonValue) -> Result<JsonValue, Seq<char>> {
    match get(v, "error"@) {
        Some(e) => Err(error_message(e)),
        None => Ok(
            match get(v, "result"@) {
                Some(x) => x,
                None => JsonValue::Null,
            },
        ),
    }
}

fn error_message_of(e: &JsonValue) -> (r: String)
    ensures
        r@ == error_message(*e),
{
    match get_text(e, "message") {
        Some(t) => t,
        None => string_of("Unknown error"),
    }
}

/// What a JSON-RPC reply means: its result, or its error message.
pub fn rpc_outcome(response: JsonValue) -> (r: Result<JsonValue, String>)
    ensures
        match r {
            Ok(x) => rpc_outcome_of(response) == Ok::<JsonValue, Seq<char>>(x),
            Err(m) => rpc_outcome_of(response) == Err::<JsonValue, Seq<char>>(m@),
        },
{
    let failure: Option<String> = match response.get("error") {
        Some(e) => Some(error_message_of(e)),
        None => None,
    };
    match failure {
        Some(m) => Err(m),
        None => match response.into_member("result") {
            Some(x) => Ok(x),
            None => Ok(JsonValue::Null),
        },
    }
}

/// The request number a reply answers, where its `id` is a whole number that
/// fits in 64 bits (number texts of JSON carry no sign for such numbers).
pub open spec fn reply_id(v: JsonValue) -> Option<nat> {
    match get(v, "id"@) {
        Some(JsonValue::Number(n)) => parse_unsigned(n@, u64::MAX as nat),
        _ => None,
    }
}

/// The request number a reply answers, if it has one.
pub fn response_id(v: &JsonValue) -> (r: Option<u64>)
    ensures
        match r {
            Some(id) => reply_id(*v) == Some(id as nat),
            None => reply_id(*v) is None,
        },
{
    match v.get("id") {
        Some(JsonValue::Number(n)) => parse_unsigned_text(n.as_str(), u64::MAX),
        _ => None,
    }
}

/// Whether a reply's content type announces a stream of server-sent events.
pub fn is_event_stream(content_type: &str) -> (r: bool)
    ensures
        r == has_substr(content_type@, "text/event-stream"@),
{
    contains(content_type, "text/event-stream")
}

/// `line` without one carriage return at its end.
pub open spec fn strip_cr(line: Seq<char>) -> Seq<char> {
    if line.len() > 0 && line.last() == '\r' {
        line.drop_last()
    } else {
        line
    }
}

/// The line at index `i` among the pieces of a text cut at line feeds: a
/// carriage return before the line feed belongs to the line ending.
pub open spec fn line_at(pieces: Seq<Seq<char>>, i: int) -> Seq<char> {
    if i < pieces.len() - 1 {
        strip_cr(pieces[i])
    } else {
        pieces[i]
    }
}

/// The lines of a text (`str::lines`): a final line ending adds no empty line.
pub open spec fn lines_of(s: Seq<char>) -> Seq<Seq<char>> {
    let p = split(s, '\n');
    let n = if p.last().len() == 0 {
        p.len() - 1
    } else {
        p.len() as int
    };
    Seq::new(n as nat, |i: int| line_at(p, i))
}

/// `s` without every leading repetition of `p`.
pub open spec fn strip_repeated(s: Seq<char>, p: Seq<char>) -> Seq<char>
    decreases s.len(),
{
    if p.len() > 0 && is_prefix(p, s) {
        strip_repeated(s.skip(p.len() as int), p)
    } else {
        s
    }
}

/// The payload of an event line: what follows `data:`, trimmed.
pub open spec fn data_payload(line: Seq<char>) -> Option<Seq<char>> {
    if is_prefix("data:"@, line) {
        Some(trim(strip_repeated(line, "data:"@)))
    } else {
        None
    }
}

/// The payloads of the data lines among `lines`, in order.
pub open spec fn payloads(lines: Seq<Seq<char>>) -> Seq<Seq<char>>
    decreases lines.len(),
{
    if lines.len() == 0 {
        seq![]
    } else {
        let rest = payloads(lines.drop_last());
        match data_payload(lines.last()) {
            Some(p) => rest.push(p),
            None => rest,
        }
    }
}

fn strip_repeated_string(s: &str, p: &str) -> (r: String)
    requires
        p@.len() > 0,
    ensures
        r@ == strip_repeated(s@, p@),
{
    let v = chars_of(s);
    let pv = chars_of(p);
    let mut i: usize = 0;
    assert(v@.skip(0) == v@);
    while pv.len() <= v.len() - i && slice_matches(&v, i, &pv)
        invariant
            v@ == s@,
            pv@ == p@,
            pv@.len() > 0,
            i <= v.len(),
            strip_repeated(v@.skip(i as int), pv@) == strip_repeated(v@, pv@),
        decreases v.len() - i,
    {
        assert(is_prefix(pv@, v@.skip(i as int)));
        assert(v@.skip(i as int).skip(pv@.len() as int) == v@.skip(i + pv.len()));
        i = i + pv.len();
    }
    assert(!is_prefix(pv@, v@.skip(i as int)));
    assert(v@.skip(i as int) == v@.subrange(i as int, v.len() as int));
    string_from_chars(&v, i, v.len())
}

/// Whether `p` occurs in `v` at index `i`.
fn slice_matches(v: &Vec<char>, i: usize, p: &Vec<char>) -> (r: bool)
    requires
        i + p.len() <= v.len(),
    ensures
        r == is_prefix(p@, v@.skip(i as int)),
{
    let mut j: usize = 0;
    while j < p.len()
        invariant
            i + p.len() <= v.len(),
            j <= p.len(),
            forall|k: int| 0 <= k < j ==> v@[i + k] == p@[k],
        decreases p.len() - j,
    {
        if v[i + j] != p[j] {
            assert(v@.skip(i as int)[j as int] == v@[i + j]);
            return false;
        }
        j = j + 1;
    }
    assert(v@.skip(i as int).subrange(0, p@.len() as int) == p@);
    true
}

/// The payloads of the `data:` lines of a chunk of an event stream.
pub fn sse_data_payloads(text: &str) -> (r: Vec<String>)
    ensures
        views(r@) == payloads(lines_of(text@)),
{
    let pieces = split_string(text, '\n');
    let ghost p = split(text@, '\n');
    let n: usize = if char_count(pieces[pieces.len() - 1].as_str()) == 0 {
        pieces.len() - 1
    } else {
        pieces.len()
    };
    let ghost lines = lines_of(text@);
    assert(lines.len() == n);
    let mut out: Vec<String> = Vec::new();
    let mut i: usize = 0;
    while i < n
        invariant
            views(pieces@) == p,
            p == split(text@, '\n'),
            lines == lines_of(text@),
            n == lines.len(),
            n <= pieces.len(),
            i <= n,
            views(out@) == payloads(lines.take(i as int)),
        decreases n - i,
    {
        let line: String = if i + 1 < pieces.len() {
            strip_cr_string(pieces[i].as_str())
        } else {
            string_of(pieces[i].as_str())
        };
        assert(line@ == lines[i as int]);
        assert(lines.take(i + 1).drop_last() == lines.take(i as int));
        if starts_with(line.as_str(), "data:") {
            proof {
                reveal_strlit("data:");
            }
            let stripped = strip_repeated_string(line.as_str(), "data:");
            let payload = trim_string(stripped.as_str());
            out.push(payload);
            assert(views(out@) == views(out@.drop_last()).push(payload@));
        }
        i = i + 1;
    }
    assert(lines.take(n as int) == lines);
    out
}

fn strip_cr_string(s: &str) -> (r: String)
    ensures
        r@ == strip_cr(s@),
{
    let v = chars_of(s);
    if v.len() > 0 && v[v.len() - 1] == '\r' {
        assert(v@.subrange(0, v.len() - 1) == v@.drop_last());
        string_from_chars(&v, 0, v.len() - 1)
    } else {
        assert(v@.subrange(0, v.len() as int) == v@);
        string_from_chars(&v, 0, v.len())
    }
}

/// What one event of the stream means: an error's message, a result, or
/// nothing for an event that is neither.
pub open spec fn event_outcome_of(v: JsonValue) -> Option<Result<JsonValue, Seq<char>>> {
    match get(v, "error"@) {
        Some(e) => Some(Err(error_message(e))),
        None => match get(v, "result"@) {
            Some(x) => Some(Ok(x)),
            None => None,
        },
    }
}

/// What one event of a server-sent stream means, if anything.
pub fn event_outcome(event: JsonValue) -> (r: Option<Result<JsonValue, String>>)
    ensures
        match r {
            Some(Ok(x)) => event_outcome_of(event) == Some(Ok::<JsonValue, Seq<char>>(x)),
            Some(Err(m)) => event_outcome_of(event) == Some(Err::<JsonValue, Seq<char>>(m@)),
            None => event_outcome_of(event) is None,
        },
{
    let failure: Option<String> = match event.get("error") {
        Some(e) => Some(error_message_of(e)),
        None => None,
    };
    match failure {
        Some(m) => Some(Err(m)),
        None => match event.into_member("result") {
            Some(x) => Some(Ok(x)),
            None => None,
        },
    }
}

// ============================================================================
// Tool listings
// ============================================================================

/// The error for a `tools/list` reply without a list of tools.
pub open spec fn bad_tools_reply_view(server_name: Seq<char>) -> crate::errors::CliErrorView {
    error_view(
        ErrorCode::ServerError,
        "TOOL_EXECUTION_FAILED"@,
        "Tool \""@ + "tools/list"@ + "\" execution failed"@,
        Some("Invalid tools response format"@),
        Some(execution_suggestion("tools/list"@, server_name, "Invalid tools response format"@)),
    )
}

/// The entries of the `tools` array of a `tools/list` result.
pub fn tool_entries(result: JsonValue, server_name: &str) -> (r: Result<Vec<JsonValue>, CliError>)
    ensures
        match get(result, "tools"@) {
            Some(JsonValue::Array(a)) => r matches Ok(v) && v@ == a@,
            _ => r matches Err(e) && e@ == bad_tools_reply_view(server_name@),
        },
{
    match result.into_member("tools") {
        Some(JsonValue::Array(a)) => Ok(a),
        _ => Err(tool_execution_error("tools/list", server_name, "Invalid tools response format")),
    }
}

/// `v` is the JSON form of `t`: its name, its description or `null`, and its
/// input schema.
pub open spec fn is_tool_value(v: JsonValue, t: ToolInfo) -> bool {
    &&& v matches JsonValue::Object(m)
    &&& member_names(m@) == seq!["name"@, "description"@, "inputSchema"@]
    &&& is_text_value(m@[0].1, t.name@)
    &&& match t.description {
        Some(d) => is_text_value(m@[1].1, d@),
        None => m@[1].1 is Null,
    }
    &&& m@[2].1 == t.input_schema
}

fn tool_value(t: ToolInfo) -> (r: JsonValue)
    ensures
        is_tool_value(r, t),
{
    let ghost t0 = t;
    let ToolInfo { name, description, input_schema } = t;
    let mut m: Vec<(String, JsonValue)> = Vec::new();
    m.push((string_of("name"), JsonValue::Str(name)));
    let d = match description {
        Some(d) => JsonValue::Str(d),
        None => JsonValue::Null,
    };
    m.push((string_of("description"), d));
    m.push((string_of("inputSchema"), input_schema));
    assert(member_names(m@) == seq!["name"@, "description"@, "inputSchema"@]);
    JsonValue::Object(m)
}

/// The JSON form of a list of tools, as a daemon hands it on.
pub fn tools_value(tools: Vec<ToolInfo>) -> (r: JsonValue)
    ensures
        r matches JsonValue::Array(a) && a@.len() == tools@.len() && forall|i: int|
            0 <= i < a@.len() ==> is_tool_value(#[trigger] a@[i], tools@[i]),
{
    let ghost all = tools@;
    let mut rest = tools;
    let mut out: Vec<JsonValue> = Vec::new();
    while rest.len() > 0
        invariant
            out@.len() + rest@.len() == all.len(),
            rest@ == all.skip(out@.len() as int),
            forall|i: int| 0 <= i < out@.len() ==> is_tool_value(#[trigger] out@[i], all[i]),
        decreases rest@.len(),
    {
        assert(rest@[0] == all[out@.len() as int]);
        let t = rest.remove(0);
        assert(rest@ == all.skip(out@.len() as int + 1));
        out.push(tool_value(t));
    }
    JsonValue::Array(out)
}

} // verus!
