//! `call`: invoke one tool.
use crate::errors::{invalid_target_error, tool_execution_error, tool_not_found_error, CliError, CliErrorView};
use crate::cli::target_text;
use crate::text::{contains, find_char, first_index_of, has_substr, lemma_first_index_of, substring, views};
use vstd::prelude::*;

verus! {

/// What `call` is asked to do.
pub struct CallOptions {
    /// `server/tool`.
    pub target: String,
    /// The JSON arguments.
    pub args: Option<String>,
    pub config_path: Option<String>,
}

/// The server and tool of a `server/tool` target: split at the first `/`.
pub open spec fn call_target(target: Seq<char>) -> Option<(Seq<char>, Seq<char>)> {
    match first_index_of(target, '/') {
        Some(k) => Some((target.take(k), target.skip(k + 1))),
        None => None,
    }
}

/// The server and tool of a `server/tool` target.
pub fn parse_target(target: &str) -> (r: Result<(String, String), CliError>)
    ensures
        match r {
            Ok((server, tool)) => call_target(target@) == Some((server@, tool@)),
            Err(e) => call_target(target@) is None && e@ == crate::errors::error_view(
                crate::errors::ErrorCode::ClientError,
                "INVALID_TARGET"@,
                "Invalid target format: \""@ + target@ + "\""@,
                Some("Expected format: server/tool"@),
                Some(
                    "Use 'mcp-cli <server>/<tool> <json>' format, e.g., 'mcp-cli github/search_repos \'{\"query\":\"mcp\"}\''"@,
                ),
            ),
        },
{
    match find_char(target, '/') {
        Some(idx) => {
            let n = crate::text::char_count(target);
            let server = substring(target, 0, idx);
            let tool = substring(target, idx + 1, n);
            assert(target@.subrange(0, idx as int) == target@.take(idx as int));
            assert(target@.subrange(idx + 1, n as int) == target@.skip(idx + 1));
            Ok((server, tool))
        },
        None => Err(invalid_target_error(target)),
    }
}

/// Splitting a target and joining the parts with `/` gives the target back.
pub proof fn law_target_roundtrip(target: Seq<char>)
    requires
        call_target(target) is Some,
    ensures
        ({
            let (server, tool) = call_target(target)->0;
            server + "/"@ + tool == target
        }),
{
    reveal_strlit("/");
    let k = first_index_of(target, '/')->0;
    crate::substitution::lemma_first_index_facts(target, '/');
    assert(target.take(k) + seq!['/'] + target.skip(k + 1) =~= target);
}

/// Law: the target that the command line builds from a server (without
/// `/`) and a tool is read back by `call` as that server and tool.
pub proof fn law_call_target_from_parts(server: Seq<char>, tool: Seq<char>)
    requires
        forall|i: int| 0 <= i < server.len() ==> server[i] != '/',
    ensures
        call_target(target_text(Some(server), Some(tool))) == Some((server, tool)),
{
    reveal_strlit("/");
    let target = server + seq!['/'] + tool;
    assert(target_text(Some(server), Some(tool)) == target);
    assert(target[server.len() as int] == '/');
    assert forall|j: int| 0 <= j < server.len() implies target[j] != '/' by {
        assert(target[j] == server[j]);
    }
    lemma_first_index_of(target, '/', server.len() as int);
    assert(target.take(server.len() as int) == server);
    assert(target.skip(server.len() as int + 1) == tool);
}

/// The error for a failed call: a missing tool where the server says so,
/// otherwise a failed execution.
pub open spec fn call_failure_view(
    tool_name: Seq<char>,
    server_name: Seq<char>,
    message: Seq<char>,
    available: Option<Seq<Seq<char>>>,
) -> CliErrorView {
    if has_substr(message, "not found"@) || has_substr(message, "unknown tool"@) {
        crate::errors::error_view(
            crate::errors::ErrorCode::ClientError,
            "TOOL_NOT_FOUND"@,
            "Tool \""@ + tool_name + "\" not found in server \""@ + server_name + "\""@,
            match available {
                Some(tools) => Some(crate::errors::available_tools_details(tools)),
                None => None,
            },
            Some("Run 'mcp-cli info "@ + server_name + "' to see all available tools"@),
        )
    } else {
        crate::errors::error_view(
            crate::errors::ErrorCode::ServerError,
            "TOOL_EXECUTION_FAILED"@,
            "Tool \""@ + tool_name + "\" execution failed"@,
            Some(message),
            Some(crate::errors::execution_suggestion(tool_name, server_name, message)),
        )
    }
}

/// The views of an optional list of strings.
pub open spec fn opt_names(o: Option<Vec<String>>) -> Option<Seq<Seq<char>>> {
    match o {
        Some(v) => Some(views(v@)),
        None => None,
    }
}

/// The error reported for a failed call, from the server's message and the
/// tools it offers (where listing them worked).
pub fn call_failure_error(
    tool_name: &str,
    server_name: &str,
    message: &str,
    available: Option<Vec<String>>,
) -> (e: CliError)
    ensures
        e@ == call_failure_view(tool_name@, server_name@, message@, opt_names(available)),
{
    if contains(message, "not found") || contains(message, "unknown tool") {
        match available {
            Some(tools) => tool_not_found_error(tool_name, server_name, Some(tools.as_slice())),
            None => tool_not_found_error(tool_name, server_name, None),
        }
    } else {
        tool_execution_error(tool_name, server_name, message)
    }
}

} // verus!
