//! Structured errors: a class that decides the process exit code, a machine
//! readable type, a message, and optional details and suggestion.
use crate::text::{
    byte_len, can_cut_at, cat2, cat3, cat4, cat5, contains, decimal, decimal_string, has_substr, join,
    join_strings, lowercase, opt_view, str_eq, string_of, to_lowercase, trim_start_char,
    trim_start_char_string, utf8_len, utf8_prefix, utf8_prefix_string, views,
};
use vstd::prelude::*;
use vstd::string::*;

verus! {

/// The class of an error; it decides the process exit code.
#[derive(Debug, Clone, Copy, PartialEq, Eq, Structural)]
pub enum ErrorCode {
    ClientError,
    ServerError,
    NetworkError,
    AuthError,
}

impl ErrorCode {
    /// The exit code of the class: 1 for client, 2 for server, 3 for network
    /// and 4 for authentication errors.
    pub open spec fn exit_code_of(self) -> i32 {
        match self {
            ErrorCode::ClientError => 1,
            ErrorCode::ServerError => 2,
            ErrorCode::NetworkError => 3,
            ErrorCode::AuthError => 4,
        }
    }

    /// The exit code of the class.
    pub fn exit_code(self) -> (r: i32)
        ensures
            r == self.exit_code_of(),
    {
        match self {
            ErrorCode::ClientError => 1,
            ErrorCode::ServerError => 2,
            ErrorCode::NetworkError => 3,
            ErrorCode::AuthError => 4,
        }
    }
}

/// An error as shown to users.
#[derive(Debug, Clone)]
pub struct CliError {
    pub code: ErrorCode,
    pub error_type: String,
    pub message: String,
    pub details: Option<String>,
    pub suggestion: Option<String>,
}

/// The mathematical model of a [`CliError`]: its texts as character sequences.
pub struct CliErrorView {
    pub code: ErrorCode,
    pub error_type: Seq<char>,
    pub message: Seq<char>,
    pub details: Option<Seq<char>>,
    pub suggestion: Option<Seq<char>>,
}

impl View for CliError {
    type V = CliErrorView;

    open spec fn view(&self) -> CliErrorView {
        CliErrorView {
            code: self.code,
            error_type: self.error_type@,
            message: self.message@,
            details: opt_view(self.details),
            suggestion: opt_view(self.suggestion),
        }
    }
}

/// The error model with the given parts.
pub open spec fn error_view(
    code: ErrorCode,
    error_type: Seq<char>,
    message: Seq<char>,
    details: Option<Seq<char>>,
    suggestion: Option<Seq<char>>,
) -> CliErrorView {
    CliErrorView { code, error_type, message, details, suggestion }
}

/// The text of an error as shown to users: a headline, then an indented
/// line for the details and one for the suggestion, where present.
pub open spec fn formatted(e: CliErrorView) -> Seq<char> {
    let head = "Error ["@ + e.error_type + "]: "@ + e.message;
    let details = match e.details {
        Some(d) => "\n  Details: "@ + d,
        None => seq![],
    };
    let suggestion = match e.suggestion {
        Some(s) => "\n  Suggestion: "@ + s,
        None => seq![],
    };
    head + details + suggestion
}

impl CliError {
    /// The text of the error as shown to users.
    pub fn format(&self) -> (r: String)
        ensures
            r@ == formatted(self@),
    {
        let mut r = cat4("Error [", self.error_type.as_str(), "]: ", self.message.as_str());
        if let Some(ref details) = self.details {
            r.append("\n  Details: ");
            r.append(details.as_str());
        }
        if let Some(ref suggestion) = self.suggestion {
            r.append("\n  Suggestion: ");
            r.append(suggestion.as_str());
        }
        r
    }
}

/// An error with the given parts.
pub fn make_error(
    code: ErrorCode,
    error_type: &str,
    message: String,
    details: Option<String>,
    suggestion: Option<String>,
) -> (e: CliError)
    ensures
        e@ == error_view(code, error_type@, message@, opt_view(details), opt_view(suggestion)),
{
    CliError { code, error_type: string_of(error_type), message, details, suggestion }
}

// ============================================================================
// Config Errors
// ============================================================================

/// The error for a configuration path that does not exist.
pub fn config_not_found_error(path: &str) -> (e: CliError)
    ensures
        e@ == error_view(
            ErrorCode::ClientError,
            "CONFIG_NOT_FOUND"@,
            "Config file not found: "@ + path@,
            None,
            Some(
                "Create mcp_servers.json with: { \"mcpServers\": { \"server-name\": { \"command\": \"...\" } } }"@,
            ),
        ),
{
    make_error(
        ErrorCode::ClientError,
        "CONFIG_NOT_FOUND",
        cat2("Config file not found: ", path),
        None,
        Some(
            string_of(
                "Create mcp_servers.json with: { \"mcpServers\": { \"server-name\": { \"command\": \"...\" } } }",
            ),
        ),
    )
}

/// The error when no default configuration path exists.
pub fn config_search_error() -> (e: CliError)
    ensures
        e@ == error_view(
            ErrorCode::ClientError,
            "CONFIG_NOT_FOUND"@,
            "No mcp_servers.json found in search paths"@,
            Some(
                "Searched: ./mcp_servers.json, ~/.mcp_servers.json, ~/.config/mcp/mcp_servers.json"@,
            ),
            Some(
                "Create mcp_servers.json in current directory or use -c/--config to specify path"@,
            ),
        ),
{
    make_error(
        ErrorCode::ClientError,
        "CONFIG_NOT_FOUND",
        string_of("No mcp_servers.json found in search paths"),
        Some(
            string_of(
                "Searched: ./mcp_servers.json, ~/.mcp_servers.json, ~/.config/mcp/mcp_servers.json",
            ),
        ),
        Some(
            string_of(
                "Create mcp_servers.json in current directory or use -c/--config to specify path",
            ),
        ),
    )
}

/// The error for a configuration that cannot be read as JSON.
pub fn config_invalid_json_error(path: &str, parse_error: &str) -> (e: CliError)
    ensures
        e@ == error_view(
            ErrorCode::ClientError,
            "CONFIG_INVALID_JSON"@,
            "Invalid JSON in config file: "@ + path@,
            Some(parse_error@),
            Some("Check for syntax errors: missing commas, unquoted keys, trailing commas"@),
        ),
{
    make_error(
        ErrorCode::ClientError,
        "CONFIG_INVALID_JSON",
        cat2("Invalid JSON in config file: ", path),
        Some(string_of(parse_error)),
        Some(string_of("Check for syntax errors: missing commas, unquoted keys, trailing commas")),
    )
}

/// The error for a configuration without an `mcpServers` object.
pub fn config_missing_field_error(path: &str) -> (e: CliError)
    ensures
        e@ == error_view(
            ErrorCode::ClientError,
            "CONFIG_MISSING_FIELD"@,
            "Config file missing required \"mcpServers\" object"@,
            Some("File: "@ + path@),
            Some("Config must have structure: { \"mcpServers\": { ... } }"@),
        ),
{
    make_error(
        ErrorCode::ClientError,
        "CONFIG_MISSING_FIELD",
        string_of("Config file missing required \"mcpServers\" object"),
        Some(cat2("File: ", path)),
        Some(string_of("Config must have structure: { \"mcpServers\": { ... } }")),
    )
}

// ============================================================================
// Server Errors
// ============================================================================

/// Each server name as the command that inspects it.
pub open spec fn server_commands(available: Seq<Seq<char>>) -> Seq<Seq<char>> {
    available.map_values(|s: Seq<char>| "mcp-cli info "@ + s)
}

/// The error for an unknown server, listing the configured ones.
pub open spec fn server_not_found_view(server_name: Seq<char>, available: Seq<Seq<char>>) -> CliErrorView {
    let available_list = if available.len() == 0 {
        "(none)"@
    } else {
        join(available, ", "@)
    };
    let suggestion = if available.len() == 0 {
        "Add server to mcp_servers.json: { \"mcpServers\": { \""@ + server_name
            + "\": { ... } } }"@
    } else {
        "Use one of: "@ + join(server_commands(available), ", "@)
    };
    error_view(
        ErrorCode::ClientError,
        "SERVER_NOT_FOUND"@,
        "Server \""@ + server_name + "\" not found in config"@,
        Some("Available servers: "@ + available_list),
        Some(suggestion),
    )
}

/// The error for an unknown server.
pub fn server_not_found_error(server_name: &str, available: &[String]) -> (e: CliError)
    ensures
        e@ == server_not_found_view(server_name@, views(available@)),
{
    let available_list = if available.len() == 0 {
        string_of("(none)")
    } else {
        join_strings(available, ", ")
    };
    let suggestion = if available.len() == 0 {
        cat3("Add server to mcp_servers.json: { \"mcpServers\": { \"", server_name, "\": { ... } } }")
    } else {
        let mut commands: Vec<String> = Vec::new();
        let mut i: usize = 0;
        while i < available.len()
            invariant
                i <= available.len(),
                views(commands@) == server_commands(views(available@)).take(i as int),
            decreases available.len() - i,
        {
            let ghost before = commands@;
            let c = cat2("mcp-cli info ", available[i].as_str());
            commands.push(c);
            assert(commands@ == before.push(c));
            assert(views(commands@) == views(before).push(c@));
            assert(server_commands(views(available@)).take(i + 1) == server_commands(
                views(available@),
            ).take(i as int).push(server_commands(views(available@))[i as int]));
            i = i + 1;
        }
        assert(server_commands(views(available@)).take(available.len() as int) == server_commands(
            views(available@),
        ));
        cat2("Use one of: ", join_strings(commands.as_slice(), ", ").as_str())
    };
    make_error(
        ErrorCode::ClientError,
        "SERVER_NOT_FOUND",
        cat3("Server \"", server_name, "\" not found in config"),
        Some(cat2("Available servers: ", available_list.as_str())),
        Some(suggestion),
    )
}

/// The advice given for a failed connection, read from its cause.
pub open spec fn connection_suggestion(cause: Seq<char>) -> Seq<char> {
    if has_substr(cause, "ENOENT"@) || has_substr(cause, "not found"@) || has_substr(
        cause,
        "No such file"@,
    ) {
        "Command not found. Install the MCP server: npx -y @modelcontextprotocol/server-<name>"@
    } else if has_substr(cause, "ECONNREFUSED"@) || has_substr(cause, "refused"@) {
        "Server refused connection. Check if the server is running and URL is correct"@
    } else if has_substr(cause, "ETIMEDOUT"@) || has_substr(cause, "timeout"@) {
        "Connection timed out. Check network connectivity and server availability"@
    } else if has_substr(cause, "401"@) || has_substr(cause, "Unauthorized"@) {
        "Authentication required. Add Authorization header to config"@
    } else if has_substr(cause, "403"@) || has_substr(cause, "Forbidden"@) {
        "Access forbidden. Check credentials and permissions"@
    } else {
        "Check server configuration and ensure the server process can start"@
    }
}

/// The error for a server that cannot be reached, with advice read from the cause.
pub fn server_connection_error(server_name: &str, cause: &str) -> (e: CliError)
    ensures
        e@ == error_view(
            ErrorCode::NetworkError,
            "SERVER_CONNECTION_FAILED"@,
            "Failed to connect to server \""@ + server_name@ + "\""@,
            Some(cause@),
            Some(connection_suggestion(cause@)),
        ),
{
    let suggestion = if contains(cause, "ENOENT") || contains(cause, "not found") || contains(
        cause,
        "No such file",
    ) {
        "Command not found. Install the MCP server: npx -y @modelcontextprotocol/server-<name>"
    } else if contains(cause, "ECONNREFUSED") || contains(cause, "refused") {
        "Server refused connection. Check if the server is running and URL is correct"
    } else if contains(cause, "ETIMEDOUT") || contains(cause, "timeout") {
        "Connection timed out. Check network connectivity and server availability"
    } else if contains(cause, "401") || contains(cause, "Unauthorized") {
        "Authentication required. Add Authorization header to config"
    } else if contains(cause, "403") || contains(cause, "Forbidden") {
        "Access forbidden. Check credentials and permissions"
    } else {
        "Check server configuration and ensure the server process can start"
    };
    make_error(
        ErrorCode::NetworkError,
        "SERVER_CONNECTION_FAILED",
        cat3("Failed to connect to server \"", server_name, "\""),
        Some(string_of(cause)),
        Some(string_of(suggestion)),
    )
}

// ============================================================================
// Tool Errors
// ============================================================================

/// The list of available tools shown with a missing tool: the first five
/// names, and how many more there are.
pub open spec fn available_tools_details(tools: Seq<Seq<char>>) -> Seq<char> {
    let shown = if tools.len() > 5 {
        tools.take(5)
    } else {
        tools
    };
    let more = if tools.len() > 5 {
        " (+"@ + decimal((tools.len() - 5) as nat) + " more)"@
    } else {
        seq![]
    };
    "Available tools: "@ + join(shown, ", "@) + more
}

/// The error for an unknown tool, listing some of the tools where known.
pub fn tool_not_found_error(tool_name: &str, server_name: &str, available_tools: Option<&[String]>) -> (e: CliError)
    ensures
        e@ == error_view(
            ErrorCode::ClientError,
            "TOOL_NOT_FOUND"@,
            "Tool \""@ + tool_name@ + "\" not found in server \""@ + server_name@ + "\""@,
            match available_tools {
                Some(tools) => Some(available_tools_details(views(tools@))),
                None => None,
            },
            Some("Run 'mcp-cli info "@ + server_name@ + "' to see all available tools"@),
        ),
{
    let details = match available_tools {
        Some(tools) => {
            let shown_count: usize = if tools.len() > 5 {
                5
            } else {
                tools.len()
            };
            let mut shown: Vec<String> = Vec::new();
            let mut i: usize = 0;
            while i < shown_count
                invariant
                    shown_count <= tools.len(),
                    i <= shown_count,
                    shown@ == tools@.take(i as int),
                decreases shown_count - i,
            {
                shown.push(tools[i].clone());
                assert(shown@ == tools@.take(i + 1));
                i = i + 1;
            }
            assert(views(shown@) == (if tools@.len() > 5 {
                views(tools@).take(5)
            } else {
                views(tools@)
            }));
            let more = if tools.len() > 5 {
                let count = decimal_string((tools.len() - 5) as u64);
                cat3(" (+", count.as_str(), " more)")
            } else {
                String::new()
            };
            let listed = join_strings(shown.as_slice(), ", ");
            let d = cat3("Available tools: ", listed.as_str(), more.as_str());
            assert(d@ == available_tools_details(views(tools@)));
            Some(d)
        },
        None => None,
    };
    make_error(
        ErrorCode::ClientError,
        "TOOL_NOT_FOUND",
        cat5("Tool \"", tool_name, "\" not found in server \"", server_name, "\""),
        details,
        Some(cat3("Run 'mcp-cli info ", server_name, "' to see all available tools")),
    )
}

/// The advice given for a failed tool call, read from its cause.
pub open spec fn execution_suggestion(tool_name: Seq<char>, server_name: Seq<char>, cause: Seq<char>) -> Seq<char> {
    if has_substr(cause, "validation"@) || has_substr(cause, "invalid_type"@) {
        "Run 'mcp-cli "@ + server_name + "/"@ + tool_name
            + "' to see the input schema, then fix arguments"@
    } else if has_substr(cause, "required"@) {
        "Missing required argument. Run 'mcp-cli "@ + server_name + "/"@ + tool_name
            + "' to see required fields"@
    } else if has_substr(cause, "permission"@) || has_substr(cause, "denied"@) {
        "Permission denied. Check file/resource permissions"@
    } else if has_substr(cause, "not found"@) || has_substr(cause, "ENOENT"@) {
        "Resource not found. Verify the path or identifier exists"@
    } else {
        "Check tool arguments match the expected schema"@
    }
}

/// The error for a failed tool call, with advice read from the cause.
pub fn tool_execution_error(tool_name: &str, server_name: &str, cause: &str) -> (e: CliError)
    ensures
        e@ == error_view(
            ErrorCode::ServerError,
            "TOOL_EXECUTION_FAILED"@,
            "Tool \""@ + tool_name@ + "\" execution failed"@,
            Some(cause@),
            Some(execution_suggestion(tool_name@, server_name@, cause@)),
        ),
{
    let suggestion = if contains(cause, "validation") || contains(cause, "invalid_type") {
        let mut s = cat4("Run 'mcp-cli ", server_name, "/", tool_name);
        s.append("' to see the input schema, then fix arguments");
        s
    } else if contains(cause, "required") {
        let mut s = cat4(
            "Missing required argument. Run 'mcp-cli ",
            server_name,
            "/",
            tool_name,
        );
        s.append("' to see required fields");
        s
    } else if contains(cause, "permission") || contains(cause, "denied") {
        string_of("Permission denied. Check file/resource permissions")
    } else if contains(cause, "not found") || contains(cause, "ENOENT") {
        string_of("Resource not found. Verify the path or identifier exists")
    } else {
        string_of("Check tool arguments match the expected schema")
    };
    make_error(
        ErrorCode::ServerError,
        "TOOL_EXECUTION_FAILED",
        cat3("Tool \"", tool_name, "\" execution failed"),
        Some(string_of(cause)),
        Some(suggestion),
    )
}

/// The error for a tool that the configuration does not allow.
pub open spec fn tool_disabled_view(tool_name: Seq<char>, server_name: Seq<char>) -> CliErrorView {
    error_view(
        ErrorCode::ClientError,
        "TOOL_DISABLED"@,
        "Tool \""@ + tool_name + "\" is disabled by configuration"@,
        Some("Server \""@ + server_name + "\" has allowedTools/disabledTools filtering configured"@),
        Some(
            "Check your mcp_servers.json config. Remove \""@ + tool_name
                + "\" from disabledTools or add it to allowedTools."@,
        ),
    )
}

/// The error for a tool that the configuration does not allow.
pub fn tool_disabled_error(tool_name: &str, server_name: &str) -> (e: CliError)
    ensures
        e@ == tool_disabled_view(tool_name@, server_name@),
{
    make_error(
        ErrorCode::ClientError,
        "TOOL_DISABLED",
        cat3("Tool \"", tool_name, "\" is disabled by configuration"),
        Some(cat3("Server \"", server_name, "\" has allowedTools/disabledTools filtering configured")),
        Some(
            cat3(
                "Check your mcp_servers.json config. Remove \"",
                tool_name,
                "\" from disabledTools or add it to allowedTools.",
            ),
        ),
    )
}

// ============================================================================
// Argument Errors
// ============================================================================

/// The error for a `call` target without `/`.
pub fn invalid_target_error(target: &str) -> (e: CliError)
    ensures
        e@ == error_view(
            ErrorCode::ClientError,
            "INVALID_TARGET"@,
            "Invalid target format: \""@ + target@ + "\""@,
            Some("Expected format: server/tool"@),
            Some(
                "Use 'mcp-cli <server>/<tool> <json>' format, e.g., 'mcp-cli github/search_repos \'{\"query\":\"mcp\"}\''"@,
            ),
        ),
{
    make_error(
        ErrorCode::ClientError,
        "INVALID_TARGET",
        cat3("Invalid target format: \"", target, "\""),
        Some(string_of("Expected format: server/tool")),
        Some(
            string_of(
                "Use 'mcp-cli <server>/<tool> <json>' format, e.g., 'mcp-cli github/search_repos \'{\"query\":\"mcp\"}\''",
            ),
        ),
    )
}

/// The input echoed back with a JSON error: at most its first 100 bytes,
/// marked with "..." when cut.
pub open spec fn truncated_input(input: Seq<char>) -> Seq<char> {
    if utf8_len(input) > 100 {
        utf8_prefix(input, 100) + "..."@
    } else {
        input
    }
}

/// Cutting `input` after 100 bytes does not split a character (where the
/// input is longer than that).
pub open spec fn json_args_input_ok(input: Seq<char>) -> bool {
    utf8_len(input) > 100 ==> can_cut_at(input, 100)
}

/// The error for tool arguments that are not JSON.
pub fn invalid_json_args_error(input: &str, parse_error: Option<&str>) -> (e: CliError)
    requires
        json_args_input_ok(input@),
    ensures
        e@ == error_view(
            ErrorCode::ClientError,
            "INVALID_JSON_ARGUMENTS"@,
            "Invalid JSON in tool arguments"@,
            Some(
                match parse_error {
                    Some(pe) => "Parse error: "@ + pe@,
                    None => "Input: "@ + truncated_input(input@),
                },
            ),
            Some(
                "Arguments must be valid JSON. Use single quotes: '{\"key\": \"value\"}'"@,
            ),
        ),
{
    let truncated = if byte_len(input) > 100 {
        cat2(utf8_prefix_string(input, 100).as_str(), "...")
    } else {
        string_of(input)
    };
    let details = match parse_error {
        Some(pe) => cat2("Parse error: ", pe),
        None => cat2("Input: ", truncated.as_str()),
    };
    make_error(
        ErrorCode::ClientError,
        "INVALID_JSON_ARGUMENTS",
        string_of("Invalid JSON in tool arguments"),
        Some(details),
        Some(
            string_of(
                "Arguments must be valid JSON. Use single quotes: '{\"key\": \"value\"}'",
            ),
        ),
    )
}

/// The advice for an unknown option, read from the option in lower case
/// without its leading dashes.
pub open spec fn option_suggestion(clean: Seq<char>) -> Seq<char> {
    if clean == "server"@ || clean == "s"@ {
        "Server is a positional argument. Use 'mcp-cli info <server>'"@
    } else if clean == "tool"@ || clean == "t"@ {
        "Tool is a positional argument. Use 'mcp-cli call <server> <tool>'"@
    } else if clean == "args"@ || clean == "arguments"@ || clean == "a"@ || clean == "input"@ {
        "Pass JSON directly: 'mcp-cli call <server> <tool> '{\"key\": \"value\"}''"@
    } else if clean == "pattern"@ || clean == "p"@ || clean == "search"@ || clean == "query"@ {
        "Use 'mcp-cli grep \"*pattern*\"'"@
    } else if clean == "call"@ || clean == "run"@ || clean == "exec"@ {
        "Use 'call' as a subcommand, not option: 'mcp-cli call <server> <tool>'"@
    } else if clean == "info"@ || clean == "list"@ || clean == "get"@ {
        "Use 'info' as a subcommand, not option: 'mcp-cli info <server>'"@
    } else {
        "Valid options: -c/--config, -j/--json, -d/--with-descriptions, -r/--raw"@
    }
}

/// The error for an unknown option, with advice for common mistakes.
pub open spec fn unknown_option_view(option: Seq<char>) -> CliErrorView {
    error_view(
        ErrorCode::ClientError,
        "UNKNOWN_OPTION"@,
        "Unknown option: "@ + option,
        None,
        Some(option_suggestion(trim_start_char(lowercase(option), '-'))),
    )
}

/// The error for an unknown option.
pub fn unknown_option_error(option: &str) -> (e: CliError)
    ensures
        e@ == unknown_option_view(option@),
{
    let lower = to_lowercase(option);
    let clean_string = trim_start_char_string(lower.as_str(), '-');
    let clean = clean_string.as_str();
    let suggestion = if str_eq(clean, "server") || str_eq(clean, "s") {
        "Server is a positional argument. Use 'mcp-cli info <server>'"
    } else if str_eq(clean, "tool") || str_eq(clean, "t") {
        "Tool is a positional argument. Use 'mcp-cli call <server> <tool>'"
    } else if str_eq(clean, "args") || str_eq(clean, "arguments") || str_eq(clean, "a") || str_eq(
        clean,
        "input",
    ) {
        "Pass JSON directly: 'mcp-cli call <server> <tool> '{\"key\": \"value\"}''"
    } else if str_eq(clean, "pattern") || str_eq(clean, "p") || str_eq(clean, "search") || str_eq(
        clean,
        "query",
    ) {
        "Use 'mcp-cli grep \"*pattern*\"'"
    } else if str_eq(clean, "call") || str_eq(clean, "run") || str_eq(clean, "exec") {
        "Use 'call' as a subcommand, not option: 'mcp-cli call <server> <tool>'"
    } else if str_eq(clean, "info") || str_eq(clean, "list") || str_eq(clean, "get") {
        "Use 'info' as a subcommand, not option: 'mcp-cli info <server>'"
    } else {
        "Valid options: -c/--config, -j/--json, -d/--with-descriptions, -r/--raw"
    };
    make_error(
        ErrorCode::ClientError,
        "UNKNOWN_OPTION",
        cat2("Unknown option: ", option),
        None,
        Some(string_of(suggestion)),
    )
}

/// The usage hint for a command that lacks an argument.
pub open spec fn missing_argument_suggestion(command: Seq<char>) -> Seq<char> {
    if command == "call"@ {
        "Use 'mcp-cli call <server> <tool> '{\"key\": \"value\"}''"@
    } else if command == "grep"@ {
        "Use 'mcp-cli grep \"*pattern*\"'"@
    } else if command == "-c/--config"@ {
        "Use 'mcp-cli -c /path/to/mcp_servers.json'"@
    } else {
        "Run 'mcp-cli --help' for usage examples"@
    }
}

/// The error for a missing argument of a command.
pub open spec fn missing_argument_view(command: Seq<char>, argument: Seq<char>) -> CliErrorView {
    error_view(
        ErrorCode::ClientError,
        "MISSING_ARGUMENT"@,
        "Missing required argument for "@ + command + ": "@ + argument,
        None,
        Some(missing_argument_suggestion(command)),
    )
}

/// The error for a missing argument.
pub fn missing_argument_error(command: &str, argument: &str) -> (e: CliError)
    ensures
        e@ == missing_argument_view(command@, argument@),
{
    let suggestion = if str_eq(command, "call") {
        "Use 'mcp-cli call <server> <tool> '{\"key\": \"value\"}''"
    } else if str_eq(command, "grep") {
        "Use 'mcp-cli grep \"*pattern*\"'"
    } else if str_eq(command, "-c/--config") {
        "Use 'mcp-cli -c /path/to/mcp_servers.json'"
    } else {
        "Run 'mcp-cli --help' for usage examples"
    };
    make_error(
        ErrorCode::ClientError,
        "MISSING_ARGUMENT",
        cat4("Missing required argument for ", command, ": ", argument),
        None,
        Some(string_of(suggestion)),
    )
}

// ============================================================================
// Subcommand Errors
// ============================================================================

/// The error for a server and tool named without a command.
pub open spec fn ambiguous_command_view(server_name: Seq<char>, tool_name: Seq<char>, has_args: bool) -> CliErrorView {
    let cmd = if has_args {
        "mcp-cli call "@ + server_name + " "@ + tool_name + " '<json>'"@
    } else {
        "mcp-cli call "@ + server_name + " "@ + tool_name
    };
    error_view(
        ErrorCode::ClientError,
        "AMBIGUOUS_COMMAND"@,
        "Ambiguous command: did you mean to call a tool or view info?"@,
        Some(
            "Received: mcp-cli "@ + server_name + " "@ + tool_name + (if has_args {
                " ..."@
            } else {
                ""@
            }),
        ),
        Some(
            "Use '"@ + cmd + "' to execute, or 'mcp-cli info "@ + server_name + " "@ + tool_name
                + "' to view schema"@,
        ),
    )
}

/// The error for a server and tool named without a command.
pub fn ambiguous_command_error(server_name: &str, tool_name: &str, has_args: bool) -> (e: CliError)
    ensures
        e@ == ambiguous_command_view(server_name@, tool_name@, has_args),
{
    let mut cmd = cat4("mcp-cli call ", server_name, " ", tool_name);
    if has_args {
        cmd.append(" '<json>'");
    }
    let mut details = cat4("Received: mcp-cli ", server_name, " ", tool_name);
    if has_args {
        details.append(" ...");
    } else {
        details.append("");
    }
    let mut suggestion = cat4("Use '", cmd.as_str(), "' to execute, or 'mcp-cli info ", server_name);
    suggestion.append(" ");
    suggestion.append(tool_name);
    suggestion.append("' to view schema");
    make_error(
        ErrorCode::ClientError,
        "AMBIGUOUS_COMMAND",
        string_of("Ambiguous command: did you mean to call a tool or view info?"),
        Some(details),
        Some(suggestion),
    )
}

/// The subcommand meant by a common mistaken one (given in lower case).
pub open spec fn suggested_subcommand(lower: Seq<char>) -> Option<Seq<char>> {
    if lower == "run"@ || lower == "execute"@ || lower == "exec"@ || lower == "invoke"@ {
        Some("call"@)
    } else if lower == "list"@ || lower == "ls"@ || lower == "get"@ || lower == "show"@ || lower
        == "describe"@ {
        Some("info"@)
    } else if lower == "search"@ || lower == "find"@ || lower == "query"@ {
        Some("grep"@)
    } else {
        None
    }
}

/// The error for a word that looks like a command of another tool.
pub open spec fn unknown_subcommand_view(subcommand: Seq<char>) -> CliErrorView {
    error_view(
        ErrorCode::ClientError,
        "UNKNOWN_SUBCOMMAND"@,
        "Unknown subcommand: \""@ + subcommand + "\""@,
        Some("Valid subcommands: info, grep, call"@),
        Some(
            match suggested_subcommand(lowercase(subcommand)) {
                Some(s) => "Did you mean 'mcp-cli "@ + s + "'?"@,
                None => "Use 'mcp-cli --help' to see available commands"@,
            },
        ),
    )
}

/// The error for a word that looks like a command of another tool.
pub fn unknown_subcommand_error(subcommand: &str) -> (e: CliError)
    ensures
        e@ == unknown_subcommand_view(subcommand@),
{
    let lower_string = to_lowercase(subcommand);
    let lower = lower_string.as_str();
    let suggested: Option<&str> = if str_eq(lower, "run") || str_eq(lower, "execute") || str_eq(
        lower,
        "exec",
    ) || str_eq(lower, "invoke") {
        Some("call")
    } else if str_eq(lower, "list") || str_eq(lower, "ls") || str_eq(lower, "get") || str_eq(
        lower,
        "show",
    ) || str_eq(lower, "describe") {
        Some("info")
    } else if str_eq(lower, "search") || str_eq(lower, "find") || str_eq(lower, "query") {
        Some("grep")
    } else {
        None
    };
    let suggestion = match suggested {
        Some(s) => cat3("Did you mean 'mcp-cli ", s, "'?"),
        None => string_of("Use 'mcp-cli --help' to see available commands"),
    };
    make_error(
        ErrorCode::ClientError,
        "UNKNOWN_SUBCOMMAND",
        cat3("Unknown subcommand: \"", subcommand, "\""),
        Some(string_of("Valid subcommands: info, grep, call")),
        Some(suggestion),
    )
}

/// The error for more arguments than a command takes.
pub open spec fn too_many_arguments_view(command: Seq<char>, received: nat, max: nat) -> CliErrorView {
    error_view(
        ErrorCode::ClientError,
        "TOO_MANY_ARGUMENTS"@,
        "Too many arguments for "@ + command,
        Some("Received "@ + decimal(received) + " arguments, maximum is "@ + decimal(max)),
        Some("Run 'mcp-cli --help' for correct usage"@),
    )
}

/// The error for more arguments than a command takes.
pub fn too_many_arguments_error(command: &str, received: usize, max: usize) -> (e: CliError)
    ensures
        e@ == too_many_arguments_view(command@, received as nat, max as nat),
{
    let r = decimal_string(received as u64);
    let m = decimal_string(max as u64);
    make_error(
        ErrorCode::ClientError,
        "TOO_MANY_ARGUMENTS",
        cat2("Too many arguments for ", command),
        Some(cat4("Received ", r.as_str(), " arguments, maximum is ", m.as_str())),
        Some(string_of("Run 'mcp-cli --help' for correct usage")),
    )
}

} // verus!
