//! `grep`: search tool names across servers with a glob pattern.
use crate::errors::CliError;
use crate::matching::{build_regex, regex_compiles, regex_is_match, regex_match, search_glob_regex, search_glob_to_regex};
use crate::output::ToolInfo;
use crate::text::{cat3, decimal, decimal_string, is_prefix, join, join_strings, views};
use vstd::prelude::*;

verus! {

/// What `grep` is asked to do.
pub struct GrepOptions {
    pub pattern: String,
    pub with_descriptions: bool,
    pub config_path: Option<String>,
}

/// A tool whose name matched, with its server.
pub struct SearchResult {
    pub server: String,
    pub tool: ToolInfo,
}

/// The regex for a search pattern, built case-insensitively.
pub fn glob_to_regex(pattern: &str) -> (r: Result<regex::Regex, regex::Error>)
    ensures
        (r is Ok) == regex_compiles(search_glob_regex(pattern@), true),
{
    let source = search_glob_to_regex(pattern);
    build_regex(source.as_str(), true)
}

/// The tool name is matched by the regex of the search pattern.
pub open spec fn search_hit(pattern: Seq<char>, name: Seq<char>) -> bool {
    regex_compiles(search_glob_regex(pattern), true) && regex_match(
        search_glob_regex(pattern),
        name,
        true,
    )
}

/// The tools whose names the search pattern matches, in order.
pub open spec fn search_hits(pattern: Seq<char>, tools: Seq<ToolInfo>) -> Seq<ToolInfo>
    decreases tools.len(),
{
    if tools.len() == 0 {
        seq![]
    } else {
        let rest = search_hits(pattern, tools.drop_last());
        if search_hit(pattern, tools.last().name@) {
            rest.push(tools.last())
        } else {
            rest
        }
    }
}

/// The search results of one server: its tools whose names match the
/// pattern, in order, each with the server's name.
pub fn search_tools(server_name: &str, tools: Vec<ToolInfo>, pattern: &str) -> (r: Vec<SearchResult>)
    ensures
        r@.map_values(|x: SearchResult| x.tool) == search_hits(pattern@, tools@),
        forall|i: int| 0 <= i < r@.len() ==> (#[trigger] r@[i]).server@ == server_name@,
{
    let source = search_glob_to_regex(pattern);
    let ghost all = tools@;
    let total = tools.len();
    let mut tools = tools;
    let mut results: Vec<SearchResult> = Vec::new();
    let mut taken: usize = 0;
    while tools.len() > 0
        invariant
            taken + tools@.len() == all.len(),
            all.len() == total,
            tools@ == all.skip(taken as int),
            source@ == search_glob_regex(pattern@),
            results@.map_values(|x: SearchResult| x.tool) == search_hits(pattern@, all.take(taken as int)),
            forall|i: int| 0 <= i < results@.len() ==> (#[trigger] results@[i]).server@ == server_name@,
        decreases tools.len(),
    {
        let tool = tools.remove(0);
        assert(tool == all[taken as int]);
        assert(all.take(taken + 1).drop_last() == all.take(taken as int));
        assert(all.take(taken + 1).last() == tool);
        assert(tools@ == all.skip(taken + 1));
        let hit = match regex_is_match(source.as_str(), tool.name.as_str(), true) {
            Some(b) => b,
            None => false,
        };
        if hit {
            let ghost before = results@;
            let entry = SearchResult { server: crate::text::string_of(server_name), tool };
            results.push(entry);
            assert(results@.map_values(|x: SearchResult| x.tool) == before.map_values(
                |x: SearchResult| x.tool,
            ).push(entry.tool));
        }
        taken = taken + 1;
    }
    assert(all.take(taken as int) == all);
    results
}

/// The error for a search pattern that the regex builder refuses.
pub fn invalid_pattern_error(reason: &str) -> (e: CliError)
    ensures
        e@ == crate::errors::error_view(
            crate::errors::ErrorCode::ClientError,
            "INVALID_PATTERN"@,
            "Invalid glob pattern: "@ + reason@,
            None,
            None,
        ),
{
    crate::errors::make_error(
        crate::errors::ErrorCode::ClientError,
        "INVALID_PATTERN",
        crate::text::cat2("Invalid glob pattern: ", reason),
        None,
        None,
    )
}

/// The lines shown when nothing matches the pattern.
pub fn no_matches_message(pattern: &str) -> (r: String)
    ensures
        r@ == "No tools found matching \""@ + pattern@ + "\"\n  Tip: Pattern matches tool names only (not server names)\n  Tip: Use '*' for wildcards, e.g. '*file*' or 'read_*'\n  Tip: Run 'mcp-cli' to list all available tools"@,
{
    crate::text::cat3(
        "No tools found matching \"",
        pattern,
        "\"\n  Tip: Pattern matches tool names only (not server names)\n  Tip: Use '*' for wildcards, e.g. '*file*' or 'read_*'\n  Tip: Run 'mcp-cli' to list all available tools",
    )
}

/// The text of an error of the regex builder (its `Display`). What the
/// text says is the regex crate's own and is not stated.
#[verifier::external_body]
fn regex_error_text(e: &regex::Error) -> String {
    e.to_string()
}

/// The regex for a search pattern, or the error shown for a pattern that
/// cannot be compiled.
pub fn compile_search_pattern(pattern: &str) -> (r: Result<regex::Regex, CliError>)
    ensures
        (r is Ok) == regex_compiles(search_glob_regex(pattern@), true),
        r matches Err(e) ==> e.code == crate::errors::ErrorCode::ClientError && e.error_type@
            == "INVALID_PATTERN"@ && is_prefix("Invalid glob pattern: "@, e.message@) && e.details is None
            && e.suggestion is None,
{
    match glob_to_regex(pattern) {
        Ok(re) => Ok(re),
        Err(e) => {
            let reason = regex_error_text(&e);
            let err = invalid_pattern_error(reason.as_str());
            assert(err.message@.take("Invalid glob pattern: "@.len() as int) =~= "Invalid glob pattern: "@);
            assert(is_prefix("Invalid glob pattern: "@, err.message@));
            Err(err)
        },
    }
}

/// The warning for servers that could not be searched: how many, and their names.
pub fn failed_servers_warning(names: &[String]) -> (r: String)
    ensures
        r@ == "Warning: "@ + decimal(names@.len() as nat) + " server(s) failed to connect: "@ + join(
            views(names@),
            ", "@,
        ),
{
    let count = decimal_string(names.len() as u64);
    let list = join_strings(names, ", ");
    let mut r = cat3("Warning: ", count.as_str(), " server(s) failed to connect: ");
    r.append(list.as_str());
    r
}

} // verus!
