//! What the tool prints: server and tool listings, search results, server
//! details, tool schemas, tool results and errors. Colour is applied only
//! where the caller says the output is a colour terminal.
use crate::config::{ServerConfig, ServerConfigView};
use crate::json::{as_text, get, JsonValue};
use crate::json_text::{pretty_json, to_pretty_json};
use crate::text::{
    byte_len, can_cut_at, cat2, cat3, cat4, decimal, decimal_string, join, join_strings, split,
    split_string, string_of, trim_end, trim_end_string, utf8_len, utf8_prefix, utf8_prefix_string,
    views,
};
use vstd::prelude::*;
use vstd::string::*;

verus! {

/// Resets the terminal colour.
pub const RESET: &'static str = "\x1b[0m";

/// Bold text.
pub const BOLD: &'static str = "\x1b[1m";

/// Dim text.
pub const DIM: &'static str = "\x1b[2m";

/// Cyan text.
pub const CYAN: &'static str = "\x1b[36m";

/// Green text.
pub const GREEN: &'static str = "\x1b[32m";

/// Yellow text.
pub const YELLOW: &'static str = "\x1b[33m";

/// Red text.
pub const RED: &'static str = "\x1b[31m";

/// Bold cyan text.
pub const BOLD_CYAN: &'static str = "\x1b[1m\x1b[36m";

/// A tool as a server describes it.
#[derive(Debug)]
pub struct ToolInfo {
    pub name: String,
    pub description: Option<String>,
    pub input_schema: JsonValue,
}

/// A server with its tools and instructions, as listed.
pub struct ServerInfo {
    pub name: String,
    pub tools: Vec<ToolInfo>,
    pub instructions: Option<String>,
}

/// A tool found by a search, with its server.
pub struct SearchResult {
    pub server: String,
    pub tool: ToolInfo,
}

/// `text` wrapped in the colour `code` and a reset, when colouring.
pub open spec fn colored(text: Seq<char>, code: Seq<char>, colorize: bool) -> Seq<char> {
    if colorize {
        code + text + RESET@
    } else {
        text
    }
}

/// `text` in the colour `color_code`, when colouring.
pub fn color(text: &str, color_code: &str, colorize: bool) -> (r: String)
    ensures
        r@ == colored(text@, color_code@, colorize),
{
    if !colorize {
        return string_of(text);
    }
    cat3(color_code, text, RESET)
}

// ============================================================================
// Server list
// ============================================================================

/// The first line of the instructions as listed: at most 100 bytes of it,
/// and "..." where more lines follow or the line was cut.
pub open spec fn instructions_summary(inst: Seq<char>) -> Seq<char> {
    let first = split(inst, '\n')[0];
    let shown = if utf8_len(first) > 100 {
        utf8_prefix(first, 100)
    } else {
        first
    };
    let suffix = if split(inst, '\n').len() > 1 || utf8_len(first) > 100 {
        "..."@
    } else {
        ""@
    };
    "Instructions: "@ + shown + suffix
}

/// The instructions can be summarized without cutting a character.
pub open spec fn instructions_cuttable(inst: Option<String>) -> bool {
    inst matches Some(i) ==> (utf8_len(split(i@, '\n')[0]) > 100 ==> can_cut_at(
        split(i@, '\n')[0],
        100,
    ))
}

/// The line of one listed tool.
pub open spec fn tool_list_line(t: ToolInfo, with_descriptions: bool, colorize: bool) -> Seq<char> {
    if with_descriptions && t.description is Some {
        "  • "@ + t.name@ + " - "@ + colored(t.description->0@, DIM@, colorize)
    } else {
        "  • "@ + t.name@
    }
}

/// The lines of listed tools.
pub open spec fn tool_list_lines(tools: Seq<ToolInfo>, with_descriptions: bool, colorize: bool) -> Seq<Seq<char>>
    decreases tools.len(),
{
    if tools.len() == 0 {
        seq![]
    } else {
        tool_list_lines(tools.drop_last(), with_descriptions, colorize).push(
            tool_list_line(tools.last(), with_descriptions, colorize),
        )
    }
}

/// The lines of one listed server: its name, its instructions summary, its
/// tools and an empty line.
pub open spec fn server_block(s: ServerInfo, with_descriptions: bool, colorize: bool) -> Seq<Seq<char>> {
    let head = seq![colored(s.name@, BOLD_CYAN@, colorize)];
    let inst = match s.instructions {
        Some(i) => seq!["  "@ + colored(instructions_summary(i@), DIM@, colorize)],
        None => seq![],
    };
    head + inst + tool_list_lines(s.tools@, with_descriptions, colorize) + seq![seq![]]
}

/// The lines of the listed servers.
pub open spec fn server_list_lines(servers: Seq<ServerInfo>, with_descriptions: bool, colorize: bool) -> Seq<Seq<char>>
    decreases servers.len(),
{
    if servers.len() == 0 {
        seq![]
    } else {
        server_list_lines(servers.drop_last(), with_descriptions, colorize) + server_block(
            servers.last(),
            with_descriptions,
            colorize,
        )
    }
}

/// The lines joined, without trailing whitespace.
pub open spec fn listing(lines: Seq<Seq<char>>) -> Seq<char> {
    trim_end(join(lines, "\n"@))
}

/// Appends `line` to `lines`.
fn push_line(lines: &mut Vec<String>, line: String)
    ensures
        views(final(lines)@) == views(old(lines)@).push(line@),
{
    lines.push(line);
    assert(views(lines@) == views(old(lines)@).push(line@));
}

/// The summary line of the instructions.
fn instructions_line(inst: &str, colorize: bool) -> (r: String)
    requires
        utf8_len(split(inst@, '\n')[0]) > 100 ==> can_cut_at(split(inst@, '\n')[0], 100),
    ensures
        r@ == "  "@ + colored(instructions_summary(inst@), DIM@, colorize),
{
    let inst_lines = split_string(inst, '\n');
    assert(views(inst_lines@).len() == inst_lines@.len());
    assert(split(inst@, '\n').len() >= 1);
    assert(views(inst_lines@)[0] == inst_lines@[0]@);
    let first = inst_lines[0].as_str();
    let long = byte_len(first) > 100;
    let shown = if long {
        utf8_prefix_string(first, 100)
    } else {
        string_of(first)
    };
    let suffix = if inst_lines.len() > 1 || long {
        "..."
    } else {
        ""
    };
    let text = cat3("Instructions: ", shown.as_str(), suffix);
    let colored_text = color(text.as_str(), DIM, colorize);
    cat2("  ", colored_text.as_str())
}

/// The line of one listed tool.
fn list_tool_line(t: &ToolInfo, with_descriptions: bool, colorize: bool) -> (r: String)
    ensures
        r@ == tool_list_line(*t, with_descriptions, colorize),
{
    if with_descriptions {
        if let Some(ref desc) = t.description {
            let d = color(desc.as_str(), DIM, colorize);
            return cat4("  • ", t.name.as_str(), " - ", d.as_str());
        }
    }
    cat2("  • ", t.name.as_str())
}

/// The listing of all servers and their tools.
pub fn format_server_list(servers: &[ServerInfo], with_descriptions: bool, colorize: bool) -> (r: String)
    requires
        forall|i: int| 0 <= i < servers@.len() ==> instructions_cuttable(#[trigger] servers@[i].instructions),
    ensures
        r@ == listing(server_list_lines(servers@, with_descriptions, colorize)),
{
    let mut lines: Vec<String> = Vec::new();
    let mut i: usize = 0;
    while i < servers.len()
        invariant
            i <= servers.len(),
            forall|k: int| 0 <= k < servers@.len() ==> instructions_cuttable(#[trigger] servers@[k].instructions),
            views(lines@) == server_list_lines(servers@.take(i as int), with_descriptions, colorize),
        decreases servers.len() - i,
    {
        let server = &servers[i];
        let ghost start = views(lines@);
        assert(servers@.take(i + 1).drop_last() == servers@.take(i as int));
        assert(servers@.take(i + 1).last() == *server);
        push_line(&mut lines, color(server.name.as_str(), BOLD_CYAN, colorize));
        if let Some(ref inst) = server.instructions {
            assert(instructions_cuttable(servers@[i as int].instructions));
            push_line(&mut lines, instructions_line(inst.as_str(), colorize));
        }
        let ghost with_head = views(lines@);
        let mut j: usize = 0;
        while j < server.tools.len()
            invariant
                j <= server.tools.len(),
                views(lines@) == with_head + tool_list_lines(
                    server.tools@.take(j as int),
                    with_descriptions,
                    colorize,
                ),
            decreases server.tools.len() - j,
        {
            assert(server.tools@.take(j + 1).drop_last() == server.tools@.take(j as int));
            push_line(&mut lines, list_tool_line(&server.tools[j], with_descriptions, colorize));
            j = j + 1;
        }
        assert(server.tools@.take(server.tools.len() as int) == server.tools@);
        push_line(&mut lines, String::new());
        assert(views(lines@) == start + server_block(*server, with_descriptions, colorize));
        i = i + 1;
    }
    assert(servers@.take(servers.len() as int) == servers@);
    let joined = join_strings(lines.as_slice(), "\n");
    trim_end_string(joined.as_str())
}

// ============================================================================
// Search results
// ============================================================================

/// The line of one search result: server, tool and, where present, the
/// tool's description.
pub open spec fn search_line(r: SearchResult, colorize: bool) -> Seq<char> {
    let head = colored(r.server@, CYAN@, colorize) + " "@ + colored(r.tool.name@, GREEN@, colorize);
    match r.tool.description {
        Some(d) => head + " "@ + colored(d@, DIM@, colorize),
        None => head,
    }
}

/// The lines of the search results.
pub fn format_search_results(results: &[SearchResult], _with_descriptions: bool, colorize: bool) -> (r: String)
    ensures
        r@ == join(results@.map_values(|x: SearchResult| search_line(x, colorize)), "\n"@),
{
    let mut lines: Vec<String> = Vec::new();
    let mut i: usize = 0;
    while i < results.len()
        invariant
            i <= results.len(),
            views(lines@) == results@.take(i as int).map_values(
                |x: SearchResult| search_line(x, colorize),
            ),
        decreases results.len() - i,
    {
        let result = &results[i];
        let server_colored = color(result.server.as_str(), CYAN, colorize);
        let tool_colored = color(result.tool.name.as_str(), GREEN, colorize);
        let line = if let Some(ref desc) = result.tool.description {
            let d = color(desc.as_str(), DIM, colorize);
            let mut l = cat3(server_colored.as_str(), " ", tool_colored.as_str());
            l.append(" ");
            l.append(d.as_str());
            l
        } else {
            cat3(server_colored.as_str(), " ", tool_colored.as_str())
        };
        push_line(&mut lines, line);
        assert(results@.take(i + 1).map_values(|x: SearchResult| search_line(x, colorize))
            == results@.take(i as int).map_values(|x: SearchResult| search_line(x, colorize)).push(
            search_line(results@[i as int], colorize),
        ));
        i = i + 1;
    }
    assert(results@.take(results.len() as int) == results@);
    join_strings(lines.as_slice(), "\n")
}

// ============================================================================
// Server details
// ============================================================================

/// The names among `values` that are strings, in order.
pub open spec fn string_elements(values: Seq<JsonValue>) -> Seq<Seq<char>>
    decreases values.len(),
{
    if values.len() == 0 {
        seq![]
    } else {
        let rest = string_elements(values.drop_last());
        match values.last() {
            JsonValue::Str(s) => rest.push(s@),
            _ => rest,
        }
    }
}

/// The parameter names marked as required by a schema object.
pub open spec fn required_names(schema: JsonValue) -> Seq<Seq<char>> {
    match get(schema, "required"@) {
        Some(JsonValue::Array(a)) => string_elements(a@),
        _ => seq![],
    }
}

/// The line of one parameter of a schema.
pub open spec fn parameter_line(
    name: Seq<char>,
    prop: JsonValue,
    required: Seq<Seq<char>>,
    with_descriptions: bool,
) -> Seq<char> {
    let req = if required.contains(name) {
        "required"@
    } else {
        "optional"@
    };
    let ty = match get(prop, "type"@) {
        Some(JsonValue::Str(t)) => t@,
        _ => "any"@,
    };
    let desc = if with_descriptions {
        match get(prop, "description"@) {
            Some(JsonValue::Str(d)) => " - "@ + d@,
            _ => seq![],
        }
    } else {
        seq![]
    };
    "      • "@ + name + " ("@ + ty + ", "@ + req + ")"@ + desc
}

/// The lines of the parameters of a schema.
pub open spec fn parameter_lines(
    props: Seq<(String, JsonValue)>,
    required: Seq<Seq<char>>,
    with_descriptions: bool,
) -> Seq<Seq<char>>
    decreases props.len(),
{
    if props.len() == 0 {
        seq![]
    } else {
        parameter_lines(props.drop_last(), required, with_descriptions).push(
            parameter_line(props.last().0@, props.last().1, required, with_descriptions),
        )
    }
}

/// The parameter lines of a tool: a heading and one line per property,
/// where the schema is an object with a `properties` object.
pub open spec fn schema_lines(schema: JsonValue, with_descriptions: bool, colorize: bool) -> Seq<Seq<char>> {
    match schema {
        JsonValue::Object(_) => match get(schema, "properties"@) {
            Some(JsonValue::Object(props)) => seq!["    "@ + colored("Parameters:"@, YELLOW@, colorize)]
                + parameter_lines(props@, required_names(schema), with_descriptions),
            _ => seq![],
        },
        _ => seq![],
    }
}

/// The lines of one tool in the server details.
pub open spec fn tool_detail_lines(t: ToolInfo, with_descriptions: bool, colorize: bool) -> Seq<Seq<char>> {
    let head = seq!["  "@ + colored(t.name@, GREEN@, colorize)];
    let desc = if with_descriptions && t.description is Some {
        seq!["    "@ + colored(t.description->0@, DIM@, colorize)]
    } else {
        seq![]
    };
    head + desc + schema_lines(t.input_schema, with_descriptions, colorize) + seq![seq![]]
}

/// The lines of all tools in the server details.
pub open spec fn tools_detail_lines(tools: Seq<ToolInfo>, with_descriptions: bool, colorize: bool) -> Seq<Seq<char>>
    decreases tools.len(),
{
    if tools.len() == 0 {
        seq![]
    } else {
        tools_detail_lines(tools.drop_last(), with_descriptions, colorize) + tool_detail_lines(
            tools.last(),
            with_descriptions,
            colorize,
        )
    }
}

/// The lines that describe how a server is reached.
pub open spec fn transport_lines(config: ServerConfigView, colorize: bool) -> Seq<Seq<char>> {
    match config {
        ServerConfigView::Http(h) => seq![
            colored("Transport"@, BOLD@, colorize) + ": HTTP"@,
            colored("URL"@, BOLD@, colorize) + ": "@ + h.url,
        ],
        ServerConfigView::Stdio(s) => seq![
            colored("Transport"@, BOLD@, colorize) + ": stdio"@,
            colored("Command"@, BOLD@, colorize) + ": "@ + s.command + " "@ + match s.args {
                Some(a) => join(a, " "@),
                None => seq![],
            },
        ],
    }
}

/// The lines of the instructions block, where there are instructions.
pub open spec fn instructions_block(instructions: Option<Seq<char>>, colorize: bool) -> Seq<Seq<char>> {
    match instructions {
        Some(inst) => seq![
            seq![],
            colored("Instructions:"@, BOLD@, colorize),
            join(split(inst, '\n').map_values(|l: Seq<char>| "  "@ + l), "\n"@),
        ],
        None => seq![],
    }
}

/// All lines of the server details.
pub open spec fn server_details_lines(
    server_name: Seq<char>,
    config: ServerConfigView,
    tools: Seq<ToolInfo>,
    with_descriptions: bool,
    instructions: Option<Seq<char>>,
    colorize: bool,
) -> Seq<Seq<char>> {
    seq![colored("Server"@, BOLD@, colorize) + ": "@ + colored(server_name, CYAN@, colorize)]
        + transport_lines(config, colorize) + instructions_block(instructions, colorize) + seq![
        seq![],
        colored("Tools ("@ + decimal(tools.len()) + ")"@, BOLD@, colorize) + ":"@,
    ] + tools_detail_lines(tools, with_descriptions, colorize)
}

/// Law: the second line of a server's details names its transport: HTTP
/// exactly for an HTTP server and stdio exactly for a stdio one, and the two
/// lines differ, so the kinds of server are never shown alike.
pub proof fn law_transport_line(
    server_name: Seq<char>,
    config: ServerConfigView,
    tools: Seq<ToolInfo>,
    with_descriptions: bool,
    instructions: Option<Seq<char>>,
    colorize: bool,
)
    ensures
        server_details_lines(server_name, config, tools, with_descriptions, instructions, colorize)[1]
            == colored("Transport"@, BOLD@, colorize) + (match config {
            ServerConfigView::Http(_) => ": HTTP"@,
            ServerConfigView::Stdio(_) => ": stdio"@,
        }),
        colored("Transport"@, BOLD@, colorize) + ": HTTP"@ != colored("Transport"@, BOLD@, colorize)
            + ": stdio"@,
{
    reveal_strlit(": HTTP");
    reveal_strlit(": stdio");
    let head = colored("Transport"@, BOLD@, colorize);
    assert((head + ": HTTP"@).len() != (head + ": stdio"@).len());
}

/// The view of an optional string slice.
pub open spec fn opt_str_view(s: Option<&str>) -> Option<Seq<char>> {
    match s {
        Some(x) => Some(x@),
        None => None,
    }
}

/// The names among `values` that are strings.
fn collect_string_elements(values: &Vec<JsonValue>) -> (r: Vec<String>)
    ensures
        views(r@) == string_elements(values@),
{
    let mut r: Vec<String> = Vec::new();
    let mut i: usize = 0;
    while i < values.len()
        invariant
            i <= values.len(),
            views(r@) == string_elements(values@.take(i as int)),
        decreases values.len() - i,
    {
        assert(values@.take(i + 1).drop_last() == values@.take(i as int));
        assert(values@.take(i + 1).last() == values@[i as int]);
        if let JsonValue::Str(s) = &values[i] {
            push_line(&mut r, s.clone());
        }
        i = i + 1;
    }
    assert(values@.take(values.len() as int) == values@);
    r
}

/// Whether `names` holds `name`.
fn holds_name(names: &Vec<String>, name: &str) -> (r: bool)
    ensures
        r == views(names@).contains(name@),
{
    let mut i: usize = 0;
    while i < names.len()
        invariant
            i <= names.len(),
            forall|j: int| 0 <= j < i ==> names@[j]@ != name@,
        decreases names.len() - i,
    {
        if crate::text::str_eq(names[i].as_str(), name) {
            assert(views(names@)[i as int] == name@);
            return true;
        }
        i = i + 1;
    }
    assert forall|j: int| 0 <= j < views(names@).len() implies views(names@)[j] != name@ by {
        assert(views(names@)[j] == names@[j]@);
    }
    false
}

/// The line of one parameter of a schema.
fn parameter_line_exec(
    name: &str,
    prop: &JsonValue,
    required: &Vec<String>,
    with_descriptions: bool,
) -> (r: String)
    ensures
        r@ == parameter_line(name@, *prop, views(required@), with_descriptions),
{
    let req = if holds_name(required, name) {
        "required"
    } else {
        "optional"
    };
    let ty: &str = match prop.get("type") {
        Some(JsonValue::Str(t)) => t.as_str(),
        _ => "any",
    };
    let desc = if with_descriptions {
        match prop.get("description") {
            Some(JsonValue::Str(d)) => cat2(" - ", d.as_str()),
            _ => String::new(),
        }
    } else {
        String::new()
    };
    assert(ty@ == match get(*prop, "type"@) {
        Some(JsonValue::Str(t)) => t@,
        _ => "any"@,
    });
    assert(req@ == (if views(required@).contains(name@) {
        "required"@
    } else {
        "optional"@
    }));
    let mut r = cat4("      • ", name, " (", ty);
    r.append(", ");
    r.append(req);
    r.append(")");
    r.append(desc.as_str());
    r
}

/// The parameter lines of a tool.
fn schema_lines_exec(schema: &JsonValue, with_descriptions: bool, colorize: bool) -> (r: Vec<String>)
    ensures
        views(r@) == schema_lines(*schema, with_descriptions, colorize),
{
    let mut lines: Vec<String> = Vec::new();
    if schema.is_object() {
        if let Some(JsonValue::Object(props)) = schema.get("properties") {
            let heading = color("Parameters:", YELLOW, colorize);
            push_line(&mut lines, cat2("    ", heading.as_str()));
            let required = match schema.get("required") {
                Some(JsonValue::Array(a)) => collect_string_elements(a),
                _ => Vec::new(),
            };
            assert(views(required@) == required_names(*schema));
            let ghost head = views(lines@);
            let mut i: usize = 0;
            while i < props.len()
                invariant
                    i <= props.len(),
                    views(lines@) == head + parameter_lines(
                        props@.take(i as int),
                        views(required@),
                        with_descriptions,
                    ),
                decreases props.len() - i,
            {
                assert(props@.take(i + 1).drop_last() == props@.take(i as int));
                assert(props@.take(i + 1).last() == props@[i as int]);
                let line = parameter_line_exec(
                    props[i].0.as_str(),
                    &props[i].1,
                    &required,
                    with_descriptions,
                );
                push_line(&mut lines, line);
                i = i + 1;
            }
            assert(props@.take(props.len() as int) == props@);
        }
    }
    lines
}

/// The instructions, each line indented.
fn indented_instructions(inst: &str) -> (r: String)
    ensures
        r@ == join(split(inst@, '\n').map_values(|l: Seq<char>| "  "@ + l), "\n"@),
{
    let pieces = split_string(inst, '\n');
    let mut indented: Vec<String> = Vec::new();
    let mut i: usize = 0;
    while i < pieces.len()
        invariant
            i <= pieces.len(),
            views(indented@) == views(pieces@).take(i as int).map_values(
                |l: Seq<char>| "  "@ + l,
            ),
        decreases pieces.len() - i,
    {
        push_line(&mut indented, cat2("  ", pieces[i].as_str()));
        assert(views(pieces@).take(i + 1).map_values(|l: Seq<char>| "  "@ + l) == views(
            pieces@,
        ).take(i as int).map_values(|l: Seq<char>| "  "@ + l).push("  "@ + pieces@[i as int]@));
        i = i + 1;
    }
    assert(views(pieces@).take(pieces.len() as int) == views(pieces@));
    join_strings(indented.as_slice(), "\n")
}

/// Appends the lines that describe one tool in the server details.
fn push_tool_details(lines: &mut Vec<String>, tool: &ToolInfo, with_descriptions: bool, colorize: bool)
    ensures
        views(final(lines)@) == views(old(lines)@) + tool_detail_lines(*tool, with_descriptions, colorize),
{
    let ghost before = views(lines@);
    let tool_name = color(tool.name.as_str(), GREEN, colorize);
    push_line(lines, cat2("  ", tool_name.as_str()));
    if with_descriptions {
        if let Some(ref desc) = tool.description {
            let d = color(desc.as_str(), DIM, colorize);
            push_line(lines, cat2("    ", d.as_str()));
        }
    }
    let params = schema_lines_exec(&tool.input_schema, with_descriptions, colorize);
    let mut k: usize = 0;
    let ghost mid = views(lines@);
    while k < params.len()
        invariant
            k <= params.len(),
            views(lines@) == mid + views(params@).take(k as int),
        decreases params.len() - k,
    {
        push_line(lines, params[k].clone());
        assert(views(params@).take(k + 1) == views(params@).take(k as int).push(params@[k as int]@));
        k = k + 1;
    }
    assert(views(params@).take(params.len() as int) == views(params@));
    push_line(lines, String::new());
    assert(views(lines@) == before + tool_detail_lines(*tool, with_descriptions, colorize));
}

/// The details of one server: transport, instructions, and its tools' parameters.
pub fn format_server_details(
    server_name: &str,
    config: &ServerConfig,
    tools: &[ToolInfo],
    with_descriptions: bool,
    instructions: Option<&str>,
    colorize: bool,
) -> (r: String)
    ensures
        r@ == listing(
            server_details_lines(
                server_name@,
                config@,
                tools@,
                with_descriptions,
                opt_str_view(instructions),
                colorize,
            ),
        ),
{
    let mut lines: Vec<String> = Vec::new();
    let label = color("Server", BOLD, colorize);
    let name = color(server_name, CYAN, colorize);
    push_line(&mut lines, cat3(label.as_str(), ": ", name.as_str()));
    match config {
        ServerConfig::Http(hc) => {
            let t = color("Transport", BOLD, colorize);
            push_line(&mut lines, cat2(t.as_str(), ": HTTP"));
            let u = color("URL", BOLD, colorize);
            push_line(&mut lines, cat3(u.as_str(), ": ", hc.url.as_str()));
        },
        ServerConfig::Stdio(sc) => {
            let t = color("Transport", BOLD, colorize);
            push_line(&mut lines, cat2(t.as_str(), ": stdio"));
            let args_str = match &sc.args {
                Some(a) => join_strings(a.as_slice(), " "),
                None => String::new(),
            };
            let c = color("Command", BOLD, colorize);
            let mut line = cat4(c.as_str(), ": ", sc.command.as_str(), " ");
            line.append(args_str.as_str());
            push_line(&mut lines, line);
        },
    }
    if let Some(inst) = instructions {
        push_line(&mut lines, String::new());
        push_line(&mut lines, color("Instructions:", BOLD, colorize));
        push_line(&mut lines, indented_instructions(inst));
    }
    push_line(&mut lines, String::new());
    let count = decimal_string(tools.len() as u64);
    let heading_text = cat3("Tools (", count.as_str(), ")");
    let heading = color(heading_text.as_str(), BOLD, colorize);
    push_line(&mut lines, cat2(heading.as_str(), ":"));
    let ghost head = views(lines@);
    assert(server_details_lines(
        server_name@,
        config@,
        tools@,
        with_descriptions,
        opt_str_view(instructions),
        colorize,
    ) == head + tools_detail_lines(tools@, with_descriptions, colorize));
    let mut i: usize = 0;
    while i < tools.len()
        invariant
            i <= tools.len(),
            views(lines@) == head + tools_detail_lines(
                tools@.take(i as int),
                with_descriptions,
                colorize,
            ),
        decreases tools.len() - i,
    {
        let tool = &tools[i];
        assert(tools@.take(i + 1).drop_last() == tools@.take(i as int));
        assert(tools@.take(i + 1).last() == *tool);
        push_tool_details(&mut lines, tool, with_descriptions, colorize);
        i = i + 1;
    }
    assert(tools@.take(tools.len() as int) == tools@);
    let joined = join_strings(lines.as_slice(), "\n");
    trim_end_string(joined.as_str())
}

// ============================================================================
// Tool schema, tool results and errors
// ============================================================================

/// The lines that show one tool's schema; the schema as indented JSON.
pub open spec fn tool_schema_lines(server_name: Seq<char>, tool: ToolInfo, colorize: bool) -> Seq<Seq<char>> {
    let head = seq![
        colored("Tool"@, BOLD@, colorize) + ": "@ + colored(tool.name@, GREEN@, colorize),
        colored("Server"@, BOLD@, colorize) + ": "@ + colored(server_name, CYAN@, colorize),
        seq![],
    ];
    let desc = match tool.description {
        Some(d) => seq![colored("Description:"@, BOLD@, colorize), "  "@ + d@, seq![]],
        None => seq![],
    };
    head + desc + seq![colored("Input Schema:"@, BOLD@, colorize), pretty_json(tool.input_schema)]
}

/// The schema of one tool.
pub fn format_tool_schema(server_name: &str, tool: &ToolInfo, colorize: bool) -> (r: String)
    ensures
        r@ == join(tool_schema_lines(server_name@, *tool, colorize), "\n"@),
{
    let mut lines: Vec<String> = Vec::new();
    let t = color("Tool", BOLD, colorize);
    let n = color(tool.name.as_str(), GREEN, colorize);
    push_line(&mut lines, cat3(t.as_str(), ": ", n.as_str()));
    let s = color("Server", BOLD, colorize);
    let sn = color(server_name, CYAN, colorize);
    push_line(&mut lines, cat3(s.as_str(), ": ", sn.as_str()));
    push_line(&mut lines, String::new());
    if let Some(ref desc) = tool.description {
        push_line(&mut lines, color("Description:", BOLD, colorize));
        push_line(&mut lines, cat2("  ", desc.as_str()));
        push_line(&mut lines, String::new());
    }
    push_line(&mut lines, color("Input Schema:", BOLD, colorize));
    push_line(&mut lines, to_pretty_json(&tool.input_schema));
    assert(views(lines@) == tool_schema_lines(server_name@, *tool, colorize));
    join_strings(lines.as_slice(), "\n")
}

/// The texts of the `text` items in the `content` array of a tool result.
pub open spec fn text_items(items: Seq<JsonValue>) -> Seq<Seq<char>>
    decreases items.len(),
{
    if items.len() == 0 {
        seq![]
    } else {
        let rest = text_items(items.drop_last());
        let it = items.last();
        if (match get(it, "type"@) {
            Some(t) => as_text(t) == Some("text"@),
            None => false,
        }) && (match get(it, "text"@) {
            Some(t) => as_text(t) is Some,
            None => false,
        }) {
            rest.push(as_text(get(it, "text"@)->0)->0)
        } else {
            rest
        }
    }
}

/// The text content of a tool result: the `text` items of its `content`
/// array joined by newlines, where there is at least one.
pub open spec fn result_text(result: JsonValue) -> Option<Seq<char>> {
    match result {
        JsonValue::Object(_) => match get(result, "content"@) {
            Some(JsonValue::Array(a)) => if text_items(a@).len() > 0 {
                Some(join(text_items(a@), "\n"@))
            } else {
                None
            },
            _ => None,
        },
        _ => None,
    }
}

/// The text content of a tool result, where it has any.
pub fn tool_result_text(result: &JsonValue) -> (r: Option<String>)
    ensures
        crate::json::opt_text(r) == result_text(*result),
{
    if !result.is_object() {
        return None;
    }
    match result.get("content") {
        Some(JsonValue::Array(items)) => {
            let mut parts: Vec<String> = Vec::new();
            let mut i: usize = 0;
            while i < items.len()
                invariant
                    i <= items.len(),
                    views(parts@) == text_items(items@.take(i as int)),
                decreases items.len() - i,
            {
                assert(items@.take(i + 1).drop_last() == items@.take(i as int));
                assert(items@.take(i + 1).last() == items@[i as int]);
                let item = &items[i];
                let is_text = match item.get("type") {
                    Some(t) => match t.as_str() {
                        Some(s) => crate::text::str_eq(s, "text"),
                        None => false,
                    },
                    None => false,
                };
                if is_text {
                    if let Some(t) = item.get("text") {
                        if let Some(s) = t.as_str() {
                            push_line(&mut parts, string_of(s));
                        }
                    }
                }
                i = i + 1;
            }
            assert(items@.take(items.len() as int) == items@);
            if parts.len() > 0 {
                Some(join_strings(parts.as_slice(), "\n"))
            } else {
                None
            }
        },
        _ => None,
    }
}

/// A tool result as shown: its text content where it has any, else the
/// whole result as indented JSON.
pub fn format_tool_result(result: &JsonValue) -> (r: String)
    ensures
        match result_text(*result) {
            Some(t) => r@ == t,
            None => r@ == pretty_json(*result),
        },
{
    match tool_result_text(result) {
        Some(t) => t,
        None => to_pretty_json(result),
    }
}

/// A value as indented JSON.
pub fn format_json(data: &JsonValue) -> (r: String)
    ensures
        r@ == pretty_json(*data),
{
    to_pretty_json(data)
}

/// An error line, in red when colouring.
pub fn format_error(message: &str, colorize: bool) -> (r: String)
    ensures
        r@ == colored("Error: "@ + message@, RED@, colorize),
{
    let text = cat2("Error: ", message);
    color(text.as_str(), RED, colorize)
}

} // verus!
