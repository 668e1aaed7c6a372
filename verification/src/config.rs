//! Server configuration: its types, tool filtering, server lookup, the
//! settings read from environment values, the daemon file locations and the
//! configuration fingerprint.
use crate::errors::{config_missing_field_error, error_view, tool_disabled_error, tool_disabled_view, server_not_found_error, server_not_found_view, CliError, CliErrorView, ErrorCode};
use crate::json::{get, JsonValue};
use crate::output::ToolInfo;
use crate::matching::{matches_any, matches_any_pattern};
use crate::substitution::{document_outcome, env_view, substitute_value};
use crate::text::{cat2, cat3, decimal, decimal_string, lowercase, opt_view, str_eq, string_of, substring, to_lowercase, views, push_char};
use sha2::Digest;
use std::collections::HashMap;
use vstd::prelude::*;
use vstd::string::*;
use vstd::utf8::encode_utf8;

verus! {

// ============================================================================
// Types
// ============================================================================

/// How a server is reached: a command over stdio, or a URL over HTTP.
#[derive(Debug)]
pub enum ServerConfig {
    Stdio(StdioServerConfig),
    Http(HttpServerConfig),
}

/// A server started as a child process that speaks over stdio.
#[derive(Debug)]
pub struct StdioServerConfig {
    pub command: String,
    pub args: Option<Vec<String>>,
    pub env: Option<HashMap<String, String>>,
    pub cwd: Option<String>,
    pub allowed_tools: Option<Vec<String>>,
    pub disabled_tools: Option<Vec<String>>,
}

/// A server reached over streamable HTTP.
#[derive(Debug)]
pub struct HttpServerConfig {
    pub url: String,
    pub headers: Option<HashMap<String, String>>,
    pub timeout: Option<u64>,
    pub allowed_tools: Option<Vec<String>>,
    pub disabled_tools: Option<Vec<String>>,
}

/// The configured servers, each under its name, in the order they were read.
#[derive(Debug)]
pub struct McpServersConfig {
    pub mcp_servers: Vec<(String, ServerConfig)>,
}

/// The views of an optional list of strings.
pub open spec fn opt_views(o: Option<Vec<String>>) -> Option<Seq<Seq<char>>> {
    match o {
        Some(v) => Some(views(v@)),
        None => None,
    }
}

/// The view of an optional string map.
pub open spec fn opt_map(o: Option<HashMap<String, String>>) -> Option<Map<String, String>> {
    match o {
        Some(m) => Some(m@),
        None => None,
    }
}

/// The model of a [`StdioServerConfig`].
pub struct StdioServerConfigView {
    pub command: Seq<char>,
    pub args: Option<Seq<Seq<char>>>,
    pub env: Option<Map<String, String>>,
    pub cwd: Option<Seq<char>>,
    pub allowed_tools: Option<Seq<Seq<char>>>,
    pub disabled_tools: Option<Seq<Seq<char>>>,
}

/// The model of an [`HttpServerConfig`].
pub struct HttpServerConfigView {
    pub url: Seq<char>,
    pub headers: Option<Map<String, String>>,
    pub timeout: Option<u64>,
    pub allowed_tools: Option<Seq<Seq<char>>>,
    pub disabled_tools: Option<Seq<Seq<char>>>,
}

/// The model of a [`ServerConfig`].
pub enum ServerConfigView {
    Stdio(StdioServerConfigView),
    Http(HttpServerConfigView),
}

impl View for StdioServerConfig {
    type V = StdioServerConfigView;

    open spec fn view(&self) -> StdioServerConfigView {
        StdioServerConfigView {
            command: self.command@,
            args: opt_views(self.args),
            env: opt_map(self.env),
            cwd: opt_view(self.cwd),
            allowed_tools: opt_views(self.allowed_tools),
            disabled_tools: opt_views(self.disabled_tools),
        }
    }
}

impl View for HttpServerConfig {
    type V = HttpServerConfigView;

    open spec fn view(&self) -> HttpServerConfigView {
        HttpServerConfigView {
            url: self.url@,
            headers: opt_map(self.headers),
            timeout: self.timeout,
            allowed_tools: opt_views(self.allowed_tools),
            disabled_tools: opt_views(self.disabled_tools),
        }
    }
}

impl View for ServerConfig {
    type V = ServerConfigView;

    open spec fn view(&self) -> ServerConfigView {
        match self {
            ServerConfig::Stdio(c) => ServerConfigView::Stdio(c@),
            ServerConfig::Http(c) => ServerConfigView::Http(c@),
        }
    }
}

impl View for McpServersConfig {
    type V = Seq<(Seq<char>, ServerConfigView)>;

    open spec fn view(&self) -> Seq<(Seq<char>, ServerConfigView)> {
        self.mcp_servers@.map_values(|e: (String, ServerConfig)| (e.0@, e.1@))
    }
}

/// A copy of a list of strings.
pub fn copy_strings(v: &Vec<String>) -> (r: Vec<String>)
    ensures
        r@ == v@,
{
    let mut r: Vec<String> = Vec::new();
    let mut i: usize = 0;
    while i < v.len()
        invariant
            i <= v.len(),
            r@ == v@.take(i as int),
        decreases v.len() - i,
    {
        r.push(v[i].clone());
        assert(r@ == v@.take(i + 1));
        i = i + 1;
    }
    assert(v@.take(v.len() as int) == v@);
    r
}

/// A copy of an optional list of strings.
pub fn copy_opt_strings(v: &Option<Vec<String>>) -> (r: Option<Vec<String>>)
    ensures
        opt_views(r) == opt_views(*v),
{
    match v {
        Some(list) => Some(copy_strings(list)),
        None => None,
    }
}

/// A copy of an optional string map.
fn copy_opt_map(m: &Option<HashMap<String, String>>) -> (r: Option<HashMap<String, String>>)
    ensures
        opt_map(r) == opt_map(*m),
{
    match m {
        Some(map) => Some(map.clone()),
        None => None,
    }
}

/// A copy of an optional string.
fn copy_opt_string(s: &Option<String>) -> (r: Option<String>)
    ensures
        r == *s,
{
    match s {
        Some(t) => Some(t.clone()),
        None => None,
    }
}

impl Clone for StdioServerConfig {
    fn clone(&self) -> (r: Self)
        ensures
            r@ == self@,
    {
        StdioServerConfig {
            command: self.command.clone(),
            args: copy_opt_strings(&self.args),
            env: copy_opt_map(&self.env),
            cwd: copy_opt_string(&self.cwd),
            allowed_tools: copy_opt_strings(&self.allowed_tools),
            disabled_tools: copy_opt_strings(&self.disabled_tools),
        }
    }
}

impl Clone for HttpServerConfig {
    fn clone(&self) -> (r: Self)
        ensures
            r@ == self@,
    {
        HttpServerConfig {
            url: self.url.clone(),
            headers: copy_opt_map(&self.headers),
            timeout: self.timeout,
            allowed_tools: copy_opt_strings(&self.allowed_tools),
            disabled_tools: copy_opt_strings(&self.disabled_tools),
        }
    }
}

impl Clone for ServerConfig {
    fn clone(&self) -> (r: Self)
        ensures
            r@ == self@,
    {
        match self {
            ServerConfig::Stdio(c) => ServerConfig::Stdio(c.clone()),
            ServerConfig::Http(c) => ServerConfig::Http(c.clone()),
        }
    }
}

impl Clone for McpServersConfig {
    fn clone(&self) -> (r: Self)
        ensures
            r@ == self@,
    {
        let mut servers: Vec<(String, ServerConfig)> = Vec::new();
        let mut i: usize = 0;
        while i < self.mcp_servers.len()
            invariant
                i <= self.mcp_servers.len(),
                servers@.len() == i,
                forall|j: int|
                    0 <= j < i ==> (#[trigger] servers@[j]).0@ == self.mcp_servers@[j].0@
                        && servers@[j].1@ == self.mcp_servers@[j].1@,
            decreases self.mcp_servers.len() - i,
        {
            let name = self.mcp_servers[i].0.clone();
            let config = self.mcp_servers[i].1.clone();
            servers.push((name, config));
            i = i + 1;
        }
        let r = McpServersConfig { mcp_servers: servers };
        assert(r@ =~= self@);
        r
    }
}

// ============================================================================
// Tool Filtering
// ============================================================================

/// The patterns of tools to allow.
pub open spec fn allowed_of(c: ServerConfigView) -> Option<Seq<Seq<char>>> {
    match c {
        ServerConfigView::Stdio(s) => s.allowed_tools,
        ServerConfigView::Http(h) => h.allowed_tools,
    }
}

/// The patterns of tools to exclude.
pub open spec fn disabled_of(c: ServerConfigView) -> Option<Seq<Seq<char>>> {
    match c {
        ServerConfigView::Stdio(s) => s.disabled_tools,
        ServerConfigView::Http(h) => h.disabled_tools,
    }
}

/// A tool may be used: it matches no pattern of a non-empty `disabledTools`,
/// and, where `allowedTools` is non-empty, it matches one of its patterns.
pub open spec fn tool_allowed(name: Seq<char>, c: ServerConfigView) -> bool {
    if disabled_of(c) matches Some(d) && d.len() > 0 && matches_any(name, d) {
        false
    } else {
        match allowed_of(c) {
            Some(a) => a.len() == 0 || matches_any(name, a),
            None => true,
        }
    }
}

/// The names in `names` that may be used, in their order.
pub open spec fn allowed_names(names: Seq<Seq<char>>, c: ServerConfigView) -> Seq<Seq<char>>
    decreases names.len(),
{
    if names.len() == 0 {
        seq![]
    } else {
        let rest = allowed_names(names.drop_last(), c);
        if tool_allowed(names.last(), c) {
            rest.push(names.last())
        } else {
            rest
        }
    }
}

impl ServerConfig {
    /// The patterns of the tools the server may offer, if restricted.
    pub fn allowed_tools(&self) -> (r: &Option<Vec<String>>)
        ensures
            opt_views(*r) == allowed_of(self@),
    {
        match self {
            ServerConfig::Stdio(c) => &c.allowed_tools,
            ServerConfig::Http(c) => &c.allowed_tools,
        }
    }

    /// The patterns of the tools the server must not offer, if any.
    pub fn disabled_tools(&self) -> (r: &Option<Vec<String>>)
        ensures
            opt_views(*r) == disabled_of(self@),
    {
        match self {
            ServerConfig::Stdio(c) => &c.disabled_tools,
            ServerConfig::Http(c) => &c.disabled_tools,
        }
    }
}

/// Whether the configuration lets the named tool be used.
pub fn is_tool_allowed(tool_name: &str, config: &ServerConfig) -> (r: bool)
    ensures
        r == tool_allowed(tool_name@, config@),
{
    let disabled_tools = config.disabled_tools();
    if let Some(disabled) = disabled_tools {
        if disabled.len() > 0 && matches_any_pattern(tool_name, disabled.as_slice()) {
            return false;
        }
    }
    let allowed_tools = config.allowed_tools();
    if let Some(allowed) = allowed_tools {
        if allowed.len() > 0 {
            return matches_any_pattern(tool_name, allowed.as_slice());
        }
    }
    true
}

/// The tools that the configuration lets be used, in their order.
pub fn filter_tools(tools: &[String], config: &ServerConfig) -> (r: Vec<String>)
    ensures
        views(r@) == allowed_names(views(tools@), config@),
{
    let mut r: Vec<String> = Vec::new();
    let mut i: usize = 0;
    while i < tools.len()
        invariant
            i <= tools.len(),
            views(r@) == allowed_names(views(tools@.take(i as int)), config@),
        decreases tools.len() - i,
    {
        assert(views(tools@.take(i + 1)).drop_last() == views(tools@.take(i as int)));
        assert(views(tools@.take(i + 1)).last() == tools@[i as int]@);
        if is_tool_allowed(tools[i].as_str(), config) {
            let ghost before = r@;
            r.push(tools[i].clone());
            assert(views(r@) == views(before).push(tools@[i as int]@));
        }
        i = i + 1;
    }
    assert(tools@.take(tools.len() as int) == tools@);
    r
}

/// Disabled patterns win: a tool that matches a pattern of a non-empty
/// `disabledTools` is refused, whatever `allowedTools` says.
pub proof fn law_disabled_takes_precedence(name: Seq<char>, c: ServerConfigView)
    requires
        disabled_of(c) matches Some(d) && d.len() > 0 && matches_any(name, d),
    ensures
        !tool_allowed(name, c),
{
}

/// Without filters every tool is allowed.
pub proof fn law_no_filters_allow_all(name: Seq<char>, c: ServerConfigView)
    requires
        disabled_of(c) matches Some(d) ==> d.len() == 0,
        allowed_of(c) matches Some(a) ==> a.len() == 0,
    ensures
        tool_allowed(name, c),
{
}

/// `idx` picks the elements of `a` out of `b`: `a[k]` is `b[idx[k]]`, and
/// the picked positions increase.
pub open spec fn picks(idx: Seq<int>, a: Seq<Seq<char>>, b: Seq<Seq<char>>) -> bool {
    &&& idx.len() == a.len()
    &&& forall|k: int| 0 <= k < idx.len() ==> 0 <= #[trigger] idx[k] < b.len() && b[idx[k]] == a[k]
    &&& forall|k1: int, k2: int| 0 <= k1 < k2 < idx.len() ==> #[trigger] idx[k1] < #[trigger] idx[k2]
}

/// The positions in `names` of the names that the filter keeps.
proof fn kept_positions(names: Seq<Seq<char>>, c: ServerConfigView) -> (idx: Seq<int>)
    ensures
        picks(idx, allowed_names(names, c), names),
    decreases names.len(),
{
    if names.len() == 0 {
        seq![]
    } else {
        let init = names.drop_last();
        let prev = kept_positions(init, c);
        let rest = allowed_names(init, c);
        assert forall|k: int| 0 <= k < prev.len() implies 0 <= #[trigger] prev[k] < names.len()
            && names[prev[k]] == rest[k] by {
            assert(names[prev[k]] == init[prev[k]]);
        }
        if tool_allowed(names.last(), c) {
            let idx = prev.push(init.len() as int);
            assert forall|k: int| 0 <= k < idx.len() implies 0 <= #[trigger] idx[k] < names.len()
                && names[idx[k]] == rest.push(names.last())[k] by {
                if k < prev.len() {
                    assert(idx[k] == prev[k]);
                }
            }
            assert forall|k1: int, k2: int| 0 <= k1 < k2 < idx.len() implies #[trigger] idx[k1]
                < #[trigger] idx[k2] by {
                if k2 < prev.len() {
                    assert(idx[k1] == prev[k1] && idx[k2] == prev[k2]);
                } else {
                    assert(idx[k1] == prev[k1]);
                }
            }
            idx
        } else {
            prev
        }
    }
}

/// The tools among `tools` that the configuration allows, in order.
pub open spec fn allowed_tool_infos(tools: Seq<ToolInfo>, c: ServerConfigView) -> Seq<ToolInfo>
    decreases tools.len(),
{
    if tools.len() == 0 {
        seq![]
    } else {
        let rest = allowed_tool_infos(tools.drop_last(), c);
        if tool_allowed(tools.last().name@, c) {
            rest.push(tools.last())
        } else {
            rest
        }
    }
}

/// The tools a server offers that its configuration allows, in order: what
/// every command shows or searches.
pub fn allowed_tool_list(tools: Vec<ToolInfo>, config: &ServerConfig) -> (r: Vec<ToolInfo>)
    ensures
        r@ == allowed_tool_infos(tools@, config@),
{
    let ghost all = tools@;
    let total = tools.len();
    let mut rest = tools;
    let mut out: Vec<ToolInfo> = Vec::new();
    let mut taken: usize = 0;
    assert(all.skip(0) == all);
    while rest.len() > 0
        invariant
            all.len() == total,
            taken + rest@.len() == all.len(),
            rest@ == all.skip(taken as int),
            out@ == allowed_tool_infos(all.take(taken as int), config@),
        decreases rest@.len(),
    {
        let tool = rest.remove(0);
        assert(tool == all[taken as int]);
        assert(rest@ == all.skip(taken + 1));
        assert(all.take(taken + 1).drop_last() == all.take(taken as int));
        assert(all.take(taken + 1).last() == tool);
        if is_tool_allowed(tool.name.as_str(), config) {
            out.push(tool);
        }
        taken = taken + 1;
    }
    assert(all.take(taken as int) == all);
    out
}

/// A tool may be used: otherwise the error says the configuration disables it.
pub fn check_tool_allowed(tool_name: &str, server_name: &str, config: &ServerConfig) -> (r: Result<(), CliError>)
    ensures
        (r is Ok) == tool_allowed(tool_name@, config@),
        r matches Err(e) ==> e@ == tool_disabled_view(tool_name@, server_name@),
{
    if is_tool_allowed(tool_name, config) {
        Ok(())
    } else {
        Err(tool_disabled_error(tool_name, server_name))
    }
}

/// Law: filtering keeps the input's order and leaves some names out, but
/// adds none: the result is no longer than the input, and its names stand
/// at increasing positions of the input.
pub proof fn law_filter_keeps_order(names: Seq<Seq<char>>, c: ServerConfigView)
    ensures
        allowed_names(names, c).len() <= names.len(),
        exists|idx: Seq<int>| picks(idx, allowed_names(names, c), names),
{
    let idx = kept_positions(names, c);
    lemma_filter_shorter(names, c);
}

proof fn lemma_filter_shorter(names: Seq<Seq<char>>, c: ServerConfigView)
    ensures
        allowed_names(names, c).len() <= names.len(),
    decreases names.len(),
{
    if names.len() > 0 {
        lemma_filter_shorter(names.drop_last(), c);
    }
}

/// Filtering keeps exactly the allowed names: everything kept is allowed and
/// was among the input, and every allowed input name is kept.
pub proof fn law_filter_keeps_allowed(names: Seq<Seq<char>>, c: ServerConfigView)
    ensures
        forall|k: int|
            0 <= k < allowed_names(names, c).len() ==> tool_allowed(
                #[trigger] allowed_names(names, c)[k],
                c,
            ) && names.contains(allowed_names(names, c)[k]),
        forall|k: int|
            0 <= k < names.len() && tool_allowed(#[trigger] names[k], c) ==> allowed_names(
                names,
                c,
            ).contains(names[k]),
    decreases names.len(),
{
    if names.len() > 0 {
        let init = names.drop_last();
        law_filter_keeps_allowed(init, c);
        let rest = allowed_names(init, c);
        assert forall|k: int|
            0 <= k < allowed_names(names, c).len() implies tool_allowed(
            #[trigger] allowed_names(names, c)[k],
            c,
        ) && names.contains(allowed_names(names, c)[k]) by {
            if k < rest.len() {
                assert(allowed_names(names, c)[k] == rest[k]);
                let j = choose|j: int| 0 <= j < init.len() && init[j] == rest[k];
                assert(names[j] == init[j]);
            } else {
                assert(names[names.len() - 1] == names.last());
            }
        }
        assert forall|k: int|
            0 <= k < names.len() && tool_allowed(#[trigger] names[k], c) implies allowed_names(
            names,
            c,
        ).contains(names[k]) by {
            if k < names.len() - 1 {
                assert(init[k] == names[k]);
                let j = choose|j: int| 0 <= j < rest.len() && rest[j] == init[k];
                assert(allowed_names(names, c)[j] == rest[j]);
            } else {
                assert(allowed_names(names, c).last() == names.last());
            }
        }
    }
}

/// Filtering twice is filtering once.
pub proof fn law_filter_idempotent(names: Seq<Seq<char>>, c: ServerConfigView)
    ensures
        allowed_names(allowed_names(names, c), c) == allowed_names(names, c),
    decreases names.len(),
{
    if names.len() > 0 {
        let init = names.drop_last();
        law_filter_idempotent(init, c);
        let rest = allowed_names(init, c);
        if tool_allowed(names.last(), c) {
            assert(rest.push(names.last()).drop_last() == rest);
        }
    }
}

// ============================================================================
// Server Lookup
// ============================================================================

/// The configuration of the first server named `name`.
pub open spec fn lookup_server(entries: Seq<(Seq<char>, ServerConfigView)>, name: Seq<char>) -> Option<ServerConfigView>
    decreases entries.len(),
{
    if entries.len() == 0 {
        None
    } else if entries[0].0 == name {
        Some(entries[0].1)
    } else {
        lookup_server(entries.drop_first(), name)
    }
}

/// The names of the configured servers, in order.
pub open spec fn server_names(entries: Seq<(Seq<char>, ServerConfigView)>) -> Seq<Seq<char>> {
    entries.map_values(|e: (Seq<char>, ServerConfigView)| e.0)
}

/// The configuration of the named server, or the error that lists the servers.
pub fn get_server_config(config: &McpServersConfig, server_name: &str) -> (r: Result<ServerConfig, CliError>)
    ensures
        match r {
            Ok(c) => lookup_server(config@, server_name@) == Some(c@),
            Err(e) => lookup_server(config@, server_name@) is None && e@ == server_not_found_view(
                server_name@,
                server_names(config@),
            ),
        },
{
    let mut i: usize = 0;
    assert(config@.skip(0) == config@);
    while i < config.mcp_servers.len()
        invariant
            i <= config.mcp_servers.len(),
            config@.len() == config.mcp_servers.len(),
            lookup_server(config@.skip(i as int), server_name@) == lookup_server(
                config@,
                server_name@,
            ),
        decreases config.mcp_servers.len() - i,
    {
        assert(config@.skip(i as int)[0] == config@[i as int]);
        assert(config@.skip(i as int).drop_first() == config@.skip(i + 1));
        if str_eq(config.mcp_servers[i].0.as_str(), server_name) {
            return Ok(config.mcp_servers[i].1.clone());
        }
        i = i + 1;
    }
    assert(config@.skip(i as int).len() == 0);
    let available = list_server_names(config);
    Err(server_not_found_error(server_name, available.as_slice()))
}

/// The names of the configured servers, in order.
pub fn list_server_names(config: &McpServersConfig) -> (r: Vec<String>)
    ensures
        views(r@) == server_names(config@),
{
    let mut r: Vec<String> = Vec::new();
    let mut i: usize = 0;
    while i < config.mcp_servers.len()
        invariant
            i <= config.mcp_servers.len(),
            config@.len() == config.mcp_servers.len(),
            views(r@) == server_names(config@).take(i as int),
        decreases config.mcp_servers.len() - i,
    {
        let ghost before = r@;
        r.push(config.mcp_servers[i].0.clone());
        assert(views(r@) == views(before).push(config@[i as int].0));
        assert(server_names(config@).take(i + 1) == server_names(config@).take(i as int).push(
            config@[i as int].0,
        ));
        i = i + 1;
    }
    assert(server_names(config@).take(config@.len() as int) == server_names(config@));
    r
}

/// A server is found exactly when its name is among the listed names.
pub proof fn law_lookup_matches_listing(entries: Seq<(Seq<char>, ServerConfigView)>, name: Seq<char>)
    ensures
        (lookup_server(entries, name) is Some) == server_names(entries).contains(name),
    decreases entries.len(),
{
    if entries.len() > 0 {
        law_lookup_matches_listing(entries.drop_first(), name);
        let names = server_names(entries);
        let rest = server_names(entries.drop_first());
        assert(names == seq![entries[0].0] + rest);
        if entries[0].0 == name {
            assert(names[0] == name);
        } else if rest.contains(name) {
            let j = choose|j: int| 0 <= j < rest.len() && rest[j] == name;
            assert(names[j + 1] == name);
        } else {
            assert forall|j: int| 0 <= j < names.len() implies names[j] != name by {
                if j > 0 {
                    assert(names[j] == rest[j - 1]);
                }
            }
        }
    }
}

/// No two servers share a name, as in a configuration file, whose servers
/// are the members of one object.
pub open spec fn names_distinct(entries: Seq<(Seq<char>, ServerConfigView)>) -> bool {
    forall|i: int, j: int| 0 <= i < j < entries.len() ==> entries[i].0 != entries[j].0
}

/// Law: where server names are distinct, every configured server is found
/// under its own name.
pub proof fn law_lookup_each_entry(entries: Seq<(Seq<char>, ServerConfigView)>, i: int)
    requires
        names_distinct(entries),
        0 <= i < entries.len(),
    ensures
        lookup_server(entries, entries[i].0) == Some(entries[i].1),
    decreases i,
{
    if i > 0 {
        let rest = entries.drop_first();
        assert(entries[0].0 != entries[i].0);
        assert(names_distinct(rest)) by {
            assert forall|a: int, b: int| 0 <= a < b < rest.len() implies rest[a].0 != rest[b].0 by {
                assert(rest[a] == entries[a + 1] && rest[b] == entries[b + 1]);
            }
        }
        assert(rest[i - 1] == entries[i]);
        law_lookup_each_entry(rest, i - 1);
    }
}

/// The index of the first server named `name`, if any.
pub open spec fn position_of(entries: Seq<(Seq<char>, ServerConfigView)>, name: Seq<char>) -> Option<int>
    decreases entries.len(),
{
    if entries.len() == 0 {
        None
    } else if entries[0].0 == name {
        Some(0)
    } else {
        match position_of(entries.drop_first(), name) {
            Some(i) => Some(i + 1),
            None => None,
        }
    }
}

/// `entry` added to the servers as a map adds it: it replaces the server of
/// the same name where there is one, and is appended otherwise.
pub open spec fn insert_entry(
    entries: Seq<(Seq<char>, ServerConfigView)>,
    entry: (Seq<char>, ServerConfigView),
) -> Seq<(Seq<char>, ServerConfigView)> {
    match position_of(entries, entry.0) {
        Some(i) => entries.update(i, entry),
        None => entries.push(entry),
    }
}

/// The servers collected from `entries` in order, a later one replacing an
/// earlier one of the same name.
pub open spec fn collected(entries: Seq<(Seq<char>, ServerConfigView)>) -> Seq<(Seq<char>, ServerConfigView)>
    decreases entries.len(),
{
    if entries.len() == 0 {
        seq![]
    } else {
        insert_entry(collected(entries.drop_last()), entries.last())
    }
}

/// The configuration of the last entry named `name`.
pub open spec fn last_value(entries: Seq<(Seq<char>, ServerConfigView)>, name: Seq<char>) -> Option<ServerConfigView>
    decreases entries.len(),
{
    if entries.len() == 0 {
        None
    } else if entries.last().0 == name {
        Some(entries.last().1)
    } else {
        last_value(entries.drop_last(), name)
    }
}

/// `position_of` gives the first index with the name, and lookup the
/// configuration there.
proof fn lemma_position(entries: Seq<(Seq<char>, ServerConfigView)>, name: Seq<char>)
    ensures
        match position_of(entries, name) {
            Some(i) => 0 <= i < entries.len() && entries[i].0 == name && (forall|k: int|
                0 <= k < i ==> entries[k].0 != name) && lookup_server(entries, name) == Some(entries[i].1),
            None => (forall|k: int| 0 <= k < entries.len() ==> entries[k].0 != name) && lookup_server(
                entries,
                name,
            ) is None,
        },
    decreases entries.len(),
{
    if entries.len() > 0 {
        let rest = entries.drop_first();
        lemma_position(rest, name);
        assert forall|k: int| 1 <= k < entries.len() implies entries[k] == rest[k - 1] by {}
        if entries[0].0 != name {
            match position_of(rest, name) {
                Some(i) => {
                    assert forall|k: int| 0 <= k < i + 1 implies entries[k].0 != name by {
                        if k > 0 {
                            assert(entries[k] == rest[k - 1]);
                        }
                    }
                },
                None => {
                    assert forall|k: int| 0 <= k < entries.len() implies entries[k].0 != name by {
                        if k > 0 {
                            assert(entries[k] == rest[k - 1]);
                        }
                    }
                },
            }
        }
    }
}

/// The first index with the name determines `position_of`.
proof fn lemma_position_at(entries: Seq<(Seq<char>, ServerConfigView)>, name: Seq<char>, i: int)
    requires
        0 <= i < entries.len(),
        entries[i].0 == name,
        forall|k: int| 0 <= k < i ==> entries[k].0 != name,
    ensures
        position_of(entries, name) == Some(i),
{
    lemma_position(entries, name);
    match position_of(entries, name) {
        Some(j) => {
            if j < i {
                assert(entries[j].0 != name);
            }
            if j > i {
                assert(entries[i].0 != name);
            }
        },
        None => {
            assert(entries[i].0 != name);
        },
    }
}

/// Adding an entry keeps the names distinct, and looking a name up afterwards
/// gives the new entry for its name and what was there before otherwise.
proof fn lemma_insert_entry(entries: Seq<(Seq<char>, ServerConfigView)>, entry: (Seq<char>, ServerConfigView), name: Seq<char>)
    requires
        names_distinct(entries),
    ensures
        names_distinct(insert_entry(entries, entry)),
        lookup_server(insert_entry(entries, entry), name) == if name == entry.0 {
            Some(entry.1)
        } else {
            lookup_server(entries, name)
        },
{
    let r = insert_entry(entries, entry);
    lemma_position(entries, entry.0);
    lemma_position(entries, name);
    lemma_position(r, name);
    match position_of(entries, entry.0) {
        Some(i) => {
            assert forall|k: int| 0 <= k < r.len() implies r[k].0 == entries[k].0 by {}
            assert(names_distinct(r));
            if name == entry.0 {
                lemma_position_at(r, name, i);
            } else {
                match position_of(entries, name) {
                    Some(j) => {
                        assert(j != i);
                        lemma_position_at(r, name, j);
                    },
                    None => {
                        assert forall|k: int| 0 <= k < r.len() implies r[k].0 != name by {}
                        match position_of(r, name) {
                            Some(j) => {
                                assert(r[j].0 != name);
                            },
                            None => {},
                        }
                    },
                }
            }
        },
        None => {
            assert forall|a: int, b: int| 0 <= a < b < r.len() implies r[a].0 != r[b].0 by {
                if b == entries.len() {
                    assert(entries[a].0 != entry.0);
                }
            }
            if name == entry.0 {
                lemma_position_at(r, name, entries.len() as int);
            } else {
                match position_of(entries, name) {
                    Some(j) => {
                        lemma_position_at(r, name, j);
                    },
                    None => {
                        match position_of(r, name) {
                            Some(j) => {
                                if j < entries.len() {
                                    assert(entries[j].0 != name);
                                }
                            },
                            None => {},
                        }
                    },
                }
            }
        },
    }
}

/// Law: servers collected from entries, as a map collects them, have
/// distinct names, and each name looks up the configuration of its last entry.
pub proof fn law_collected_servers(entries: Seq<(Seq<char>, ServerConfigView)>, name: Seq<char>)
    ensures
        names_distinct(collected(entries)),
        lookup_server(collected(entries), name) == last_value(entries, name),
    decreases entries.len(),
{
    if entries.len() > 0 {
        law_collected_servers(entries.drop_last(), name);
        lemma_insert_entry(collected(entries.drop_last()), entries.last(), name);
    }
}

/// The names and configuration models of a list of servers.
pub open spec fn entry_views(entries: Seq<(String, ServerConfig)>) -> Seq<(Seq<char>, ServerConfigView)> {
    entries.map_values(|e: (String, ServerConfig)| (e.0@, e.1@))
}

/// The index of the first server named `name`.
fn find_server(entries: &Vec<(String, ServerConfig)>, name: &str) -> (r: Option<usize>)
    ensures
        match r {
            Some(i) => position_of(entry_views(entries@), name@) == Some(i as int),
            None => position_of(entry_views(entries@), name@) is None,
        },
{
    let ghost v = entry_views(entries@);
    let mut j: usize = 0;
    while j < entries.len()
        invariant
            v == entry_views(entries@),
            j <= entries.len(),
            forall|k: int| 0 <= k < j ==> v[k].0 != name@,
        decreases entries.len() - j,
    {
        if str_eq(entries[j].0.as_str(), name) {
            proof {
                lemma_position_at(v, name@, j as int);
            }
            return Some(j);
        }
        j = j + 1;
    }
    proof {
        lemma_position(v, name@);
        if let Some(i) = position_of(v, name@) {
            assert(v[i].0 != name@);
        }
    }
    None
}

impl McpServersConfig {
    /// The servers collected from `entries` as a map collects them: in order,
    /// a later entry replacing an earlier one of the same name, so that no two
    /// servers share a name.
    pub fn from_entries(entries: Vec<(String, ServerConfig)>) -> (r: Self)
        ensures
            r@ == collected(entry_views(entries@)),
            names_distinct(r@),
    {
        let ghost all = entry_views(entries@);
        let total = entries.len();
        let mut rest = entries;
        let mut out: Vec<(String, ServerConfig)> = Vec::new();
        let mut taken: usize = 0;
        assert(all.skip(0) == all);
        assert(entry_views(out@) == collected(all.take(0)));
        while rest.len() > 0
            invariant
                total == all.len(),
                taken + rest@.len() == total,
                entry_views(rest@) == all.skip(taken as int),
                entry_views(out@) == collected(all.take(taken as int)),
            decreases rest@.len(),
        {
            let ghost before = entry_views(out@);
            let ghost old_rest = rest@;
            let entry = rest.remove(0);
            assert(entry_views(old_rest)[0] == (entry.0@, entry.1@));
            assert(all.skip(taken as int)[0] == (entry.0@, entry.1@));
            assert forall|k: int| 0 <= k < rest@.len() implies #[trigger] entry_views(rest@)[k] == all.skip(
                taken + 1,
            )[k] by {
                assert(rest@[k] == old_rest[k + 1]);
                assert(entry_views(old_rest)[k + 1] == all.skip(taken as int)[k + 1]);
            }
            assert(entry_views(rest@) =~= all.skip(taken + 1));
            assert(all.take(taken + 1).drop_last() == all.take(taken as int));
            assert(all.take(taken + 1).last() == (entry.0@, entry.1@));
            let ghost item = (entry.0@, entry.1@);
            proof {
                lemma_position(before, entry.0@);
            }
            match find_server(&out, entry.0.as_str()) {
                Some(i) => {
                    out.set(i, entry);
                    assert(entry_views(out@) =~= before.update(i as int, item));
                },
                None => {
                    out.push(entry);
                    assert(entry_views(out@) =~= before.push(item));
                },
            }
            taken = taken + 1;
        }
        assert(all.take(taken as int) == all);
        proof {
            law_collected_servers(all, seq![]);
        }
        let r = McpServersConfig { mcp_servers: out };
        assert(r@ == entry_views(r.mcp_servers@));
        r
    }
}

/// A found server is the one stored under its name.
pub proof fn law_lookup_finds_entry(entries: Seq<(Seq<char>, ServerConfigView)>, name: Seq<char>)
    requires
        lookup_server(entries, name) is Some,
    ensures
        exists|i: int|
            0 <= i < entries.len() && entries[i].0 == name && lookup_server(entries, name) == Some(
                #[trigger] entries[i].1,
            ),
    decreases entries.len(),
{
    if entries[0].0 != name {
        law_lookup_finds_entry(entries.drop_first(), name);
        let i = choose|i: int|
            0 <= i < entries.drop_first().len() && entries.drop_first()[i].0 == name
                && lookup_server(entries.drop_first(), name) == Some(
                #[trigger] entries.drop_first()[i].1,
            );
        assert(entries[i + 1] == entries.drop_first()[i]);
    } else {
        assert(entries[0].1 == entries[0].1);
    }
}

// ============================================================================
// Validation
// ============================================================================

/// The error for the first server whose command (stdio) or URL (HTTP) is
/// empty, if any.
pub open spec fn first_invalid_server(entries: Seq<(Seq<char>, ServerConfigView)>) -> Option<CliErrorView>
    decreases entries.len(),
{
    if entries.len() == 0 {
        None
    } else {
        match entries[0].1 {
            ServerConfigView::Stdio(s) if s.command.len() == 0 => Some(
                error_view(
                    ErrorCode::ClientError,
                    "CONFIG_INVALID_SERVER"@,
                    "Server \""@ + entries[0].0 + "\" has empty command"@,
                    Some("command must be a non-empty string"@),
                    Some("Provide a valid command, e.g. \"npx\""@),
                ),
            ),
            ServerConfigView::Http(h) if h.url.len() == 0 => Some(
                error_view(
                    ErrorCode::ClientError,
                    "CONFIG_INVALID_SERVER"@,
                    "Server \""@ + entries[0].0 + "\" has empty URL"@,
                    Some("url must be a non-empty string"@),
                    Some("Provide a valid URL, e.g. \"https://example.com/mcp\""@),
                ),
            ),
            _ => first_invalid_server(entries.drop_first()),
        }
    }
}

/// Checks that every server has a command (stdio) or a URL (HTTP).
pub fn validate_servers(config: &McpServersConfig) -> (r: Result<(), CliError>)
    ensures
        match r {
            Ok(()) => first_invalid_server(config@) is None,
            Err(e) => first_invalid_server(config@) == Some(e@),
        },
{
    let mut i: usize = 0;
    assert(config@.skip(0) == config@);
    while i < config.mcp_servers.len()
        invariant
            i <= config.mcp_servers.len(),
            config@.len() == config.mcp_servers.len(),
            first_invalid_server(config@.skip(i as int)) == first_invalid_server(config@),
        decreases config.mcp_servers.len() - i,
    {
        assert(config@.skip(i as int)[0] == config@[i as int]);
        assert(config@.skip(i as int).drop_first() == config@.skip(i + 1));
        let name = config.mcp_servers[i].0.as_str();
        match &config.mcp_servers[i].1 {
            ServerConfig::Stdio(sc) => {
                if sc.command.as_str().is_empty() {
                    return Err(
                        CliError {
                            code: ErrorCode::ClientError,
                            error_type: string_of("CONFIG_INVALID_SERVER"),
                            message: cat3("Server \"", name, "\" has empty command"),
                            details: Some(string_of("command must be a non-empty string")),
                            suggestion: Some(string_of("Provide a valid command, e.g. \"npx\"")),
                        },
                    );
                }
            },
            ServerConfig::Http(hc) => {
                if hc.url.as_str().is_empty() {
                    return Err(
                        CliError {
                            code: ErrorCode::ClientError,
                            error_type: string_of("CONFIG_INVALID_SERVER"),
                            message: cat3("Server \"", name, "\" has empty URL"),
                            details: Some(string_of("url must be a non-empty string")),
                            suggestion: Some(
                                string_of("Provide a valid URL, e.g. \"https://example.com/mcp\""),
                            ),
                        },
                    );
                }
            },
        }
        i = i + 1;
    }
    Ok(())
}

/// Checks that a configuration document has an `mcpServers` object.
pub fn check_config_shape(path: &str, document: &JsonValue) -> (r: Result<(), CliError>)
    ensures
        match r {
            Ok(()) => get(*document, "mcpServers"@) matches Some(m) && m is Object,
            Err(e) => !(get(*document, "mcpServers"@) matches Some(m) && m is Object) && e@
                == config_missing_field_error_view(path@),
        },
{
    match document.get("mcpServers") {
        Some(m) => {
            if m.is_object() {
                Ok(())
            } else {
                Err(config_missing_field_error(path))
            }
        },
        None => Err(config_missing_field_error(path)),
    }
}

/// Where the configuration is read from: the path the user gave, or the
/// first of the default paths that exists.
pub enum ConfigLocation {
    Given(String),
    Search(Vec<String>),
}

/// The default places of the configuration, in the order they are tried: the
/// current directory, then, where the home directory is known, two places in it.
pub open spec fn default_paths(home: Option<Seq<char>>) -> Seq<Seq<char>> {
    match home {
        None => seq!["./mcp_servers.json"@],
        Some(h) => seq![
            "./mcp_servers.json"@,
            path_join(h, ".mcp_servers.json"@),
            path_join(h, ".config/mcp/mcp_servers.json"@),
        ],
    }
}

/// The default places of the configuration, given the home directory.
pub fn get_default_config_paths(home: Option<&str>) -> (r: Vec<String>)
    ensures
        views(r@) == default_paths(opt_str(home)),
{
    let mut r: Vec<String> = Vec::new();
    r.push(string_of("./mcp_servers.json"));
    if let Some(h) = home {
        r.push(join_path(h, ".mcp_servers.json"));
        r.push(join_path(h, ".config/mcp/mcp_servers.json"));
    }
    assert(views(r@) == default_paths(opt_str(home)));
    r
}

/// `MCP_CONFIG_PATH` comes first, then a path given with `-c/--config`;
/// without either, the default paths are searched.
pub fn config_location(explicit: Option<&str>, env_path: Option<&str>, home: Option<&str>) -> (r: ConfigLocation)
    ensures
        match env_path {
            Some(p) => r matches ConfigLocation::Given(g) && g@ == p@,
            None => match explicit {
                Some(p) => r matches ConfigLocation::Given(g) && g@ == p@,
                None => r matches ConfigLocation::Search(paths) && views(paths@) == default_paths(opt_str(home)),
            },
        },
{
    match env_path {
        Some(p) => ConfigLocation::Given(string_of(p)),
        None => match explicit {
            Some(p) => ConfigLocation::Given(string_of(p)),
            None => ConfigLocation::Search(get_default_config_paths(home)),
        },
    }
}

/// Reads a configuration document: it must have an `mcpServers` object, and
/// then every placeholder in it is replaced as `substitute_value` does.
pub fn prepare_config(path: &str, document: JsonValue, env: &[(String, String)], strict: bool) -> (r: Result<(JsonValue, Vec<String>), CliError>)
    ensures
        !(get(document, "mcpServers"@) matches Some(m) && m is Object) ==> (r matches Err(e) && e@
            == config_missing_field_error_view(path@)),
        (get(document, "mcpServers"@) matches Some(m) && m is Object) ==> match r {
            Ok((new, w)) => document_outcome(document, Ok(new), seq![], views(w@), env_view(env@), strict),
            Err(err) => document_outcome(document, Err(err@), seq![], seq![], env_view(env@), strict),
        },
{
    match check_config_shape(path, &document) {
        Ok(()) => substitute_value(document, env, strict),
        Err(e) => Err(e),
    }
}

/// The error for a configuration without an `mcpServers` object.
pub open spec fn config_missing_field_error_view(path: Seq<char>) -> CliErrorView {
    error_view(
        ErrorCode::ClientError,
        "CONFIG_MISSING_FIELD"@,
        "Config file missing required \"mcpServers\" object"@,
        Some("File: "@ + path),
        Some("Config must have structure: { \"mcpServers\": { ... } }"@),
    )
}

// ============================================================================
// Settings read from environment values
// ============================================================================

/// The default time budget, in seconds.
pub const DEFAULT_TIMEOUT_SECONDS: u64 = 1800;

/// The default time budget, in milliseconds.
pub const DEFAULT_TIMEOUT_MS: u64 = 1800000;

/// The default number of servers contacted at once.
pub const DEFAULT_CONCURRENCY: usize = 5;

/// The default number of retries.
pub const DEFAULT_MAX_RETRIES: u32 = 3;

/// The default base delay between retries, in milliseconds.
pub const DEFAULT_RETRY_DELAY_MS: u64 = 1000;

/// The default idle time of a daemon, in seconds.
pub const DEFAULT_DAEMON_TIMEOUT_SECONDS: u64 = 60;

/// An ASCII decimal digit.
pub open spec fn is_digit(c: char) -> bool {
    '0' <= c && c <= '9'
}

/// The number written by the decimal digits `s`.
pub open spec fn digits_value(s: Seq<char>) -> nat
    decreases s.len(),
{
    if s.len() == 0 {
        0
    } else {
        digits_value(s.drop_last()) * 10 + ((s.last() as int - 48) as nat)
    }
}

/// `s` without one leading `+`.
pub open spec fn without_plus(s: Seq<char>) -> Seq<char> {
    if s.len() > 0 && s[0] == '+' {
        s.drop_first()
    } else {
        s
    }
}

/// The unsigned integer written by `s` (an optional `+` and at least one
/// decimal digit, nothing else), where it is at most `max`: what
/// `str::parse` gives for an unsigned integer type whose largest value is `max`.
pub open spec fn parse_unsigned(s: Seq<char>, max: nat) -> Option<nat> {
    let d = without_plus(s);
    if d.len() > 0 && (forall|i: int| 0 <= i < d.len() ==> is_digit(#[trigger] d[i]))
        && digits_value(d) <= max {
        Some(digits_value(d))
    } else {
        None
    }
}

/// Extending a run of digits never makes its value smaller.
pub proof fn lemma_digits_value_grows(d: Seq<char>, k: int)
    requires
        0 <= k <= d.len(),
        forall|i: int| 0 <= i < d.len() ==> is_digit(#[trigger] d[i]),
    ensures
        digits_value(d.take(k)) <= digits_value(d),
    decreases d.len(),
{
    if k < d.len() {
        lemma_digits_value_grows(d.drop_last(), k);
        assert(d.drop_last().take(k) == d.take(k));
    } else {
        assert(d.take(k) == d);
    }
}

/// The unsigned integer written by `s`, if it is at most `max`.
pub fn parse_unsigned_text(s: &str, max: u64) -> (r: Option<u64>)
    ensures
        match r {
            Some(n) => parse_unsigned(s@, max as nat) == Some(n as nat),
            None => parse_unsigned(s@, max as nat) is None,
        },
{
    let v = crate::text::chars_of(s);
    let start: usize = if v.len() > 0 && v[0] == '+' {
        1
    } else {
        0
    };
    let ghost d = without_plus(s@);
    assert(d == v@.skip(start as int));
    if start >= v.len() {
        return None;
    }
    let mut acc: u128 = 0;
    let mut i: usize = start;
    while i < v.len()
        invariant
            v@ == s@,
            d == v@.skip(start as int),
            d == without_plus(s@),
            start <= i <= v.len(),
            forall|j: int| 0 <= j < i - start ==> is_digit(#[trigger] d[j]),
            acc == digits_value(d.take(i - start)),
            acc <= max,
        decreases v.len() - i,
    {
        let c = v[i];
        assert(d[i - start] == c);
        if !('0' <= c && c <= '9') {
            assert(!is_digit(d[i - start]));
            return None;
        }
        let digit = (c as u32 - 48) as u128;
        assert(d.take(i - start + 1).drop_last() == d.take(i - start));
        assert(d.take(i - start + 1).last() == c);
        assert(digits_value(d.take(i - start + 1)) == digits_value(d.take(i - start)) * 10 + (c as int
            - 48));
        acc = acc * 10 + digit;
        i = i + 1;
        if acc > max as u128 {
            proof {
                if forall|j: int| 0 <= j < d.len() ==> is_digit(#[trigger] d[j]) {
                    lemma_digits_value_grows(d, i - start);
                }
            }
            return None;
        }
    }
    assert(d.take(d.len() as int) == d);
    Some(acc as u64)
}

/// A positive number of seconds read from an environment value, if any.
pub open spec fn positive_seconds(value: Option<Seq<char>>) -> Option<nat> {
    match value {
        Some(v) => match parse_unsigned(v, u64::MAX as nat) {
            Some(n) if n > 0 => Some(n),
            _ => None,
        },
        None => None,
    }
}

/// The value can be turned into milliseconds within `u64`.
pub open spec fn seconds_fit(value: Option<Seq<char>>) -> bool {
    positive_seconds(value) matches Some(n) ==> n * 1000 <= u64::MAX
}

/// The view of an optional string slice.
pub open spec fn opt_str(value: Option<&str>) -> Option<Seq<char>> {
    match value {
        Some(v) => Some(v@),
        None => None,
    }
}

/// The overall time budget in milliseconds, from the value of `MCP_TIMEOUT`
/// (seconds): a positive number of seconds, or 30 minutes.
pub fn get_timeout_ms(env_value: Option<&str>) -> (r: u64)
    requires
        seconds_fit(opt_str(env_value)),
    ensures
        r == match positive_seconds(opt_str(env_value)) {
            Some(n) => n * 1000,
            None => DEFAULT_TIMEOUT_MS as nat,
        },
{
    if let Some(val) = env_value {
        if let Some(seconds) = parse_unsigned_text(val, u64::MAX) {
            if seconds > 0 {
                return seconds * 1000;
            }
        }
    }
    DEFAULT_TIMEOUT_MS
}

/// The number of servers contacted at once, from the value of
/// `MCP_CONCURRENCY`: a positive number, or 5.
pub fn get_concurrency_limit(env_value: Option<&str>) -> (r: usize)
    ensures
        r == match env_value {
            Some(v) => match parse_unsigned(v@, usize::MAX as nat) {
                Some(n) if n > 0 => n,
                _ => DEFAULT_CONCURRENCY as nat,
            },
            None => DEFAULT_CONCURRENCY as nat,
        },
{
    if let Some(val) = env_value {
        if let Some(limit) = parse_unsigned_text(val, usize::MAX as u64) {
            if limit > 0 {
                return limit as usize;
            }
        }
    }
    DEFAULT_CONCURRENCY
}

/// The number of retries of a failed connection, from the value of
/// `MCP_MAX_RETRIES`: any number, or 3.
pub fn get_max_retries(env_value: Option<&str>) -> (r: u32)
    ensures
        r == match env_value {
            Some(v) => match parse_unsigned(v@, u32::MAX as nat) {
                Some(n) => n,
                None => DEFAULT_MAX_RETRIES as nat,
            },
            None => DEFAULT_MAX_RETRIES as nat,
        },
{
    if let Some(val) = env_value {
        if let Some(retries) = parse_unsigned_text(val, u32::MAX as u64) {
            return retries as u32;
        }
    }
    DEFAULT_MAX_RETRIES
}

/// The base delay between retries in milliseconds, from the value of
/// `MCP_RETRY_DELAY`: a positive number, or 1000.
pub fn get_retry_delay_ms(env_value: Option<&str>) -> (r: u64)
    ensures
        r == match positive_seconds(opt_str(env_value)) {
            Some(n) => n,
            None => DEFAULT_RETRY_DELAY_MS as nat,
        },
{
    if let Some(val) = env_value {
        if let Some(delay) = parse_unsigned_text(val, u64::MAX) {
            if delay > 0 {
                return delay;
            }
        }
    }
    DEFAULT_RETRY_DELAY_MS
}

/// Whether connections go through the daemon: unless `MCP_NO_DAEMON` is `1`.
pub fn is_daemon_enabled(env_value: Option<&str>) -> (r: bool)
    ensures
        r == !(env_value matches Some(v) && v@ == "1"@),
{
    match env_value {
        Some(v) => !str_eq(v, "1"),
        None => true,
    }
}

/// The idle time after which a daemon stops, in milliseconds, from the value
/// of `MCP_DAEMON_TIMEOUT` (seconds): a positive number of seconds, or 60.
pub fn get_daemon_timeout_ms(env_value: Option<&str>) -> (r: u64)
    requires
        seconds_fit(opt_str(env_value)),
    ensures
        r == match positive_seconds(opt_str(env_value)) {
            Some(n) => n * 1000,
            None => 60000nat,
        },
{
    if let Some(val) = env_value {
        if let Some(seconds) = parse_unsigned_text(val, u64::MAX) {
            if seconds > 0 {
                return seconds * 1000;
            }
        }
    }
    DEFAULT_DAEMON_TIMEOUT_SECONDS * 1000
}

/// Whether a missing environment variable in the configuration is an error:
/// unless `MCP_STRICT_ENV` is `false` or `0` (in any case).
pub fn is_strict_env_mode(env_value: Option<&str>) -> (r: bool)
    ensures
        r == ({
            let lower = lowercase(
                match env_value {
                    Some(v) => v@,
                    None => ""@,
                },
            );
            lower != "false"@ && lower != "0"@
        }),
{
    let raw = match env_value {
        Some(v) => v,
        None => "",
    };
    let value = to_lowercase(raw);
    !str_eq(value.as_str(), "false") && !str_eq(value.as_str(), "0")
}

// ============================================================================
// Daemon file locations
// ============================================================================

/// `file` appended to the directory path `dir` (`Path::join`): an absolute
/// `file` replaces `dir`, and a separator is added where `dir` lacks one.
pub open spec fn path_join(dir: Seq<char>, file: Seq<char>) -> Seq<char> {
    if file.len() > 0 && file[0] == '/' {
        file
    } else if dir.len() == 0 || dir.last() == '/' {
        dir + file
    } else {
        dir + seq!['/'] + file
    }
}

/// The directory path `dir` joined with `file`.
pub fn join_path(dir: &str, file: &str) -> (r: String)
    ensures
        r@ == path_join(dir@, file@),
{
    let d = crate::text::chars_of(dir);
    if crate::text::starts_with_char(file, '/') {
        string_of(file)
    } else if d.len() == 0 || d[d.len() - 1] == '/' {
        cat2(dir, file)
    } else {
        let mut r = string_of(dir);
        push_char(&mut r, '/');
        r.append(file);
        r
    }
}

/// The directory of the daemon sockets and PID files of the user `uid`.
pub open spec fn socket_dir(uid: u32) -> Seq<char> {
    "/tmp/mcp-cli-"@ + decimal(uid as nat)
}

/// The directory of the daemon files of the user `uid`.
pub fn get_socket_dir(uid: u32) -> (r: String)
    ensures
        r@ == socket_dir(uid),
{
    let n = decimal_string(uid as u64);
    cat2("/tmp/mcp-cli-", n.as_str())
}

/// The socket of a server's daemon.
pub fn get_socket_path(socket_dir: &str, server_name: &str) -> (r: String)
    ensures
        r@ == path_join(socket_dir@, server_name@ + ".sock"@),
{
    let file = cat2(server_name, ".sock");
    join_path(socket_dir, file.as_str())
}

/// The PID file of a server's daemon.
pub fn get_pid_path(socket_dir: &str, server_name: &str) -> (r: String)
    ensures
        r@ == path_join(socket_dir@, server_name@ + ".pid"@),
{
    let file = cat2(server_name, ".pid");
    join_path(socket_dir, file.as_str())
}

// ============================================================================
// Configuration fingerprint
// ============================================================================

/// The SHA-256 digest of `data`.
pub uninterp spec fn sha256(data: Seq<u8>) -> Seq<u8>;

/// Hashes `data` with `sha2::Sha256::digest`. Claims: the digest depends on
/// the bytes alone and is 32 bytes long.
#[verifier::external_body]
fn sha256_digest(data: &[u8]) -> (r: Vec<u8>)
    ensures
        r@ == sha256(data@),
        r@.len() == 32,
{
    sha2::Sha256::digest(data).to_vec()
}

/// The lower-case hexadecimal digit for `d < 16`.
pub open spec fn hex_digit(d: nat) -> char {
    if d < 10 {
        (48 + d) as char
    } else {
        (87 + d) as char
    }
}

/// The lower-case hexadecimal rendering of `bytes`, two digits per byte.
pub open spec fn hex_of(bytes: Seq<u8>) -> Seq<char>
    decreases bytes.len(),
{
    if bytes.len() == 0 {
        seq![]
    } else {
        hex_of(bytes.drop_last()) + seq![
            hex_digit((bytes.last() / 16) as nat),
            hex_digit((bytes.last() % 16) as nat),
        ]
    }
}

/// The hexadecimal text has two digits per byte.
pub proof fn lemma_hex_len(bytes: Seq<u8>)
    ensures
        hex_of(bytes).len() == 2 * bytes.len(),
    decreases bytes.len(),
{
    if bytes.len() > 0 {
        lemma_hex_len(bytes.drop_last());
    }
}

/// Renders `data` with `hex::encode`. Claims: two lower-case hexadecimal
/// digits per byte, high half first.
#[verifier::external_body]
fn hex_encode(data: &[u8]) -> (r: String)
    ensures
        r@ == hex_of(data@),
{
    hex::encode(data)
}

/// The fingerprint of a configuration: the first 16 hexadecimal digits of
/// the SHA-256 digest of the UTF-8 bytes of its serialized form.
pub open spec fn config_fingerprint(serialized: Seq<char>) -> Seq<char> {
    hex_of(sha256(encode_utf8(serialized))).take(16)
}

/// The fingerprint of a configuration, from its serialized form.
pub fn config_hash_of(serialized: &str) -> (r: String)
    ensures
        r@ == config_fingerprint(serialized@),
        r@.len() == 16,
{
    let digest = sha256_digest(serialized.as_bytes());
    let text = hex_encode(digest.as_slice());
    proof {
        lemma_hex_len(digest@);
    }
    substring(text.as_str(), 0, 16)
}

} // verus!
