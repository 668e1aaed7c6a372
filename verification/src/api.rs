//! The high-level client for library users: it owns a server configuration
//! and answers questions about it.
use crate::config::{get_server_config, list_server_names, lookup_server, server_names, McpServersConfig, ServerConfig};
use crate::errors::{server_not_found_view, CliError};
use crate::text::views;
use vstd::prelude::*;

verus! {

/// Owns an MCP server configuration; connections are made from it on demand.
pub struct McpClient {
    config: McpServersConfig,
}

impl View for McpClient {
    type V = Seq<(Seq<char>, crate::config::ServerConfigView)>;

    closed spec fn view(&self) -> Self::V {
        self.config@
    }
}

impl Clone for McpClient {
    fn clone(&self) -> (r: Self)
        ensures
            r@ == self@,
    {
        McpClient { config: self.config.clone() }
    }
}

impl McpClient {
    /// A client for an already parsed configuration.
    pub fn from_config(config: McpServersConfig) -> (r: Self)
        ensures
            r@ == config@,
    {
        McpClient { config }
    }

    /// The underlying configuration.
    pub fn config(&self) -> (r: &McpServersConfig)
        ensures
            r@ == self@,
    {
        &self.config
    }

    /// The configured server names, in order.
    pub fn server_names(&self) -> (r: Vec<String>)
        ensures
            views(r@) == server_names(self@),
    {
        list_server_names(&self.config)
    }

    /// The configuration of one server.
    pub fn server_config(&self, server_name: &str) -> (r: Result<ServerConfig, CliError>)
        ensures
            match r {
                Ok(c) => lookup_server(self@, server_name@) == Some(c@),
                Err(e) => lookup_server(self@, server_name@) is None && e@ == server_not_found_view(
                    server_name@,
                    server_names(self@),
                ),
            },
    {
        get_server_config(&self.config, server_name)
    }
}

/// A client answers for every name it lists: each listed server has a
/// configuration, and a name it does not list gets the "not found" error.
pub proof fn law_client_names_resolve(client: McpClient, name: Seq<char>)
    ensures
        server_names(client@).contains(name) <==> lookup_server(client@, name) is Some,
{
    crate::config::law_lookup_matches_listing(client@, name);
}

} // verus!
