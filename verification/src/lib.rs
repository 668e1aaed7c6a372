//! Library for working with MCP server configurations, tool filtering,
//! command-line parsing and the diagnostics shown to users.

pub mod text;
pub mod errors;
pub mod matching;
pub mod json;
pub mod json_text;
pub mod config;
pub mod cli;
pub mod output;
pub mod substitution;
pub mod api;
pub mod commands;
pub mod client;
pub mod daemon;
pub mod daemon_client;

pub use api::McpClient;
pub use config::{HttpServerConfig, McpServersConfig, ServerConfig, StdioServerConfig};
pub use errors::{CliError, ErrorCode};
pub use output::{ServerInfo, ToolInfo};
