# mcp-cli

A command-line client for MCP (Model Context Protocol) servers, built around
a library whose logic is verified with Verus.

- `src/` is the verified library: configuration (types, tool filtering by
  glob patterns, `${VAR}` substitution, settings, daemon file locations,
  fingerprints), command-line parsing, structured errors, output formatting,
  the JSON-RPC messages and replies of the client, its retry
  decisions, and the daemon protocol on both sides.
- `tests/` runs the library on concrete inputs.
- `app/` is the program around it: process and network I/O, the async
  connection code, the daemon process, environment and terminal reads, and
  serde conversions.
