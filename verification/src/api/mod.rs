//! The command surface shared by the command line, the daemon's socket and
//! the MCP server: the command table, MCP routing, the decisions of the
//! device commands, and the values the answers carry.

pub mod device_cmds;
pub mod dispatch;
pub mod json;
pub mod mcp;
pub mod registry;
pub mod socket;
pub mod types;
