//! Decisions of a coding agent's client: which authentication an MCP server needs, and how a
//! review task runs.

pub mod auth_status;
pub mod discovery;
pub mod discovery_laws;
pub mod headers;
pub mod review;
pub mod scopes;
pub mod text;
pub mod urls;
pub mod well_known;
