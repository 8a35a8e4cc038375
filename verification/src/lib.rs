//! Request handling, OAuth bookkeeping and text shaping for an MCP web-access server.

pub mod admin;
pub mod admin_laws;
pub mod auth;
pub mod auth_laws;
pub mod bindings;
pub mod browser;
pub mod extraction;
pub mod jsonrpc;
pub mod keyed;
pub mod strings;
pub mod tools;
pub mod tools_laws;
