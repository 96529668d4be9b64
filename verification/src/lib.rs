//! Language features for expressions in the Common Expression Language (CEL).
//!
//! - [`lsp`] computes semantic tokens, and what the server announces to its clients.
//! - [`analyzer`] answers JSON-RPC messages.
//! - [`backend`] keeps the state of a language server.
//! - [`type_parser`] and [`declarations`] read the types, variables and functions that users
//!   declare.

pub mod analyzer;
pub mod backend;
pub mod builtins;
pub mod cel_types;
pub mod declarations;
pub mod document;
pub mod documents;
pub mod environment;
pub mod json;
pub mod line_index;
pub mod lsp;
pub mod parts;
pub mod protocol;
pub mod syntax;
pub mod text;
pub mod type_parser;
