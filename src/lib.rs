//! The schema-driven RPC boundary of a forum backend: the error taxonomy,
//! the externally tagged wire encoding, the operation schema with its code
//! renderers, and the decisions of the per-request dispatcher.

pub mod codegen;
pub mod dispatch;
pub mod error;
pub mod login;
pub mod model;
pub mod schema;
pub mod wire;
