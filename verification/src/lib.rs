//! Transport-and-dispatch core for a local IPC tool protocol.
//!
//! Applications expose named "tools" over a JSON-RPC-style protocol carried
//! over local sockets.  This crate holds the verified core: the wire-level
//! request/response shapes and their codec, the method-dispatch router, the
//! per-message server logic, and the discovery registry records.

pub mod json;
pub mod protocol;
pub mod registry;
pub mod router;
pub mod server;
pub mod text;
