//! A small chat service: a registry of sessions, an append-only message log
//! with cursors that replay it, and the client side that shapes requests.

pub mod client;
pub mod ids;
pub mod laws;
pub mod protos;
pub mod server;
pub mod text;
