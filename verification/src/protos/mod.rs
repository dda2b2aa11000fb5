//! The messages and the service interface of the chat protocol.

pub mod chat;
pub mod chat_grpc;
