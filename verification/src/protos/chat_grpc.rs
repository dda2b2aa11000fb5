//! The chat service interface.

use vstd::prelude::*;

use crate::protos::chat::{ChatMessage, Empty, Registered, Registration};
use crate::server::MessageLogReader;

verus! {

/// Why the service refused a request.
#[derive(Clone, Copy, Debug, PartialEq, Eq, Structural)]
pub enum ChatError {
    /// Every attempt to draw an unused session id hit one that was taken.
    OutOfSessions,
    /// The request named a session that was never registered.
    SessionNotFound,
}

impl ChatError {
    /// The text with which the service reports the error.
    pub fn message(&self) -> (r: &'static str)
        ensures
            *self == ChatError::OutOfSessions ==> r@ == "Ran out of sessions"@,
            *self == ChatError::SessionNotFound ==> r@ == "Session id not found"@,
    {
        match self {
            ChatError::OutOfSessions => "Ran out of sessions",
            ChatError::SessionNotFound => "Session id not found",
        }
    }
}

/// The three calls of the chat service.
pub trait Chat {
    /// Joins the chat under the requested name and hands out a fresh session.
    fn register(&mut self, req: Registration) -> Result<Registered, ChatError>;

    /// Opens a cursor over the message log for a registered session.
    fn listen(&self, req: Registered) -> Result<MessageLogReader, ChatError>;

    /// Posts a line of chat under the name registered for the session.
    fn say(&mut self, req: ChatMessage) -> Result<Empty, ChatError>;
}

} // verus!
