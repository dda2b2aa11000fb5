//! The messages that client and server exchange.

use vstd::prelude::*;

verus! {

/// A request to join the chat under a display name.
pub struct Registration {
    pub name: String,
}

/// The session that the server handed out to a registered client.
pub struct Registered {
    pub session: u64,
}

/// A line of chat sent by the holder of a session.
pub struct ChatMessage {
    pub session: u64,
    pub message: String,
}

/// A line of chat as the server delivers it to listeners.
pub struct SentMessage {
    pub name: String,
    pub message: String,
}

/// The empty reply.
pub struct Empty {}

impl Registration {
    /// A registration with an empty name.
    pub fn new() -> (r: Registration)
        ensures
            r.name@ == Seq::<char>::empty(),
    {
        Registration { name: String::new() }
    }
}

impl Registered {
    /// A reply for session 0.
    pub fn new() -> (r: Registered)
        ensures
            r.session == 0,
    {
        Registered { session: 0 }
    }

    /// Sets the session.
    pub fn set_session(&mut self, session: u64)
        ensures
            final(self).session == session,
    {
        self.session = session;
    }
}

impl ChatMessage {
    /// A message for session 0 with empty text.
    pub fn new() -> (r: ChatMessage)
        ensures
            r.session == 0,
            r.message@ == Seq::<char>::empty(),
    {
        ChatMessage { session: 0, message: String::new() }
    }
}

impl SentMessage {
    /// A delivered message with empty name and text.
    pub fn new() -> (r: SentMessage)
        ensures
            r.name@ == Seq::<char>::empty(),
            r.message@ == Seq::<char>::empty(),
    {
        SentMessage { name: String::new(), message: String::new() }
    }

    /// Sets the name of the sender.
    pub fn set_name(&mut self, name: String)
        ensures
            final(self).name == name,
            final(self).message == old(self).message,
    {
        self.name = name;
    }

    /// Sets the text.
    pub fn set_message(&mut self, message: String)
        ensures
            final(self).message == message,
            final(self).name == old(self).name,
    {
        self.message = message;
    }
}

impl Empty {
    /// The empty reply.
    pub fn new() -> (r: Empty) {
        Empty {  }
    }
}

} // verus!
