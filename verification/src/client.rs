//! The client side of the chat: a registered session and the requests it sends.

use vstd::prelude::*;

use crate::protos::chat::{ChatMessage, Registered, Registration};
use crate::text::{trim, trimmed};

verus! {

/// A client that holds a session handed out by the server.
pub struct ChatClient {
    id: u64,
}

impl ChatClient {
    /// The session this client speaks for.
    pub closed spec fn session_id(&self) -> u64 {
        self.id
    }

    /// A client for `session`.
    pub fn new(session: u64) -> (c: ChatClient)
        ensures
            c.session_id() == session,
    {
        ChatClient { id: session }
    }

    /// The session this client speaks for.
    pub fn session(&self) -> (s: u64)
        ensures
            s == self.session_id(),
    {
        self.id
    }

    /// The request that asks the server to register `name`.
    pub fn register_request(name: String) -> (r: Registration)
        ensures
            r.name == name,
    {
        let mut r = Registration::new();
        r.name = name;
        r
    }

    /// The client for the session in the server's reply to a registration.
    pub fn registered(reply: &Registered) -> (c: ChatClient)
        ensures
            c.session_id() == reply.session,
    {
        ChatClient::new(reply.session)
    }

    /// The message that posts `msg`, trimmed of surrounding white space, under this session.
    pub fn say_request(&self, msg: &str) -> (m: ChatMessage)
        ensures
            m.session == self.session_id(),
            m.message@ == trimmed(msg@),
    {
        let mut cm = ChatMessage::new();
        cm.session = self.id;
        cm.message = trim(msg);
        cm
    }

    /// The request that opens a stream of the log for this session.
    pub fn listen_request(&self) -> (r: Registered)
        ensures
            r.session == self.session_id(),
    {
        let mut r = Registered::new();
        r.set_session(self.id);
        r
    }
}

} // verus!
