//! The chat server: a registry of sessions and an append-only message log.

use std::collections::HashMap;

use rand::StdRng;
use vstd::prelude::*;

use crate::ids::SessionIds;
use crate::protos::chat::ChatMessage as ProtoMessage;
use crate::protos::chat::{Empty, Registered, Registration, SentMessage};
use crate::protos::chat_grpc::{Chat, ChatError};

verus! {

broadcast use vstd::std_specs::hash::group_hash_axioms;

/// How a logged message looks to specifications: the sender's name and the text.
pub type MessageView = (Seq<char>, Seq<char>);

/// How many session ids `register` draws before it gives up.
pub const SESSION_ATTEMPTS: u32 = 19;

/// A line of chat together with the name of its sender.
#[derive(Clone)]
pub struct ChatMessage {
    pub name: String,
    pub message: String,
}

impl View for ChatMessage {
    type V = MessageView;

    open spec fn view(&self) -> MessageView {
        (self.name@, self.message@)
    }
}

impl ChatMessage {
    /// The message in the form in which it is delivered to listeners.
    pub fn into_sent(self) -> (m: SentMessage)
        ensures
            m.name@ == self.name@,
            m.message@ == self.message@,
    {
        let mut m = SentMessage::new();
        m.set_name(self.name);
        m.set_message(self.message);
        m
    }
}

/// A copy of a logged message with the same name and text.
fn copy_message(m: &ChatMessage) -> (r: ChatMessage)
    ensures
        r@ == m@,
{
    ChatMessage { name: m.name.clone(), message: m.message.clone() }
}

/// The message log, to which the server appends and from which readers replay.
pub struct MessageLogWriter {
    log: Vec<ChatMessage>,
}

impl View for MessageLogWriter {
    type V = Seq<MessageView>;

    closed spec fn view(&self) -> Seq<MessageView> {
        self.log@.map_values(|m: ChatMessage| m@)
    }
}

/// What a reader at position `pos` gets from `log` on one step: the message at `pos`
/// and the next position, or nothing and the same position when it has caught up.
pub open spec fn reader_step(log: Seq<MessageView>, pos: nat) -> (Option<MessageView>, nat) {
    if pos < log.len() {
        (Some(log[pos as int]), pos + 1)
    } else {
        (None, pos)
    }
}

impl MessageLogWriter {
    /// An empty log.
    pub fn new() -> (w: MessageLogWriter)
        ensures
            w@ == Seq::<MessageView>::empty(),
    {
        let w = MessageLogWriter { log: Vec::new() };
        assert(w@ =~= Seq::<MessageView>::empty());
        w
    }

    /// A reader that replays the log from its first message.
    pub fn reader(&self) -> (r: MessageLogReader)
        ensures
            r.position() == 0,
            !r.waiting(),
    {
        MessageLogReader { next: 0, wait: false }
    }

    /// Appends a message to the log.
    pub fn write(&mut self, m: ChatMessage)
        ensures
            final(self)@ == old(self)@.push(m@),
    {
        let ghost m_view = m@;
        self.log.push(m);
        assert(self@ =~= old(self)@.push(m_view));
    }

    /// The number of messages in the log.
    pub fn len(&self) -> (n: usize)
        ensures
            n == self@.len(),
    {
        self.log.len()
    }

    /// A copy of the message at `index`, if the log is that long.
    pub fn get(&self, index: usize) -> (r: Option<ChatMessage>)
        ensures
            match r {
                Some(m) => index < self@.len() && m@ == self@[index as int],
                None => index >= self@.len(),
            },
    {
        if index < self.log.len() {
            Some(copy_message(&self.log[index]))
        } else {
            None
        }
    }
}

/// A cursor into the message log: the position of the next message to deliver.
pub struct MessageLogReader {
    next: usize,
    wait: bool,
}

impl MessageLogReader {
    /// The position of the next message this reader delivers.
    pub closed spec fn position(&self) -> nat {
        self.next as nat
    }

    /// Whether the reader is marked as waiting; readers are never so marked.
    pub closed spec fn waiting(&self) -> bool {
        self.wait
    }

    /// The position of the next message this reader delivers.
    pub fn next_index(&self) -> (n: usize)
        ensures
            n == self.position(),
    {
        self.next
    }

    /// Delivers the next message of `log` and moves past it, or returns `None`
    /// and stays put when every message has been delivered already.
    pub fn next(&mut self, log: &MessageLogWriter) -> (r: Option<ChatMessage>)
        ensures
            (match r {
                Some(m) => Some(m@),
                None => None::<MessageView>,
            }, final(self).position()) == reader_step(log@, old(self).position()),
            final(self).waiting() == old(self).waiting(),
    {
        if self.next < log.log.len() {
            let m = copy_message(&log.log[self.next]);
            self.next = self.next + 1;
            Some(m)
        } else {
            None
        }
    }
}

/// The outcome of posting `message` under `session`: whether it is accepted, and the
/// log afterwards, which grows by the sender's name and the text when it is.
pub open spec fn say_outcome(
    sessions: Map<u64, Seq<char>>,
    log: Seq<MessageView>,
    session: u64,
    message: Seq<char>,
) -> (bool, Seq<MessageView>) {
    if sessions.contains_key(session) {
        (true, log.push((sessions[session], message)))
    } else {
        (false, log)
    }
}

/// How a registration of `name` that drew the session ids `draws` in turn ends:
/// every draw but the last hit a taken session; the registration succeeds with the
/// last draw, which must then be free, and records `name` under it; or it fails with
/// `OutOfSessions` after exactly `SESSION_ATTEMPTS` draws that were all taken,
/// leaving the sessions as they were.
pub open spec fn register_outcome(
    before: Map<u64, Seq<char>>,
    name: Seq<char>,
    draws: Seq<u64>,
    result: Result<Registered, ChatError>,
    after: Map<u64, Seq<char>>,
) -> bool {
    &&& 1 <= draws.len() <= SESSION_ATTEMPTS
    &&& forall|i: int| 0 <= i < draws.len() - 1 ==> before.contains_key(#[trigger] draws[i])
    &&& match result {
        Ok(reply) => {
            &&& reply.session == draws.last()
            &&& !before.contains_key(reply.session)
            &&& after == before.insert(reply.session, name)
        },
        Err(e) => {
            &&& e == ChatError::OutOfSessions
            &&& draws.len() == SESSION_ATTEMPTS
            &&& before.contains_key(draws.last())
            &&& after == before
        },
    }
}

/// The chat server: who holds which session, and the log of what was said.
pub struct ChatServer {
    members: HashMap<u64, String>,
    ids: SessionIds,
    messages: MessageLogWriter,
}

impl ChatServer {
    /// The registered sessions, each with the name it was registered under.
    pub closed spec fn sessions(&self) -> Map<u64, Seq<char>> {
        self.members@.map_values(|s: String| s@)
    }

    /// Every session id drawn from the server's random source so far, oldest first.
    pub closed spec fn draws(&self) -> Seq<u64> {
        self.ids.history()
    }

    /// The messages said so far, oldest first.
    pub closed spec fn log(&self) -> Seq<MessageView> {
        self.messages@
    }

    /// The registered sessions are finitely many.
    pub proof fn lemma_sessions_finite(&self)
        ensures
            self.sessions().dom().finite(),
    {
        assert(self.sessions().dom() =~= self.members@.dom());
    }

    /// A server with no sessions and an empty log that draws session ids from `ids`.
    pub fn with_ids(ids: StdRng) -> (s: ChatServer)
        ensures
            s.sessions() == Map::<u64, Seq<char>>::empty(),
            s.sessions().dom().finite(),
            s.log() == Seq::<MessageView>::empty(),
            s.draws() == Seq::<u64>::empty(),
    {
        let s = ChatServer {
            members: HashMap::new(),
            ids: SessionIds::new(ids),
            messages: MessageLogWriter::new(),
        };
        assert(s.sessions() =~= Map::<u64, Seq<char>>::empty());
        s
    }

    /// Registers `name` under `session` when that session is free; says whether it was.
    pub fn try_claim_session(&mut self, session: u64, name: String) -> (claimed: bool)
        ensures
            claimed == !old(self).sessions().contains_key(session),
            final(self).sessions() == (if claimed {
                old(self).sessions().insert(session, name@)
            } else {
                old(self).sessions()
            }),
            final(self).sessions().dom().finite(),
            final(self).log() == old(self).log(),
            final(self).draws() == old(self).draws(),
    {
        proof {
            self.lemma_sessions_finite();
        }
        if self.members.contains_key(&session) {
            false
        } else {
            let ghost name_view = name@;
            self.members.insert(session, name);
            assert(self.sessions() =~= old(self).sessions().insert(session, name_view));
            proof {
                self.lemma_sessions_finite();
            }
            true
        }
    }

    /// One attempt of a registration: registers `name` under the drawn session id `id`
    /// when it is free and answers with it; when it is taken, changes nothing and
    /// answers `None` so that another id is drawn, unless this was the last of the
    /// `SESSION_ATTEMPTS` attempts, when it answers `OutOfSessions`.
    pub fn register_attempt(&mut self, name: &String, attempt: u32, id: u64) -> (r: Option<
        Result<Registered, ChatError>,
    >)
        ensures
            !old(self).sessions().contains_key(id) ==> (r matches Some(Ok(reply))
                && reply.session == id) && final(self).sessions() == old(self).sessions().insert(
                id,
                name@,
            ),
            old(self).sessions().contains_key(id) ==> final(self).sessions() == old(
                self,
            ).sessions() && (if attempt < SESSION_ATTEMPTS {
                r is None
            } else {
                r == Some(Err::<Registered, ChatError>(ChatError::OutOfSessions))
            }),
            final(self).sessions().dom().finite(),
            final(self).log() == old(self).log(),
            final(self).draws() == old(self).draws(),
    {
        if self.try_claim_session(id, name.clone()) {
            let mut reply = Registered::new();
            reply.set_session(id);
            Some(Ok(reply))
        } else if attempt < SESSION_ATTEMPTS {
            None
        } else {
            Some(Err(ChatError::OutOfSessions))
        }
    }

    /// The name registered for `session`, if any.
    pub fn member_name(&self, session: u64) -> (r: Option<String>)
        ensures
            match r {
                Some(n) => self.sessions().contains_key(session) && n@ == self.sessions()[session],
                None => !self.sessions().contains_key(session),
            },
    {
        match self.members.get(&session) {
            Some(n) => Some(n.clone()),
            None => None,
        }
    }

    /// The message log.
    pub fn messages(&self) -> (w: &MessageLogWriter)
        ensures
            w@ == self.log(),
    {
        &self.messages
    }
}

impl Chat for ChatServer {
    /// Draws up to `SESSION_ATTEMPTS` random session ids and registers the name under
    /// the first that is free; fails with `OutOfSessions` when none is.
    fn register(&mut self, req: Registration) -> (r: Result<Registered, ChatError>)
        ensures
            exists|draws: Seq<u64>|
                register_outcome(
                    old(self).sessions(),
                    req.name@,
                    draws,
                    r,
                    final(self).sessions(),
                ),
            old(self).draws().len() <= final(self).draws().len(),
            final(self).draws().subrange(0, old(self).draws().len() as int) == old(self).draws(),
            register_outcome(
                old(self).sessions(),
                req.name@,
                final(self).draws().subrange(
                    old(self).draws().len() as int,
                    final(self).draws().len() as int,
                ),
                r,
                final(self).sessions(),
            ),
            old(self).sessions() == Map::<u64, Seq<char>>::empty() ==> r is Ok,
            final(self).sessions().dom().finite(),
            final(self).log() == old(self).log(),
    {
        proof {
            self.lemma_sessions_finite();
        }
        let ghost mut draws: Seq<u64> = Seq::empty();
        let mut attempt: u32 = 1;
        loop
            invariant
                1 <= attempt <= SESSION_ATTEMPTS,
                draws.len() == attempt - 1,
                forall|i: int|
                    0 <= i < draws.len() ==> old(self).sessions().contains_key(#[trigger] draws[i]),
                self.sessions() == old(self).sessions(),
                self.sessions().dom().finite(),
                self.log() == old(self).log(),
                self.draws() == old(self).draws() + draws,
            decreases SESSION_ATTEMPTS - attempt,
        {
            let id = self.ids.draw();
            proof {
                draws = draws.push(id);
            }
            match self.register_attempt(&req.name, attempt, id) {
                Some(r) => {
                    assert(register_outcome(
                        old(self).sessions(),
                        req.name@,
                        draws,
                        r,
                        self.sessions(),
                    ));
                    assert(self.draws().subrange(0, old(self).draws().len() as int)
                        =~= old(self).draws());
                    assert(self.draws().subrange(
                        old(self).draws().len() as int,
                        self.draws().len() as int,
                    ) =~= draws);
                    return r;
                },
                None => {},
            }
            attempt = attempt + 1;
        }
    }

    /// A reader from the start of the log, for a registered session.
    fn listen(&self, req: Registered) -> (r: Result<MessageLogReader, ChatError>)
        ensures
            r is Ok <==> self.sessions().contains_key(req.session),
            match r {
                Ok(reader) => reader.position() == 0 && !reader.waiting(),
                Err(e) => e == ChatError::SessionNotFound,
            },
    {
        if !self.members.contains_key(&req.session) {
            return Err(ChatError::SessionNotFound);
        }
        Ok(self.messages.reader())
    }

    /// Appends the text under the name registered for the session; fails with
    /// `SessionNotFound`, changing nothing, when the session is unknown.
    fn say(&mut self, req: ProtoMessage) -> (r: Result<Empty, ChatError>)
        ensures
            (r is Ok, final(self).log()) == say_outcome(
                old(self).sessions(),
                old(self).log(),
                req.session,
                req.message@,
            ),
            r matches Err(e) ==> e == ChatError::SessionNotFound,
            final(self).sessions() == old(self).sessions(),
            final(self).sessions().dom().finite(),
            final(self).draws() == old(self).draws(),
    {
        proof {
            self.lemma_sessions_finite();
        }
        let name = match self.members.get(&req.session) {
            None => {
                return Err(ChatError::SessionNotFound);
            },
            Some(n) => n.clone(),
        };
        let cm = ChatMessage { name, message: req.message };
        self.messages.write(cm);
        Ok(Empty::new())
    }
}

} // verus!
