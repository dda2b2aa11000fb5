use rchat::protos::chat::{ChatMessage as ProtoMessage, Registered, Registration};
use rchat::protos::chat_grpc::{Chat, ChatError};
use rchat::server::{ChatMessage, ChatServer, MessageLogWriter};

fn server() -> ChatServer {
    ChatServer::with_ids(rand::StdRng::new().expect("the system gives randomness"))
}

fn registration(name: &str) -> Registration {
    let mut r = Registration::new();
    r.name = name.to_string();
    r
}

fn line(session: u64, text: &str) -> ProtoMessage {
    let mut m = ProtoMessage::new();
    m.session = session;
    m.message = text.to_string();
    m
}

fn listen_for(session: u64) -> Registered {
    let mut r = Registered::new();
    r.set_session(session);
    r
}

#[test]
fn new_server_is_empty() {
    let s = server();
    assert_eq!(s.messages().len(), 0);
    assert!(s.member_name(0).is_none());
}

#[test]
fn register_records_the_name() {
    let mut s = server();
    let reply = s.register(registration("alice")).unwrap();
    assert_eq!(s.member_name(reply.session), Some("alice".to_string()));
    assert_eq!(s.messages().len(), 0);
}

#[test]
fn first_registration_always_succeeds() {
    for _ in 0..50 {
        let mut s = server();
        assert!(s.register(registration("")).is_ok());
    }
}

#[test]
fn register_attempt_takes_a_free_id() {
    let mut s = server();
    let r = s.register_attempt(&"erin".to_string(), 1, 99);
    assert!(matches!(r, Some(Ok(ref reply)) if reply.session == 99));
    assert_eq!(s.member_name(99), Some("erin".to_string()));
}

#[test]
fn register_attempt_on_taken_id_retries_then_gives_up() {
    let mut s = server();
    assert!(s.try_claim_session(7, "alice".to_string()));
    assert!(s.register_attempt(&"bob".to_string(), 1, 7).is_none());
    assert!(s.register_attempt(&"bob".to_string(), 18, 7).is_none());
    let last = s.register_attempt(&"bob".to_string(), 19, 7);
    assert!(matches!(last, Some(Err(ChatError::OutOfSessions))));
    assert_eq!(s.member_name(7), Some("alice".to_string()));
    let free_at_last = s.register_attempt(&"bob".to_string(), 19, 8);
    assert!(matches!(free_at_last, Some(Ok(ref reply)) if reply.session == 8));
    assert_eq!(s.member_name(8), Some("bob".to_string()));
}

#[test]
fn register_attempt_does_not_depend_on_the_name() {
    let mut s = server();
    assert!(matches!(s.register_attempt(&String::new(), 1, 3), Some(Ok(_))));
    assert!(matches!(s.register_attempt(&String::new(), 1, 4), Some(Ok(_))));
    assert_eq!(s.member_name(3), Some(String::new()));
    assert_eq!(s.member_name(4), Some(String::new()));
}

#[test]
fn names_are_stored_unchanged_and_may_repeat() {
    let mut s = server();
    let a = s.register(registration(" spaced ")).unwrap();
    let b = s.register(registration(" spaced ")).unwrap();
    assert_ne!(a.session, b.session);
    assert_eq!(s.member_name(a.session), Some(" spaced ".to_string()));
    assert_eq!(s.member_name(b.session), Some(" spaced ".to_string()));
}

#[test]
fn registrations_get_distinct_sessions() {
    let mut s = server();
    let a = s.register(registration("alice")).unwrap();
    let b = s.register(registration("bob")).unwrap();
    let c = s.register(registration("alice")).unwrap();
    assert_ne!(a.session, b.session);
    assert_ne!(a.session, c.session);
    assert_ne!(b.session, c.session);
    assert_eq!(s.member_name(a.session), Some("alice".to_string()));
    assert_eq!(s.member_name(b.session), Some("bob".to_string()));
    assert_eq!(s.member_name(c.session), Some("alice".to_string()));
}

#[test]
fn claiming_a_taken_session_fails() {
    let mut s = server();
    assert!(s.try_claim_session(42, "alice".to_string()));
    assert!(!s.try_claim_session(42, "mallory".to_string()));
    assert_eq!(s.member_name(42), Some("alice".to_string()));
    assert!(s.try_claim_session(43, "bob".to_string()));
    assert_eq!(s.member_name(43), Some("bob".to_string()));
}

#[test]
fn say_logs_under_the_registered_name() {
    let mut s = server();
    let reply = s.register(registration("alice")).unwrap();
    assert!(s.say(line(reply.session, "hello")).is_ok());
    assert_eq!(s.messages().len(), 1);
    let m = s.messages().get(0).unwrap();
    assert_eq!(m.name, "alice");
    assert_eq!(m.message, "hello");
}

#[test]
fn say_keeps_the_text_as_sent() {
    let mut s = server();
    assert!(s.try_claim_session(7, "carol".to_string()));
    assert!(s.say(line(7, "  spaced  ")).is_ok());
    assert_eq!(s.messages().get(0).unwrap().message, "  spaced  ");
}

#[test]
fn say_with_unknown_session_is_refused() {
    let mut s = server();
    assert!(s.try_claim_session(1, "alice".to_string()));
    let r = s.say(line(2, "hello"));
    assert_eq!(r.err(), Some(ChatError::SessionNotFound));
    assert_eq!(s.messages().len(), 0);
    assert!(s.member_name(2).is_none());
}

#[test]
fn listen_with_unknown_session_is_refused() {
    let s = server();
    assert_eq!(s.listen(listen_for(5)).err(), Some(ChatError::SessionNotFound));
}

#[test]
fn listener_replays_from_the_start() {
    let mut s = server();
    assert!(s.try_claim_session(1, "alice".to_string()));
    assert!(s.try_claim_session(2, "bob".to_string()));
    assert!(s.say(line(1, "first")).is_ok());
    assert!(s.say(line(2, "second")).is_ok());
    let mut reader = s.listen(listen_for(2)).ok().unwrap();
    assert_eq!(reader.next_index(), 0);
    let a = reader.next(s.messages()).unwrap();
    assert_eq!((a.name.as_str(), a.message.as_str()), ("alice", "first"));
    let b = reader.next(s.messages()).unwrap();
    assert_eq!((b.name.as_str(), b.message.as_str()), ("bob", "second"));
    assert!(reader.next(s.messages()).is_none());
    assert_eq!(reader.next_index(), 2);
    assert!(s.say(line(1, "third")).is_ok());
    let c = reader.next(s.messages()).unwrap();
    assert_eq!((c.name.as_str(), c.message.as_str()), ("alice", "third"));
    assert!(reader.next(s.messages()).is_none());
}

#[test]
fn readers_are_independent() {
    let mut log = MessageLogWriter::new();
    let mut r1 = log.reader();
    log.write(ChatMessage { name: "a".to_string(), message: "x".to_string() });
    let mut r2 = log.reader();
    assert_eq!(r1.next(&log).unwrap().message, "x");
    assert!(r1.next(&log).is_none());
    log.write(ChatMessage { name: "b".to_string(), message: "y".to_string() });
    assert_eq!(r2.next(&log).unwrap().message, "x");
    assert_eq!(r1.next(&log).unwrap().message, "y");
    assert_eq!(r2.next(&log).unwrap().message, "y");
    assert!(r1.next(&log).is_none());
    assert!(r2.next(&log).is_none());
}

#[test]
fn log_write_and_get() {
    let mut log = MessageLogWriter::new();
    assert_eq!(log.len(), 0);
    assert!(log.get(0).is_none());
    log.write(ChatMessage { name: "n".to_string(), message: "m".to_string() });
    assert_eq!(log.len(), 1);
    let m = log.get(0).unwrap();
    assert_eq!(m.name, "n");
    assert_eq!(m.message, "m");
    assert!(log.get(1).is_none());
}

#[test]
fn into_sent_keeps_name_and_text() {
    let m = ChatMessage { name: "dora".to_string(), message: "hi there".to_string() };
    let sent = m.into_sent();
    assert_eq!(sent.name, "dora");
    assert_eq!(sent.message, "hi there");
}

#[test]
fn error_texts() {
    assert_eq!(ChatError::OutOfSessions.message(), "Ran out of sessions");
    assert_eq!(ChatError::SessionNotFound.message(), "Session id not found");
}
