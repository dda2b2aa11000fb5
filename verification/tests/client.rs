use rchat::client::ChatClient;
use rchat::protos::chat::Registered;
use rchat::text::{is_whitespace, trim};

#[test]
fn new_client_keeps_session() {
    assert_eq!(ChatClient::new(77).session(), 77);
}

#[test]
fn registered_takes_the_reply_session() {
    let mut reply = Registered::new();
    reply.set_session(1234);
    assert_eq!(ChatClient::registered(&reply).session(), 1234);
}

#[test]
fn register_request_carries_the_name() {
    let r = ChatClient::register_request("anon".to_string());
    assert_eq!(r.name, "anon");
}

#[test]
fn say_request_trims_and_tags_the_session() {
    let c = ChatClient::new(9);
    let m = c.say_request("  hello world \n");
    assert_eq!(m.session, 9);
    assert_eq!(m.message, "hello world");
}

#[test]
fn say_request_of_blank_line_is_empty() {
    let m = ChatClient::new(3).say_request(" \t\r\n");
    assert_eq!(m.message, "");
}

#[test]
fn listen_request_names_the_session() {
    assert_eq!(ChatClient::new(5).listen_request().session, 5);
}

#[test]
fn trim_examples() {
    assert_eq!(trim(""), "");
    assert_eq!(trim("abc"), "abc");
    assert_eq!(trim("  abc"), "abc");
    assert_eq!(trim("abc  "), "abc");
    assert_eq!(trim(" a b c "), "a b c");
    assert_eq!(trim("\u{3000}x\u{a0}"), "x");
    assert_eq!(trim("\u{2028}\u{85}é\u{200a}"), "é");
    assert_eq!(trim("\u{200b}x\u{200b}"), "\u{200b}x\u{200b}");
}

#[test]
fn trim_matches_std_trim() {
    let samples = [
        "", " ", "x", " x", "x ", "\t\tline\n", "\u{1680}a\u{1680}", "\u{feff}a", "a\u{205f}",
        "ünï côdé  ", "\u{2029}\u{202f} z \u{3000}",
    ];
    for s in samples.iter() {
        assert_eq!(trim(s), s.trim());
    }
}

#[test]
fn trim_is_idempotent_on_examples() {
    for s in [" a ", "\n\nb\t", "  ", "c"].iter() {
        let once = trim(s);
        assert_eq!(trim(&once), once);
    }
}

#[test]
fn whitespace_agrees_with_std() {
    for u in 0u32..0x11_0000 {
        if let Some(c) = char::from_u32(u) {
            assert_eq!(is_whitespace(c), c.is_whitespace(), "code point {:x}", u);
        }
    }
}

#[test]
fn say_request_of_trimmed_line_is_the_same() {
    let c = ChatClient::new(11);
    for line in ["  hi  ", "hi", "\u{3000}hi\n", "   ", ""].iter() {
        let once = c.say_request(line);
        let again = c.say_request(&trim(line));
        assert_eq!(once.message, again.message);
        assert_eq!(once.session, again.session);
    }
}
