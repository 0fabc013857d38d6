use berry_lib::codec::{classify_line, Frame, LineCodec};
use berry_lib::error::TwitchError;
use berry_lib::message::parse_chat_message;

fn chat(f: &Result<Frame, TwitchError>) -> (String, String, String, String) {
    match f {
        Ok(Frame::Chat(m)) => (m.channel.clone(), m.sender.clone(), m.user_id.clone(), m.text.clone()),
        _ => panic!("expected a chat frame"),
    }
}

#[test]
fn parses_untagged_chat_line() {
    let m = parse_chat_message(":foo!foo@foo.tmi.twitch.tv PRIVMSG #bar :hello there").unwrap();
    assert_eq!(m.channel, "bar");
    assert_eq!(m.sender, "foo");
    assert_eq!(m.user_id, "");
    assert_eq!(m.text, "hello there");
}

#[test]
fn tags_override_the_sender_of_the_prefix() {
    let line = "@badge-info=;display-name=FooBar;user-id=12345 :foobar!foobar@foobar.tmi.twitch.tv PRIVMSG #chan :hi";
    let m = parse_chat_message(line).unwrap();
    assert_eq!(m.sender, "FooBar");
    assert_eq!(m.user_id, "12345");
    assert_eq!(m.channel, "chan");
    assert_eq!(m.text, "hi");
}

#[test]
fn empty_display_name_falls_back_to_prefix() {
    let line = "@display-name=;user-id=7 :foo!foo@host PRIVMSG #chan :hi";
    let m = parse_chat_message(line).unwrap();
    assert_eq!(m.sender, "foo");
    assert_eq!(m.user_id, "7");
}

#[test]
fn tag_order_does_not_matter() {
    let a = "@display-name=Ann;color=#FF0000;user-id=42 :ann!ann@host PRIVMSG #room :  good day  ";
    let b = "@user-id=42;display-name=Ann;color=#FF0000 :ann!ann@host PRIVMSG #room :  good day  ";
    let c = "@color=#FF0000;user-id=42;display-name=Ann :ann!ann@host PRIVMSG #room :  good day  ";
    let ma = parse_chat_message(a).unwrap();
    for other in [b, c] {
        let mo = parse_chat_message(other).unwrap();
        assert_eq!(ma.sender, mo.sender);
        assert_eq!(ma.user_id, mo.user_id);
        assert_eq!(ma.text, mo.text);
    }
    assert_eq!(ma.text, "good day");
}

#[test]
fn body_keeps_inner_spaces_and_colons() {
    let m = parse_chat_message(":a!a@h PRIVMSG #c :one two: three ").unwrap();
    assert_eq!(m.text, "one two: three");
}

#[test]
fn fewer_than_four_tokens_is_malformed() {
    assert!(parse_chat_message("PRIVMSG #foo :!ping").is_none());
    match classify_line("PRIVMSG #foo :!ping") {
        Some(Err(e)) => assert_eq!(e, TwitchError::MessageParseError),
        _ => panic!("expected a malformed frame"),
    }
}

#[test]
fn empty_body_is_malformed() {
    assert!(parse_chat_message(":a!a@h PRIVMSG #c :   ").is_none());
}

#[test]
fn empty_channel_is_malformed() {
    assert!(parse_chat_message(":a!a@h PRIVMSG # :hi").is_none());
}

#[test]
fn keepalive_payload_is_kept() {
    match classify_line("PING :tmi.twitch.tv") {
        Some(Ok(Frame::Keepalive(p))) => assert_eq!(p, ":tmi.twitch.tv"),
        _ => panic!("expected a keepalive"),
    }
}

#[test]
fn other_lines_are_dropped() {
    assert!(classify_line(":tmi.twitch.tv 001 bot :Welcome, GLHF!").is_none());
    assert!(classify_line("").is_none());
}

#[test]
fn codec_cuts_complete_lines() {
    let mut codec = LineCodec::new();
    let frames = codec.feed(b"PING :a\r\n:x!x@h PRIVMSG #c :hey\r\n:tmi 001 bot :w\r\n");
    assert_eq!(frames.len(), 2);
    match &frames[0] {
        Ok(Frame::Keepalive(p)) => assert_eq!(p, ":a"),
        _ => panic!("expected a keepalive"),
    }
    assert_eq!(chat(&frames[1]), ("c".to_string(), "x".to_string(), "".to_string(), "hey".to_string()));
}

#[test]
fn partial_line_waits_for_its_terminator() {
    let mut codec = LineCodec::new();
    assert!(codec.feed(b":x!x@h PRIVMSG #c :he").is_empty());
    assert!(codec.feed(b"llo\r").is_empty());
    let frames = codec.feed(b"\nPING :b");
    assert_eq!(frames.len(), 1);
    assert_eq!(chat(&frames[0]).3, "hello");
    let frames = codec.feed(b"\r\n");
    assert_eq!(frames.len(), 1);
    match &frames[0] {
        Ok(Frame::Keepalive(p)) => assert_eq!(p, ":b"),
        _ => panic!("expected a keepalive"),
    }
}

#[test]
fn invalid_utf8_is_replaced() {
    let mut codec = LineCodec::new();
    let frames = codec.feed(b":x!x@h PRIVMSG #c :a\xffb\r\n");
    assert_eq!(chat(&frames[0]).3, "a\u{fffd}b");
}

#[test]
fn malformed_line_does_not_stop_later_lines() {
    let mut codec = LineCodec::new();
    let frames = codec.feed(b"PRIVMSG #c :x\r\n:y!y@h PRIVMSG #c :ok\r\n");
    assert_eq!(frames.len(), 2);
    assert!(matches!(frames[0], Err(TwitchError::MessageParseError)));
    assert_eq!(chat(&frames[1]).3, "ok");
}

#[test]
fn default_message_is_empty() {
    let m = berry_lib::message::TwitchMessage::default();
    assert!(m.channel.is_empty() && m.sender.is_empty() && m.user_id.is_empty() && m.text.is_empty());
}
