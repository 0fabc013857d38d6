use berry_lib::bot::{get_custom_commands, Bot, MessageAction};
use berry_lib::commands::{Command, CommandHandler, CustomCommand, PingCommand, Reply, TestCommand};
use berry_lib::connection::{ConnectionState, ReadEvent, ReadOutcome, Step, TwitchChatConnection};
use berry_lib::error::{ModerationError, TwitchError};
use berry_lib::message::TwitchMessage;
use berry_lib::moderation::{Category, ModerationScores, PunishmentAction};
use berry_lib::service::TwitchService;
use berry_lib::storage::{add_bot, get_bot, remove_bot, BotStorage};

fn zero() -> ModerationScores {
    ModerationScores {
        harassment: 0,
        harassment_threatening: 0,
        hate: 0,
        hate_threatening: 0,
        self_harm: 0,
        self_harm_instructions: 0,
        self_harm_intent: 0,
        sexual: 0,
        sexual_minors: 0,
        violence: 0,
        violence_graphic: 0,
    }
}

fn message(text: &str) -> TwitchMessage {
    TwitchMessage {
        channel: "foo".to_string(),
        sender: "someone".to_string(),
        user_id: "99".to_string(),
        text: text.to_string(),
    }
}

fn listening_bot(channel: &str) -> Bot {
    let mut bot = Bot::new("tok".to_string(), channel.to_string(), "berry".to_string(), get_custom_commands());
    bot.api.connect_and_authenticate();
    bot.api.handshake_finished(true).unwrap();
    assert!(bot.api.listen());
    bot
}

fn name_of(c: Option<&Command>) -> Option<String> {
    c.map(|c| c.get_name())
}

#[test]
fn ping_resolves_to_pong() {
    let h = CommandHandler::new(vec![]);
    let c = h.get_command("!ping").unwrap();
    assert_eq!(c.execute(&message("!ping")), "Pong!");
    assert_eq!(PingCommand.get_action(), "!ping");
    assert_eq!(TestCommand.execute(&message("!test")), "Test Works!");
}

#[test]
fn text_without_marker_resolves_to_nothing() {
    let h = CommandHandler::new(get_custom_commands());
    assert!(h.get_command("ping").is_none());
    assert!(h.get_command("").is_none());
    assert!(h.get_command("hello !ping").is_none());
}

#[test]
fn lookup_is_case_folded() {
    let h = CommandHandler::new(vec![]);
    assert_eq!(name_of(h.get_command("!PiNg")), Some("ping".to_string()));
    assert_eq!(name_of(h.get_command("!TEST")), Some("test".to_string()));
}

#[test]
fn lookup_is_exact_not_prefix() {
    let h = CommandHandler::new(vec![]);
    assert!(h.get_command("!pingpong").is_none());
    assert!(h.get_command("!ping ").is_none());
    assert!(h.get_command("!").is_none());
}

#[test]
fn builtin_wins_name_clash() {
    let custom = CustomCommand {
        name: "ping".to_string(),
        action: "!ping".to_string(),
        reply: Reply::Fixed("custom".to_string()),
    };
    let h = CommandHandler::new(vec![custom]);
    assert_eq!(h.get_command("!ping").unwrap().execute(&message("!ping")), "Pong!");
}

#[test]
fn custom_command_answers() {
    let h = CommandHandler::new(get_custom_commands());
    let c = h.get_command("!hello").unwrap();
    assert_eq!(c.execute(&message("!hello")), "Hello from Rust! !hello");
    let fixed = CustomCommand {
        name: "rules".to_string(),
        action: "!rules".to_string(),
        reply: Reply::Fixed("Be nice".to_string()),
    };
    assert_eq!(fixed.get_action(), "!rules");
    let h = CommandHandler::new(vec![fixed]);
    assert_eq!(h.find_command("rules").unwrap().execute(&message("!rules")), "Be nice");
}

#[test]
fn ping_in_channel_is_answered_once() {
    let mut bot = listening_bot("foo");
    let outcome = bot.api.on_read(ReadEvent::Data(b":viewer!viewer@viewer.tmi.twitch.tv PRIVMSG #foo :!ping\r\n".to_vec()));
    let steps = match outcome {
        ReadOutcome::Steps(steps) => steps,
        _ => panic!("expected steps"),
    };
    assert_eq!(steps.len(), 1);
    let mut sent = Vec::new();
    for step in &steps {
        if let Step::Deliver(m) = step {
            match bot.handle_message(m, Ok(zero())) {
                MessageAction::Respond(line) => sent.push(line),
                other => panic!("unexpected action {:?}", other),
            }
        }
    }
    assert_eq!(sent, vec!["PRIVMSG #foo :Pong!\r\n".to_string()]);
}

#[test]
fn flagged_message_is_punished_not_answered() {
    let bot = listening_bot("foo");
    let mut s = zero();
    s.hate = 990;
    match bot.handle_message(&message("!ping"), Ok(s)) {
        MessageAction::Punish(f) => {
            assert_eq!(f.username, "someone");
            assert_eq!(f.user_id, "99");
            assert_eq!(f.text, "!ping");
            assert!(f.verdict.flagged);
            assert_eq!(f.verdict.category, Some(Category::Hate));
            assert_eq!(f.verdict.punishment, PunishmentAction::Timeout(60));
        }
        other => panic!("unexpected action {:?}", other),
    }
}

#[test]
fn classifier_error_means_no_action() {
    let bot = listening_bot("foo");
    assert!(matches!(bot.handle_message(&message("!ping"), Err(ModerationError::ApiError)), MessageAction::Ignore));
    assert!(matches!(bot.handle_message(&message("!ping"), Err(ModerationError::ConnectionError)), MessageAction::Ignore));
}

#[test]
fn unknown_command_is_silent() {
    let bot = listening_bot("foo");
    assert!(matches!(bot.handle_message(&message("!nope"), Ok(zero())), MessageAction::Ignore));
    assert!(matches!(bot.handle_message(&message("hi all"), Ok(zero())), MessageAction::Ignore));
}

#[test]
fn handshake_lines_in_order() {
    let mut c = TwitchChatConnection::new("abc".to_string(), "chan".to_string(), "nick".to_string());
    assert_eq!(c.get_state(), ConnectionState::Disconnected);
    let lines = c.connect_and_authenticate();
    assert_eq!(
        lines,
        vec![
            "CAP REQ :twitch.tv/tags twitch.tv/commands twitch.tv/membership\r\n".to_string(),
            "PASS oauth:abc\r\n".to_string(),
            "NICK nick\r\n".to_string(),
            "JOIN #chan\r\n".to_string(),
        ]
    );
    assert_eq!(c.get_state(), ConnectionState::Connecting);
    assert_eq!(c.handshake_finished(true), Ok(()));
    assert_eq!(c.get_state(), ConnectionState::Authenticated);
}

#[test]
fn failed_handshake_faults() {
    let mut c = TwitchChatConnection::new("abc".to_string(), "chan".to_string(), "nick".to_string());
    c.connect_and_authenticate();
    assert_eq!(c.handshake_finished(false), Err(TwitchError::ConnectionError));
    assert_eq!(c.get_state(), ConnectionState::Faulted);
    assert!(!c.listen());
}

#[test]
fn keepalive_is_echoed() {
    let mut bot = listening_bot("foo");
    match bot.api.on_read(ReadEvent::Data(b"PING :tmi.twitch.tv\r\n".to_vec())) {
        ReadOutcome::Steps(steps) => {
            assert_eq!(steps.len(), 1);
            match &steps[0] {
                Step::Reply(l) => assert_eq!(l, "PONG :tmi.twitch.tv\r\n"),
                other => panic!("unexpected step {:?}", other),
            }
        }
        _ => panic!("expected steps"),
    }
}

#[test]
fn no_data_backs_off_and_failure_faults() {
    let mut bot = listening_bot("foo");
    assert!(matches!(bot.api.on_read(ReadEvent::NoData), ReadOutcome::Backoff));
    assert_eq!(bot.api.get_state(), ConnectionState::Listening);
    assert!(matches!(bot.api.on_read(ReadEvent::Closed), ReadOutcome::Fatal(TwitchError::ConnectionError)));
    assert_eq!(bot.api.get_state(), ConnectionState::Faulted);
}

#[test]
fn malformed_line_is_skipped() {
    let mut bot = listening_bot("foo");
    match bot.api.on_read(ReadEvent::Data(b"PRIVMSG #foo :x\r\n".to_vec())) {
        ReadOutcome::Steps(steps) => {
            assert_eq!(steps.len(), 1);
            assert!(matches!(steps[0], Step::Skip));
        }
        _ => panic!("expected steps"),
    }
    assert!(matches!(bot.api.on_read(ReadEvent::Failed), ReadOutcome::Fatal(_)));
}

#[test]
fn chat_line_and_disconnect() {
    let mut bot = listening_bot("foo");
    assert_eq!(bot.api.send_chat_message("hi"), "PRIVMSG #foo :hi\r\n");
    assert_eq!(bot.api.get_channel(), "foo");
    assert_eq!(bot.disconnect(), Some("PART #foo\r\n".to_string()));
    assert_eq!(bot.api.get_state(), ConnectionState::Disconnected);
    assert_eq!(bot.disconnect(), None);
}

#[test]
fn registry_refuses_second_bot_for_channel() {
    let mut storage = BotStorage::new();
    assert_eq!(add_bot(&mut storage, "foo".to_string(), 1), Ok(()));
    assert_eq!(add_bot(&mut storage, "foo".to_string(), 2), Err(TwitchError::RegistryConflict));
    assert_eq!(get_bot(&storage, "foo"), Some(1));
    assert_eq!(add_bot(&mut storage, "bar".to_string(), 3), Ok(()));
    assert_eq!(get_bot(&storage, "bar"), Some(3));
}

#[test]
fn registry_remove_is_idempotent() {
    let mut storage = BotStorage::new();
    remove_bot(&mut storage, "foo");
    assert_eq!(get_bot(&storage, "foo"), None);
    add_bot(&mut storage, "foo".to_string(), 1).unwrap();
    remove_bot(&mut storage, "foo");
    remove_bot(&mut storage, "foo");
    assert_eq!(get_bot(&storage, "foo"), None);
    assert_eq!(add_bot(&mut storage, "foo".to_string(), 4), Ok(()));
    assert_eq!(get_bot(&storage, "foo"), Some(4));
}

#[test]
fn service_starts_one_bot_per_channel() {
    let mut service = TwitchService::new("berry".to_string());
    let (h, bot) = service.connect_user("tok".to_string(), "foo".to_string(), get_custom_commands()).unwrap();
    assert_eq!(bot.api.get_channel(), "foo");
    assert_eq!(bot.api.get_state(), ConnectionState::Disconnected);
    assert_eq!(service.running_bot("foo"), Some(h));
    match service.connect_user("tok2".to_string(), "foo".to_string(), vec![]) {
        Err(e) => assert_eq!(e, TwitchError::RegistryConflict),
        Ok(_) => panic!("a second bot was started for the same channel"),
    }
    assert_eq!(service.running_bot("foo"), Some(h));
    let (h2, _) = service.connect_user("tok".to_string(), "bar".to_string(), vec![]).unwrap();
    assert_ne!(h, h2);
    service.disconnect_user("foo");
    assert_eq!(service.running_bot("foo"), None);
    assert_eq!(service.running_bot("bar"), Some(h2));
}
