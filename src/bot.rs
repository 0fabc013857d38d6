//! A channel's bot: its connection, its commands, and what it does with each
//! chat message.
//!
//! Every message is moderated before anything else. A flagged message is
//! handed on for punishment and goes no further; otherwise a command it names
//! is answered in the channel. A classifier failure means no action for that
//! message.

use vstd::prelude::*;
use crate::commands::{command_key, response_of, Command, CommandHandler, CustomCommand, Reply};
use crate::connection::{chat_line, part_line, ConnectionState, TwitchChatConnection};
use crate::error::ModerationError;
use crate::message::{MessageView, TwitchMessage};
use crate::moderation::{decide, verdict_of, ModerationScores, ModerationVerdict};

verus! {

/// A flagged message, as handed to whoever carries out the punishment.
#[derive(Debug)]
pub struct FlaggedMessage {
    pub username: String,
    pub user_id: String,
    pub text: String,
    pub verdict: ModerationVerdict,
}

impl FlaggedMessage {
    pub fn new(username: &str, user_id: &str, text: &str, verdict: ModerationVerdict) -> (r:
        FlaggedMessage)
        ensures
            r.username@ == username@,
            r.user_id@ == user_id@,
            r.text@ == text@,
            r.verdict == verdict,
    {
        FlaggedMessage {
            username: username.to_owned(),
            user_id: user_id.to_owned(),
            text: text.to_owned(),
            verdict,
        }
    }
}

/// What the bot does with one chat message.
#[derive(Debug)]
pub enum MessageAction {
    /// The message was flagged: punish its sender.
    Punish(FlaggedMessage),
    /// Write this line to the channel.
    Respond(String),
    /// Do nothing.
    Ignore,
}

/// The contents of a `MessageAction`.
pub enum ActionView {
    /// Sender's name, sender's id, text, verdict.
    Punish(Seq<char>, Seq<char>, Seq<char>, ModerationVerdict),
    Respond(Seq<char>),
    Ignore,
}

pub open spec fn action_view(a: MessageAction) -> ActionView {
    match a {
        MessageAction::Punish(f) => ActionView::Punish(f.username@, f.user_id@, f.text@, f.verdict),
        MessageAction::Respond(l) => ActionView::Respond(l@),
        MessageAction::Ignore => ActionView::Ignore,
    }
}

/// A channel's bot.
pub struct Bot {
    pub api: TwitchChatConnection,
    pub command_handler: CommandHandler,
}

/// What a bot whose channel is `channel` and whose commands are `handler`
/// does with message `m`, given the classifier's answer.
pub open spec fn expected_action(
    channel: Seq<char>,
    handler: CommandHandler,
    m: MessageView,
    scores: Result<ModerationScores, ModerationError>,
) -> ActionView {
    match scores {
        Err(_) => ActionView::Ignore,
        Ok(s) => if verdict_of(s).flagged {
            ActionView::Punish(m.sender, m.user_id, m.text, verdict_of(s))
        } else {
            match command_key(m.text) {
                Some(k) => match handler.command_named(k) {
                    Some(c) => ActionView::Respond(chat_line(channel, response_of(c, m.text))),
                    None => ActionView::Ignore,
                },
                None => ActionView::Ignore,
            }
        },
    }
}

impl Bot {
    /// A disconnected bot for `channel` with the built-in commands and the given
    /// custom commands.
    pub fn new(
        access_token: String,
        channel: String,
        nickname: String,
        custom_commands: Vec<CustomCommand>,
    ) -> (r: Bot)
        ensures
            r.api.state() == ConnectionState::Disconnected,
            r.api.channel() == channel@,
            r.api.nickname() == nickname@,
            r.api.auth_token() == access_token@,
            r.command_handler.well_formed(),
            r.command_handler.custom_commands@ == custom_commands@.map_values(
                |c: CustomCommand| Command::Custom(c),
            ),
    {
        Bot {
            api: TwitchChatConnection::new(access_token, channel, nickname),
            command_handler: CommandHandler::new(custom_commands),
        }
    }

    /// Decides what to do with `message`, given the classifier's answer for its
    /// text: nothing on a classifier error; the punishment if it is flagged;
    /// else the answer of the command it names, if any.
    pub fn handle_message(
        &self,
        message: &TwitchMessage,
        scores: Result<ModerationScores, ModerationError>,
    ) -> (r: MessageAction)
        ensures
            action_view(r) == expected_action(
                self.api.channel(),
                self.command_handler,
                message@,
                scores,
            ),
    {
        let s = match scores {
            Ok(s) => s,
            Err(_) => return MessageAction::Ignore,
        };
        let verdict = decide(&s);
        if verdict.flagged {
            return MessageAction::Punish(
                FlaggedMessage::new(
                    message.sender.as_str(),
                    message.user_id.as_str(),
                    message.text.as_str(),
                    verdict,
                ),
            );
        }
        match self.command_handler.get_command(message.text.as_str()) {
            Some(command) => {
                let response = command.execute(message);
                MessageAction::Respond(self.api.send_chat_message(response.as_str()))
            },
            None => MessageAction::Ignore,
        }
    }

    /// Leaves the channel; see `TwitchChatConnection::disconnect`.
    pub fn disconnect(&mut self) -> (r: Option<String>)
        ensures
            old(self).api.state() == ConnectionState::Disconnected || old(self).api.state()
                == ConnectionState::Faulted ==> r is None && final(self).api.state() == old(
                self,
            ).api.state(),
            !(old(self).api.state() == ConnectionState::Disconnected || old(self).api.state()
                == ConnectionState::Faulted) ==> (r matches Some(l) && l@ == part_line(
                old(self).api.channel(),
            )) && final(self).api.state() == ConnectionState::Disconnected,
            final(self).api.channel() == old(self).api.channel(),
            final(self).command_handler == old(self).command_handler,
    {
        self.api.disconnect()
    }
}

/// The custom commands a channel starts with: `!hello`, which greets with the
/// text of the message.
pub fn get_custom_commands() -> (r: Vec<CustomCommand>)
    ensures
        r@.len() == 1,
        r@[0].name@ == "hello"@,
        r@[0].action@ == "!hello"@,
        r@[0].reply matches Reply::Prefixed(p) && p@ == "Hello from Rust! "@,
{
    vec![
        CustomCommand {
            name: "hello".to_owned(),
            action: "!hello".to_owned(),
            reply: Reply::Prefixed("Hello from Rust! ".to_owned()),
        },
    ]
}

} // verus!
