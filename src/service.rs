//! Starting and stopping the bots of many channels.
//!
//! The service owns the registry. Starting a bot for a channel builds it and
//! registers it under a fresh handle; the caller then runs it as a task of its
//! own. A channel that already has a bot is refused.

use vstd::prelude::*;
use crate::bot::Bot;
use crate::commands::{Command, CustomCommand};
use crate::connection::ConnectionState;
use crate::error::TwitchError;
use crate::storage::{add_bot, get_bot, no_bots, remove_bot, BotStorage};

verus! {

/// The registry of running bots, and the nickname they log in with.
pub struct TwitchService {
    bots: BotStorage,
    bot_nickname: String,
    next_handle: u64,
}

impl TwitchService {
    /// Channel names mapped to the handles of their running bots.
    pub closed spec fn registry(&self) -> Map<Seq<char>, u64> {
        self.bots@
    }

    /// The nickname the bots log in with.
    pub closed spec fn nickname(&self) -> Seq<char> {
        self.bot_nickname@
    }

    /// A service with no bot running.
    pub fn new(bot_nickname: String) -> (r: TwitchService)
        ensures
            r.registry() == no_bots(),
            r.nickname() == bot_nickname@,
    {
        TwitchService { bots: BotStorage::new(), bot_nickname, next_handle: 0 }
    }

    /// Starts a bot for `channel`, authenticating with `token`: returns its
    /// handle and the disconnected bot, to be run by the caller. A channel that
    /// already has a bot keeps it, and `RegistryConflict` is returned.
    pub fn connect_user(
        &mut self,
        token: String,
        channel: String,
        custom_commands: Vec<CustomCommand>,
    ) -> (r: Result<(u64, Bot), TwitchError>)
        ensures
            final(self).nickname() == old(self).nickname(),
            old(self).registry().contains_key(channel@) ==> (r matches Err(e) && e
                == TwitchError::RegistryConflict) && final(self).registry() == old(self).registry(),
            !old(self).registry().contains_key(channel@) ==> (r matches Ok((h, bot)) && {
                &&& final(self).registry() == old(self).registry().insert(channel@, h)
                &&& bot.api.state() == ConnectionState::Disconnected
                &&& bot.api.channel() == channel@
                &&& bot.api.auth_token() == token@
                &&& bot.api.nickname() == old(self).nickname()
                &&& bot.command_handler.well_formed()
                &&& bot.command_handler.custom_commands@ == custom_commands@.map_values(
                    |c: CustomCommand| Command::Custom(c),
                )
            }),
    {
        let handle = self.next_handle;
        match add_bot(&mut self.bots, channel.clone(), handle) {
            Err(e) => Err(e),
            Ok(()) => {
                self.next_handle = self.next_handle.wrapping_add(1);
                let bot = Bot::new(token, channel, self.bot_nickname.clone(), custom_commands);
                Ok((handle, bot))
            },
        }
    }

    /// The handle of the bot running for `channel`, if any.
    pub fn running_bot(&self, channel: &str) -> (r: Option<u64>)
        ensures
            match r {
                Some(h) => self.registry().contains_key(channel@) && self.registry()[channel@] == h,
                None => !self.registry().contains_key(channel@),
            },
    {
        get_bot(&self.bots, channel)
    }

    /// Forgets the bot of `channel`, once its task has stopped reading; a
    /// channel without a bot is left alone.
    pub fn disconnect_user(&mut self, channel: &str)
        ensures
            final(self).registry() == old(self).registry().remove(channel@),
            final(self).nickname() == old(self).nickname(),
    {
        remove_bot(&mut self.bots, channel);
    }
}

} // verus!
