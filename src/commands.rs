//! Chat commands and their resolution.
//!
//! A message names a command when it begins with `!`; the rest of the message,
//! lower-cased, must equal the command's name exactly. Built-in commands are
//! looked up before custom ones, so a built-in wins a clash of names.

use vstd::prelude::*;
use crate::message::TwitchMessage;
use crate::text::{lower_of, lowercase};

verus! {

/// The built-in `!ping` command.
#[derive(Clone, Copy, Debug)]
pub struct PingCommand;

/// The built-in `!test` command.
#[derive(Clone, Copy, Debug)]
pub struct TestCommand;

/// How a custom command answers.
#[derive(Debug)]
pub enum Reply {
    /// Always the same text.
    Fixed(String),
    /// The given text followed by the text of the message that invoked it.
    Prefixed(String),
}

/// A command supplied for one channel.
#[derive(Debug)]
pub struct CustomCommand {
    /// The lookup name, without the leading `!`.
    pub name: String,
    /// The trigger as typed in chat, with the leading `!`.
    pub action: String,
    pub reply: Reply,
}

/// A built-in or custom command.
#[derive(Debug)]
pub enum Command {
    Ping(PingCommand),
    Test(TestCommand),
    Custom(CustomCommand),
}

pub open spec fn pong_text() -> Seq<char> {
    seq!['P', 'o', 'n', 'g', '!']
}

pub open spec fn test_text() -> Seq<char> {
    seq!['T', 'e', 's', 't', ' ', 'W', 'o', 'r', 'k', 's', '!']
}

pub open spec fn ping_name() -> Seq<char> {
    seq!['p', 'i', 'n', 'g']
}

pub open spec fn test_name() -> Seq<char> {
    seq!['t', 'e', 's', 't']
}

/// The name a command is looked up by.
pub open spec fn name_of(c: Command) -> Seq<char> {
    match c {
        Command::Ping(_) => ping_name(),
        Command::Test(_) => test_name(),
        Command::Custom(cc) => cc.name@,
    }
}

/// The trigger of a command, as typed in chat.
pub open spec fn action_of(c: Command) -> Seq<char> {
    seq!['!'] + name_of(c)
}

/// What a command answers to a message with text `text`.
pub open spec fn response_of(c: Command, text: Seq<char>) -> Seq<char> {
    match c {
        Command::Ping(_) => pong_text(),
        Command::Test(_) => test_text(),
        Command::Custom(cc) => match cc.reply {
            Reply::Fixed(s) => s@,
            Reply::Prefixed(p) => p@ + text,
        },
    }
}

impl PingCommand {
    pub fn execute(&self, _message: &TwitchMessage) -> (r: String)
        ensures
            r@ == pong_text(),
    {
        proof {
            reveal_strlit("Pong!");
        }
        let r = "Pong!".to_owned();
        assert(r@ =~= pong_text());
        r
    }

    pub fn get_name(&self) -> (r: String)
        ensures
            r@ == ping_name(),
    {
        proof {
            reveal_strlit("ping");
        }
        let r = "ping".to_owned();
        assert(r@ =~= ping_name());
        r
    }

    pub fn get_action(&self) -> (r: String)
        ensures
            r@ == seq!['!'] + ping_name(),
    {
        proof {
            reveal_strlit("!ping");
        }
        let r = "!ping".to_owned();
        assert(r@ =~= seq!['!'] + ping_name());
        r
    }
}

impl TestCommand {
    pub fn execute(&self, _message: &TwitchMessage) -> (r: String)
        ensures
            r@ == test_text(),
    {
        proof {
            reveal_strlit("Test Works!");
        }
        let r = "Test Works!".to_owned();
        assert(r@ =~= test_text());
        r
    }

    pub fn get_name(&self) -> (r: String)
        ensures
            r@ == test_name(),
    {
        proof {
            reveal_strlit("test");
        }
        let r = "test".to_owned();
        assert(r@ =~= test_name());
        r
    }

    pub fn get_action(&self) -> (r: String)
        ensures
            r@ == seq!['!'] + test_name(),
    {
        proof {
            reveal_strlit("!test");
        }
        let r = "!test".to_owned();
        assert(r@ =~= seq!['!'] + test_name());
        r
    }
}

impl CustomCommand {
    pub fn execute(&self, message: &TwitchMessage) -> (r: String)
        ensures
            r@ == response_of(Command::Custom(*self), message.text@),
    {
        match &self.reply {
            Reply::Fixed(s) => s.clone(),
            Reply::Prefixed(p) => {
                let mut r = p.clone();
                r.append(message.text.as_str());
                r
            },
        }
    }

    pub fn get_name(&self) -> (r: String)
        ensures
            r@ == self.name@,
    {
        self.name.clone()
    }

    pub fn get_action(&self) -> (r: String)
        ensures
            r@ == self.action@,
    {
        self.action.clone()
    }
}

impl Command {
    /// The answer to `message`.
    pub fn execute(&self, message: &TwitchMessage) -> (r: String)
        ensures
            r@ == response_of(*self, message.text@),
    {
        match self {
            Command::Ping(c) => c.execute(message),
            Command::Test(c) => c.execute(message),
            Command::Custom(c) => c.execute(message),
        }
    }

    /// The name the command is looked up by.
    pub fn get_name(&self) -> (r: String)
        ensures
            r@ == name_of(*self),
    {
        match self {
            Command::Ping(c) => c.get_name(),
            Command::Test(c) => c.get_name(),
            Command::Custom(c) => c.get_name(),
        }
    }
}

/// The lookup key of a message: the text after a leading `!`, lower-cased;
/// `None` when the message does not begin with `!`.
pub open spec fn command_key(text: Seq<char>) -> Option<Seq<char>> {
    if text.len() > 0 && text[0] == '!' {
        Some(lower_of(text.drop_first()))
    } else {
        None
    }
}

/// The first index at or after `i` of a command named `key`, or `cmds.len()`.
pub open spec fn name_index(cmds: Seq<Command>, key: Seq<char>, i: int) -> int
    decreases cmds.len() - i,
{
    if i < 0 || i >= cmds.len() {
        cmds.len() as int
    } else if name_of(cmds[i]) == key {
        i
    } else {
        name_index(cmds, key, i + 1)
    }
}

/// The first command named `key` in `cmds`.
pub open spec fn first_named(cmds: Seq<Command>, key: Seq<char>) -> Option<Command> {
    let i = name_index(cmds, key, 0);
    if i < cmds.len() {
        Some(cmds[i])
    } else {
        None
    }
}

/// Built-in and custom commands of one channel.
#[derive(Debug)]
pub struct CommandHandler {
    pub builtin_commands: Vec<Command>,
    pub custom_commands: Vec<Command>,
}

/// The built-in commands, in lookup order.
pub open spec fn builtin_set() -> Seq<Command> {
    seq![Command::Ping(PingCommand), Command::Test(TestCommand)]
}

impl CommandHandler {
    /// The built-in commands are exactly the built-in set.
    pub open spec fn well_formed(&self) -> bool {
        self.builtin_commands@ == builtin_set()
    }

    /// The command that the lookup key `key` names: the first built-in of that
    /// name, else the first custom command of that name.
    pub open spec fn command_named(&self, key: Seq<char>) -> Option<Command> {
        match first_named(self.builtin_commands@, key) {
            Some(c) => Some(c),
            None => first_named(self.custom_commands@, key),
        }
    }

    /// A handler with the built-in commands and the given custom commands.
    pub fn new(custom_commands: Vec<CustomCommand>) -> (r: CommandHandler)
        ensures
            r.well_formed(),
            r.custom_commands@ == custom_commands@.map_values(|c: CustomCommand| Command::Custom(c)),
    {
        let builtin_commands = vec![Command::Ping(PingCommand), Command::Test(TestCommand)];
        let ghost given = custom_commands@;
        let mut rest = custom_commands;
        let mut customs: Vec<Command> = Vec::new();
        while rest.len() > 0
            invariant
                customs@.len() + rest@.len() == given.len(),
                customs@ == given.subrange(0, customs@.len() as int).map_values(
                    |c: CustomCommand| Command::Custom(c),
                ),
                rest@ == given.subrange(customs@.len() as int, given.len() as int),
            decreases rest@.len(),
        {
            let c = rest.remove(0);
            let ghost k = customs@.len() as int;
            customs.push(Command::Custom(c));
            assert(customs@ =~= given.subrange(0, k + 1).map_values(
                |c: CustomCommand| Command::Custom(c),
            ));
            assert(rest@ =~= given.subrange(k + 1, given.len() as int));
        }
        assert(given.subrange(0, given.len() as int) =~= given);
        let r = CommandHandler { builtin_commands, custom_commands: customs };
        assert(r.builtin_commands@ =~= builtin_set());
        r
    }

    /// The command named by the lookup key `key`, which is compared exactly.
    pub fn find_command(&self, key: &str) -> (r: Option<&Command>)
        ensures
            match r {
                Some(c) => self.command_named(key@) == Some(*c),
                None => self.command_named(key@) is None,
            },
    {
        let k = key.to_owned();
        match first_with_name(&self.builtin_commands, &k) {
            Some(c) => Some(c),
            None => first_with_name(&self.custom_commands, &k),
        }
    }

    /// The command that a chat message invokes, if any: a message that does not
    /// begin with `!` invokes none.
    pub fn get_command(&self, message: &str) -> (r: Option<&Command>)
        ensures
            match command_key(message@) {
                Some(k) => match r {
                    Some(c) => self.command_named(k) == Some(*c),
                    None => self.command_named(k) is None,
                },
                None => r is None,
            },
    {
        let n = message.unicode_len();
        if n == 0 || message.get_char(0) != '!' {
            return None;
        }
        let rest = message.substring_char(1, n);
        assert(rest@ =~= message@.drop_first());
        let key = lowercase(rest);
        self.find_command(key.as_str())
    }
}

/// The first command in `cmds` named `key`.
fn first_with_name<'a>(cmds: &'a Vec<Command>, key: &String) -> (r: Option<&'a Command>)
    ensures
        match r {
            Some(c) => first_named(cmds@, key@) == Some(*c),
            None => first_named(cmds@, key@) is None,
        },
{
    let mut i: usize = 0;
    while i < cmds.len()
        invariant
            i <= cmds@.len(),
            name_index(cmds@, key@, i as int) == name_index(cmds@, key@, 0),
        decreases cmds@.len() - i,
    {
        let name = cmds[i].get_name();
        if name == *key {
            return Some(&cmds[i]);
        }
        i = i + 1;
    }
    None
}

/// `!ping` always answers `Pong!`: whatever the custom commands, the lookup key
/// `ping` names the built-in ping command.
pub proof fn lemma_ping_answers_pong(h: CommandHandler, text: Seq<char>)
    requires
        h.well_formed(),
    ensures
        h.command_named(ping_name()) == Some(Command::Ping(PingCommand)),
        response_of(Command::Ping(PingCommand), text) == pong_text(),
{
    assert(name_of(h.builtin_commands@[0]) == ping_name());
}

/// A message that does not begin with the command marker names no command.
pub proof fn lemma_unmarked_text_is_silent(text: Seq<char>)
    requires
        text.len() == 0 || text[0] != '!',
    ensures
        command_key(text) is None,
{
}

} // verus!
