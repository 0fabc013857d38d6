//! One channel's connection, as a state machine.
//!
//! The connection decides what to write and how to react to what was read;
//! the caller owns the transport, performs the writes and reports the reads.
//! States: `Disconnected → Connecting → Authenticated → Listening`, and
//! `Faulted` after a transport failure.

use vstd::prelude::*;
use crate::codec::{frame_view, frames_of, split_lines, Frame, FrameView, LineCodec};
use crate::error::TwitchError;
use crate::message::{MessageView, TwitchMessage};

verus! {

/// Where a connection stands.
#[derive(Clone, Copy, Debug, PartialEq, Eq, Structural)]
pub enum ConnectionState {
    Disconnected,
    Connecting,
    Authenticated,
    Listening,
    Faulted,
}

/// What one read of the transport gave.
#[derive(Debug)]
pub enum ReadEvent {
    /// Some bytes arrived.
    Data(Vec<u8>),
    /// Nothing has arrived yet; not an error.
    NoData,
    /// The peer closed the stream.
    Closed,
    /// The read failed.
    Failed,
}

/// One thing to do for a frame that was read, in arrival order.
#[derive(Debug)]
pub enum Step {
    /// Write this keepalive reply at once.
    Reply(String),
    /// Hand this message to the message handler.
    Deliver(TwitchMessage),
    /// A malformed chat line was skipped.
    Skip,
}

/// What to do after one read.
#[derive(Debug)]
pub enum ReadOutcome {
    /// Carry out these steps in order, then read again.
    Steps(Vec<Step>),
    /// Wait for a bounded interval, then read again.
    Backoff,
    /// The connection is lost.
    Fatal(TwitchError),
}

/// What a step amounts to: a reply line, a delivered message, or a skip.
pub enum StepView {
    Reply(Seq<char>),
    Deliver(MessageView),
    Skip,
}

pub open spec fn step_view(s: Step) -> StepView {
    match s {
        Step::Reply(l) => StepView::Reply(l@),
        Step::Deliver(m) => StepView::Deliver(m@),
        Step::Skip => StepView::Skip,
    }
}

/// The capability request, the first line of the handshake.
pub open spec fn cap_request() -> Seq<char> {
    "CAP REQ :twitch.tv/tags twitch.tv/commands twitch.tv/membership\r\n"@
}

pub open spec fn line_end() -> Seq<char> {
    "\r\n"@
}

/// The handshake lines, in the order they are written.
pub open spec fn handshake_lines(token: Seq<char>, nickname: Seq<char>, channel: Seq<char>) -> Seq<
    Seq<char>,
> {
    seq![
        cap_request(),
        "PASS oauth:"@ + token + line_end(),
        "NICK "@ + nickname + line_end(),
        "JOIN #"@ + channel + line_end(),
    ]
}

/// The reply to a keepalive with payload `payload`.
pub open spec fn keepalive_reply(payload: Seq<char>) -> Seq<char> {
    "PONG "@ + payload + line_end()
}

/// The line that sends `text` to `channel`.
pub open spec fn chat_line(channel: Seq<char>, text: Seq<char>) -> Seq<char> {
    "PRIVMSG #"@ + channel + " :"@ + text + line_end()
}

/// The line that leaves `channel`.
pub open spec fn part_line(channel: Seq<char>) -> Seq<char> {
    "PART #"@ + channel + line_end()
}

/// The step that a frame calls for.
pub open spec fn step_for(f: FrameView) -> StepView {
    match f {
        FrameView::Keepalive(p) => StepView::Reply(keepalive_reply(p)),
        FrameView::Chat(m) => StepView::Deliver(m),
        FrameView::Malformed => StepView::Skip,
    }
}

/// `a + b + c` as a new string.
fn concat3(a: &str, b: &str, c: &str) -> (r: String)
    ensures
        r@ == a@ + b@ + c@,
{
    let mut r = a.to_owned();
    r.append(b);
    r.append(c);
    r
}

/// A channel's connection: its identity, its state and its line codec.
pub struct TwitchChatConnection {
    channel: String,
    nickname: String,
    auth_token: String,
    state: ConnectionState,
    codec: LineCodec,
}

impl TwitchChatConnection {
    /// The connection's state.
    pub closed spec fn state(&self) -> ConnectionState {
        self.state
    }

    /// The channel's name.
    pub closed spec fn channel(&self) -> Seq<char> {
        self.channel@
    }

    /// The nickname the connection logs in as.
    pub closed spec fn nickname(&self) -> Seq<char> {
        self.nickname@
    }

    /// The token the connection authenticates with.
    pub closed spec fn auth_token(&self) -> Seq<char> {
        self.auth_token@
    }

    /// The bytes of the partial line read so far.
    pub closed spec fn pending(&self) -> Seq<u8> {
        self.codec@
    }

    /// A disconnected connection for `channel`, logging in as `nickname`.
    pub fn new(auth_token: String, channel: String, nickname: String) -> (r: TwitchChatConnection)
        ensures
            r.state() == ConnectionState::Disconnected,
            r.pending() == Seq::<u8>::empty(),
            r.channel() == channel@,
            r.nickname() == nickname@,
            r.auth_token() == auth_token@,
    {
        TwitchChatConnection {
            channel,
            nickname,
            auth_token,
            state: ConnectionState::Disconnected,
            codec: LineCodec::new(),
        }
    }

    /// The channel's name.
    pub fn get_channel(&self) -> (r: &str)
        ensures
            r@ == self.channel(),
    {
        self.channel.as_str()
    }

    /// The connection's state.
    pub fn get_state(&self) -> (r: ConnectionState)
        ensures
            r == self.state(),
    {
        self.state
    }

    /// Starts the handshake: returns the capability request, `PASS`, `NICK`
    /// and `JOIN` lines, to be written in that order. Nothing read before is
    /// kept.
    pub fn connect_and_authenticate(&mut self) -> (r: Vec<String>)
        ensures
            r@.map_values(|l: String| l@) == handshake_lines(
                old(self).auth_token(),
                old(self).nickname(),
                old(self).channel(),
            ),
            final(self).state() == ConnectionState::Connecting,
            final(self).pending() == Seq::<u8>::empty(),
            final(self).channel() == old(self).channel(),
            final(self).nickname() == old(self).nickname(),
            final(self).auth_token() == old(self).auth_token(),
    {
        let cap = "CAP REQ :twitch.tv/tags twitch.tv/commands twitch.tv/membership\r\n".to_owned();
        let pass = concat3("PASS oauth:", self.auth_token.as_str(), "\r\n");
        let nick = concat3("NICK ", self.nickname.as_str(), "\r\n");
        let join = concat3("JOIN #", self.channel.as_str(), "\r\n");
        let lines = vec![cap, pass, nick, join];
        assert(lines@.map_values(|l: String| l@) =~= handshake_lines(
            self.auth_token@,
            self.nickname@,
            self.channel@,
        ));
        self.state = ConnectionState::Connecting;
        self.codec = LineCodec::new();
        lines
    }

    /// Records how the handshake writes went: all four written moves a
    /// connecting connection to `Authenticated`; anything else faults it.
    pub fn handshake_finished(&mut self, all_written: bool) -> (r: Result<(), TwitchError>)
        ensures
            old(self).state() == ConnectionState::Connecting && all_written ==> r is Ok
                && final(self).state() == ConnectionState::Authenticated,
            !(old(self).state() == ConnectionState::Connecting && all_written) ==> r == Err::<
                (),
                TwitchError,
            >(TwitchError::ConnectionError) && final(self).state() == ConnectionState::Faulted,
            final(self).pending() == old(self).pending(),
            final(self).channel() == old(self).channel(),
    {
        if self.state == ConnectionState::Connecting && all_written {
            self.state = ConnectionState::Authenticated;
            Ok(())
        } else {
            self.state = ConnectionState::Faulted;
            Err(TwitchError::ConnectionError)
        }
    }

    /// Starts the read loop of an authenticated connection.
    pub fn listen(&mut self) -> (r: bool)
        ensures
            r == (old(self).state() == ConnectionState::Authenticated),
            r ==> final(self).state() == ConnectionState::Listening,
            !r ==> final(self).state() == old(self).state(),
            final(self).pending() == old(self).pending(),
            final(self).channel() == old(self).channel(),
    {
        if self.state == ConnectionState::Authenticated {
            self.state = ConnectionState::Listening;
            true
        } else {
            false
        }
    }

    /// Reacts to one read of a listening connection. Bytes give one step per
    /// frame they complete, in arrival order: a keepalive reply, a message to
    /// handle, or a skipped malformed line. No data means back off and read
    /// again. A closed or failed stream faults the connection.
    pub fn on_read(&mut self, event: ReadEvent) -> (r: ReadOutcome)
        requires
            old(self).state() == ConnectionState::Listening,
        ensures
            final(self).channel() == old(self).channel(),
            match event {
                ReadEvent::Data(bytes) => {
                    let cut = split_lines(old(self).pending() + bytes@);
                    &&& (r matches ReadOutcome::Steps(steps) && steps@.map_values(
                        |s: Step| step_view(s),
                    ) == frames_of(cut.0).map_values(|f: FrameView| step_for(f)))
                    &&& final(self).pending() == cut.1
                    &&& final(self).state() == ConnectionState::Listening
                },
                ReadEvent::NoData => {
                    &&& r is Backoff
                    &&& final(self).state() == ConnectionState::Listening
                    &&& final(self).pending() == old(self).pending()
                },
                _ => {
                    &&& r == ReadOutcome::Fatal(TwitchError::ConnectionError)
                    &&& final(self).state() == ConnectionState::Faulted
                },
            },
    {
        match event {
            ReadEvent::Data(bytes) => {
                let mut frames = self.codec.feed(bytes.as_slice());
                let ghost fv = frames@.map_values(|f: Result<Frame, TwitchError>| frame_view(f));
                let mut steps: Vec<Step> = Vec::new();
                let ghost all = frames@;
                let total = frames.len();
                let mut done: usize = 0;
                while frames.len() > 0
                    invariant
                        done + frames@.len() == all.len(),
                        all.len() == total,
                        frames@ == all.subrange(done as int, all.len() as int),
                        steps@.map_values(|s: Step| step_view(s)) == all.subrange(
                            0,
                            done as int,
                        ).map_values(|f: Result<Frame, TwitchError>| step_for(frame_view(f))),
                    decreases frames@.len(),
                {
                    let f = frames.remove(0);
                    let ghost f0 = f;
                    assert(f0 == all[done as int]);
                    let step = match f {
                        Ok(Frame::Keepalive(payload)) => {
                            Step::Reply(concat3("PONG ", payload.as_str(), "\r\n"))
                        },
                        Ok(Frame::Chat(m)) => Step::Deliver(m),
                        Err(_) => Step::Skip,
                    };
                    assert(step_view(step) == step_for(frame_view(f0)));
                    let ghost before = steps@;
                    let ghost st = step;
                    steps.push(step);
                    proof {
                        assert(steps@.map_values(|s: Step| step_view(s)) =~= before.map_values(
                            |s: Step| step_view(s),
                        ).push(step_view(st)));
                        assert(all.subrange(0, done as int).push(f0).map_values(
                            |f: Result<Frame, TwitchError>| step_for(frame_view(f)),
                        ) =~= all.subrange(0, done as int).map_values(
                            |f: Result<Frame, TwitchError>| step_for(frame_view(f)),
                        ).push(step_for(frame_view(f0))));
                        assert(all.subrange(0, done + 1) =~= all.subrange(0, done as int).push(f0));
                        assert(steps@.map_values(|s: Step| step_view(s)) =~= all.subrange(
                            0,
                            done + 1,
                        ).map_values(|f: Result<Frame, TwitchError>| step_for(frame_view(f))));
                        assert(frames@ =~= all.subrange(done + 1, all.len() as int));
                    }
                    done = done + 1;
                }
                proof {
                    assert(all.subrange(0, all.len() as int) =~= all);
                    assert(all.map_values(|f: Result<Frame, TwitchError>| step_for(frame_view(f)))
                        =~= fv.map_values(|f: FrameView| step_for(f)));
                }
                ReadOutcome::Steps(steps)
            },
            ReadEvent::NoData => ReadOutcome::Backoff,
            _ => {
                self.state = ConnectionState::Faulted;
                ReadOutcome::Fatal(TwitchError::ConnectionError)
            },
        }
    }

    /// The line that sends `message` to the connection's channel.
    pub fn send_chat_message(&self, message: &str) -> (r: String)
        ensures
            r@ == chat_line(self.channel(), message@),
    {
        let mut r = concat3("PRIVMSG #", self.channel.as_str(), " :");
        r.append(message);
        r.append("\r\n");
        r
    }

    /// Leaves the channel: returns the `PART` line to write before the
    /// transport is shut down. On a connection that is already disconnected or
    /// faulted this does nothing and returns `None`.
    pub fn disconnect(&mut self) -> (r: Option<String>)
        ensures
            old(self).state() == ConnectionState::Disconnected || old(self).state()
                == ConnectionState::Faulted ==> r is None && final(self).state() == old(self).state(),
            !(old(self).state() == ConnectionState::Disconnected || old(self).state()
                == ConnectionState::Faulted) ==> (r matches Some(l) && l@ == part_line(
                old(self).channel(),
            )) && final(self).state() == ConnectionState::Disconnected,
            final(self).channel() == old(self).channel(),
    {
        match self.state {
            ConnectionState::Disconnected | ConnectionState::Faulted => None,
            _ => {
                self.state = ConnectionState::Disconnected;
                Some(concat3("PART #", self.channel.as_str(), "\r\n"))
            },
        }
    }
}

} // verus!
