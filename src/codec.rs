//! The line codec: turns the bytes read from a connection into frames.
//!
//! Lines end in CR LF. A line that begins with `PING` is a keepalive; a line
//! that holds `PRIVMSG` is a chat line; every other line is dropped. A line
//! whose terminator has not arrived yet stays in the codec until it does.

use vstd::prelude::*;
use vstd::slice::slice_subrange;
use crate::error::TwitchError;
use crate::message::{parse_chat, parse_chat_message, MessageView, TwitchMessage};
use crate::text::{
    chars_of, contains_exec, contains_seq, occurs_at_exec, starts_with, text_of, utf8_lossy,
};

verus! {

/// One frame read from a connection.
#[derive(Debug)]
pub enum Frame {
    /// A liveness probe; holds the payload to echo back.
    Keepalive(String),
    /// A chat message.
    Chat(TwitchMessage),
}

/// What a line amounts to.
pub enum FrameView {
    Keepalive(Seq<char>),
    Chat(MessageView),
    Malformed,
}

/// The view of a frame, or of the error for a malformed chat line.
pub open spec fn frame_view(r: Result<Frame, TwitchError>) -> FrameView {
    match r {
        Ok(Frame::Keepalive(p)) => FrameView::Keepalive(p@),
        Ok(Frame::Chat(m)) => FrameView::Chat(m@),
        Err(_) => FrameView::Malformed,
    }
}

pub open spec fn keepalive_marker() -> Seq<char> {
    seq!['P', 'I', 'N', 'G']
}

pub open spec fn chat_marker() -> Seq<char> {
    seq!['P', 'R', 'I', 'V', 'M', 'S', 'G']
}

/// What the text of one line amounts to; `None` for a line that is dropped.
///
/// A keepalive's payload is what follows the marker and one separator.
pub open spec fn frame_of_text(t: Seq<char>) -> Option<FrameView> {
    if starts_with(t, keepalive_marker()) {
        Some(FrameView::Keepalive(t.subrange(if t.len() < 5 { t.len() as int } else { 5 }, t.len() as int)))
    } else if contains_seq(t, chat_marker()) {
        match parse_chat(t) {
            Some(m) => Some(FrameView::Chat(m)),
            None => Some(FrameView::Malformed),
        }
    } else {
        None
    }
}

/// A CR LF pair starts at `i`.
pub open spec fn crlf_at(d: Seq<u8>, i: int) -> bool {
    0 <= i && i + 1 < d.len() && d[i] == 13u8 && d[i + 1] == 10u8
}

/// `d` holds a CR LF pair.
pub open spec fn has_crlf(d: Seq<u8>) -> bool {
    exists|i: int| crlf_at(d, i)
}

/// The first CR LF pair at or after `k`, or -1.
pub open spec fn first_crlf(d: Seq<u8>, k: int) -> int
    decreases d.len() - k,
{
    if k < 0 || k + 1 >= d.len() {
        -1
    } else if crlf_at(d, k) {
        k
    } else {
        first_crlf(d, k + 1)
    }
}

/// The complete lines of `d`, without terminators, and the unterminated rest.
pub open spec fn split_lines(d: Seq<u8>) -> (Seq<Seq<u8>>, Seq<u8>)
    decreases d.len(),
{
    let i = first_crlf(d, 0);
    if i < 0 || i + 2 > d.len() {
        (Seq::empty(), d)
    } else {
        let rest = split_lines(d.subrange(i + 2, d.len() as int));
        (seq![d.subrange(0, i)] + rest.0, rest.1)
    }
}

/// The frames that a sequence of complete lines gives, dropped lines left out.
pub open spec fn frames_of(lines: Seq<Seq<u8>>) -> Seq<FrameView>
    decreases lines.len(),
{
    if lines.len() == 0 {
        Seq::empty()
    } else {
        match frame_of_text(utf8_lossy(lines[0])) {
            Some(f) => seq![f] + frames_of(lines.drop_first()),
            None => frames_of(lines.drop_first()),
        }
    }
}

proof fn lemma_first_crlf(d: Seq<u8>, k: int)
    requires
        0 <= k,
    ensures
        first_crlf(d, k) == -1 || (k <= first_crlf(d, k) && crlf_at(d, first_crlf(d, k))),
        first_crlf(d, k) == -1 ==> forall|j: int| k <= j ==> !crlf_at(d, j),
        forall|j: int| k <= j < first_crlf(d, k) ==> !crlf_at(d, j),
    decreases d.len() - k,
{
    if k + 1 < d.len() && !crlf_at(d, k) {
        lemma_first_crlf(d, k + 1);
    }
}

/// What one complete line amounts to, as a frame; `None` for a dropped line.
pub fn classify_line(line: &str) -> (r: Option<Result<Frame, TwitchError>>)
    ensures
        match r {
            Some(f) => frame_of_text(line@) == Some(frame_view(f)),
            None => frame_of_text(line@) is None,
        },
        r matches Some(Err(e)) ==> e == TwitchError::MessageParseError,
{
    let t = chars_of(line);
    let ping = chars_of("PING");
    let privmsg = chars_of("PRIVMSG");
    proof {
        reveal_strlit("PING");
        reveal_strlit("PRIVMSG");
        assert(ping@ =~= keepalive_marker());
        assert(privmsg@ =~= chat_marker());
    }
    if occurs_at_exec(&t, 0, &ping) {
        let from: usize = if t.len() < 5 {
            t.len()
        } else {
            5
        };
        let payload = line.substring_char(from, t.len()).to_owned();
        Some(Ok(Frame::Keepalive(payload)))
    } else if contains_exec(&t, &privmsg) {
        match parse_chat_message(line) {
            Some(m) => Some(Ok(Frame::Chat(m))),
            None => Some(Err(TwitchError::MessageParseError)),
        }
    } else {
        None
    }
}

/// Buffers the bytes of a connection and cuts them into lines.
pub struct LineCodec {
    pending: Vec<u8>,
}

impl View for LineCodec {
    type V = Seq<u8>;

    /// The bytes of the line that has not been terminated yet.
    closed spec fn view(&self) -> Seq<u8> {
        self.pending@
    }
}

impl LineCodec {
    /// A codec with nothing pending.
    pub fn new() -> (r: LineCodec)
        ensures
            r@ == Seq::<u8>::empty(),
    {
        LineCodec { pending: Vec::new() }
    }

    /// Takes the next bytes read and returns, in order, the frames of the lines
    /// that they complete; a malformed chat line gives `MessageParseError` in
    /// its place. The unterminated rest stays pending.
    pub fn feed(&mut self, chunk: &[u8]) -> (r: Vec<Result<Frame, TwitchError>>)
        ensures
            r@.map_values(|f: Result<Frame, TwitchError>| frame_view(f)) == frames_of(
                split_lines(old(self)@ + chunk@).0,
            ),
            final(self)@ == split_lines(old(self)@ + chunk@).1,
    {
        let mut data: Vec<u8> = Vec::new();
        std::mem::swap(&mut data, &mut self.pending);
        let mut k: usize = 0;
        while k < chunk.len()
            invariant
                k <= chunk@.len(),
                data@ == old(self)@ + chunk@.subrange(0, k as int),
            decreases chunk@.len() - k,
        {
            data.push(chunk[k]);
            proof {
                assert(chunk@.subrange(0, k + 1) =~= chunk@.subrange(0, k as int).push(chunk@[k as int]));
            }
            k = k + 1;
        }
        assert(chunk@.subrange(0, chunk@.len() as int) =~= chunk@);
        let ghost d = data@;
        let n = data.len();
        let mut out: Vec<Result<Frame, TwitchError>> = Vec::new();
        let mut start: usize = 0;
        let mut i: usize = 0;
        assert(d.subrange(0, n as int) =~= d);
        while n > 0 && i < n - 1
            invariant
                d == data@,
                n == d.len(),
                start <= i,
                start <= n,
                i <= n,
                frames_of(split_lines(d).0) == out@.map_values(
                    |f: Result<Frame, TwitchError>| frame_view(f),
                ) + frames_of(split_lines(d.subrange(start as int, n as int)).0),
                split_lines(d).1 == split_lines(d.subrange(start as int, n as int)).1,
                first_crlf(d.subrange(start as int, n as int), 0) == first_crlf(
                    d.subrange(start as int, n as int),
                    i - start,
                ),
            decreases n - i,
        {
            let ghost sub = d.subrange(start as int, n as int);
            if data[i] == 13u8 && data[i + 1] == 10u8 {
                assert(crlf_at(sub, i - start));
                let line_bytes = slice_subrange(data.as_slice(), start, i);
                let text = text_of(line_bytes);
                let ghost rest = d.subrange(i + 2, n as int);
                proof {
                    assert(sub.subrange(0, i - start) =~= line_bytes@);
                    assert(sub.subrange(i - start + 2, sub.len() as int) =~= rest);
                    let ls = split_lines(sub).0;
                    assert(ls == seq![line_bytes@] + split_lines(rest).0);
                    assert(ls.drop_first() =~= split_lines(rest).0);
                }
                let ghost before = out@.map_values(|f: Result<Frame, TwitchError>| frame_view(f));
                match classify_line(text.as_str()) {
                    Some(f) => {
                        out.push(f);
                        assert(out@.map_values(|f: Result<Frame, TwitchError>| frame_view(f))
                            =~= before.push(frame_view(f)));
                    },
                    None => {},
                }
                proof {
                    let cur = out@.map_values(|f: Result<Frame, TwitchError>| frame_view(f));
                    match frame_of_text(utf8_lossy(line_bytes@)) {
                        Some(v) => {
                            assert(cur + frames_of(split_lines(rest).0) =~= before + (seq![v]
                                + frames_of(split_lines(rest).0)));
                        },
                        None => {},
                    }
                }
                start = i + 2;
                i = i + 2;
            } else {
                assert(!crlf_at(sub, i - start));
                i = i + 1;
            }
        }
        proof {
            let sub = d.subrange(start as int, n as int);
            assert(first_crlf(sub, i - start) == -1);
            assert(split_lines(sub).0 =~= Seq::<Seq<u8>>::empty());
            assert(frames_of(Seq::<Seq<u8>>::empty()) =~= Seq::<FrameView>::empty());
            assert(out@.map_values(|f: Result<Frame, TwitchError>| frame_view(f)) + Seq::<
                FrameView,
            >::empty() =~= out@.map_values(|f: Result<Frame, TwitchError>| frame_view(f)));
        }
        let rest = slice_subrange(data.as_slice(), start, n);
        let mut kept: Vec<u8> = Vec::new();
        let mut j: usize = 0;
        while j < rest.len()
            invariant
                j <= rest@.len(),
                kept@ == rest@.subrange(0, j as int),
            decreases rest@.len() - j,
        {
            kept.push(rest[j]);
            assert(rest@.subrange(0, j + 1) =~= rest@.subrange(0, j as int).push(rest@[j as int]));
            j = j + 1;
        }
        assert(rest@.subrange(0, rest@.len() as int) =~= rest@);
        assert(rest@ =~= d.subrange(start as int, n as int));
        self.pending = kept;
        out
    }
}

/// A line whose terminator has not arrived gives no frame: all of it stays
/// pending, however many reads it took to arrive.
pub proof fn lemma_partial_line_waits(d: Seq<u8>)
    requires
        !has_crlf(d),
    ensures
        split_lines(d).0 == Seq::<Seq<u8>>::empty(),
        split_lines(d).1 == d,
        frames_of(split_lines(d).0) == Seq::<FrameView>::empty(),
{
    lemma_first_crlf(d, 0);
    if first_crlf(d, 0) >= 0 {
        assert(crlf_at(d, first_crlf(d, 0)));
    }
}

/// Once the terminator of a pending line arrives, that whole line is the next
/// line cut, and what follows is cut as if read on its own.
pub proof fn lemma_completed_line(partial: Seq<u8>, rest: Seq<u8>)
    requires
        !has_crlf(partial),
    ensures
        split_lines(partial + seq![13u8, 10u8] + rest).0 == seq![partial] + split_lines(rest).0,
        split_lines(partial + seq![13u8, 10u8] + rest).1 == split_lines(rest).1,
{
    let d = partial + seq![13u8, 10u8] + rest;
    let p = partial.len() as int;
    assert(crlf_at(d, p));
    assert forall|j: int| 0 <= j < p implies !crlf_at(d, j) by {
        if j + 1 < p {
            if crlf_at(d, j) {
                assert(crlf_at(partial, j));
            }
        } else {
            assert(d[j + 1] == 13u8);
        }
    }
    lemma_first_crlf_exact(d, 0, p);
    assert(d.subrange(0, p) =~= partial);
    assert(d.subrange(p + 2, d.len() as int) =~= rest);
}

proof fn lemma_first_crlf_exact(d: Seq<u8>, k: int, p: int)
    requires
        0 <= k <= p,
        crlf_at(d, p),
        forall|j: int| k <= j < p ==> !crlf_at(d, j),
    ensures
        first_crlf(d, k) == p,
    decreases p - k,
{
    if k < p {
        lemma_first_crlf_exact(d, k + 1, p);
    }
}

} // verus!
