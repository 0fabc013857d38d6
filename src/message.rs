//! Chat messages and the parsing of one chat line.
//!
//! A chat line has the shape
//! `[@tag=value;tag=value ]:sender!user@host PRIVMSG #channel :body`.
//! After the optional tag section, the line is split on single spaces: the
//! first token names the sender, the third the channel, and everything after
//! the third space is the body.

use vstd::prelude::*;
use crate::text::{
    chars_of, find_in, index_of, lemma_index_of, occurs_at_exec, starts_with,
    strip_leading, trim, trim_bounds,
};

verus! {

/// One chat message, as parsed from a chat line.
#[derive(Debug)]
pub struct TwitchMessage {
    /// The channel's name, without the leading `#`.
    pub channel: String,
    /// The sender's display name.
    pub sender: String,
    /// The sender's user id; empty when the line carries none.
    pub user_id: String,
    /// The message body.
    pub text: String,
}

/// The contents of a chat message.
pub struct MessageView {
    pub channel: Seq<char>,
    pub sender: Seq<char>,
    pub user_id: Seq<char>,
    pub text: Seq<char>,
}

impl View for TwitchMessage {
    type V = MessageView;

    open spec fn view(&self) -> MessageView {
        MessageView {
            channel: self.channel@,
            sender: self.sender@,
            user_id: self.user_id@,
            text: self.text@,
        }
    }
}

impl Default for TwitchMessage {
    /// A message with every field empty.
    fn default() -> (r: TwitchMessage)
        ensures
            r.channel@ == Seq::<char>::empty(),
            r.sender@ == Seq::<char>::empty(),
            r.user_id@ == Seq::<char>::empty(),
            r.text@ == Seq::<char>::empty(),
    {
        TwitchMessage {
            channel: String::new(),
            sender: String::new(),
            user_id: String::new(),
            text: String::new(),
        }
    }
}

/// `s` up to the first `c` (all of `s` when there is none).
pub open spec fn before(s: Seq<char>, c: char) -> Seq<char> {
    s.subrange(0, index_of(s, c, 0))
}

/// `s` after the first `c`; meaningful only when `s` holds a `c`.
pub open spec fn after(s: Seq<char>, c: char) -> Seq<char> {
    s.subrange(index_of(s, c, 0) + 1, s.len() as int)
}

/// `s` holds the character `c`.
pub open spec fn has_char(s: Seq<char>, c: char) -> bool {
    index_of(s, c, 0) < s.len()
}

/// The pieces of `s` between the separators `d`.
pub open spec fn split_on(s: Seq<char>, d: char) -> Seq<Seq<char>>
    decreases s.len(),
{
    let e = index_of(s, d, 0);
    if e < 0 || e >= s.len() {
        seq![s]
    } else {
        seq![s.subrange(0, e)] + split_on(s.subrange(e + 1, s.len() as int), d)
    }
}

/// The value of the first `key=value` piece among `tags`.
pub open spec fn tag_lookup(tags: Seq<Seq<char>>, key: Seq<char>) -> Option<Seq<char>>
    decreases tags.len(),
{
    if tags.len() == 0 {
        None
    } else if starts_with(tags[0], key.push('=')) {
        Some(tags[0].subrange(key.len() + 1 as int, tags[0].len() as int))
    } else {
        tag_lookup(tags.drop_first(), key)
    }
}

/// The line opens with a tag section.
pub open spec fn has_tags(t: Seq<char>) -> bool {
    t.len() > 0 && t[0] == '@'
}

/// The pieces of the tag section (a single empty piece when there is none).
pub open spec fn tag_pieces(t: Seq<char>) -> Seq<Seq<char>> {
    if has_tags(t) {
        split_on(before(t, ' ').drop_first(), ';')
    } else {
        split_on(Seq::empty(), ';')
    }
}

/// The line without its tag section.
pub open spec fn untagged(t: Seq<char>) -> Seq<char> {
    if has_tags(t) {
        after(t, ' ')
    } else {
        t
    }
}

/// The line is long enough to be a chat line: its tag section, if any, ends in
/// a space, and at least three spaces follow it.
pub open spec fn has_four_tokens(t: Seq<char>) -> bool {
    let r = untagged(t);
    &&& has_tags(t) ==> has_char(t, ' ')
    &&& has_char(r, ' ')
    &&& has_char(after(r, ' '), ' ')
    &&& has_char(after(after(r, ' '), ' '), ' ')
}

/// The sender named by the first token: after a leading `:`, up to a `!`.
pub open spec fn sender_fallback(t: Seq<char>) -> Seq<char> {
    before(strip_leading(before(untagged(t), ' '), ':'), '!')
}

/// The channel named by the third token, without its leading `#`.
pub open spec fn channel_of(t: Seq<char>) -> Seq<char> {
    strip_leading(before(after(after(untagged(t), ' '), ' '), ' '), '#')
}

/// Everything after the third space, without a leading `:`, trimmed.
pub open spec fn body_of(t: Seq<char>) -> Seq<char> {
    trim(strip_leading(after(after(after(untagged(t), ' '), ' '), ' '), ':'))
}

pub open spec fn display_name_key() -> Seq<char> {
    seq!['d', 'i', 's', 'p', 'l', 'a', 'y', '-', 'n', 'a', 'm', 'e']
}

pub open spec fn user_id_key() -> Seq<char> {
    seq!['u', 's', 'e', 'r', '-', 'i', 'd']
}

/// The sender's display name: the `display-name` tag when it is present and not
/// empty, else the name in the first token.
pub open spec fn sender_of(t: Seq<char>) -> Seq<char> {
    match tag_lookup(tag_pieces(t), display_name_key()) {
        Some(v) => if v.len() > 0 {
            v
        } else {
            sender_fallback(t)
        },
        None => sender_fallback(t),
    }
}

/// The sender's id: the `user-id` tag, or empty.
pub open spec fn user_id_of(t: Seq<char>) -> Seq<char> {
    match tag_lookup(tag_pieces(t), user_id_key()) {
        Some(v) => v,
        None => Seq::empty(),
    }
}

/// The message a chat line holds; `None` when the line has fewer than four
/// tokens, or names no channel, or has an empty body.
pub open spec fn parse_chat(t: Seq<char>) -> Option<MessageView> {
    if has_four_tokens(t) && channel_of(t).len() > 0 && body_of(t).len() > 0 {
        Some(
            MessageView {
                channel: channel_of(t),
                sender: sender_of(t),
                user_id: user_id_of(t),
                text: body_of(t),
            },
        )
    } else {
        None
    }
}

/// Looks `key` up among the `;`-separated pieces of `t[from..to]`; returns
/// whether it was found and the bounds of its value.
fn find_tag(t: &Vec<char>, from: usize, to: usize, key: &Vec<char>) -> (r: (bool, usize, usize))
    requires
        from <= to <= t@.len(),
        key@.len() > 0,
        key@.last() == '=',
    ensures
        r.0 ==> r.1 <= r.2 <= to && tag_lookup(
            split_on(t@.subrange(from as int, to as int), ';'),
            key@.drop_last(),
        ) == Some(t@.subrange(r.1 as int, r.2 as int)),
        !r.0 ==> tag_lookup(split_on(t@.subrange(from as int, to as int), ';'), key@.drop_last())
            is None,
{
    let ghost k = key@.drop_last();
    let ghost whole = split_on(t@.subrange(from as int, to as int), ';');
    let mut start = from;
    loop
        invariant
            from <= start <= to <= t@.len(),
            key@.len() > 0,
            key@.last() == '=',
            k == key@.drop_last(),
            whole == split_on(t@.subrange(from as int, to as int), ';'),
            tag_lookup(whole, k) == tag_lookup(split_on(t@.subrange(start as int, to as int), ';'), k),
        decreases to - start,
    {
        let ghost u = t@.subrange(start as int, to as int);
        let e = find_in(t, ';', start, to);
        proof {
            lemma_index_of_split(u, ';');
            assert(k.push('=') =~= key@);
        }
        let ghost piece = t@.subrange(start as int, e as int);
        assert(piece =~= u.subrange(0, e - start));
        if key.len() <= e - start && occurs_at_exec(t, start, key) {
            proof {
                assert(piece.subrange(0, key@.len() as int) =~= t@.subrange(
                    start as int,
                    start + key@.len(),
                ));
                assert(starts_with(piece, key@));
                assert(piece.subrange(k.len() + 1 as int, piece.len() as int) =~= t@.subrange(
                    start + key@.len(),
                    e as int,
                ));
            }
            return (true, start + key.len(), e);
        }
        proof {
            if starts_with(piece, key@) {
                assert(t@.subrange(start as int, start + key@.len()) =~= piece.subrange(
                    0,
                    key@.len() as int,
                ));
            }
        }
        if e >= to {
            assert(seq![u].drop_first() =~= Seq::<Seq<char>>::empty());
            assert(tag_lookup(Seq::<Seq<char>>::empty(), k) is None);
            return (false, 0, 0);
        }
        proof {
            let rest = t@.subrange(e + 1, to as int);
            assert(u.subrange(e - start + 1, u.len() as int) =~= rest);
            assert((seq![piece] + split_on(rest, ';')).drop_first() =~= split_on(rest, ';'));
        }
        start = e + 1;
    }
}

/// Unfolds `split_on` once.
proof fn lemma_index_of_split(s: Seq<char>, d: char)
    ensures
        0 <= index_of(s, d, 0) <= s.len(),
        index_of(s, d, 0) < s.len() ==> split_on(s, d) == seq![s.subrange(0, index_of(s, d, 0))]
            + split_on(s.subrange(index_of(s, d, 0) + 1, s.len() as int), d),
        index_of(s, d, 0) >= s.len() ==> split_on(s, d) == seq![s],
{
    lemma_index_of(s, d, 0);
}

/// Where the tokens of a chat line lie: the tag section `t[tf..tt]`, the first
/// token `t[rs..q1]`, the third `t[q2 + 1..q3]` and the rest `t[q3 + 1..]`.
struct TokenBounds {
    tf: usize,
    tt: usize,
    rs: usize,
    q1: usize,
    q2: usize,
    q3: usize,
}

fn locate_tokens(t: &Vec<char>) -> (r: Option<TokenBounds>)
    ensures
        match r {
            Some(b) => {
                let tv = t@;
                let u = untagged(tv);
                &&& has_four_tokens(tv)
                &&& b.tf <= b.tt <= b.rs <= b.q1 < b.q2 < b.q3 < tv.len()
                &&& tag_pieces(tv) == split_on(tv.subrange(b.tf as int, b.tt as int), ';')
                &&& before(u, ' ') == tv.subrange(b.rs as int, b.q1 as int)
                &&& before(after(after(u, ' '), ' '), ' ') == tv.subrange(b.q2 + 1, b.q3 as int)
                &&& after(after(after(u, ' '), ' '), ' ') == tv.subrange(b.q3 + 1, tv.len() as int)
            },
            None => !has_four_tokens(t@),
        },
{
    let n = t.len();
    let ghost tv = t@;
    assert(tv.subrange(0, n as int) =~= tv);
    let tagged = n > 0 && t[0] == '@';
    let mut rs: usize = 0;
    let mut tag_end: usize = 0;
    if tagged {
        let sp = find_in(t, ' ', 0, n);
        if sp >= n {
            return None;
        }
        rs = sp + 1;
        tag_end = sp;
    }
    let ghost r = untagged(tv);
    assert(r =~= tv.subrange(rs as int, n as int));
    let q1 = find_in(t, ' ', rs, n);
    if q1 >= n {
        return None;
    }
    let ghost r1 = after(r, ' ');
    assert(r1 =~= tv.subrange(q1 + 1, n as int));
    let q2 = find_in(t, ' ', q1 + 1, n);
    if q2 >= n {
        return None;
    }
    let ghost r2 = after(r1, ' ');
    assert(r2 =~= tv.subrange(q2 + 1, n as int));
    let q3 = find_in(t, ' ', q2 + 1, n);
    if q3 >= n {
        return None;
    }
    assert(before(r, ' ') =~= tv.subrange(rs as int, q1 as int));
    assert(before(r2, ' ') =~= tv.subrange(q2 + 1, q3 as int));
    assert(after(r2, ' ') =~= tv.subrange(q3 + 1, n as int));
    let (tf, tt) = if tagged {
        (1, tag_end)
    } else {
        (0, 0)
    };
    proof {
        if tagged {
            assert(before(tv, ' ').drop_first() =~= tv.subrange(1, tag_end as int));
        } else {
            assert(tv.subrange(0, 0) =~= Seq::<char>::empty());
        }
    }
    Some(TokenBounds { tf, tt, rs, q1, q2, q3 })
}

/// Parses one chat line (without its line terminator) into a message.
///
/// Returns `None` for a malformed line: fewer than four space-separated tokens
/// after the tag section, no channel, or an empty body.
pub fn parse_chat_message(line: &str) -> (r: Option<TwitchMessage>)
    ensures
        match r {
            Some(m) => parse_chat(line@) == Some(m@),
            None => parse_chat(line@) is None,
        },
{
    let t = chars_of(line);
    let n = t.len();
    let ghost tv = t@;
    let b = match locate_tokens(&t) {
        Some(b) => b,
        None => return None,
    };
    let ghost u = untagged(tv);
    // the sender named by the first token
    let a = if b.q1 > b.rs && t[b.rs] == ':' {
        b.rs + 1
    } else {
        b.rs
    };
    assert(strip_leading(before(u, ' '), ':') =~= tv.subrange(a as int, b.q1 as int));
    let bang = find_in(&t, '!', a, b.q1);
    assert(sender_fallback(tv) =~= tv.subrange(a as int, bang as int));
    // the channel
    let c0 = if b.q3 > b.q2 + 1 && t[b.q2 + 1] == '#' {
        b.q2 + 2
    } else {
        b.q2 + 1
    };
    assert(channel_of(tv) =~= tv.subrange(c0 as int, b.q3 as int));
    if c0 >= b.q3 {
        return None;
    }
    // the body
    let b0 = if n > b.q3 + 1 && t[b.q3 + 1] == ':' {
        b.q3 + 2
    } else {
        b.q3 + 1
    };
    assert(strip_leading(after(after(after(u, ' '), ' '), ' '), ':') =~= tv.subrange(
        b0 as int,
        n as int,
    ));
    let (x, y) = trim_bounds(&t, b0, n);
    if x >= y {
        return None;
    }
    // the tags
    let dn_key = chars_of("display-name=");
    let uid_key = chars_of("user-id=");
    proof {
        reveal_strlit("display-name=");
        reveal_strlit("user-id=");
        assert(dn_key@.drop_last() =~= display_name_key());
        assert(uid_key@.drop_last() =~= user_id_key());
    }
    let (dn_found, d1, d2) = find_tag(&t, b.tf, b.tt, &dn_key);
    let (uid_found, u1, u2) = find_tag(&t, b.tf, b.tt, &uid_key);
    let sender = if dn_found && d1 < d2 {
        line.substring_char(d1, d2).to_owned()
    } else {
        line.substring_char(a, bang).to_owned()
    };
    let user_id = if uid_found {
        line.substring_char(u1, u2).to_owned()
    } else {
        String::new()
    };
    let channel = line.substring_char(c0, b.q3).to_owned();
    let text = line.substring_char(x, y).to_owned();
    let m = TwitchMessage { channel, sender, user_id, text };
    assert(m@.user_id =~= user_id_of(tv));
    Some(m)
}

/// No two tag pieces have the same key (the text before their first `=`).
pub open spec fn tag_keys_unique(pieces: Seq<Seq<char>>) -> bool {
    forall|i: int, j: int|
        #![trigger before(pieces[i], '='), before(pieces[j], '=')]
        0 <= i < pieces.len() && 0 <= j < pieces.len() && i != j ==> before(pieces[i], '=')
            != before(pieces[j], '=')
}

/// `k` holds no `=`.
pub open spec fn plain_key(k: Seq<char>) -> bool {
    forall|m: int| 0 <= m < k.len() ==> k[m] != '='
}

/// A piece that starts with `k=`, for a key without `=`, has the key `k`.
proof fn lemma_key_of(p: Seq<char>, k: Seq<char>)
    requires
        plain_key(k),
        starts_with(p, k.push('=')),
    ensures
        before(p, '=') == k,
{
    let e = k.len() as int;
    assert(p.subrange(0, e + 1)[e] == '=');
    assert forall|j: int| 0 <= j < e implies p[j] != '=' by {
        assert(p.subrange(0, e + 1)[j] == k[j]);
    }
    lemma_index_of(p, '=', 0);
    let idx = index_of(p, '=', 0);
    if idx < e {
        assert(p[idx] == '=');
    }
    if idx > e {
        assert(p[e] != '=');
    }
    assert(p.subrange(0, e) =~= k) by {
        assert forall|j: int| 0 <= j < e implies p.subrange(0, e)[j] == k[j] by {
            assert(p.subrange(0, e + 1)[j] == k[j]);
        }
    }
}

/// With unique keys, the lookup finds the one piece that carries the key.
proof fn lemma_lookup_found(pieces: Seq<Seq<char>>, k: Seq<char>, i: int)
    requires
        tag_keys_unique(pieces),
        plain_key(k),
        0 <= i < pieces.len(),
        starts_with(pieces[i], k.push('=')),
    ensures
        tag_lookup(pieces, k) == Some(pieces[i].subrange(k.len() + 1 as int, pieces[i].len() as int)),
    decreases pieces.len(),
{
    if i > 0 {
        if starts_with(pieces[0], k.push('=')) {
            lemma_key_of(pieces[0], k);
            lemma_key_of(pieces[i], k);
            assert(before(pieces[0], '=') != before(pieces[i], '='));
        }
        let rest = pieces.drop_first();
        assert forall|a: int, b: int|
            0 <= a < rest.len() && 0 <= b < rest.len() && a != b implies before(rest[a], '=')
            != before(rest[b], '=') by {
            assert(before(pieces[a + 1], '=') != before(pieces[b + 1], '='));
        }
        assert(rest[i - 1] == pieces[i]);
        lemma_lookup_found(rest, k, i - 1);
    }
}

/// The lookup finds nothing when no piece carries the key.
proof fn lemma_lookup_absent(pieces: Seq<Seq<char>>, k: Seq<char>)
    requires
        forall|i: int| 0 <= i < pieces.len() ==> !starts_with(#[trigger] pieces[i], k.push('=')),
    ensures
        tag_lookup(pieces, k) is None,
    decreases pieces.len(),
{
    if pieces.len() > 0 {
        let rest = pieces.drop_first();
        assert forall|i: int| 0 <= i < rest.len() implies !starts_with(
            #[trigger] rest[i],
            k.push('='),
        ) by {
            assert(rest[i] == pieces[i + 1]);
        }
        lemma_lookup_absent(rest, k);
    }
}

/// Two piece sequences with the same pieces and unique keys look every key up
/// alike.
proof fn lemma_lookup_permuted(a: Seq<Seq<char>>, b: Seq<Seq<char>>, k: Seq<char>)
    requires
        a.to_multiset() == b.to_multiset(),
        tag_keys_unique(a),
        tag_keys_unique(b),
        plain_key(k),
    ensures
        tag_lookup(a, k) == tag_lookup(b, k),
{
    a.to_multiset_ensures();
    b.to_multiset_ensures();
    if exists|i: int| 0 <= i < a.len() && starts_with(a[i], k.push('=')) {
        let i = choose|i: int| 0 <= i < a.len() && starts_with(a[i], k.push('='));
        assert(a.contains(a[i]));
        assert(a.to_multiset().count(a[i]) > 0);
        assert(b.to_multiset().count(a[i]) > 0);
        assert(b.contains(a[i]));
        let j = choose|j: int| 0 <= j < b.len() && b[j] == a[i];
        lemma_lookup_found(a, k, i);
        lemma_lookup_found(b, k, j);
    } else if exists|j: int| 0 <= j < b.len() && starts_with(b[j], k.push('=')) {
        let j = choose|j: int| 0 <= j < b.len() && starts_with(b[j], k.push('='));
        assert(b.contains(b[j]));
        assert(b.to_multiset().count(b[j]) > 0);
        assert(a.to_multiset().count(b[j]) > 0);
        assert(a.contains(b[j]));
    } else {
        lemma_lookup_absent(a, k);
        lemma_lookup_absent(b, k);
    }
}

/// The order of the tags does not matter: two chat lines that differ only in
/// the order of the pieces of their tag sections, each key appearing at most
/// once, give the same message (the same display name, user id and body), or
/// are both malformed.
pub proof fn lemma_tag_order_irrelevant(t1: Seq<char>, t2: Seq<char>)
    requires
        has_tags(t1),
        has_tags(t2),
        has_char(t1, ' '),
        has_char(t2, ' '),
        untagged(t1) == untagged(t2),
        tag_pieces(t1).to_multiset() == tag_pieces(t2).to_multiset(),
        tag_keys_unique(tag_pieces(t1)),
        tag_keys_unique(tag_pieces(t2)),
    ensures
        parse_chat(t1) == parse_chat(t2),
{
    lemma_lookup_permuted(tag_pieces(t1), tag_pieces(t2), display_name_key());
    lemma_lookup_permuted(tag_pieces(t1), tag_pieces(t2), user_id_key());
}

} // verus!
