//! The color query conversation with the terminal, as a state machine.
//!
//! The caller writes the request (the `OSC 10` and/or `OSC 11` queries followed by a
//! Device Attributes request, `DA1`) and then hands every byte the terminal sends to a
//! [`Session`] until it reports an outcome, or reports a failed read to it.
//!
//! Terminals reply in order. A reply to `DA1` that arrives before a color reply
//! therefore shows that the terminal ignored the color query: it does not support it.
use vstd::prelude::*;
use vstd::slice::slice_to_vec;

use std::time::Duration;

use crate::bytes::{
    find_byte, find_either, find_either_from, find_from, has_prefix, lemma_find_either_from,
    lemma_find_from, starts_with,
};
use crate::color::Color;
use crate::error::{Error, UnsupportedTerminalError};
use crate::quirks::{st, TerminalQuirks};
use crate::xparsecolor::{
    hex4, is_hex_digit, lemma_hex4_value, lemma_rgb_round_trip, parsed_color, rgb_text,
    xparsecolor,
};

verus! {

pub const ESC: u8 = 0x1b;

pub const BEL: u8 = 0x07;

/// `]`, which follows `ESC` in a color reply.
pub const OSC_INTRODUCER: u8 = 0x5d;

/// `[`, which follows `ESC` in the reply to `DA1`.
pub const CSI_INTRODUCER: u8 = 0x5b;

/// `\`, which follows `ESC` in the string terminator.
pub const BACKSLASH: u8 = 0x5c;

/// `c`, the last byte of the reply to `DA1`.
pub const DA1_FINAL: u8 = 0x63;

/// Which colors a query asks for.
#[derive(Debug, Clone, Copy, PartialEq, Eq, Structural)]
pub enum QueryKind {
    Foreground,
    Background,
    /// Foreground and background, in one conversation.
    Palette,
}

impl QueryKind {
    pub open spec fn reply_count(self) -> nat {
        if self == QueryKind::Palette {
            2
        } else {
            1
        }
    }
}

/// `ESC ] 10 ;`
pub open spec fn fg_prefix() -> Seq<u8> {
    seq![0x1bu8, 0x5d, 0x31, 0x30, 0x3b]
}

/// `ESC ] 11 ;`
pub open spec fn bg_prefix() -> Seq<u8> {
    seq![0x1bu8, 0x5d, 0x31, 0x31, 0x3b]
}

/// `ESC [ c`, the primary Device Attributes request.
pub open spec fn da1() -> Seq<u8> {
    seq![0x1bu8, 0x5b, 0x63]
}

/// The bytes written to the terminal: each color query (`ESC ] 10 ; ?`, `ESC ] 11 ; ?`)
/// with the terminator, then `DA1`.
pub open spec fn request_of(kind: QueryKind, quirks: TerminalQuirks) -> Seq<u8> {
    let t = quirks.terminator();
    match kind {
        QueryKind::Foreground => fg_prefix().push(0x3f) + t + da1(),
        QueryKind::Background => bg_prefix().push(0x3f) + t + da1(),
        QueryKind::Palette => fg_prefix().push(0x3f) + t + bg_prefix().push(0x3f) + t + da1(),
    }
}

/// Reading one color reply from position `p` of what the terminal sent: `None` while
/// more bytes are needed; `Some((end, true))` when the reply is `s[p..end]`, through
/// its `BEL` or `ESC \`; `Some((q, false))` when the first `ESC` is not followed by `]`,
/// so the reply to `DA1` came first, `q` being the position after that `ESC`.
pub open spec fn color_reply_at(s: Seq<u8>, p: int) -> Option<(int, bool)> {
    match find_from(s, p, ESC) {
        None => None,
        Some(e) => if e + 1 >= s.len() {
            None
        } else if s[e + 1] != OSC_INTRODUCER {
            Some((e + 1, false))
        } else {
            match find_either_from(s, e + 1, BEL, ESC) {
                None => None,
                Some(t) => if s[t] == BEL {
                    Some((t + 1, true))
                } else {
                    match find_from(s, t + 1, BACKSLASH) {
                        None => None,
                        Some(k) => Some((k + 1, true)),
                    }
                },
            }
        },
    }
}

/// The end of the reply to `DA1` (`ESC [ ... c`) read from `q`, where `after_esc`
/// says that its `ESC` has been read already.
pub open spec fn da1_end(s: Seq<u8>, q: int, after_esc: bool) -> Option<int> {
    let csi = if after_esc {
        find_from(s, q, CSI_INTRODUCER)
    } else {
        match find_from(s, q, ESC) {
            None => None,
            Some(e) => find_from(s, e + 1, CSI_INTRODUCER),
        }
    };
    match csi {
        None => None,
        Some(l) => match find_from(s, l + 1, DA1_FINAL) {
            None => None,
            Some(c) => Some(c + 1),
        },
    }
}

/// The color replies in `s` once they are known: `Some((replies, q, after_esc))`, where
/// `replies` is `None` when the reply to `DA1` came first, and the reply to `DA1` is
/// then read from `q`. `None` while more bytes are needed.
pub open spec fn replies_in(kind: QueryKind, s: Seq<u8>) -> Option<
    (Option<Seq<Seq<u8>>>, int, bool),
> {
    match color_reply_at(s, 0) {
        None => None,
        Some((q, false)) => Some((None, q, true)),
        Some((e1, true)) => if kind.reply_count() == 1 {
            Some((Some(seq![s.subrange(0, e1)]), e1, false))
        } else {
            match color_reply_at(s, e1) {
                None => None,
                Some((q, false)) => Some((None, q, true)),
                Some((e2, true)) => Some((Some(seq![s.subrange(0, e1), s.subrange(e1, e2)]), e2, false)),
            }
        },
    }
}

/// Whether the conversation is over: the color replies are known and the reply to
/// `DA1` has been read too.
pub open spec fn finished(kind: QueryKind, s: Seq<u8>) -> bool {
    match replies_in(kind, s) {
        Some((_, q, after_esc)) => da1_end(s, q, after_esc) is Some,
        None => false,
    }
}

pub open spec fn has_suffix(s: Seq<u8>, x: Seq<u8>) -> bool {
    x.len() <= s.len() && s.subrange(s.len() - x.len(), s.len() as int) == x
}

/// The color in a reply: `prefix`, an X11 color string, then `ESC \` or `BEL`.
#[verifier::opaque]
pub open spec fn reply_color(r: Seq<u8>, prefix: Seq<u8>) -> Option<Color> {
    if has_prefix(r, prefix) {
        let body = r.subrange(prefix.len() as int, r.len() as int);
        if has_suffix(body, st()) {
            parsed_color(body.subrange(0, body.len() - 2))
        } else if has_suffix(body, seq![BEL]) {
            parsed_color(body.subrange(0, body.len() - 1))
        } else {
            None
        }
    } else {
        None
    }
}

/// The colors in the replies, or the first reply that does not parse.
pub open spec fn colors_of(kind: QueryKind, rs: Seq<Seq<u8>>) -> Result<Seq<Color>, Seq<u8>> {
    match kind {
        QueryKind::Foreground => match reply_color(rs[0], fg_prefix()) {
            Some(c) => Ok(seq![c]),
            None => Err(rs[0]),
        },
        QueryKind::Background => match reply_color(rs[0], bg_prefix()) {
            Some(c) => Ok(seq![c]),
            None => Err(rs[0]),
        },
        QueryKind::Palette => match reply_color(rs[0], fg_prefix()) {
            None => Err(rs[0]),
            Some(f) => match reply_color(rs[1], bg_prefix()) {
                None => Err(rs[1]),
                Some(b) => Ok(seq![f, b]),
            },
        },
    }
}

/// Whether `res` is what the replies call for: the unsupported-terminal error when
/// the reply to `DA1` came first, else the colors, else the parse error with the
/// first reply that does not parse.
pub open spec fn answers(
    kind: QueryKind,
    replies: Option<Seq<Seq<u8>>>,
    res: Result<Vec<Color>, Error>,
) -> bool {
    match replies {
        None => res matches Err(Error::UnsupportedTerminal(_)),
        Some(rs) => match colors_of(kind, rs) {
            Ok(cs) => res matches Ok(v) && v@ == cs,
            Err(raw) => res matches Err(Error::Parse(v)) && v@ == raw,
        },
    }
}

/// A failed read from the terminal.
#[derive(Debug)]
pub enum ReadFailure {
    /// The time allowed for the whole query ran out.
    TimedOut,
    /// Any other I/O error.
    Io(std::io::Error),
}

fn append(v: &mut Vec<u8>, s: &[u8])
    ensures
        final(v)@ == old(v)@ + s@,
{
    let ghost start = v@;
    let mut i: usize = 0;
    while i < s.len()
        invariant
            i <= s@.len(),
            v@ == start + s@.subrange(0, i as int),
        decreases s@.len() - i,
    {
        v.push(s[i]);
        i = i + 1;
        assert(v@ =~= start + s@.subrange(0, i as int));
    }
    assert(s@.subrange(0, s@.len() as int) =~= s@);
}

/// The bytes to write for a query: the color queries, each with the terminator that
/// the quirks call for, then `DA1`.
pub fn request(kind: QueryKind, quirks: TerminalQuirks) -> (r: Vec<u8>)
    ensures
        r@ == request_of(kind, quirks),
{
    let terminator = quirks.string_terminator();
    let fg_query = vec![ESC, OSC_INTRODUCER, 0x31, 0x30, 0x3b, 0x3f];
    let bg_query = vec![ESC, OSC_INTRODUCER, 0x31, 0x31, 0x3b, 0x3f];
    let da1_request = vec![ESC, CSI_INTRODUCER, DA1_FINAL];
    assert(fg_query@ =~= fg_prefix().push(0x3f));
    assert(bg_query@ =~= bg_prefix().push(0x3f));
    assert(da1_request@ =~= da1());
    let mut r: Vec<u8> = Vec::new();
    match kind {
        QueryKind::Foreground => {
            append(&mut r, fg_query.as_slice());
            append(&mut r, terminator.as_slice());
        },
        QueryKind::Background => {
            append(&mut r, bg_query.as_slice());
            append(&mut r, terminator.as_slice());
        },
        QueryKind::Palette => {
            append(&mut r, fg_query.as_slice());
            append(&mut r, terminator.as_slice());
            append(&mut r, bg_query.as_slice());
            append(&mut r, terminator.as_slice());
        },
    }
    append(&mut r, da1_request.as_slice());
    assert(r@ =~= request_of(kind, quirks));
    r
}

/// Reads one color reply from position `p`; see [`color_reply_at`].
fn read_color_reply(s: &[u8], p: usize) -> (r: Option<(usize, bool)>)
    requires
        p <= s@.len(),
    ensures
        r matches Some((e, b)) ==> color_reply_at(s@, p as int) == Some((e as int, b)) && p < e
            <= s@.len(),
        r is None ==> color_reply_at(s@, p as int) is None,
{
    let n = s.len();
    let e = match find_byte(s, p, ESC) {
        Some(e) => e,
        None => return None,
    };
    if e + 1 >= n {
        return None;
    }
    if s[e + 1] != OSC_INTRODUCER {
        return Some((e + 1, false));
    }
    let t = match find_either(s, e + 1, BEL, ESC) {
        Some(t) => t,
        None => return None,
    };
    if s[t] == BEL {
        return Some((t + 1, true));
    }
    match find_byte(s, t + 1, BACKSLASH) {
        Some(k) => Some((k + 1, true)),
        None => None,
    }
}

/// Where the reply to `DA1` read from `q` ends; see [`da1_end`].
fn read_da1_reply(s: &[u8], q: usize, after_esc: bool) -> (r: Option<usize>)
    requires
        q <= s@.len(),
    ensures
        r matches Some(c) ==> da1_end(s@, q as int, after_esc) == Some(c as int),
        r is None ==> da1_end(s@, q as int, after_esc) is None,
{
    let n = s.len();
    assert(n == s@.len());
    let csi = if after_esc {
        find_byte(s, q, CSI_INTRODUCER)
    } else {
        match find_byte(s, q, ESC) {
            None => None,
            Some(e) => find_byte(s, e + 1, CSI_INTRODUCER),
        }
    };
    match csi {
        None => None,
        Some(l) => match find_byte(s, l + 1, DA1_FINAL) {
            None => None,
            Some(c) => Some(c + 1),
        },
    }
}

/// The color replies once known, as the ends of the first and the second reply
/// (the same for a single reply); see [`replies_in`].
fn find_replies(kind: QueryKind, s: &[u8]) -> (r: Option<(Option<(usize, usize)>, usize, bool)>)
    ensures
        r is None <==> replies_in(kind, s@) is None,
        r matches Some((ends, q, after_esc)) ==> {
            &&& q <= s@.len()
            &&& replies_in(kind, s@) matches Some((replies, q2, after_esc2))
            &&& q2 == q && after_esc2 == after_esc
            &&& match ends {
                None => replies is None,
                Some((e1, e2)) => e1 <= e2 <= s@.len() && replies == Some(
                    if kind.reply_count() == 1 {
                        seq![s@.subrange(0, e1 as int)]
                    } else {
                        seq![s@.subrange(0, e1 as int), s@.subrange(e1 as int, e2 as int)]
                    },
                ),
            }
        },
{
    match read_color_reply(s, 0) {
        None => None,
        Some((q, false)) => Some((None, q, true)),
        Some((e1, true)) => if !matches!(kind, QueryKind::Palette) {
            Some((Some((e1, e1)), e1, false))
        } else {
            match read_color_reply(s, e1) {
                None => None,
                Some((q, false)) => Some((None, q, true)),
                Some((e2, true)) => Some((Some((e1, e2)), e2, false)),
            }
        },
    }
}

/// The color in a reply that starts with `prefix` and ends with `ESC \` or `BEL`,
/// else the parse error that holds the reply.
pub fn parse_response(response: Vec<u8>, prefix: &[u8]) -> (r: Result<Color, Error>)
    ensures
        match reply_color(response@, prefix@) {
            Some(c) => r == Ok::<Color, Error>(c),
            None => r matches Err(Error::Parse(v)) && v@ == response@,
        },
{
    reveal(reply_color);
    let n = response.len();
    let k = prefix.len();
    let ghost body = response@.subrange(k as int, n as int);
    if k > n || !starts_with(response.as_slice(), prefix) {
        return Err(Error::Parse(response));
    }
    let parsed = if n - k >= 2 && response[n - 2] == ESC && response[n - 1] == BACKSLASH {
        assert(body.subrange(body.len() - 2, body.len() as int) =~= st());
        assert(body.subrange(0, body.len() - 2) =~= response@.subrange(k as int, n - 2));
        xparsecolor(&response[k..n - 2])
    } else if n - k >= 1 && response[n - 1] == BEL {
        assert(!has_suffix(body, st())) by {
            if has_suffix(body, st()) {
                assert(body.subrange(body.len() - 2, body.len() as int)[1] == response@[n - 1]);
            }
        }
        assert(body.subrange(body.len() - 1, body.len() as int) =~= seq![BEL]);
        assert(body.subrange(0, body.len() - 1) =~= response@.subrange(k as int, n - 1));
        xparsecolor(&response[k..n - 1])
    } else {
        assert(!has_suffix(body, st())) by {
            if has_suffix(body, st()) {
                let t = body.subrange(body.len() - 2, body.len() as int);
                assert(t[0] == response@[n - 2] && t[1] == response@[n - 1]);
            }
        }
        assert(!has_suffix(body, seq![BEL])) by {
            if has_suffix(body, seq![BEL]) {
                assert(body.subrange(body.len() - 1, body.len() as int)[0] == response@[n - 1]);
            }
        }
        None
    };
    match parsed {
        Some(c) => Ok(c),
        None => Err(Error::Parse(response)),
    }
}

/// The colors that the replies ending at `e1` and `e2` give, or the parse error
/// of the first that does not parse.
fn colors_from(kind: QueryKind, s: &[u8], e1: usize, e2: usize) -> (r: Result<Vec<Color>, Error>)
    requires
        e1 <= e2 <= s@.len(),
    ensures
        answers(
            kind,
            Some(
                if kind.reply_count() == 1 {
                    seq![s@.subrange(0, e1 as int)]
                } else {
                    seq![s@.subrange(0, e1 as int), s@.subrange(e1 as int, e2 as int)]
                },
            ),
            r,
        ),
{
    let fg = vec![ESC, OSC_INTRODUCER, 0x31, 0x30, 0x3b];
    let bg = vec![ESC, OSC_INTRODUCER, 0x31, 0x31, 0x3b];
    assert(fg@ =~= fg_prefix());
    assert(bg@ =~= bg_prefix());
    let first = slice_to_vec(&s[0..e1]);
    match kind {
        QueryKind::Foreground => match parse_response(first, fg.as_slice()) {
            Ok(c) => {
                let v = vec![c];
                assert(v@ =~= seq![c]);
                Ok(v)
            },
            Err(e) => Err(e),
        },
        QueryKind::Background => match parse_response(first, bg.as_slice()) {
            Ok(c) => {
                let v = vec![c];
                assert(v@ =~= seq![c]);
                Ok(v)
            },
            Err(e) => Err(e),
        },
        QueryKind::Palette => {
            let foreground = match parse_response(first, fg.as_slice()) {
                Ok(c) => c,
                Err(e) => return Err(e),
            };
            let second = slice_to_vec(&s[e1..e2]);
            match parse_response(second, bg.as_slice()) {
                Ok(background) => {
                    let v = vec![foreground, background];
                    assert(v@ =~= seq![foreground, background]);
                    Ok(v)
                },
                Err(e) => Err(e),
            }
        },
    }
}

/// The error for a failed read while the color replies are still awaited: a time-out
/// becomes [`Error::Timeout`] with the configured timeout.
pub fn read_failure_error(failure: ReadFailure, timeout: Duration) -> (r: Error)
    ensures
        match failure {
            ReadFailure::TimedOut => r == Error::Timeout(timeout),
            ReadFailure::Io(e) => r == Error::Io(e),
        },
{
    match failure {
        ReadFailure::TimedOut => Error::Timeout(timeout),
        ReadFailure::Io(e) => Error::Io(e),
    }
}

/// One color query conversation: what the terminal has sent so far.
#[derive(Debug)]
pub struct Session {
    pub kind: QueryKind,
    /// The time allowed for the whole query.
    pub timeout: Duration,
    /// Every byte the terminal has sent since the request was written.
    pub received: Vec<u8>,
}

impl Session {
    pub fn new(kind: QueryKind, timeout: Duration) -> (r: Session)
        ensures
            r.kind == kind,
            r.timeout == timeout,
            r.received@ == Seq::<u8>::empty(),
    {
        Session { kind, timeout, received: Vec::new() }
    }

    /// The outcome of the conversation once it is over.
    fn outcome(&self) -> (r: Option<Result<Vec<Color>, Error>>)
        ensures
            r is Some <==> finished(self.kind, self.received@),
            r matches Some(res) ==> replies_in(self.kind, self.received@) matches Some(
                (replies, _, _),
            ) && answers(self.kind, replies, res),
    {
        let s = self.received.as_slice();
        match find_replies(self.kind, s) {
            None => None,
            Some((ends, q, after_esc)) => {
                if read_da1_reply(s, q, after_esc).is_none() {
                    return None;
                }
                match ends {
                    None => Some(Err(Error::unsupported())),
                    Some((e1, e2)) => Some(colors_from(self.kind, s, e1, e2)),
                }
            },
        }
    }

    /// Takes the bytes of one read from the terminal. Once the color replies and the
    /// reply to `DA1` are in, returns the colors asked for (foreground first), the
    /// parse error of a reply, or the unsupported-terminal error when the reply to
    /// `DA1` came first; until then `None`: read again.
    pub fn on_bytes(&mut self, bytes: &[u8]) -> (r: Option<Result<Vec<Color>, Error>>)
        ensures
            final(self).kind == old(self).kind,
            final(self).timeout == old(self).timeout,
            final(self).received@ == old(self).received@ + bytes@,
            r is Some <==> finished(final(self).kind, final(self).received@),
            r matches Some(res) ==> replies_in(final(self).kind, final(self).received@) matches Some(
                (replies, _, _),
            ) && answers(final(self).kind, replies, res),
    {
        append(&mut self.received, bytes);
        self.outcome()
    }

    /// The result when a read fails. Once the color replies are known, the failure
    /// only cut short the reading of the reply to `DA1`, and the replies decide;
    /// before that, the failure is the result.
    pub fn on_read_failure(&self, failure: ReadFailure) -> (r: Result<Vec<Color>, Error>)
        ensures
            match replies_in(self.kind, self.received@) {
                Some((replies, _, _)) => answers(self.kind, replies, r),
                None => match failure {
                    ReadFailure::TimedOut => r == Err::<Vec<Color>, Error>(
                        Error::Timeout(self.timeout),
                    ),
                    ReadFailure::Io(e) => r == Err::<Vec<Color>, Error>(Error::Io(e)),
                },
            },
    {
        let s = self.received.as_slice();
        match find_replies(self.kind, s) {
            None => Err(read_failure_error(failure, self.timeout)),
            Some((None, _, _)) => Err(Error::unsupported()),
            Some((Some((e1, e2)), _, _)) => colors_from(self.kind, s, e1, e2),
        }
    }
}

/// A reply to `DA1`: `ESC [`, parameters without `c`, then `c`.
pub open spec fn da1_reply(params: Seq<u8>) -> Seq<u8> {
    seq![ESC, CSI_INTRODUCER] + params + seq![DA1_FINAL]
}

/// A terminal that answers `DA1` and ignores the color queries is found unsupported as
/// soon as that reply is in: the conversation is over and its answer is the
/// unsupported-terminal error, whatever the query and whatever the timeout.
pub proof fn lemma_da1_first_is_unsupported(kind: QueryKind, params: Seq<u8>)
    requires
        forall|i: int| 0 <= i < params.len() ==> #[trigger] params[i] != DA1_FINAL,
    ensures
        finished(kind, da1_reply(params)),
        replies_in(kind, da1_reply(params)) matches Some((None, _, _)),
        forall|res: Result<Vec<Color>, Error>|
            answers(kind, None, res) <==> (res matches Err(Error::UnsupportedTerminal(_))),
{
    let s = da1_reply(params);
    let n = s.len();
    assert(s[0] == ESC);
    assert(s[1] == CSI_INTRODUCER);
    lemma_find_from(s, 0, ESC, Some(0));
    assert(color_reply_at(s, 0) == Some((1int, false)));
    lemma_find_from(s, 1, CSI_INTRODUCER, Some(1));
    assert forall|k: int| 2 <= k < n - 1 implies s[k] != DA1_FINAL by {
        assert(s[k] == params[k - 2]);
    }
    assert(s[n - 1] == DA1_FINAL);
    lemma_find_from(s, 2, DA1_FINAL, Some(n - 1));
    assert(da1_end(s, 1, true) == Some(n as int));
}

/// A terminal that answers the background query with `rgb:RRRR/GGGG/BBBB` (four hex
/// digits per channel) terminated by `BEL`, and then answers `DA1`, ends the
/// conversation with exactly that color.
pub proof fn lemma_background_reply_round_trip(red: u16, green: u16, blue: u16, params: Seq<u8>)
    requires
        forall|i: int| 0 <= i < params.len() ==> #[trigger] params[i] != DA1_FINAL,
    ensures
        ({
            let s = bg_prefix() + rgb_text(red, green, blue) + seq![BEL] + da1_reply(params);
            &&& finished(QueryKind::Background, s)
            &&& replies_in(QueryKind::Background, s) matches Some((Some(rs), _, _))
            &&& colors_of(QueryKind::Background, rs) == Ok::<Seq<Color>, Seq<u8>>(
                seq![Color { red, green, blue, alpha: 0xffff }],
            )
        }),
{
    let text = rgb_text(red, green, blue);
    let s = bg_prefix() + text + seq![BEL] + da1_reply(params);
    let n = s.len();
    assert(text.len() == 18);
    let t = 23int;
    lemma_hex4_value(red);
    lemma_hex4_value(green);
    lemma_hex4_value(blue);
    assert forall|k: int| 0 <= k < 18 implies #[trigger] text[k] != BEL && text[k] != ESC by {
        if 4 <= k < 8 {
            assert(text[k] == hex4(red)[k - 4] && is_hex_digit(hex4(red)[k - 4]));
        } else if 9 <= k < 13 {
            assert(text[k] == hex4(green)[k - 9] && is_hex_digit(hex4(green)[k - 9]));
        } else if 13 < k {
            assert(text[k] == hex4(blue)[k - 14] && is_hex_digit(hex4(blue)[k - 14]));
        }
    }
    assert forall|k: int| 5 <= k < t implies s[k] == text[k - 5] by {}
    assert(s[0] == ESC && s[1] == OSC_INTRODUCER && s[t] == BEL);
    lemma_find_from(s, 0, ESC, Some(0));
    lemma_find_either_from(s, 1, BEL, ESC, Some(t));
    assert(color_reply_at(s, 0) == Some((t + 1, true)));
    assert(s[t + 1] == ESC && s[t + 2] == CSI_INTRODUCER && s[n - 1] == DA1_FINAL);
    lemma_find_from(s, t + 1, ESC, Some(t + 1));
    lemma_find_from(s, t + 2, CSI_INTRODUCER, Some(t + 2));
    assert forall|k: int| t + 3 <= k < n - 1 implies s[k] != DA1_FINAL by {
        assert(s[k] == params[k - t - 3]);
    }
    lemma_find_from(s, t + 3, DA1_FINAL, Some(n - 1));
    assert(da1_end(s, t + 1, false) == Some(n as int));
    let reply = s.subrange(0, t + 1);
    assert(replies_in(QueryKind::Background, s) == Some(
        (Some(seq![reply]), t + 1, false),
    ));
    reveal(reply_color);
    assert(reply.subrange(0, 5) =~= bg_prefix());
    let body = reply.subrange(5, t + 1);
    assert(body =~= text.push(BEL));
    assert(!has_suffix(body, st())) by {
        if has_suffix(body, st()) {
            assert(body.subrange(body.len() - 2, body.len() as int)[1] == body[18]);
        }
    }
    assert(body.subrange(body.len() - 1, body.len() as int) =~= seq![BEL]);
    assert(body.subrange(0, body.len() - 1) =~= text);
    lemma_rgb_round_trip(red, green, blue);
    assert(seq![reply][0] == reply);
}

} // verus!
