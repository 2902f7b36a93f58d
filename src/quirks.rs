//! Policy derived from the environment: whether the terminal is known not to support
//! the color queries, and which string terminator to send.
use vstd::prelude::*;
use vstd::string::StrSliceExecFns;

use crate::bytes::has_prefix;

verus! {

/// The `TERM` environment variable as the process found it.
#[derive(Debug)]
pub enum TermVar {
    /// Not set.
    Unset,
    /// Set, but not valid UTF-8.
    NotUnicode,
    /// Set to this value.
    Value(String),
}

#[derive(Debug, Clone, Copy, PartialEq, Eq, Structural)]
pub enum TerminalQuirks {
    /// No known quirks.
    Standard,
    Unsupported,
    /// rxvt-unicode, whose released versions end a reply to a query terminated by `ST`
    /// with a bare `ESC`; a query terminated by `BEL` gets a reply terminated by `BEL`.
    Urxvt,
}

/// The quirks of a terminal whose `TERM` is `term`. GNU Screen answers the queries out
/// of order, which would pass for a terminal without support, so it is excluded.
pub open spec fn quirks_of_term(term: Seq<char>) -> TerminalQuirks {
    if term == "dumb"@ || term == "screen"@ || has_prefix(term, "screen."@) {
        TerminalQuirks::Unsupported
    } else if term == "rxvt-unicode"@ || has_prefix(term, "rxvt-unicode-"@) {
        TerminalQuirks::Urxvt
    } else {
        TerminalQuirks::Standard
    }
}

/// The quirks for a `TERM` variable; `unset_is_supported` says whether a missing `TERM`
/// is normal on this platform (it is on Windows, not on POSIX systems).
pub open spec fn quirks_of(term: TermVar, unset_is_supported: bool) -> TerminalQuirks {
    match term {
        TermVar::Unset => if unset_is_supported {
            TerminalQuirks::Standard
        } else {
            TerminalQuirks::Unsupported
        },
        TermVar::NotUnicode => TerminalQuirks::Unsupported,
        TermVar::Value(v) => quirks_of_term(v@),
    }
}

/// Whether `s` begins with `p`.
pub fn str_starts_with(s: &str, p: &str) -> (r: bool)
    ensures
        r == has_prefix(s@, p@),
{
    let n = s.unicode_len();
    let m = p.unicode_len();
    if m > n {
        return false;
    }
    let mut i: usize = 0;
    while i < m
        invariant
            n == s@.len(),
            m == p@.len(),
            m <= n,
            i <= m,
            forall|k: int| 0 <= k < i ==> s@[k] == p@[k],
        decreases m - i,
    {
        if s.get_char(i) != p.get_char(i) {
            assert(s@.subrange(0, m as int)[i as int] != p@[i as int]);
            return false;
        }
        i = i + 1;
    }
    assert(s@.subrange(0, m as int) =~= p@);
    true
}

/// Whether `s` and `p` are the same string.
pub fn str_eq(s: &str, p: &str) -> (r: bool)
    ensures
        r == (s@ == p@),
{
    if s.unicode_len() != p.unicode_len() {
        return false;
    }
    let r = str_starts_with(s, p);
    assert(s@.subrange(0, p@.len() as int) =~= s@);
    r
}

/// The quirks of a terminal whose `TERM` is `term`.
pub fn terminal_quirks_from_term(term: &str) -> (r: TerminalQuirks)
    ensures
        r == quirks_of_term(term@),
{
    if str_eq(term, "dumb") || str_eq(term, "screen") || str_starts_with(term, "screen.") {
        TerminalQuirks::Unsupported
    } else if str_eq(term, "rxvt-unicode") || str_starts_with(term, "rxvt-unicode-") {
        TerminalQuirks::Urxvt
    } else {
        TerminalQuirks::Standard
    }
}

/// Derives the quirks from the `TERM` variable: unset (where `unset_is_supported` is
/// false), not UTF-8, `dumb`, `screen` and `screen.*` are unsupported; `rxvt-unicode`
/// and `rxvt-unicode-*` are urxvt.
pub fn terminal_quirks_from_env(term: &TermVar, unset_is_supported: bool) -> (r: TerminalQuirks)
    ensures
        r == quirks_of(*term, unset_is_supported),
{
    match term {
        TermVar::Unset => if unset_is_supported {
            TerminalQuirks::Standard
        } else {
            TerminalQuirks::Unsupported
        },
        TermVar::NotUnicode => TerminalQuirks::Unsupported,
        TermVar::Value(v) => terminal_quirks_from_term(v.as_str()),
    }
}

/// `ESC \`, the string terminator.
pub open spec fn st() -> Seq<u8> {
    seq![0x1bu8, 0x5c]
}

impl TerminalQuirks {
    pub open spec fn terminator(self) -> Seq<u8> {
        if self == TerminalQuirks::Urxvt {
            seq![0x07u8]
        } else {
            st()
        }
    }

    pub fn is_known_unsupported(self) -> (r: bool)
        ensures
            r == (self == TerminalQuirks::Unsupported),
    {
        matches!(self, TerminalQuirks::Unsupported)
    }

    /// The terminator for the queries: `BEL` for urxvt, `ST` (`ESC \`) otherwise.
    pub fn string_terminator(self) -> (r: Vec<u8>)
        ensures
            r@ == self.terminator(),
    {
        let r = if let TerminalQuirks::Urxvt = self {
            vec![0x07u8]
        } else {
            vec![0x1bu8, 0x5c]
        };
        assert(r@ =~= self.terminator());
        r
    }
}

} // verus!
