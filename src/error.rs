use vstd::prelude::*;

use std::time::Duration;

use vstd::string::StringExecFns;

use crate::fmt::{caret_notation, caret_of};

verus! {

/// std::io::Error, carried through as an opaque value.
#[verifier::external_type_specification]
#[verifier::external_body]
pub struct ExIoError(std::io::Error);

/// An error returned by this library.
#[derive(Debug)]
pub enum Error {
    /// I/O error
    Io(std::io::Error),
    /// The terminal responded using an unsupported response format; holds the raw reply.
    Parse(Vec<u8>),
    /// The query timed out, holding the configured timeout. Either the terminal does
    /// not support querying for colors or there is a lot of latency (e.g. over SSH).
    Timeout(Duration),
    /// Stdout is not connected to a terminal, though that was required.
    NotATerminal(NotATerminalError),
    /// The terminal does not support querying for the foreground or background color.
    UnsupportedTerminal(UnsupportedTerminalError),
}

/// Stdout is not connected to a terminal.
#[derive(Debug, Clone, Copy, PartialEq, Eq, Structural)]
pub struct NotATerminalError;

/// The terminal does not support querying for its colors.
#[derive(Debug, Clone, Copy, PartialEq, Eq, Structural)]
pub struct UnsupportedTerminalError;

impl From<std::io::Error> for Error {
    fn from(source: std::io::Error) -> (r: Error)
        ensures
            r == Error::Io(source),
    {
        Error::Io(source)
    }
}

impl vstd::std_specs::convert::FromSpecImpl<std::io::Error> for Error {
    open spec fn obeys_from_spec() -> bool {
        true
    }

    open spec fn from_spec(source: std::io::Error) -> Error {
        Error::Io(source)
    }
}

/// The text of `bytes` read as UTF-8, with each invalid sequence replaced by U+FFFD.
pub uninterp spec fn lossy_text(bytes: Seq<u8>) -> Seq<char>;

/// Relies on String::from_utf8_lossy: the text depends on the bytes alone.
#[verifier::external_body]
fn utf8_lossy(bytes: &[u8]) -> (r: String)
    ensures
        r@ == lossy_text(bytes@),
{
    String::from_utf8_lossy(bytes).into_owned()
}

/// Relies on the Display impl of std::io::Error, whose text comes from the OS.
#[verifier::external_body]
fn io_error_text(e: &std::io::Error) -> String {
    e.to_string()
}

/// Relies on the Debug impl of Duration (such as `50ms` or `1s`).
#[verifier::external_body]
fn duration_text(d: &Duration) -> String {
    format!("{d:?}")
}

impl Error {
    /// The error's message.
    pub fn message(&self) -> (r: String)
        ensures
            match self {
                Error::Io(_) => r@.subrange(0, 11) == "I/O error: "@,
                Error::Parse(v) => r@ == "failed to parse response: "@ + caret_of(lossy_text(v@)),
                Error::Timeout(_) => r@.subrange(0, 34) == "operation did not complete within "@,
                Error::NotATerminal(_) => r@ == "stdout is not connected to a terminal"@,
                Error::UnsupportedTerminal(_) => r@
                    == "the terminal does not support querying for its colors"@,
            },
    {
        match self {
            Error::Io(e) => {
                let mut r = String::from_str("I/O error: ");
                let detail = io_error_text(e);
                r.append(detail.as_str());
                proof {
                    reveal_strlit("I/O error: ");
                }
                assert(r@.subrange(0, 11) =~= "I/O error: "@);
                r
            },
            Error::Parse(data) => {
                let mut r = String::from_str("failed to parse response: ");
                let text = utf8_lossy(data.as_slice());
                let escaped = caret_notation(text.as_str());
                r.append(escaped.as_str());
                r
            },
            Error::Timeout(timeout) => {
                let mut r = String::from_str("operation did not complete within ");
                let detail = duration_text(timeout);
                r.append(detail.as_str());
                proof {
                    reveal_strlit("operation did not complete within ");
                }
                assert(r@.subrange(0, 34) =~= "operation did not complete within "@);
                r
            },
            Error::NotATerminal(_) => String::from_str("stdout is not connected to a terminal"),
            Error::UnsupportedTerminal(_) => String::from_str(
                "the terminal does not support querying for its colors",
            ),
        }
    }

    /// The error for a terminal that does not support the color queries.
    pub fn unsupported() -> (r: Error)
        ensures
            r == Error::UnsupportedTerminal(UnsupportedTerminalError),
    {
        Error::UnsupportedTerminal(UnsupportedTerminalError)
    }
}

} // verus!
