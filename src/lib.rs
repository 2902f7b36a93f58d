//! Determines the foreground and background colors of the terminal, and from them
//! whether its theme is dark or light.
//!
//! The library holds the parts that decide: the X11 color string parser, the
//! dark/light classifier, the `TERM`-derived quirks, and the state machine that
//! reads a terminal's replies to the `OSC 10` / `OSC 11` color queries.
use vstd::prelude::*;

pub mod bytes;
pub mod color;
pub mod error;
pub mod fmt;
pub mod heuristics;
pub mod quirks;
pub mod scheme;
pub mod xparsecolor;
pub mod xterm;

pub use color::{scale_to_u8, Color, ColorParseError};
pub use scheme::{color_scheme, ColorPalette, ColorScheme, Lightness, QueryOptions};
pub use xterm::{QueryKind, ReadFailure, Session};
pub use quirks::{terminal_quirks_from_env, TermVar, TerminalQuirks};
pub use fmt::caret_notation;
pub use error::{Error, NotATerminalError, UnsupportedTerminalError};

verus! {

/// Result used by this library.
pub type Result<T> = std::result::Result<T, Error>;

} // verus!
