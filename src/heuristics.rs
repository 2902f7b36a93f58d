//! Optional hints from the environment that callers may consult before querying:
//! terminals known by name to support or not support the color queries, and the
//! user's stated preference in `CLITHEME`. None of them changes the query itself.
use vstd::prelude::*;

use crate::quirks::{str_eq, str_starts_with};
use crate::bytes::has_prefix;

verus! {

/// What the environment says about support for the color queries.
#[derive(Debug, Clone, Copy, PartialEq, Eq, Structural)]
pub enum TerminalKind {
    Supported,
    Unsupported,
    Unknown,
}

/// For a terminal that calls itself xterm: what `TERM_PROGRAM` and `TERMINAL_EMULATOR`
/// tell, as many terminals claim to be xterm.
pub open spec fn xterm_kind_of(
    term_program: Option<Seq<char>>,
    terminal_emulator: Option<Seq<char>>,
) -> TerminalKind {
    if term_program matches Some(p) && (p == "Apple_Terminal"@ || p == "iTerm.app"@ || p
        == "vscode"@ || p == "kgx"@ || p == "Hyper"@) {
        TerminalKind::Supported
    } else if term_program matches Some(p) && (p == "mintty"@ || p == "Jetbrains.Fleet"@) {
        TerminalKind::Unsupported
    } else if terminal_emulator == Some("JetBrains-JediTerm"@) {
        TerminalKind::Supported
    } else {
        TerminalKind::Unknown
    }
}

/// The kind of terminal that `TERM`, `TERM_PROGRAM` and `TERMINAL_EMULATOR` describe
/// (`None` where a variable is unset or not UTF-8).
pub open spec fn terminal_kind_of(
    term: Option<Seq<char>>,
    term_program: Option<Seq<char>>,
    terminal_emulator: Option<Seq<char>>,
) -> TerminalKind {
    match term {
        Some(t) => if t == "contour"@ || t == "foot"@ || t == "tmux"@ || has_prefix(t, "tmux-"@) {
            TerminalKind::Supported
        } else if t == "linux"@ {
            TerminalKind::Unsupported
        } else if t == "xterm"@ || has_prefix(t, "xterm-"@) {
            xterm_kind_of(term_program, terminal_emulator)
        } else {
            TerminalKind::Unknown
        },
        None => TerminalKind::Unknown,
    }
}

pub open spec fn opt_view(s: Option<&str>) -> Option<Seq<char>> {
    match s {
        Some(v) => Some(v@),
        None => None,
    }
}

fn xterm_kind(term_program: Option<&str>, terminal_emulator: Option<&str>) -> (r: TerminalKind)
    ensures
        r == xterm_kind_of(opt_view(term_program), opt_view(terminal_emulator)),
{
    if let Some(p) = term_program {
        if str_eq(p, "Apple_Terminal") || str_eq(p, "iTerm.app") || str_eq(p, "vscode") || str_eq(
            p,
            "kgx",
        ) || str_eq(p, "Hyper") {
            return TerminalKind::Supported;
        } else if str_eq(p, "mintty") || str_eq(p, "Jetbrains.Fleet") {
            return TerminalKind::Unsupported;
        }
    }
    if let Some(e) = terminal_emulator {
        if str_eq(e, "JetBrains-JediTerm") {
            return TerminalKind::Supported;
        }
    }
    TerminalKind::Unknown
}

/// Classifies the terminal by `TERM`, and for xterm look-alikes by `TERM_PROGRAM` and
/// `TERMINAL_EMULATOR`.
pub fn terminal_kind(
    term: Option<&str>,
    term_program: Option<&str>,
    terminal_emulator: Option<&str>,
) -> (r: TerminalKind)
    ensures
        r == terminal_kind_of(opt_view(term), opt_view(term_program), opt_view(terminal_emulator)),
{
    match term {
        Some(t) => if str_eq(t, "contour") || str_eq(t, "foot") || str_eq(t, "tmux")
            || str_starts_with(t, "tmux-") {
            TerminalKind::Supported
        } else if str_eq(t, "linux") {
            TerminalKind::Unsupported
        } else if str_eq(t, "xterm") || str_starts_with(t, "xterm-") {
            xterm_kind(term_program, terminal_emulator)
        } else {
            TerminalKind::Unknown
        },
        None => TerminalKind::Unknown,
    }
}

/// The theme preference stated in `CLITHEME`.
#[derive(Debug, Clone, Copy, PartialEq, Eq, Structural)]
pub enum CliThemePreference {
    Dark,
    Light,
    Auto,
}

/// `dark` or `dark:...` is dark, `light` or `light:...` is light, anything else automatic.
pub open spec fn preference_of(raw: Seq<char>) -> CliThemePreference {
    if raw == "dark"@ || has_prefix(raw, "dark:"@) {
        CliThemePreference::Dark
    } else if raw == "light"@ || has_prefix(raw, "light:"@) {
        CliThemePreference::Light
    } else {
        CliThemePreference::Auto
    }
}

/// Reads the value of `CLITHEME`.
pub fn parse_preference(raw: &str) -> (r: CliThemePreference)
    ensures
        r == preference_of(raw@),
{
    if str_eq(raw, "dark") || str_starts_with(raw, "dark:") {
        CliThemePreference::Dark
    } else if str_eq(raw, "light") || str_starts_with(raw, "light:") {
        CliThemePreference::Light
    } else {
        CliThemePreference::Auto
    }
}

} // verus!
