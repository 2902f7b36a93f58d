use terminal_colorsaurus::{terminal_quirks_from_env, TermVar, TerminalQuirks};

fn quirks_of(term: &str) -> TerminalQuirks {
    terminal_quirks_from_env(&TermVar::Value(term.to_string()), false)
}

#[test]
fn dumb_and_screen_are_unsupported() {
    assert_eq!(quirks_of("dumb"), TerminalQuirks::Unsupported);
    assert!(quirks_of("dumb").is_known_unsupported());
    assert_eq!(quirks_of("screen"), TerminalQuirks::Unsupported);
    assert_eq!(quirks_of("screen.xterm-256color"), TerminalQuirks::Unsupported);
    assert_eq!(quirks_of("screen-256color"), TerminalQuirks::Standard);
    assert_eq!(quirks_of("dumber"), TerminalQuirks::Standard);
}

#[test]
fn unset_and_non_unicode_term() {
    assert_eq!(terminal_quirks_from_env(&TermVar::Unset, false), TerminalQuirks::Unsupported);
    assert_eq!(terminal_quirks_from_env(&TermVar::Unset, true), TerminalQuirks::Standard);
    assert_eq!(terminal_quirks_from_env(&TermVar::NotUnicode, true), TerminalQuirks::Unsupported);
}

#[test]
fn urxvt_gets_bel_terminator() {
    assert_eq!(quirks_of("rxvt-unicode"), TerminalQuirks::Urxvt);
    assert_eq!(quirks_of("rxvt-unicode-256color"), TerminalQuirks::Urxvt);
    assert_eq!(TerminalQuirks::Urxvt.string_terminator(), vec![0x07]);
    assert_eq!(quirks_of("xterm-256color"), TerminalQuirks::Standard);
    assert_eq!(TerminalQuirks::Standard.string_terminator(), b"\x1b\\".to_vec());
    assert!(!TerminalQuirks::Standard.is_known_unsupported());
}
