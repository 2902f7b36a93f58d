use terminal_colorsaurus::heuristics::{parse_preference, terminal_kind, CliThemePreference, TerminalKind};

#[test]
fn terminal_kind_by_term() {
    assert_eq!(terminal_kind(Some("foot"), None, None), TerminalKind::Supported);
    assert_eq!(terminal_kind(Some("tmux-256color"), None, None), TerminalKind::Supported);
    assert_eq!(terminal_kind(Some("linux"), None, None), TerminalKind::Unsupported);
    assert_eq!(terminal_kind(Some("alacritty"), None, None), TerminalKind::Unknown);
    assert_eq!(terminal_kind(None, Some("vscode"), None), TerminalKind::Unknown);
}

#[test]
fn terminal_kind_for_xterm_look_alikes() {
    assert_eq!(terminal_kind(Some("xterm-256color"), Some("iTerm.app"), None), TerminalKind::Supported);
    assert_eq!(terminal_kind(Some("xterm"), Some("mintty"), None), TerminalKind::Unsupported);
    assert_eq!(
        terminal_kind(Some("xterm"), Some("other"), Some("JetBrains-JediTerm")),
        TerminalKind::Supported
    );
    assert_eq!(terminal_kind(Some("xterm"), None, None), TerminalKind::Unknown);
    assert_eq!(terminal_kind(Some("xtermx"), Some("vscode"), None), TerminalKind::Unknown);
}

#[test]
fn clitheme_preference() {
    assert_eq!(parse_preference("dark"), CliThemePreference::Dark);
    assert_eq!(parse_preference("dark:ansi"), CliThemePreference::Dark);
    assert_eq!(parse_preference("light"), CliThemePreference::Light);
    assert_eq!(parse_preference("light:"), CliThemePreference::Light);
    assert_eq!(parse_preference("darkish"), CliThemePreference::Auto);
    assert_eq!(parse_preference(""), CliThemePreference::Auto);
}
