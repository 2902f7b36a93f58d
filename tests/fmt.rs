use std::time::Duration;

use terminal_colorsaurus::{caret_notation, Error, NotATerminalError, UnsupportedTerminalError};

#[test]
fn escapes_control_chars() {
    assert_eq!("^@", caret_notation("\x00"));
    assert_eq!(
        "^[]11;rgba:0000/0000/4443/cccc^G",
        caret_notation("\x1b]11;rgba:0000/0000/4443/cccc\x07")
    );
}

#[test]
fn caret_keeps_printable_and_maps_high_controls() {
    assert_eq!("abc é", caret_notation("abc é"));
    assert_eq!("^?", caret_notation("\x7f"));
    assert_eq!("^\u{c0}", caret_notation("\u{80}"));
    assert_eq!("", caret_notation(""));
}

#[test]
fn error_messages() {
    let parse = Error::Parse(b"\x1b]11;rgba:0000/0000/4443/cccc\x07".to_vec());
    assert_eq!(
        parse.message(),
        "failed to parse response: ^[]11;rgba:0000/0000/4443/cccc^G"
    );
    assert_eq!(
        Error::Timeout(Duration::from_millis(50)).message(),
        "operation did not complete within 50ms"
    );
    assert_eq!(
        Error::NotATerminal(NotATerminalError).message(),
        "stdout is not connected to a terminal"
    );
    assert_eq!(
        Error::UnsupportedTerminal(UnsupportedTerminalError).message(),
        "the terminal does not support querying for its colors"
    );
    let io = Error::Io(std::io::Error::new(std::io::ErrorKind::Other, "broken pipe"));
    assert_eq!(io.message(), "I/O error: broken pipe");
    assert!(matches!(Error::unsupported(), Error::UnsupportedTerminal(_)));
}
