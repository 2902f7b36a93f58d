use std::io;
use std::time::Duration;

use terminal_colorsaurus::xterm::request;
use terminal_colorsaurus::{Color, Error, QueryKind, ReadFailure, Session, TerminalQuirks};

fn feed_all(session: &mut Session, chunks: &[&[u8]]) -> Option<Result<Vec<Color>, Error>> {
    let mut last = None;
    for chunk in chunks {
        assert!(last.is_none(), "the session finished before all chunks were fed");
        last = session.on_bytes(chunk);
    }
    last
}

#[test]
fn background_reply_terminated_by_st() {
    let mut session = Session::new(QueryKind::Background, Duration::from_secs(1));
    assert!(session.on_bytes(b"\x1b]11;rgb:dcaa/dcab/dcaa\x1b\\").is_none());
    let result = session.on_bytes(b"\x1b[?1;2c").unwrap().unwrap();
    assert_eq!(
        result,
        vec![Color { red: 0xdcaa, green: 0xdcab, blue: 0xdcaa, alpha: 0xffff }]
    );
}

#[test]
fn background_reply_terminated_by_bel() {
    let mut session = Session::new(QueryKind::Background, Duration::from_secs(1));
    let result =
        session.on_bytes(b"\x1b]11;rgb:0000/0000/0000\x07\x1b[?62c").unwrap().unwrap();
    assert_eq!(result, vec![Color { red: 0, green: 0, blue: 0, alpha: 0xffff }]);
}

#[test]
fn da1_reply_first_means_unsupported() {
    let mut session = Session::new(QueryKind::Background, Duration::from_secs(10));
    let result = session.on_bytes(b"\x1b[?62c").unwrap();
    assert!(matches!(result, Err(Error::UnsupportedTerminal(_))));
}

#[test]
fn da1_reply_before_color_reply_is_unsupported() {
    let mut session = Session::new(QueryKind::Background, Duration::from_secs(1));
    let result = session.on_bytes(b"\x1b[?1;2c\x1b]11;rgb:dcaa/dcab/dcaa\x07").unwrap();
    assert!(matches!(result, Err(Error::UnsupportedTerminal(_))));
}

#[test]
fn silent_terminal_times_out_with_configured_timeout() {
    let session = Session::new(QueryKind::Background, Duration::from_millis(50));
    let result = session.on_read_failure(ReadFailure::TimedOut);
    assert!(matches!(result, Err(Error::Timeout(t)) if t == Duration::from_millis(50)));
}

#[test]
fn timeout_after_partial_reply_is_a_timeout() {
    let mut session = Session::new(QueryKind::Foreground, Duration::from_millis(50));
    assert!(session.on_bytes(b"\x1b]10;rgb:1/2").is_none());
    let result = session.on_read_failure(ReadFailure::TimedOut);
    assert!(matches!(result, Err(Error::Timeout(t)) if t == Duration::from_millis(50)));
}

#[test]
fn io_failure_is_passed_on() {
    let session = Session::new(QueryKind::Foreground, Duration::from_secs(1));
    let failure = ReadFailure::Io(io::Error::new(io::ErrorKind::Other, "gone"));
    let result = session.on_read_failure(failure);
    assert!(matches!(result, Err(Error::Io(e)) if e.kind() == io::ErrorKind::Other));
}

#[test]
fn failure_while_draining_da1_keeps_the_color() {
    let mut session = Session::new(QueryKind::Foreground, Duration::from_secs(1));
    assert!(session.on_bytes(b"\x1b]10;#fff\x07\x1b[?6").is_none());
    let result = session.on_read_failure(ReadFailure::TimedOut).unwrap();
    assert_eq!(result, vec![Color::rgb(0xf000, 0xf000, 0xf000)]);
}

#[test]
fn palette_in_one_session() {
    assert_eq!(
        request(QueryKind::Palette, TerminalQuirks::Standard),
        b"\x1b]10;?\x1b\\\x1b]11;?\x1b\\\x1b[c".to_vec()
    );
    let mut session = Session::new(QueryKind::Palette, Duration::from_secs(1));
    let result = feed_all(
        &mut session,
        &[b"\x1b]10;rgb:ffff/ffff/ffff\x1b\\", b"\x1b]11;rgb:0/0/0\x07", b"\x1b[?1;2c"],
    )
    .unwrap()
    .unwrap();
    assert_eq!(result, vec![Color::rgb(0xffff, 0xffff, 0xffff), Color::rgb(0, 0, 0)]);
}

#[test]
fn palette_with_unanswered_background_is_unsupported() {
    let mut session = Session::new(QueryKind::Palette, Duration::from_secs(1));
    let result = feed_all(&mut session, &[b"\x1b]10;rgb:ffff/ffff/ffff\x07", b"\x1b[?1;2c"]).unwrap();
    assert!(matches!(result, Err(Error::UnsupportedTerminal(_))));
}

#[test]
fn reply_fed_byte_by_byte() {
    let reply: &[u8] = b"\x1b]10;rgb:12/34/56\x1b\\\x1b[?1;2c";
    let mut session = Session::new(QueryKind::Foreground, Duration::from_secs(1));
    for (i, byte) in reply.iter().enumerate() {
        let result = session.on_bytes(&[*byte]);
        if i + 1 < reply.len() {
            assert!(result.is_none(), "finished early at byte {i}");
        } else {
            assert_eq!(result.unwrap().unwrap(), vec![Color::rgb(0x1212, 0x3434, 0x5656)]);
        }
    }
}

#[test]
fn malformed_reply_is_a_parse_error_with_the_raw_bytes() {
    let mut session = Session::new(QueryKind::Foreground, Duration::from_secs(1));
    let result = session.on_bytes(b"\x1b]10;rgb:xyz\x07\x1b[c").unwrap();
    assert!(matches!(result, Err(Error::Parse(raw)) if raw == b"\x1b]10;rgb:xyz\x07".to_vec()));
}

#[test]
fn reply_to_the_wrong_query_is_a_parse_error() {
    let mut session = Session::new(QueryKind::Foreground, Duration::from_secs(1));
    let result = session.on_bytes(b"\x1b]11;rgb:0/0/0\x07\x1b[c").unwrap();
    assert!(matches!(result, Err(Error::Parse(_))));
}

#[test]
fn requests_per_kind_and_terminator() {
    assert_eq!(
        request(QueryKind::Foreground, TerminalQuirks::Standard),
        b"\x1b]10;?\x1b\\\x1b[c".to_vec()
    );
    assert_eq!(
        request(QueryKind::Background, TerminalQuirks::Urxvt),
        b"\x1b]11;?\x07\x1b[c".to_vec()
    );
}
