use mini_telnet::codec::Item;
use mini_telnet::error::{Phase, TelnetError};
use mini_telnet::text::{decode, fallback_text};
use mini_telnet::wire::{count_lines, ends_with, ends_with_newline, format_enter_str, reply_to};

fn not_utf8() -> std::string::FromUtf8Error {
    String::from_utf8(vec![0xff]).unwrap_err()
}

#[test]
fn utf8_is_read_first() {
    assert_eq!(decode(b"hi\n").unwrap(), "hi\n");
    assert_eq!(decode("héllo → wörld\n".as_bytes()).unwrap(), "héllo → wörld\n");
    assert_eq!(decode(b"").unwrap(), "");
}

#[test]
fn gbk_is_read_where_utf8_fails() {
    assert_eq!(decode(&[0xc4, 0xe3, 0xba, 0xc3]).unwrap(), "你好");
}

#[test]
fn four_byte_sequences_of_gb18030_are_read() {
    assert_eq!(decode(&[0x81, 0x30, 0x81, 0x30]).unwrap(), "\u{80}");
}

#[test]
fn bytes_in_no_encoding_are_a_parse_error() {
    match decode(&[0xff, 0x0a]) {
        Err(TelnetError::ParseError(e)) => assert_eq!(e.as_bytes(), &[0xff, 0x0a]),
        other => panic!("unexpected result: {:?}", other),
    }
}

#[test]
fn fallback_prefers_gbk() {
    let r = fallback_text(Some("a".to_string()), Some("b".to_string()), not_utf8());
    assert_eq!(r.unwrap(), "a");
    let r = fallback_text(Some("a".to_string()), None, not_utf8());
    assert_eq!(r.unwrap(), "a");
}

#[test]
fn fallback_takes_gb18030_next() {
    let r = fallback_text(None, Some("b".to_string()), not_utf8());
    assert_eq!(r.unwrap(), "b");
}

#[test]
fn fallback_fails_with_the_utf8_failure() {
    match fallback_text(None, None, not_utf8()) {
        Err(TelnetError::ParseError(e)) => assert_eq!(e, not_utf8()),
        other => panic!("unexpected result: {:?}", other),
    }
}

#[test]
fn a_line_feed_is_added_where_there_is_none() {
    assert_eq!(format_enter_str("ls"), b"ls\n");
    assert_eq!(format_enter_str("ls\n"), b"ls\n");
    assert_eq!(format_enter_str(""), b"\n");
    assert_eq!(format_enter_str("a\nb"), b"a\nb\n");
    assert_eq!(format_enter_str("\n\n"), b"\n\n");
}

#[test]
fn lines_are_counted_as_the_standard_library_counts_them() {
    for text in ["", "\n", "a", "a\n", "a\nb", "a\nb\n", "\n\n", "a\n\nb", "echo hi\n"] {
        assert_eq!(count_lines(text.as_bytes()), text.lines().count(), "{:?}", text);
    }
    assert_eq!(count_lines(b"echo a\necho b\n"), 2);
    assert_eq!(count_lines(b"no end"), 1);
    assert_eq!(count_lines(b""), 0);
}

#[test]
fn suffixes_are_found() {
    assert!(ends_with(b"login: ", b"login: "));
    assert!(ends_with(b"box login: ", b"login: "));
    assert!(ends_with(b"anything", b""));
    assert!(ends_with(b"", b""));
    assert!(!ends_with(b"login:", b"login: "));
    assert!(!ends_with(b"in: ", b"login: "));
    assert!(!ends_with(b"login: x", b"login: "));
    assert!(!ends_with(b"", b"x"));
}

#[test]
fn line_feed_at_the_end_is_seen() {
    assert!(ends_with_newline(b"\n"));
    assert!(ends_with_newline(b"a\n"));
    assert!(!ends_with_newline(b""));
    assert!(!ends_with_newline(b"\na"));
}

#[test]
fn the_window_size_reply_is_252_by_27() {
    let reply = reply_to(&Item::Do(31)).unwrap();
    assert_eq!(reply, [0xff, 0xfb, 0x1f, 0xff, 0xfa, 0x1f, 0x00, 0xfc, 0x00, 0x1b, 0xff, 0xf0]);
    assert_eq!(u16::from_be_bytes([reply[6], reply[7]]), 252);
    assert_eq!(u16::from_be_bytes([reply[8], reply[9]]), 27);
}

#[test]
fn replies_follow_the_command() {
    assert_eq!(reply_to(&Item::Do(1)).unwrap(), [0xff, 0xfc, 1]);
    assert_eq!(reply_to(&Item::Dont(1)).unwrap(), [0xff, 0xfc, 1]);
    assert_eq!(reply_to(&Item::Will(1)).unwrap(), [0xff, 0xfe, 1]);
    assert_eq!(reply_to(&Item::Wont(1)).unwrap(), [0xff, 0xfe, 1]);
    assert_eq!(reply_to(&Item::Will(31)).unwrap(), [0xff, 0xfe, 31]);
    assert_eq!(reply_to(&Item::Line(b"x".to_vec())), None);
    assert_eq!(reply_to(&Item::SB(1)), None);
    assert_eq!(reply_to(&Item::SE(1)), None);
    assert_eq!(reply_to(&Item::NeedMore), None);
}

#[test]
fn timeouts_name_their_phase() {
    for (phase, name) in [
        (Phase::Connect, "connect"),
        (Phase::Login, "login"),
        (Phase::WriteCommand, "write"),
        (Phase::Read, "read"),
    ] {
        match TelnetError::timeout(phase) {
            TelnetError::Timeout(text) => assert_eq!(text, name),
            other => panic!("unexpected failure: {:?}", other),
        }
    }
}
