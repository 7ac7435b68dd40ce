use bytes::BytesMut;
use mini_telnet::codec::{is_sub, is_three_byte_iac, try_parse_iac, Item, ParseIacResult, TelnetCodec};
use mini_telnet::error::TelnetError;

fn buffer(bytes: &[u8]) -> BytesMut {
    BytesMut::from(bytes)
}

/// Decodes until the decoder asks for more bytes, as a framed reader does.
fn drain(codec: &mut TelnetCodec, src: &mut BytesMut) -> Vec<Item> {
    let mut items = Vec::new();
    loop {
        match codec.decode(src).unwrap() {
            Some(Item::NeedMore) => {
                items.push(Item::NeedMore);
                return items;
            }
            Some(item) => items.push(item),
            None => return items,
        }
    }
}

#[test]
fn empty_buffer_gives_no_item() {
    let mut codec = TelnetCodec::new();
    let mut src = BytesMut::new();
    assert_eq!(codec.decode(&mut src).unwrap(), None);
    assert!(src.is_empty());
}

#[test]
fn default_decoder_is_a_new_decoder() {
    let mut codec = TelnetCodec::default();
    let mut src = buffer(b"ok\n");
    assert_eq!(codec.decode(&mut src).unwrap(), Some(Item::Line(b"ok\n".to_vec())));
}

#[test]
fn will_takes_three_bytes() {
    let mut codec = TelnetCodec::new();
    let mut src = buffer(&[0xff, 0xfb, 0x01]);
    assert_eq!(codec.decode(&mut src).unwrap(), Some(Item::Will(1)));
    assert_eq!(src.len(), 0);
}

#[test]
fn will_leaves_what_follows() {
    let mut codec = TelnetCodec::new();
    let mut src = buffer(&[0xff, 0xfb, 0x01, b'a', b'b']);
    assert_eq!(codec.decode(&mut src).unwrap(), Some(Item::Will(1)));
    assert_eq!(&src[..], b"ab");
}

#[test]
fn each_negotiation_command_has_its_item() {
    let mut codec = TelnetCodec::new();
    let mut src = buffer(&[0xff, 0xfb, 3, 0xff, 0xfc, 4, 0xff, 0xfd, 5, 0xff, 0xfe, 6]);
    assert_eq!(
        drain(&mut codec, &mut src),
        vec![Item::Will(3), Item::Wont(4), Item::Do(5), Item::Dont(6)]
    );
    assert!(src.is_empty());
}

#[test]
fn partial_negotiation_needs_more_and_consumes_nothing() {
    let mut codec = TelnetCodec::new();
    let mut src = buffer(&[0xff, 0xfb]);
    assert_eq!(codec.decode(&mut src).unwrap(), Some(Item::NeedMore));
    assert_eq!(&src[..], &[0xff, 0xfb]);
    // asking again changes nothing
    assert_eq!(codec.decode(&mut src).unwrap(), Some(Item::NeedMore));
    assert_eq!(&src[..], &[0xff, 0xfb]);
}

#[test]
fn lone_escape_byte_needs_more() {
    let mut codec = TelnetCodec::new();
    let mut src = buffer(&[0xff]);
    assert_eq!(codec.decode(&mut src).unwrap(), Some(Item::NeedMore));
    assert_eq!(&src[..], &[0xff]);
}

#[test]
fn partial_feed_then_rest_gives_the_same_as_one_feed() {
    let mut codec = TelnetCodec::new();
    let mut src = buffer(&[0xff, 0xfb]);
    assert_eq!(codec.decode(&mut src).unwrap(), Some(Item::NeedMore));
    src.extend_from_slice(&[0x01]);
    assert_eq!(codec.decode(&mut src).unwrap(), Some(Item::Will(1)));
    assert_eq!(src.len(), 0);
}

#[test]
fn text_before_a_partial_command_is_kept_for_the_next_call() {
    let mut whole = TelnetCodec::new();
    let mut all = buffer(&[b'a', b'b', 0xff, 0xfd, 0x18, b'c', b'\n']);
    let expected = drain(&mut whole, &mut all);

    let mut codec = TelnetCodec::new();
    let mut src = buffer(&[b'a', b'b', 0xff, 0xfd]);
    assert_eq!(codec.decode(&mut src).unwrap(), Some(Item::NeedMore));
    assert_eq!(&src[..], &[0xff, 0xfd]);
    src.extend_from_slice(&[0x18, b'c', b'\n']);
    let resumed = drain(&mut codec, &mut src);

    assert_eq!(expected, vec![Item::Do(0x18), Item::Line(b"abc\n".to_vec())]);
    assert_eq!(resumed, expected);
}

#[test]
fn unknown_command_is_a_failure() {
    let mut codec = TelnetCodec::new();
    let mut src = buffer(&[0xff, 0x99]);
    match codec.decode(&mut src) {
        Err(TelnetError::UnknownIAC(cmd)) => assert_eq!(cmd, 153),
        other => panic!("unexpected result: {:?}", other),
    }
    assert_eq!(&src[..], &[0xff, 0x99]);
}

#[test]
fn doubled_escape_byte_is_no_literal() {
    let mut codec = TelnetCodec::new();
    let mut src = buffer(&[0xff, 0xff]);
    assert!(matches!(codec.decode(&mut src), Err(TelnetError::UnknownIAC(255))));
}

#[test]
fn subnegotiation_bytes_are_discarded() {
    let mut codec = TelnetCodec::new();
    let mut src = buffer(&[0xff, 0xfa, 0x01, 0x41, 0x42, 0xff, 0xf0]);
    let items = drain(&mut codec, &mut src);
    assert_eq!(items, vec![Item::NeedMore]);
    assert_eq!(&src[..], &[0xff, 0xf0]);
    // the block ends once the byte behind the end mark is there
    src.extend_from_slice(b"C\n");
    assert_eq!(drain(&mut codec, &mut src), vec![Item::Line(b"C\n".to_vec())]);
}

#[test]
fn text_around_a_subnegotiation_block_is_one_line() {
    let mut codec = TelnetCodec::new();
    let mut src = buffer(&[b'x', 0xff, 0xfa, 0x1f, 0x00, 0x50, 0xff, 0xf0, b'y', b'\n']);
    assert_eq!(drain(&mut codec, &mut src), vec![Item::Line(b"xy\n".to_vec())]);
    assert!(src.is_empty());
}

#[test]
fn block_marks_take_two_bytes() {
    let mut codec = TelnetCodec::new();
    let mut src = buffer(&[0xff, 0xfa, b'A', b'\n']);
    // the option byte stays in the buffer and is dropped as part of the block
    assert_eq!(codec.decode(&mut src).unwrap(), None);
    assert!(src.is_empty());
}

#[test]
fn plain_text_comes_out_line_by_line() {
    let mut codec = TelnetCodec::new();
    let mut src = buffer(b"one\ntwo\n\nthree");
    assert_eq!(
        drain(&mut codec, &mut src),
        vec![
            Item::Line(b"one\n".to_vec()),
            Item::Line(b"two\n".to_vec()),
            Item::Line(b"\n".to_vec()),
            Item::Line(b"three".to_vec()),
        ]
    );
    assert!(src.is_empty());
}

#[test]
fn a_line_without_line_feed_is_flushed_at_the_end_of_the_buffer() {
    let mut codec = TelnetCodec::new();
    let mut src = buffer(b"login: ");
    assert_eq!(codec.decode(&mut src).unwrap(), Some(Item::Line(b"login: ".to_vec())));
    assert_eq!(codec.decode(&mut src).unwrap(), None);
}

#[test]
fn control_bytes_are_dropped() {
    let mut codec = TelnetCodec::new();
    let mut src = buffer(b"echo hi\r\n\x07\x00hi\r\n");
    assert_eq!(
        drain(&mut codec, &mut src),
        vec![Item::Line(b"echo hi\n".to_vec()), Item::Line(b"hi\n".to_vec())]
    );
}

#[test]
fn a_line_that_ends_in_a_control_byte_waits_for_more() {
    let mut codec = TelnetCodec::new();
    let mut src = buffer(b"ab\r");
    assert_eq!(codec.decode(&mut src).unwrap(), None);
    assert!(src.is_empty());
    src.extend_from_slice(b"c\n");
    assert_eq!(codec.decode(&mut src).unwrap(), Some(Item::Line(b"abc\n".to_vec())));
}

#[test]
fn high_bytes_are_text() {
    let mut codec = TelnetCodec::new();
    let mut src = buffer(&[0xc4, 0xe3, 0xba, 0xc3, b'\n']);
    assert_eq!(
        codec.decode(&mut src).unwrap(),
        Some(Item::Line(vec![0xc4, 0xe3, 0xba, 0xc3, b'\n']))
    );
}

#[test]
fn parse_needs_two_bytes() {
    assert!(matches!(try_parse_iac(&[]), (ParseIacResult::NeedMore, 0)));
    assert!(matches!(try_parse_iac(&[0xff]), (ParseIacResult::NeedMore, 0)));
}

#[test]
fn parse_needs_the_byte_behind_a_command() {
    for cmd in [240u8, 250, 251, 252, 253, 254] {
        assert!(matches!(try_parse_iac(&[0xff, cmd]), (ParseIacResult::NeedMore, 0)));
    }
}

#[test]
fn parse_reads_each_command() {
    assert!(matches!(
        try_parse_iac(&[0xff, 240, 7]),
        (ParseIacResult::Item(Item::SE(7)), 2)
    ));
    assert!(matches!(
        try_parse_iac(&[0xff, 250, 7]),
        (ParseIacResult::Item(Item::SB(7)), 2)
    ));
    assert!(matches!(
        try_parse_iac(&[0xff, 251, 7]),
        (ParseIacResult::Item(Item::Will(7)), 3)
    ));
    assert!(matches!(
        try_parse_iac(&[0xff, 252, 7]),
        (ParseIacResult::Item(Item::Wont(7)), 3)
    ));
    assert!(matches!(
        try_parse_iac(&[0xff, 253, 7, 9]),
        (ParseIacResult::Item(Item::Do(7)), 3)
    ));
    assert!(matches!(
        try_parse_iac(&[0xff, 254, 7]),
        (ParseIacResult::Item(Item::Dont(7)), 3)
    ));
}

#[test]
fn parse_rejects_other_commands() {
    assert!(matches!(try_parse_iac(&[0xff, 0x99]), (ParseIacResult::Invalid(153), 0)));
    assert!(matches!(try_parse_iac(&[0xff, 241, 1]), (ParseIacResult::Invalid(241), 0)));
    assert!(matches!(try_parse_iac(&[0xff, 249, 1]), (ParseIacResult::Invalid(249), 0)));
}

#[test]
fn three_byte_commands_are_will_to_dont() {
    for byte in 0..=255u8 {
        assert_eq!(is_three_byte_iac(byte), (251..=254).contains(&byte));
    }
}

#[test]
fn block_marks_are_se_and_sb() {
    for byte in 0..=255u8 {
        assert_eq!(is_sub(byte), byte == 240 || byte == 250);
    }
}
