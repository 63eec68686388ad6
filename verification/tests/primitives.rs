use resp_frame::protocol::text::decode_text;
use resp_frame::protocol::{
    read_from_line, read_line, read_line_simple, read_u8, Cursor, DoubleText, FrameParsingError,
    Tag,
};

fn cause(text: &str) -> FrameParsingError {
    FrameParsingError::Other(text.to_string())
}

#[test]
fn cursor_starts_at_zero_and_moves_anywhere() {
    let data = b"abc";
    let mut cursor = Cursor::new(data);
    assert_eq!(cursor.position(), 0);
    assert_eq!(cursor.get_ref(), b"abc");
    cursor.set_position(2);
    assert_eq!(cursor.position(), 2);
    cursor.set_position(100);
    assert_eq!(cursor.position(), 100);
    assert_eq!(cursor.get_ref(), b"abc");
}

#[test]
fn read_u8_steps_over_one_byte() {
    let data = b"ab";
    let mut cursor = Cursor::new(data);
    assert_eq!(read_u8(&mut cursor), Ok(b'a'));
    assert_eq!(cursor.position(), 1);
    assert_eq!(read_u8(&mut cursor), Ok(b'b'));
    assert_eq!(cursor.position(), 2);
    assert_eq!(read_u8(&mut cursor), Err(FrameParsingError::Incomplete));
    assert_eq!(cursor.position(), 2);
}

#[test]
fn read_u8_on_nothing_is_incomplete() {
    let mut cursor = Cursor::new(b"");
    assert_eq!(read_u8(&mut cursor), Err(FrameParsingError::Incomplete));
    assert_eq!(cursor.position(), 0);
    cursor.set_position(9);
    assert_eq!(read_u8(&mut cursor), Err(FrameParsingError::Incomplete));
    assert_eq!(cursor.position(), 9);
}

#[test]
fn read_line_gives_the_bytes_before_the_first_delimiter() {
    let data = b"one\r\ntwo\r\n\r\nrest";
    let mut cursor = Cursor::new(data);
    assert_eq!(read_line(&mut cursor), Ok(&b"one"[..]));
    assert_eq!(cursor.position(), 5);
    assert_eq!(read_line(&mut cursor), Ok(&b"two"[..]));
    assert_eq!(cursor.position(), 10);
    assert_eq!(read_line(&mut cursor), Ok(&b""[..]));
    assert_eq!(cursor.position(), 12);
    assert_eq!(read_line(&mut cursor), Err(FrameParsingError::Incomplete));
    assert_eq!(cursor.position(), 12);
}

#[test]
fn read_line_needs_both_bytes_of_the_delimiter_in_order() {
    for data in [&b""[..], b"\r", b"\n", b"abc", b"abc\r", b"abc\n", b"abc\n\r", b"a\rb\nc\r"] {
        let mut cursor = Cursor::new(data);
        assert_eq!(read_line(&mut cursor), Err(FrameParsingError::Incomplete), "{:?}", data);
        assert_eq!(cursor.position(), 0);
    }
    let data = b"a\rb\nc\r\r\n";
    let mut cursor = Cursor::new(data);
    assert_eq!(read_line(&mut cursor), Ok(&b"a\rb\nc\r"[..]));
    assert_eq!(cursor.position(), 8);
}

#[test]
fn read_line_beyond_the_buffer_is_incomplete() {
    let data = b"abc\r\n";
    let mut cursor = Cursor::new(data);
    cursor.set_position(4);
    assert_eq!(read_line(&mut cursor), Err(FrameParsingError::Incomplete));
    cursor.set_position(5);
    assert_eq!(read_line(&mut cursor), Err(FrameParsingError::Incomplete));
    cursor.set_position(6);
    assert_eq!(read_line(&mut cursor), Err(FrameParsingError::Incomplete));
    assert_eq!(cursor.position(), 6);
    cursor.set_position(3);
    assert_eq!(read_line(&mut cursor), Ok(&b""[..]));
    assert_eq!(cursor.position(), 5);
}

#[test]
fn read_line_borrows_from_the_buffer() {
    let data = b"abc\r\n";
    let line = {
        let mut cursor = Cursor::new(data);
        read_line(&mut cursor).unwrap()
    };
    assert_eq!(line.as_ptr(), data.as_ptr());
}

#[test]
fn read_line_simple_decodes_text() {
    let data = "gr\u{fc}\u{df}e\r\nx".as_bytes();
    let mut cursor = Cursor::new(data);
    assert_eq!(read_line_simple(&mut cursor), Ok("gr\u{fc}\u{df}e".to_string()));
    assert_eq!(cursor.position(), 9);
    assert_eq!(read_line_simple(&mut cursor), Err(FrameParsingError::Incomplete));
    assert_eq!(cursor.position(), 9);
}

#[test]
fn read_line_simple_refuses_what_is_not_utf8() {
    let data = b"ab\x80\r\n";
    let mut cursor = Cursor::new(data);
    assert_eq!(read_line_simple(&mut cursor), Err(cause("invalid frame format")));
    assert_eq!(cursor.position(), 0);
}

#[test]
fn read_from_line_reads_each_kind_of_value() {
    let data = b"-12\r\n77\r\n1.5e3\r\nx\r\n";
    let mut cursor = Cursor::new(data);
    assert_eq!(read_from_line::<i64>(&mut cursor), Ok(-12));
    assert_eq!(cursor.position(), 5);
    assert_eq!(read_from_line::<i32>(&mut cursor), Ok(77));
    assert_eq!(cursor.position(), 9);
    assert_eq!(
        read_from_line::<DoubleText>(&mut cursor),
        Ok(DoubleText::new("1.5e3").unwrap())
    );
    assert_eq!(cursor.position(), 16);
    assert_eq!(read_from_line::<i64>(&mut cursor), Err(cause("invalid integer format")));
    assert_eq!(cursor.position(), 16);
    assert_eq!(read_from_line::<i32>(&mut cursor), Err(cause("invalid integer format")));
    assert_eq!(cursor.position(), 16);
    assert_eq!(read_from_line::<DoubleText>(&mut cursor), Err(cause("invalid double format")));
    assert_eq!(cursor.position(), 16);
    cursor.set_position(19);
    assert_eq!(read_from_line::<i64>(&mut cursor), Err(FrameParsingError::Incomplete));
    assert_eq!(cursor.position(), 19);
}

#[test]
fn read_from_line_checks_the_encoding_first() {
    let data = b"1\xff\r\n";
    let mut cursor = Cursor::new(data);
    assert_eq!(read_from_line::<i64>(&mut cursor), Err(cause("invalid frame format")));
    assert_eq!(read_from_line::<i32>(&mut cursor), Err(cause("invalid frame format")));
    assert_eq!(read_from_line::<DoubleText>(&mut cursor), Err(cause("invalid frame format")));
    assert_eq!(cursor.position(), 0);
}

#[test]
fn decode_text_is_from_utf8() {
    assert_eq!(decode_text(b"plain"), Some("plain".to_string()));
    assert_eq!(decode_text(b""), Some(String::new()));
    assert_eq!(
        decode_text("\u{7f}\u{80}\u{7ff}\u{800}\u{ffff}\u{10000}\u{10ffff}".as_bytes()),
        Some("\u{7f}\u{80}\u{7ff}\u{800}\u{ffff}\u{10000}\u{10ffff}".to_string())
    );
    for bytes in [
        &b"\x80"[..],
        b"\xc0\x80",
        b"\xc1\xbf",
        b"\xc2",
        b"\xe0\x80\x80",
        b"\xe0\x9f\xbf",
        b"\xed\xa0\x80",
        b"\xed\xbf\xbf",
        b"\xf0\x80\x80\x80",
        b"\xf0\x8f\xbf\xbf",
        b"\xf4\x90\x80\x80",
        b"\xf5\x80\x80\x80",
        b"\xf8\x88\x80\x80\x80",
        b"\xff",
        b"a\xe2\x82",
    ] {
        assert_eq!(decode_text(bytes), None, "{:?}", bytes);
        assert!(String::from_utf8(bytes.to_vec()).is_err());
    }
}

#[test]
fn error_messages() {
    assert_eq!(FrameParsingError::Incomplete.message(), "Incomplete buffer to parse message");
    assert_eq!(cause("invalid bulk string size").message(), "invalid bulk string size");
}

#[test]
fn error_from_text() {
    assert_eq!(FrameParsingError::from("some cause"), cause("some cause"));
    assert_eq!(FrameParsingError::from("some cause".to_string()), cause("some cause"));
    let converted: FrameParsingError = "some cause".into();
    assert_eq!(converted, cause("some cause"));
}

#[test]
fn tags() {
    assert_eq!(Tag::from_byte(b'+'), Tag::Simple);
    assert_eq!(Tag::from_byte(b'-'), Tag::Error);
    assert_eq!(Tag::from_byte(b':'), Tag::Integer);
    assert_eq!(Tag::from_byte(b'.'), Tag::Double);
    assert_eq!(Tag::from_byte(b'$'), Tag::Bulk);
    assert_eq!(Tag::from_byte(b'_'), Tag::Null);
    assert_eq!(Tag::from_byte(b'*'), Tag::Array);
    assert_eq!(Tag::from_byte(b'#'), Tag::Boolean);
    assert_eq!(Tag::from_byte(b'('), Tag::BigNumber);
    assert_eq!(Tag::from_byte(b'!'), Tag::BulkError);
    assert_eq!(Tag::from_byte(b'='), Tag::VerbatimString);
    assert_eq!(Tag::from_byte(b'%'), Tag::Dictionary);
    assert_eq!(Tag::from_byte(b'|'), Tag::Attribute);
    assert_eq!(Tag::from_byte(b'>'), Tag::Push);
    assert_eq!(Tag::from_byte(b','), Tag::Unknown);
    assert_eq!(Tag::from_byte(b'\r'), Tag::Unknown);
    assert_eq!(Tag::from_byte(0), Tag::Unknown);
}
