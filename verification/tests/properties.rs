use bytes::Bytes;
use resp_frame::protocol::{Cursor, DoubleText, Frame, FrameParsingError};

fn decode_at(input: &[u8], position: u64) -> (Result<Frame, FrameParsingError>, u64) {
    let mut cursor = Cursor::new(input);
    cursor.set_position(position);
    let result = Frame::parse(&mut cursor);
    (result, cursor.position())
}

fn samples() -> Vec<(Vec<u8>, Frame)> {
    vec![
        (b"+OK\r\n".to_vec(), Frame::Simple("OK".to_string())),
        (b"+\r\n".to_vec(), Frame::Simple(String::new())),
        ("+\u{e9}t\u{e9} \u{1f600}\r\n".as_bytes().to_vec(), Frame::Simple("\u{e9}t\u{e9} \u{1f600}".to_string())),
        (b"-Error Example\r\n".to_vec(), Frame::Error("Error Example".to_string())),
        (b":-20\r\n".to_vec(), Frame::Integer(-20)),
        (b":+9223372036854775807\r\n".to_vec(), Frame::Integer(i64::MAX)),
        (b".-1.25e-3\r\n".to_vec(), Frame::Double(DoubleText::new("-1.25e-3").unwrap())),
        (b".infinity\r\n".to_vec(), Frame::Double(DoubleText::new("infinity").unwrap())),
        (b"$5\r\nhello\r\n".to_vec(), Frame::Bulk(Bytes::from("hello"))),
        (b"$0\r\n\r\n".to_vec(), Frame::Bulk(Bytes::new())),
        (b"$4\r\n\r\n\r\n\r\n".to_vec(), Frame::Bulk(Bytes::from("\r\n\r\n"))),
        (b"$-1\r\n".to_vec(), Frame::Null),
        (b"_".to_vec(), Frame::Null),
    ]
}

fn malformed() -> Vec<Vec<u8>> {
    vec![
        b"+\xff\r\n".to_vec(),
        b"-\xc3\r\n".to_vec(),
        b":notanumber\r\n".to_vec(),
        b":\r\n".to_vec(),
        b".*234950.45&\r\n".to_vec(),
        b".1e\r\n".to_vec(),
        b"$-2\r\n".to_vec(),
        b"$x\r\n".to_vec(),
        b"$2\r\nabcd".to_vec(),
        b"*".to_vec(),
        b"\r".to_vec(),
    ]
}

#[test]
fn every_truncation_of_a_frame_is_incomplete() {
    for (bytes, frame) in samples() {
        let (whole, end) = decode_at(&bytes, 0);
        assert_eq!(whole, Ok(frame));
        assert_eq!(end, bytes.len() as u64);
        for len in 0..bytes.len() {
            let (result, position) = decode_at(&bytes[..len], 0);
            assert_eq!(result, Err(FrameParsingError::Incomplete), "{:?}", &bytes[..len]);
            assert_eq!(position, 0);
        }
    }
}

#[test]
fn every_truncation_of_a_frame_behind_another_is_incomplete() {
    for (bytes, frame) in samples() {
        let mut buffer = b"+first\r\n".to_vec();
        buffer.extend_from_slice(&bytes);
        assert_eq!(decode_at(&buffer, 8), (Ok(frame), buffer.len() as u64));
        for len in 0..buffer.len() {
            assert_eq!(
                decode_at(&buffer[..len], 8),
                (Err(FrameParsingError::Incomplete), 8)
            );
        }
    }
}

#[test]
fn decoding_twice_gives_equal_results() {
    for (bytes, frame) in samples() {
        let first = decode_at(&bytes, 0);
        let second = decode_at(&bytes, 0);
        assert_eq!(first, second);
        assert_eq!(first.0, Ok(frame));
    }
    for bytes in malformed() {
        let first = decode_at(&bytes, 0);
        let second = decode_at(&bytes, 0);
        assert_eq!(first, second);
        assert!(matches!(first.0, Err(FrameParsingError::Other(_))));
    }
    for (bytes, _) in samples() {
        for len in 0..bytes.len() {
            assert_eq!(decode_at(&bytes[..len], 0), decode_at(&bytes[..len], 0));
        }
    }
}

#[test]
fn decoding_again_after_failure_repeats_the_failure() {
    let input = b"$5\r\nhel";
    let mut cursor = Cursor::new(input);
    assert_eq!(Frame::parse(&mut cursor), Err(FrameParsingError::Incomplete));
    assert_eq!(Frame::parse(&mut cursor), Err(FrameParsingError::Incomplete));
    assert_eq!(cursor.position(), 0);
    let mut buffer = input.to_vec();
    buffer.extend_from_slice(b"lo\r\n");
    let mut cursor = Cursor::new(&buffer);
    assert_eq!(Frame::parse(&mut cursor), Ok(Frame::Bulk(Bytes::from("hello"))));
    assert_eq!(cursor.position(), 11);
}

#[test]
fn appended_bytes_change_no_result_that_was_decided() {
    let tails: [&[u8]; 5] = [b"", b"\r\n", b"+more\r\n", b"\n", b"\xff\xff\xff"];
    for (bytes, frame) in samples() {
        for tail in tails {
            let mut buffer = bytes.clone();
            buffer.extend_from_slice(tail);
            let (result, position) = decode_at(&buffer, 0);
            assert_eq!(result.as_ref(), Ok(&frame));
            assert_eq!(position, bytes.len() as u64);
        }
    }
    for bytes in malformed() {
        let decided = decode_at(&bytes, 0);
        for tail in tails {
            let mut buffer = bytes.clone();
            buffer.extend_from_slice(tail);
            assert_eq!(decode_at(&buffer, 0), decided);
        }
    }
}

#[test]
fn malformed_lines_are_never_incomplete() {
    for bytes in malformed() {
        let (result, position) = decode_at(&bytes, 0);
        assert!(matches!(result, Err(FrameParsingError::Other(_))), "{:?}", bytes);
        assert_eq!(position, 0);
    }
}

#[test]
fn decoded_text_holds_no_delimiter() {
    let input = b"+a\rb\n\rc\r\r\n-x\ny\r\n";
    let mut cursor = Cursor::new(input);
    while let Ok(frame) = Frame::parse(&mut cursor) {
        match frame {
            Frame::Simple(text) | Frame::Error(text) => assert!(!text.contains("\r\n")),
            other => panic!("not a text frame: {:?}", other),
        }
    }
    assert_eq!(cursor.position(), input.len() as u64);
}

#[test]
fn bulk_payload_has_the_declared_length() {
    for length in [0usize, 1, 2, 9, 10, 11, 99, 100, 1000, 70000] {
        let payload: Vec<u8> = (0..length).map(|i| (i % 251) as u8).collect();
        let mut buffer = format!("${}\r\n", length).into_bytes();
        buffer.extend_from_slice(&payload);
        buffer.extend_from_slice(b"\r\n");
        let (result, position) = decode_at(&buffer, 0);
        match result {
            Ok(Frame::Bulk(data)) => {
                assert_eq!(data.len(), length);
                assert_eq!(&data[..], &payload[..]);
            },
            other => panic!("not a bulk frame: {:?}", other),
        }
        assert_eq!(position, buffer.len() as u64);
    }
}

#[test]
fn encoding_a_decoded_frame_gives_it_back() {
    fn encode(frame: &Frame) -> Vec<u8> {
        match frame {
            Frame::Simple(text) => format!("+{}\r\n", text).into_bytes(),
            Frame::Error(text) => format!("-{}\r\n", text).into_bytes(),
            Frame::Integer(value) => format!(":{}\r\n", value).into_bytes(),
            Frame::Double(number) => format!(".{}\r\n", number.as_str()).into_bytes(),
            Frame::Bulk(data) => {
                let mut bytes = format!("${}\r\n", data.len()).into_bytes();
                bytes.extend_from_slice(data);
                bytes.extend_from_slice(b"\r\n");
                bytes
            },
            Frame::Null => b"_\r\n".to_vec(),
        }
    }
    for (bytes, frame) in samples() {
        let decoded = decode_at(&bytes, 0).0.unwrap();
        let encoded = encode(&decoded);
        assert_eq!(decode_at(&encoded, 0).0, Ok(frame));
    }
}
