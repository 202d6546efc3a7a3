use desktop_ipc::codec::encode;
use desktop_ipc::codec::read;
use desktop_ipc::codec::FrameError;

#[test]
fn encode_prefixes_length() {
    let frame = encode("ping");
    assert_eq!(frame, vec![4, 0, 0, 0, b'p', b'i', b'n', b'g']);
}

#[test]
fn round_trip_ascii() {
    let frame = encode("hello world");
    let (text, consumed) = read(&frame).unwrap();
    assert_eq!(text, "hello world");
    assert_eq!(consumed, frame.len());
}

#[test]
fn round_trip_multibyte() {
    let frame = encode("héllo ← 世界");
    let (text, consumed) = read(&frame).unwrap();
    assert_eq!(text, "héllo ← 世界");
    assert_eq!(consumed, frame.len());
}

#[test]
fn round_trip_empty() {
    let frame = encode("");
    assert_eq!(frame, vec![0, 0, 0, 0]);
    let (text, consumed) = read(&frame).unwrap();
    assert_eq!(text, "");
    assert_eq!(consumed, 4);
}

#[test]
fn round_trip_with_trailing_bytes() {
    let mut frame = encode("abc");
    frame.extend_from_slice(&[9, 9, 9]);
    let (text, consumed) = read(&frame).unwrap();
    assert_eq!(text, "abc");
    assert_eq!(consumed, 7);
}

#[test]
fn short_prefix_is_truncated() {
    assert_eq!(read(&[1, 0]), Err(FrameError::Truncated));
    assert_eq!(read(&[]), Err(FrameError::Truncated));
}

#[test]
fn declared_length_ten_with_three_bytes_is_truncated() {
    let input = [10, 0, 0, 0, b'a', b'b', b'c'];
    assert_eq!(read(&input), Err(FrameError::Truncated));
}

#[test]
fn invalid_utf8_payload_is_invalid_encoding() {
    let input = [2, 0, 0, 0, 0xff, 0xfe];
    assert_eq!(read(&input), Err(FrameError::InvalidEncoding));
}
