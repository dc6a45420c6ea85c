use my_notif::extract::{display_lines_of, extract, is_white_space_char, ExtractError};
use my_notif::frame::{RawFrame, MAX_NOTIFICATION_LENGTH};

fn lines(v: &[&str]) -> Vec<String> {
    v.iter().map(|s| s.to_string()).collect()
}

#[test]
fn two_lines_are_split() {
    let frame = RawFrame::from_received(b"Hello\nWorld");
    assert_eq!(frame.message(), Ok(lines(&["Hello", "World"])));
}

#[test]
fn lines_after_the_third_are_dropped() {
    assert_eq!(extract(b"a\nb\nc\nd\ne"), Ok(lines(&["a", "b", "c"])));
}

#[test]
fn line_count_follows_line_feeds() {
    assert_eq!(extract(b"one").unwrap().len(), 1);
    assert_eq!(extract(b"one\ntwo").unwrap().len(), 2);
    assert_eq!(extract(b"one\ntwo\nthree").unwrap().len(), 3);
    assert_eq!(extract(b"one\n\n\n\nfive").unwrap().len(), 3);
}

#[test]
fn each_line_is_right_trimmed() {
    assert_eq!(extract(b"a  \t\nb \r\nc"), Ok(lines(&["a", "b", "c"])));
}

#[test]
fn carriage_return_line_feed_ends_a_line() {
    assert_eq!(extract(b"x\r\ny"), Ok(lines(&["x", "y"])));
}

#[test]
fn trailing_white_space_and_padding_are_stripped() {
    let mut buffer = b"Hi there  \n \n".to_vec();
    buffer.extend_from_slice(&[0u8; 20]);
    assert_eq!(extract(&buffer), Ok(lines(&["Hi there"])));
}

#[test]
fn empty_lines_inside_are_kept() {
    assert_eq!(extract(b"a\n\nb"), Ok(lines(&["a", "", "b"])));
}

#[test]
fn nul_only_buffer_gives_no_line() {
    assert_eq!(extract(&[0u8; MAX_NOTIFICATION_LENGTH]), Ok(Vec::new()));
    assert_eq!(extract(&[]), Ok(Vec::new()));
    assert_eq!(extract(&[0u8]), Ok(Vec::new()));
}

#[test]
fn white_space_only_text_gives_no_line() {
    assert_eq!(extract(b" \n\t\r\n  "), Ok(Vec::new()));
}

#[test]
fn invalid_utf8_is_rejected() {
    assert_eq!(extract(&[0x66, 0xFF, 0x66]), Err(ExtractError::InvalidUtf8));
    assert_eq!(extract(&[0xE3, 0x81]), Err(ExtractError::InvalidUtf8));
    assert_eq!(extract(&[0xED, 0xA0, 0x80]), Err(ExtractError::InvalidUtf8));
}

#[test]
fn multibyte_text_is_decoded() {
    assert_eq!(
        extract("héllo\nこんにちは\u{3000}".as_bytes()),
        Ok(lines(&["héllo", "こんにちは"]))
    );
}

#[test]
fn interior_nul_is_kept() {
    assert_eq!(extract(b"a\0b\0\0"), Ok(lines(&["a\0b"])));
}

#[test]
fn display_lines_of_text() {
    assert_eq!(
        display_lines_of("Test Notification\nThis is a test message."),
        lines(&["Test Notification", "This is a test message."])
    );
    assert_eq!(display_lines_of(""), Vec::<String>::new());
    assert_eq!(display_lines_of("\u{2003}x\u{2003}"), lines(&["\u{2003}x"]));
}

#[test]
fn white_space_matches_std() {
    for v in 0u32..=0x10FFFF {
        if let Some(c) = char::from_u32(v) {
            assert_eq!(is_white_space_char(c), c.is_whitespace(), "U+{v:04X}");
        }
    }
}

#[test]
fn frame_is_padded_to_capacity() {
    let frame = RawFrame::from_received(b"abc");
    let bytes = frame.as_bytes();
    assert_eq!(bytes.len(), MAX_NOTIFICATION_LENGTH);
    assert_eq!(&bytes[..3], b"abc");
    assert!(bytes[3..].iter().all(|b| *b == 0));
}

#[test]
fn frame_keeps_only_capacity() {
    let received = vec![b'A'; 2000];
    let frame = RawFrame::from_received(&received);
    assert_eq!(frame.as_bytes(), &received[..MAX_NOTIFICATION_LENGTH]);
    assert_eq!(frame.message(), Ok(vec!["A".repeat(MAX_NOTIFICATION_LENGTH)]));
}
