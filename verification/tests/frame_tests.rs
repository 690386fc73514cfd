use chat::frame::{decode_frame, encode_frame, frame_bytes, frame_payload, frame_text_bytes, FrameError};
use chat::frame::{DATA_SIZE, MSG_SIZE, USER_NAME_SIZE};

#[test]
fn frame_sizes_are_those_of_the_protocol() {
    assert_eq!(DATA_SIZE, 96);
    assert_eq!(MSG_SIZE, 32);
    assert_eq!(USER_NAME_SIZE, 16);
}

#[test]
fn short_payload_is_padded_with_zero_bytes() {
    let frame = frame_bytes(vec![1, 2, 3], 6);
    assert_eq!(frame, vec![1, 2, 3, 0, 0, 0]);
}

#[test]
fn long_payload_is_cut_to_the_frame() {
    let frame = frame_bytes(vec![1, 2, 3, 4, 5], 3);
    assert_eq!(frame, vec![1, 2, 3]);
}

#[test]
fn payload_of_exact_size_is_kept() {
    let frame = frame_bytes(vec![7, 8], 2);
    assert_eq!(frame, vec![7, 8]);
}

#[test]
fn encoded_message_fills_a_whole_frame() {
    let json = "{\"name\":\"ann\",\"message\":\"hi\"}";
    let frame = encode_frame(json);
    assert_eq!(frame.len(), 96);
    assert_eq!(&frame[..json.len()], json.as_bytes());
    assert!(frame[json.len()..].iter().all(|b| *b == 0));
}

#[test]
fn decoded_frame_gives_back_the_sent_text() {
    let json = "{\"name\":\"zoë\",\"message\":\"héllo ☃\"}";
    let frame = encode_frame(json);
    match decode_frame(&frame) {
        Ok(text) => assert_eq!(text, json),
        Err(_) => panic!("frame should decode"),
    }
}

#[test]
fn text_longer_than_a_frame_is_cut() {
    let long = "x".repeat(100);
    let frame = encode_frame(&long);
    assert_eq!(frame.len(), 96);
    match decode_frame(&frame) {
        Ok(text) => assert_eq!(text, "x".repeat(96)),
        Err(_) => panic!("frame should decode"),
    }
}

#[test]
fn payload_stops_at_the_first_zero_byte() {
    let buf = vec![104, 105, 0, 33, 0];
    assert_eq!(frame_payload(&buf), vec![104, 105]);
    assert_eq!(frame_payload(&vec![0, 1]), Vec::<u8>::new());
    assert_eq!(frame_payload(&vec![1, 2]), vec![1, 2]);
}

#[test]
fn invalid_utf8_is_refused() {
    let buf = vec![0xff, 0xfe, 0];
    assert!(matches!(decode_frame(&buf), Err(FrameError::InvalidUtf8)));
}

#[test]
fn cut_inside_a_character_is_refused() {
    // 95 one-byte characters then a two-byte one: the frame keeps only its first byte.
    let text = format!("{}é", "a".repeat(95));
    let frame = encode_frame(&text);
    assert!(matches!(decode_frame(&frame), Err(FrameError::InvalidUtf8)));
}

#[test]
fn relay_frames_have_the_relay_sizes() {
    let message = frame_text_bytes("hello", MSG_SIZE);
    assert_eq!(message.len(), 32);
    assert_eq!(&message[..5], b"hello");
    let name = frame_text_bytes("a name longer than sixteen", USER_NAME_SIZE);
    assert_eq!(name, b"a name longer th".to_vec());
}
