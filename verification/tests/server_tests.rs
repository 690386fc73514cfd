use chat::frame::encode_frame;
use chat::message::{UserData, UserID};
use chat::server::{connection_step, object_lines, retain_delivered, ConnectionStep, ReadOutcome};

#[test]
fn frame_text_is_delivered() {
    let frame = encode_frame("{\"name\":\"a\",\"message\":\"b\"}");
    match connection_step(ReadOutcome::Frame(frame)) {
        ConnectionStep::Deliver(text) => assert_eq!(text, "{\"name\":\"a\",\"message\":\"b\"}"),
        _ => panic!("should deliver"),
    }
}

#[test]
fn undecodable_frame_is_reported() {
    let mut frame = vec![0xc3u8, 0x28];
    frame.resize(96, 0);
    assert!(matches!(connection_step(ReadOutcome::Frame(frame)), ConnectionStep::Undecodable));
}

#[test]
fn empty_read_is_retried_and_failed_read_closes() {
    assert!(matches!(connection_step(ReadOutcome::WouldBlock), ConnectionStep::Retry));
    assert!(matches!(connection_step(ReadOutcome::Failed), ConnectionStep::Close));
}

#[test]
fn clients_that_missed_a_broadcast_are_dropped() {
    let kept = retain_delivered(vec!["a", "b", "c", "d"], &vec![true, false, true, false]);
    assert_eq!(kept, vec!["a", "c"]);
    let none = retain_delivered(vec![1, 2], &vec![false, false]);
    assert!(none.is_empty());
}

#[test]
fn user_id_tags_data_with_its_connection() {
    let data = UserData::new("ann".to_string(), "hi".to_string());
    let user = UserID::new("127.0.0.1:6000".to_string(), data);
    assert_eq!(user.id, "127.0.0.1:6000");
    assert_eq!(user.data.name, "ann");
    assert_eq!(user.data.message, "hi");
}

#[test]
fn object_message_is_listed_by_key() {
    let mut lines = object_lines("{\"ann\":\"hi\",\"bob\":\"yo\"}", "127.0.0.1:7").unwrap();
    lines.sort();
    assert_eq!(
        lines,
        vec![
            ("ann".to_string(), "(ID: 127.0.0.1:7)".to_string(), "\"hi\"".to_string()),
            ("bob".to_string(), "(ID: 127.0.0.1:7)".to_string(), "\"yo\"".to_string()),
        ]
    );
    assert_eq!(object_lines("{}", "a").unwrap(), vec![]);
}

#[test]
fn non_object_message_is_refused() {
    assert!(object_lines("[1, 2]", "a").is_none());
    assert!(object_lines("{\"n\": 3}", "a").is_none());
    assert!(object_lines("not json", "a").is_none());
}
