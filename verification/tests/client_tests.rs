use chat::client::{
    observe_rows, read_message_line, sender_step, user_name_from_line, InputAction, Outgoing,
    SenderAction,
};

#[test]
fn quit_line_leaves() {
    assert!(matches!(read_message_line(":quit\n"), InputAction::Quit));
    assert!(matches!(read_message_line("  :quit  "), InputAction::Quit));
}

#[test]
fn other_lines_are_sent_trimmed() {
    match read_message_line("  hello there \n") {
        InputAction::Send(m) => assert_eq!(m, "hello there"),
        InputAction::Quit => panic!("not a quit line"),
    }
    match read_message_line(":quit now") {
        InputAction::Send(m) => assert_eq!(m, ":quit now"),
        InputAction::Quit => panic!("not a quit line"),
    }
}

#[test]
fn user_name_loses_its_line_end() {
    assert_eq!(user_name_from_line("ann\n"), "ann");
}

#[test]
fn growing_row_count_shows_the_newest_message() {
    let update = observe_rows(3, 5);
    assert!(update.show_newest);
    assert_eq!(update.seen, 4);
    let update = observe_rows(4, 5);
    assert!(update.show_newest);
    assert_eq!(update.seen, 5);
    let update = observe_rows(5, 5);
    assert!(!update.show_newest);
    assert_eq!(update.seen, 5);
}

#[test]
fn typed_message_goes_out_under_the_user_name() {
    let name = "ann".to_string();
    match sender_step(&name, Outgoing::Message("hi".to_string())) {
        SenderAction::Send(data) => {
            assert_eq!(data.name, "ann");
            assert_eq!(data.message, "hi");
        }
        _ => panic!("should send"),
    }
    assert!(matches!(sender_step(&name, Outgoing::Empty), SenderAction::Wait));
    assert!(matches!(sender_step(&name, Outgoing::Disconnected), SenderAction::Stop));
}
