use chat::screen::{
    checked_ui, cursor_position, poll_timeout, quits_while_waiting, share_text, tick_due, ui, App, Area,
    Cursor, Flow, Key,
};

fn press(app: &mut App, keys: &[Key]) -> Vec<bool> {
    let mut quits = Vec::new();
    for key in keys {
        let k = match key {
            Key::Typed(c) => Key::Typed(*c),
            Key::Enter => Key::Enter,
            Key::Backspace => Key::Backspace,
            Key::Esc => Key::Esc,
            Key::Other => Key::Other,
        };
        quits.push(matches!(app.handle_key(k), Flow::Quit));
    }
    quits
}

#[test]
fn new_screen_is_empty_and_in_normal_mode() {
    let app = App::new();
    assert_eq!(app.scroll(), 0);
    assert_eq!(app.input(), "");
    assert!(!app.is_editing());
    assert!(app.messages().is_empty());
}

#[test]
fn scroll_counts_ticks_modulo_ten() {
    let mut app = App::new();
    for _ in 0..12 {
        app.on_tick();
    }
    assert_eq!(app.scroll(), 2);
}

#[test]
fn typed_line_becomes_a_message() {
    let mut app = App::new();
    let quits = press(
        &mut app,
        &[Key::Typed('e'), Key::Typed('h'), Key::Typed('q'), Key::Backspace, Key::Typed('i'), Key::Enter],
    );
    assert!(quits.iter().all(|q| !q));
    assert_eq!(app.messages(), &vec!["hi".to_string()]);
    assert_eq!(app.input(), "");
    assert!(app.is_editing());
}

#[test]
fn escape_returns_to_normal_mode_and_q_quits() {
    let mut app = App::new();
    let quits = press(&mut app, &[Key::Typed('e'), Key::Typed('x'), Key::Esc, Key::Typed('z'), Key::Typed('q')]);
    assert_eq!(quits, vec![false, false, false, false, true]);
    assert_eq!(app.input(), "x");
    assert!(!app.is_editing());
}

#[test]
fn normal_mode_ignores_other_keys() {
    let mut app = App::new();
    press(&mut app, &[Key::Enter, Key::Backspace, Key::Typed('a'), Key::Other]);
    assert_eq!(app.input(), "");
    assert!(!app.is_editing());
    assert!(app.messages().is_empty());
}

#[test]
fn only_q_quits_while_waiting() {
    assert!(quits_while_waiting(&Key::Typed('q')));
    assert!(!quits_while_waiting(&Key::Typed('e')));
    assert!(!quits_while_waiting(&Key::Esc));
}

#[test]
fn tick_timing() {
    assert_eq!(poll_timeout(60, 20), 40);
    assert_eq!(poll_timeout(60, 60), 0);
    assert_eq!(poll_timeout(60, 90), 0);
    assert!(tick_due(60, 60));
    assert!(!tick_due(60, 59));
}

#[test]
fn cursor_goes_past_the_input() {
    assert_eq!(cursor_position(&Area { x: 3, y: 10 }, 5), Some((9, 11)));
    assert_eq!(cursor_position(&Area { x: 65530, y: 0 }, 5), None);
    assert_eq!(cursor_position(&Area { x: 0, y: 65535 }, 0), None);
}

#[test]
fn shared_text_is_marked_shared() {
    let (text, shared) = share_text(&"ann: hi".to_string());
    assert_eq!(text, "ann: hi");
    assert!(shared);
}

#[test]
fn frame_lists_seven_newest_stored_lines_then_typed_ones() {
    let mut app = App::new();
    press(&mut app, &[Key::Typed('e'), Key::Typed('y'), Key::Enter]);
    let history: Vec<String> = (1..=9).map(|i| format!("u: m{}", i)).collect();
    let screen = ui(&app, &history, &Area { x: 3, y: 20 });
    let expected: Vec<String> = vec!["u: m9", "u: m8", "u: m7", "u: m6", "u: m5", "u: m4", "u: m3", "y"]
        .into_iter()
        .map(String::from)
        .collect();
    assert_eq!(screen.items, expected);
    assert_eq!(screen.shared.len(), 7);
    assert_eq!(screen.shared[0], ("u: m9".to_string(), true));
    assert!(screen.shared.iter().all(|(_, s)| *s));
    assert!(screen.editing);
}

#[test]
fn frame_places_the_cursor_by_display_width() {
    let mut app = App::new();
    press(&mut app, &[Key::Typed('e'), Key::Typed('ｈ'), Key::Typed('i')]);
    let screen = ui(&app, &Vec::new(), &Area { x: 3, y: 20 });
    assert_eq!(screen.input, "ｈi");
    // the fullwidth letter takes two columns
    assert!(matches!(screen.cursor, Cursor::At(7, 21)));
    assert!(screen.items.is_empty());
}

#[test]
fn frame_hides_the_cursor_in_normal_mode() {
    let app = App::new();
    let history = vec!["a: 1".to_string()];
    let screen = ui(&app, &history, &Area { x: 0, y: 0 });
    assert!(matches!(screen.cursor, Cursor::Hidden));
    assert!(!screen.editing);
    assert_eq!(screen.items, history);
}

#[test]
fn checked_frame_refuses_a_cursor_out_of_range() {
    let mut app = App::new();
    press(&mut app, &[Key::Typed('e'), Key::Typed('a')]);
    assert!(checked_ui(&app, &Vec::new(), &Area { x: 65534, y: 0 }).is_none());
    match checked_ui(&app, &Vec::new(), &Area { x: 65533, y: 0 }) {
        Some(screen) => assert!(matches!(screen.cursor, Cursor::At(65535, 1))),
        None => panic!("cursor fits"),
    }
    let normal = App::new();
    assert!(checked_ui(&normal, &Vec::new(), &Area { x: 65535, y: 65535 }).is_some());
}
