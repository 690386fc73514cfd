use chat::text::{
    closing_notice, history_line, id_tag, is_white_space_char, quoted, said_label, stored_line,
    trim, window_entry_line, window_history_line, without_last_char,
};

#[test]
fn trim_removes_surrounding_white_space() {
    assert_eq!(trim("  hello world \n"), "hello world");
    assert_eq!(trim("\t\r\n"), "");
    assert_eq!(trim(""), "");
    assert_eq!(trim("x"), "x");
}

#[test]
fn trim_removes_unicode_white_space() {
    assert_eq!(trim("\u{3000}hi\u{85}\u{a0}"), "hi");
    assert_eq!(trim("\u{2009}a b\u{2029}"), "a b");
}

#[test]
fn trim_matches_std() {
    for s in ["  a ", "\u{205f}b\u{1680}", " \u{200b}c ", "d\u{feff}", "\u{180e}e"] {
        assert_eq!(trim(s), s.trim());
    }
}

#[test]
fn white_space_matches_std() {
    for code in 0u32..0x3100 {
        if let Some(c) = char::from_u32(code) {
            assert_eq!(is_white_space_char(c), c.is_whitespace(), "{:x}", code);
        }
    }
}

#[test]
fn without_last_char_drops_the_line_end() {
    assert_eq!(without_last_char("bob\n"), "bob");
    assert_eq!(without_last_char("zoë"), "zo");
    assert_eq!(without_last_char(""), "");
}

#[test]
fn chat_lines_are_formatted() {
    assert_eq!(history_line("ann", "hi"), "ann: hi");
    assert_eq!(window_history_line("ann", "hi"), "ann:\thi\n");
    assert_eq!(window_entry_line("typed"), "typed\n");
    assert_eq!(said_label("ann"), "ann said:");
    assert_eq!(stored_line("ann", "hi"), "ann said: hi");
    assert_eq!(id_tag("127.0.0.1:5000"), "(ID: 127.0.0.1:5000)");
    assert_eq!(quoted("hi"), "\"hi\"");
    assert_eq!(closing_notice("127.0.0.1:5000"), "Closing connection with 127.0.0.1:5000");
}
