use aerolink_simple::input::{
    hex_entry, is_skip_option, is_whitespace, list_select_step, node_port_options, number_entry,
    number_select_step, parse_hex_u8, parse_i32, trim_whitespace, HexEntry, Key, ListStep,
    NumberEntry, NumberStep,
};

fn chars(s: &str) -> Vec<char> {
    s.chars().collect()
}

#[test]
fn whitespace_matches_std() {
    for c in ['\t', '\n', '\r', ' ', '\u{85}', '\u{a0}', '\u{2003}', '\u{3000}', 'a', '0', '\u{200b}'] {
        assert_eq!(is_whitespace(c), c.is_whitespace(), "{:?}", c);
    }
}

#[test]
fn trim_matches_std() {
    for s in ["  12 \n", "\t\u{3000}x y\u{a0}", "", "   ", "abc"] {
        let t: String = trim_whitespace(&chars(s)).into_iter().collect();
        assert_eq!(t, s.trim());
    }
}

#[test]
fn parse_i32_matches_std() {
    for s in ["0", "42", "-42", "+7", "2147483647", "2147483648", "-2147483648", "-2147483649",
        "99999999999999999999", "", "-", "+", "1a", " 1", "--1", "007"] {
        assert_eq!(parse_i32(&chars(s)), s.parse::<i32>().ok(), "{:?}", s);
    }
}

#[test]
fn parse_hex_matches_std() {
    for s in ["0", "ff", "FF", "+1f", "100", "-1", "", "+", "g", "0012", "00000000000000ff"] {
        assert_eq!(parse_hex_u8(&chars(s)), u8::from_str_radix(s, 16).ok(), "{:?}", s);
    }
}

#[test]
fn number_entries() {
    assert_eq!(number_entry(&chars("\n"), 6, 65535), NumberEntry::Empty);
    assert_eq!(number_entry(&chars("  8\n"), 6, 65535), NumberEntry::Accepted(8));
    assert_eq!(number_entry(&chars("5\n"), 6, 65535), NumberEntry::Invalid);
    assert_eq!(number_entry(&chars("abc\n"), 6, 65535), NumberEntry::Invalid);
    assert_eq!(number_entry(&chars("-6"), -6, 22), NumberEntry::Accepted(-6));
}

#[test]
fn hex_entries() {
    assert_eq!(hex_entry(&chars("\n")), HexEntry::Empty);
    assert_eq!(hex_entry(&chars("0x34\n")), HexEntry::Accepted(0x34));
    assert_eq!(hex_entry(&chars("12")), HexEntry::Accepted(0x12));
    assert_eq!(hex_entry(&chars("0X0f")), HexEntry::Accepted(0x0f));
    assert_eq!(hex_entry(&chars("0x0x12")), HexEntry::Accepted(0x12));
    assert_eq!(hex_entry(&chars("0X0x5")), HexEntry::Invalid);
    assert_eq!(hex_entry(&chars("0x")), HexEntry::Invalid);
    assert_eq!(hex_entry(&chars("1ff")), HexEntry::Invalid);
}

#[test]
fn list_navigation_wraps() {
    assert_eq!(list_select_step(0, 3, Key::Up), ListStep::Moved(2));
    assert_eq!(list_select_step(2, 3, Key::Up), ListStep::Moved(1));
    assert_eq!(list_select_step(2, 3, Key::Down), ListStep::Moved(0));
    assert_eq!(list_select_step(0, 3, Key::Down), ListStep::Moved(1));
    assert_eq!(list_select_step(1, 3, Key::Enter), ListStep::Chosen(1));
    assert_eq!(list_select_step(1, 3, Key::Esc), ListStep::Cancelled);
    assert_eq!(list_select_step(1, 3, Key::Char { c: 'q', ctrl: false }), ListStep::Cancelled);
    assert_eq!(list_select_step(1, 3, Key::Char { c: 'c', ctrl: true }), ListStep::Interrupted);
    assert_eq!(list_select_step(1, 3, Key::Char { c: 'c', ctrl: false }), ListStep::Moved(1));
    assert_eq!(list_select_step(0, 0, Key::Esc), ListStep::Cancelled);
}

#[test]
fn number_selection_clamps() {
    assert_eq!(number_select_step(12, 5, 12, 9, Key::Up), NumberStep::Editing(12));
    assert_eq!(number_select_step(9, 5, 12, 9, Key::Up), NumberStep::Editing(10));
    assert_eq!(number_select_step(6, 5, 12, 9, Key::Left), NumberStep::Editing(5));
    assert_eq!(number_select_step(6, 5, 12, 9, Key::Right), NumberStep::Editing(12));
    assert_eq!(number_select_step(0, -6, 22, 10, Key::PageDown), NumberStep::Editing(-6));
    assert_eq!(number_select_step(0, -6, 22, 10, Key::PageUp), NumberStep::Editing(22));
    assert_eq!(number_select_step(7, 5, 12, 9, Key::Home), NumberStep::Editing(5));
    assert_eq!(number_select_step(7, 5, 12, 9, Key::End), NumberStep::Editing(12));
    assert_eq!(number_select_step(7, 5, 12, 9, Key::Enter), NumberStep::Confirmed(7));
    assert_eq!(number_select_step(7, 5, 12, 9, Key::Esc), NumberStep::Confirmed(9));
    assert_eq!(number_select_step(7, 5, 12, 9, Key::Char { c: 'c', ctrl: true }), NumberStep::Interrupted);
    assert_eq!(number_select_step(7, 5, 12, 9, Key::Char { c: 'q', ctrl: false }), NumberStep::Editing(7));
}

#[test]
fn port_options_start_with_skip() {
    let ports = vec!["/dev/ttyUSB0".to_string(), "/dev/ttyUSB1".to_string()];
    let opts = node_port_options(&ports);
    assert_eq!(opts.len(), 3);
    assert!(is_skip_option(&opts[0]));
    assert_eq!(opts[1], "/dev/ttyUSB0");
    assert!(!is_skip_option(&opts[2]));
    assert_eq!(opts[0], "None (Skip this node)");
}
