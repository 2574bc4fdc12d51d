use tx_pigeon::text::{characters, contains_text, replace_text, trim_text};
use tx_pigeon::ui::{draw_ui, get_time, screen_at, time_line};

#[test]
fn characters_of_a_text() {
    assert_eq!(characters("a\u{e9}\u{1f426}"), vec!['a', '\u{e9}', '\u{1f426}']);
}

#[test]
fn texts_are_searched() {
    for (whole, part) in [
        ("", ""),
        ("abc", ""),
        ("abc", "abc"),
        ("abc", "c"),
        ("abc", "abcd"),
        ("aab", "ab"),
        ("", "a"),
        ("InsufficientPeers", "InsufficientPeers"),
    ] {
        assert_eq!(contains_text(whole, part), whole.contains(part), "{whole} {part}");
    }
}

#[test]
fn texts_are_replaced() {
    for (text, pattern, by) in [
        ("/tx/{txid}/hex", "{txid}", "00ff"),
        ("aaaa", "aa", "b"),
        ("aaa", "aa", "b"),
        ("abc", "x", "y"),
        ("", "x", "y"),
        ("x{txid}{txid}", "{txid}", "{txid}"),
    ] {
        assert_eq!(replace_text(text, pattern, by), text.replace(pattern, by));
    }
}

#[test]
fn texts_are_trimmed() {
    for text in ["", " ", "\r\n\t ab c \n", "abc", "\u{3000}a\u{a0}\u{2003}", "\u{200b}a", "\u{85}x"] {
        assert_eq!(trim_text(text), text.trim());
    }
}

#[test]
fn the_time_is_shown() {
    assert_eq!(time_line("2024-01-01 00:00:00 UTC"), "Default format: 2024-01-01 00:00:00 UTC");
    let line = get_time();
    assert!(line.starts_with("Default format: 2"));
    assert!(line.ends_with(" UTC"));
}

#[test]
fn the_screen_has_two_panels() {
    let screen = screen_at(3, "hello", "noon");
    assert_eq!(screen.horizontal_margin, 3);
    assert_eq!(screen.vertical_margin, 2);
    assert_eq!(screen.percentages, (50, 50));
    assert_eq!(screen.upper, "hello");
    assert_eq!(screen.lower, "Default format: noon");
    let now = draw_ui(1, "hi");
    assert_eq!(now.upper, "hi");
    assert!(now.lower.starts_with("Default format: 2"));
    assert!(now.lower.ends_with(" UTC"));
}
