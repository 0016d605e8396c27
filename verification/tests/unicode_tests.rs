use to_tui::after_first_char;
use to_tui::first_char_as_str;
use to_tui::next_char_boundary;
use to_tui::prev_char_boundary;

#[test]
fn test_prev_char_boundary() {
    let s = "a\u{f6}b";
    assert_eq!(prev_char_boundary(s, 0), 0);
    assert_eq!(prev_char_boundary(s, 1), 0);
    assert_eq!(prev_char_boundary(s, 3), 1);
    assert_eq!(prev_char_boundary(s, 4), 3);
}

#[test]
fn test_next_char_boundary() {
    let s = "a\u{f6}b";
    assert_eq!(next_char_boundary(s, 0), 1);
    assert_eq!(next_char_boundary(s, 1), 3);
    assert_eq!(next_char_boundary(s, 3), 4);
    assert_eq!(next_char_boundary(s, 4), 4);
}

#[test]
fn test_first_char_as_str() {
    assert_eq!(first_char_as_str("hello"), "h");
    assert_eq!(first_char_as_str("\u{f6}\u{f0}\u{f3}l\u{e6}\u{fe}"), "\u{f6}");
    assert_eq!(first_char_as_str(""), "");
    assert_eq!(first_char_as_str("a"), "a");
}

#[test]
fn test_after_first_char() {
    assert_eq!(after_first_char("hello"), "ello");
    assert_eq!(
        after_first_char("\u{f6}\u{f0}\u{f3}l\u{e6}\u{fe}"),
        "\u{f0}\u{f3}l\u{e6}\u{fe}"
    );
    assert_eq!(after_first_char(""), "");
    assert_eq!(after_first_char("a"), "");
}

#[test]
fn test_emoji() {
    let s = "\u{1F44B}\u{1F30D}";
    assert_eq!(first_char_as_str(s), "\u{1F44B}");
    assert_eq!(after_first_char(s), "\u{1F30D}");
}
