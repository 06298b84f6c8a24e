//! Widths, truncation and lines.
use cs_tui::model::Moment;
use cs_tui::text::{
    columns_of, edited_marker, first_line_of, first_line_truncated, lines, truncate_to_width,
};
use unicode_width::UnicodeWidthStr;

#[test]
fn short_ascii_is_unchanged() {
    assert_eq!(truncate_to_width("hello", 10), "hello");
    assert_eq!(truncate_to_width("hello", 5), "hello");
}

#[test]
fn long_ascii_truncates_with_ellipsis() {
    let out = truncate_to_width(&"x".repeat(20), 10);
    assert_eq!(out.chars().count(), 10); // 9 chars + …
    assert!(out.ends_with('…'));
}

#[test]
fn wide_glyphs_budget_by_column_not_char_count() {
    // Each CJK char is 2 columns wide. With max=5 columns we fit 2 of them
    // (4 cols) plus the ellipsis — never overflowing the column budget.
    let out = truncate_to_width("日本語テスト", 5);
    assert!(
        out.width() <= 5,
        "must not exceed the column budget: {out:?}"
    );
    assert!(out.ends_with('…'));
    assert_eq!(out.chars().filter(|c| *c != '…').count(), 2);
}

#[test]
fn first_line_takes_only_the_first_line() {
    assert_eq!(first_line_truncated("first\nsecond", 100), "first");
    assert_eq!(first_line_truncated("  spaced  \nx", 100), "spaced");
}

#[test]
fn the_edited_marker_tracks_the_edited_at_stamp() {
    assert_eq!(edited_marker(None), "");
    assert_eq!(
        edited_marker(Some(Moment::default())),
        " · (edited)"
    );
}

#[test]
fn truncation_keeps_the_longest_prefix_that_leaves_room() {
    assert_eq!(truncate_to_width("abcdef", 4), "abc…");
    assert_eq!(truncate_to_width("日本語", 6), "日本語");
    assert_eq!(truncate_to_width("日本語", 4), "日…");
    assert_eq!(truncate_to_width("", 3), "");
}

#[test]
fn columns_follow_the_terminal() {
    assert_eq!(columns_of('a'), 1);
    assert_eq!(columns_of('日'), 2);
    assert_eq!(columns_of('\u{301}'), 0);
    assert_eq!(columns_of('\n'), 0);
}

#[test]
fn lines_end_at_newlines_and_drop_carriage_returns() {
    assert_eq!(lines("a\nb\r\nc"), vec!["a", "b", "c"]);
    assert_eq!(lines("a\n\nb\n"), vec!["a", "", "b"]);
    assert!(lines("").is_empty());
    assert_eq!(first_line_of("one\ntwo"), "one");
}

#[test]
fn truncation_keeps_to_the_width_of_the_whole_text() {
    // A glyph and the selector behind it can be wider together than apart.
    for text in ["❤\u{fe0f}❤\u{fe0f}❤\u{fe0f}", "a\u{301}bcdef\u{301}", "\u{1}\u{2}abc", "日本語x"] {
        for max in 1..8 {
            let out = truncate_to_width(text, max);
            assert!(out.width() <= max, "{out:?} in {max}");
            if text.width() <= max {
                assert_eq!(out, text);
            }
        }
    }
}
