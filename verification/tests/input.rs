//! One-line inputs.
use cs_tui::draw::Line;
use cs_tui::input::{collapse_newlines, windowed_line};
use cs_tui::theme::Theme;

/// The text of a line and the column of its caret, which is reversed.
fn render(line: &Line) -> (String, usize) {
    let mut text = String::new();
    let mut caret_col = 0;
    for span in &line.spans {
        if span.style.reversed {
            caret_col = text.chars().count();
        }
        text.push_str(&span.content);
    }
    (text, caret_col)
}

#[test]
fn short_value_shows_everything_with_caret_at_cursor() {
    let theme = Theme::cyber();
    let (text, caret) = render(&windowed_line("hello", 2, 20, &theme));
    assert_eq!(text, "hello");
    assert_eq!(caret, 2); // caret over the 'l'
}

#[test]
fn caret_past_end_appends_a_block() {
    let theme = Theme::cyber();
    let (text, caret) = render(&windowed_line("hi", 2, 20, &theme));
    assert_eq!(text, "hi ");
    assert_eq!(caret, 2);
}

#[test]
fn long_value_windows_to_keep_the_caret_visible() {
    let theme = Theme::cyber();
    // 30 chars, width 10, cursor at the end → only the tail is shown and the
    // caret stays on-screen.
    let value: String = ('a'..='z').chain('A'..='Z').take(30).collect();
    let (text, caret) = render(&windowed_line(&value, value.chars().count(), 10, &theme));
    assert!(text.chars().count() <= 10, "windowed to field width: {text:?}");
    assert!(caret < 10, "caret stays within the window");
    assert!(value.ends_with(text.trim_end()), "shows the tail near the caret");
}

#[test]
fn caret_in_the_middle_of_a_long_value_is_visible() {
    let theme = Theme::cyber();
    let value: String = "x".repeat(40);
    let (_, caret) = render(&windowed_line(&value, 25, 10, &theme));
    assert!(caret < 10, "mid-text caret is windowed into view");
}

#[test]
fn the_window_ends_with_the_caret() {
    let theme = Theme::cyber();
    let (text, caret) = render(&windowed_line("abcdefgh", 8, 4, &theme));
    assert_eq!(text, "fgh ");
    assert_eq!(caret, 3);
}

#[test]
fn pasted_newlines_become_spaces() {
    assert_eq!(collapse_newlines("a\nb"), "a b");
    assert_eq!(collapse_newlines("plain"), "plain");
}
