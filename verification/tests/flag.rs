//! The field for the reason of a report.
use cs_tui::flag::{render_flag_prompt, FlagPrompt, FlagPromptKey, MAX_FLAG_REASON};
use cs_tui::key::{KeyCode, KeyEvent};
use cs_tui::theme::Theme;

fn press(p: &mut FlagPrompt<u32>, code: KeyCode) -> FlagPromptKey {
    p.handle_key(KeyEvent { code, control: false })
}

#[test]
fn the_field_is_edited_at_its_caret() {
    let mut p = FlagPrompt::new(7);
    p.paste("a\nc");
    assert_eq!(p.reason, "a c");
    press(&mut p, KeyCode::Left);
    press(&mut p, KeyCode::Char('b'));
    assert_eq!((p.reason.as_str(), p.cursor), ("a bc", 3));
    press(&mut p, KeyCode::Delete);
    press(&mut p, KeyCode::Home);
    press(&mut p, KeyCode::Delete);
    assert_eq!(p.reason, " b");
    assert_eq!(p.reason_to_send().as_deref(), Some("b"));
    assert_eq!(p.target, 7);
}

#[test]
fn enter_sends_and_esc_abandons() {
    let mut p = FlagPrompt::new(0);
    assert_eq!(press(&mut p, KeyCode::Char('x')), FlagPromptKey::Consumed);
    assert_eq!(press(&mut p, KeyCode::Enter), FlagPromptKey::Submitted);
    assert_eq!(press(&mut p, KeyCode::Esc), FlagPromptKey::Cancelled);
    assert_eq!(p.reason, "x");
}

#[test]
fn a_paste_stops_at_the_cap() {
    let mut p = FlagPrompt::new(0);
    p.paste(&"x".repeat(MAX_FLAG_REASON - 2));
    p.paste("abcd");
    assert_eq!(p.reason.chars().count(), MAX_FLAG_REASON);
    assert!(p.reason.ends_with("ab"));
    press(&mut p, KeyCode::Char('!'));
    assert_eq!(p.reason.chars().count(), MAX_FLAG_REASON);
}

#[test]
fn a_blank_reason_is_none() {
    let mut p = FlagPrompt::new(0);
    assert_eq!(p.reason_to_send(), None);
    p.paste(" \u{2003} ");
    assert_eq!(p.reason_to_send(), None);
}

#[test]
fn a_prompt_takes_two_rows() {
    let mut p = FlagPrompt::new(0);
    p.paste("spam");
    let rows = render_flag_prompt(&p, 40, &Theme::cyber());
    assert_eq!(rows.len(), 2);
    assert!(rows[0].text().contains("reason"));
    assert!(rows[1].text().starts_with("spam"));
}
