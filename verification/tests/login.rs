//! The login screen, driven from outside.
use cs_tui::draw::Rect;
use cs_tui::key::{KeyCode, KeyEvent};
use cs_tui::login::{center, humanize_login_error, Field, LoginIntent, LoginScreen};
use cs_tui::theme::Theme;

fn key(code: KeyCode) -> KeyEvent {
    KeyEvent { code, control: false }
}

#[test]
fn typing_fills_focused_field() {
    let mut s = LoginScreen::new(String::new());
    s.handle_key(key(KeyCode::Char('a')));
    s.handle_key(key(KeyCode::Char('@')));
    assert_eq!(s.email, "a@");
    assert!(s.password.is_empty());

    s.handle_key(key(KeyCode::Tab));
    s.handle_key(key(KeyCode::Char('p')));
    assert_eq!(s.password, "p");
}

#[test]
fn enter_on_email_advances_to_password() {
    let mut s = LoginScreen::new("a@b".into());
    let intent = s.handle_key(key(KeyCode::Enter));
    assert_eq!(intent, LoginIntent::Nothing);
    assert_eq!(s.focused, Field::Password);
}

#[test]
fn enter_on_password_with_both_fields_submits() {
    let mut s = LoginScreen::new("a@b".into());
    s.focused = Field::Password;
    s.password = "secret".into();
    let intent = s.handle_key(key(KeyCode::Enter));
    assert_eq!(intent, LoginIntent::Submit);
    assert!(s.submitting);
}

#[test]
fn enter_with_empty_password_shows_error() {
    let mut s = LoginScreen::new("a@b".into());
    s.focused = Field::Password;
    let intent = s.handle_key(key(KeyCode::Enter));
    assert_eq!(intent, LoginIntent::Nothing);
    assert!(s.error.is_some());
    assert!(!s.submitting);
}

#[test]
fn login_ctrl_c_quits() {
    let mut s = LoginScreen::new(String::new());
    let kev = KeyEvent { code: KeyCode::Char('c'), control: true };
    assert_eq!(s.handle_key(kev), LoginIntent::Quit);
}

#[test]
fn esc_is_no_longer_a_screen_concern() {
    let mut s = LoginScreen::new(String::new());
    assert_ne!(s.handle_key(key(KeyCode::Esc)), LoginIntent::Quit);
}

#[test]
fn finish_submit_error_clears_password() {
    let mut s = LoginScreen::new("a@b".into());
    s.password = "bad".into();
    s.submitting = true;
    s.finish_submit(Err("nope".into()));
    assert!(!s.submitting);
    assert_eq!(s.password, "");
    assert_eq!(s.error.as_deref(), Some("nope"));
    assert_eq!(s.focused, Field::Password);
}

#[test]
fn backspace_pops_focused_field() {
    let mut s = LoginScreen::new("abc".into());
    s.handle_key(key(KeyCode::Backspace));
    assert_eq!(s.email, "ab");
}

#[test]
fn keys_ignored_while_submitting() {
    let mut s = LoginScreen::new("a@b".into());
    s.submitting = true;
    s.handle_key(key(KeyCode::Char('x')));
    assert_eq!(s.email, "a@b");
}

#[test]
fn humanize_detects_unverified_email_regardless_of_wording() {
    // Whatever wording/code prod uses, the substring "verif" drives it.
    for raw in [
        "api Unknown (403): email not verified",
        "api Forbidden (403): Email Not Verified",
        "EMAIL_NOT_VERIFIED",
    ] {
        assert!(
            humanize_login_error(raw).starts_with("Email not verified"),
            "expected verification guidance for {raw:?}"
        );
    }
}

#[test]
fn humanize_maps_unauthorized_to_bad_credentials() {
    assert_eq!(
        humanize_login_error("unauthorized — token missing, invalid, or expired"),
        "Incorrect email or password."
    );
    assert_eq!(
        humanize_login_error("api Unauthorized (401): INVALID_LOGIN_CREDENTIALS"),
        "Incorrect email or password."
    );
}

#[test]
fn humanize_maps_rate_limited() {
    assert_eq!(
        humanize_login_error("rate limited; retry after 30s"),
        "Too many attempts. Wait a moment, then try again."
    );
}

#[test]
fn humanize_passes_through_unrecognized_errors() {
    assert_eq!(humanize_login_error("nope"), "nope");
    assert_eq!(
        humanize_login_error("transport: connection refused"),
        "transport: connection refused"
    );
}

#[test]
fn finish_submit_humanizes_verification_error() {
    let mut s = LoginScreen::new("a@b".into());
    s.password = "pw".into();
    s.submitting = true;
    s.finish_submit(Err("api Unknown (403): email not verified".into()));
    assert!(s
        .error
        .as_deref()
        .unwrap()
        .starts_with("Email not verified"));
    assert_eq!(s.password, "");
}

#[test]
fn only_the_focused_field_renders_a_caret() {
    let s = LoginScreen::new("a@b".into()); // focus starts on Email
    let theme = Theme::cyber();
    let f = s.render(Rect { x: 0, y: 0, width: 80, height: 24 }, &theme);
    // The caret is reversed, and stands on one column.
    let lines = [
        &f.title,
        &f.email_label,
        &f.email,
        &f.password_label,
        &f.password,
        &f.status,
    ];
    let carets = lines
        .iter()
        .flat_map(|l| &l.spans)
        .filter(|s| s.style.reversed)
        .map(|s| s.content.chars().count())
        .sum::<usize>();
    assert_eq!(
        carets, 1,
        "exactly one caret should render (focused field only)"
    );
}

#[test]
fn a_password_is_never_shown() {
    let mut s = LoginScreen::new("a@b".into());
    s.handle_key(key(KeyCode::Tab));
    s.paste_into_focused("hunter2");
    assert_eq!(s.password, "hunter2");
    let f = s.render(Rect { x: 0, y: 0, width: 80, height: 24 }, &Theme::cyber());
    assert!(!f.password.text().contains("hunter"));
    assert!(f.password.text().contains("•••••••"), "{}", f.password.text());
}

#[test]
fn a_pasted_newline_is_dropped() {
    let mut s = LoginScreen::new(String::new());
    s.paste_into_focused("me@x.org\n");
    assert!(!s.email.contains('\n'));
    assert!(s.email.starts_with("me@x.org"));
}

#[test]
fn a_card_is_centred_and_cut_to_the_area() {
    let area = Rect { x: 2, y: 1, width: 80, height: 24 };
    assert_eq!(center(area, 40, 10), Rect { x: 22, y: 8, width: 40, height: 10 });
    assert_eq!(center(area, 100, 50), area);
}

#[test]
fn a_successful_submit_clears_the_error() {
    let mut s = LoginScreen::new("a@b".into());
    s.error = Some("old".into());
    s.submitting = true;
    s.finish_submit(Ok(()));
    assert!(!s.submitting);
    assert_eq!(s.error, None);
}
