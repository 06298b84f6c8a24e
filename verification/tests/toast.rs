//! Short notices.
use cs_tui::draw::Rect;
use cs_tui::theme::Theme;
use cs_tui::toast::{render, Toast, ToastKind, NANOS};

const NOW: u64 = 5 * NANOS;

#[test]
fn rate_limited_clamps_and_shows_server_value() {
    let t = Toast::rate_limited(10, NOW);
    assert_eq!(t.display_secs(NOW), 10);
    assert!(!t.is_expired(NOW));
    assert!(t.label(NOW).contains("rate limited"));
    assert!(t.label(NOW).contains("(10s)"), "label was {:?}", t.label(NOW));

    // Visible countdown is clamped to ≤60s even for a huge hint.
    assert_eq!(Toast::rate_limited(9000, NOW).display_secs(NOW), 60);
}

#[test]
fn zero_retry_after_still_lives_briefly() {
    // A 0s hint is clamped up to 1s so the toast is actually seen, and the
    // displayed value never drops below 1.
    let t = Toast::rate_limited(0, NOW);
    assert!(!t.is_expired(NOW));
    assert_eq!(t.display_secs(NOW), 1);
}

#[test]
fn confirmation_and_warning_have_no_countdown() {
    let c = Toast::confirmation("bookmarked".into(), NOW);
    assert!(!c.is_expired(NOW));
    assert!(c.label(NOW).contains("✓"));
    assert!(c.label(NOW).contains("bookmarked"));
    assert!(!c.label(NOW).contains("(1s)"), "confirmation must not count down");

    let w = Toast::warning("bookmark failed".into(), NOW);
    assert!(w.label(NOW).contains("⚠"));
    assert!(w.label(NOW).contains("bookmark failed"));
}

#[test]
fn a_countdown_runs_out() {
    let t = Toast::countdown("wait".into(), 3, NOW);
    assert_eq!(t.display_secs(NOW), 3);
    assert_eq!(t.display_secs(NOW + 1), 3);
    assert_eq!(t.display_secs(NOW + NANOS), 2);
    assert!(!t.is_expired(NOW + 2 * NANOS));
    assert!(t.is_expired(NOW + 3 * NANOS));
    assert_eq!(t.display_secs(NOW + 9 * NANOS), 1);
}

#[test]
fn a_toast_is_drawn_inside_the_area() {
    let theme = Theme::cyber();
    let t = Toast::confirmation("saved".into(), NOW);
    assert_eq!(t.kind, ToastKind::Success);
    let area = Rect { x: 0, y: 0, width: 40, height: 10 };
    let f = render(area, &t, NOW, &theme).expect("there is room");
    assert!(f.rect.x + f.rect.width <= 40);
    assert!(f.line.text().contains("saved"));
    assert!(render(Rect { x: 0, y: 0, width: 0, height: 0 }, &t, NOW, &theme).is_none());
}
