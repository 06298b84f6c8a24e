//! The tabs at the top.
use cs_tui::nav::{render_tab_bar, RootKind};
use cs_tui::theme::Theme;

#[test]
fn shortcut_round_trips_for_all_kinds() {
    for kind in RootKind::all() {
        let c = kind.shortcut();
        assert_eq!(RootKind::from_shortcut(c), Some(*kind));
    }
}

#[test]
fn unknown_shortcut_returns_none() {
    assert_eq!(RootKind::from_shortcut('x'), None);
    assert_eq!(RootKind::from_shortcut('0'), None);
    assert_eq!(RootKind::from_shortcut('9'), None);
}

#[test]
fn labels_are_short() {
    for kind in RootKind::all() {
        assert!(kind.label().len() <= 6, "label {:?} too long", kind.label());
    }
}

#[test]
fn the_bar_shows_unread_notifications() {
    let theme = Theme::cyber();
    let some = render_tab_bar(RootKind::Feed, 3, &theme).text();
    assert!(some.contains('3'), "{some}");
    for kind in RootKind::all() {
        assert!(some.contains(kind.label()), "{some}");
    }
    let many = render_tab_bar(RootKind::Feed, 1000, &theme).text();
    let none = render_tab_bar(RootKind::Feed, 0, &theme).text();
    assert_ne!(many, none);
}
