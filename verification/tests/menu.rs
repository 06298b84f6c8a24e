//! The menu over the screens.
use cs_tui::draw::Rect;
use cs_tui::key::{KeyCode, KeyEvent};
use cs_tui::menu::{MenuIntent, MenuItem, MenuOverlay};
use cs_tui::theme::Theme;

fn key(code: KeyCode) -> KeyEvent {
    KeyEvent { code, control: false }
}

#[test]
fn unauthenticated_root_menu_has_quit_and_cancel_only() {
    let m = MenuOverlay::build(false, false);
    assert_eq!(m.items, vec![MenuItem::Quit, MenuItem::Cancel]);
}

#[test]
fn authenticated_root_menu_has_logout_quit_cancel() {
    let m = MenuOverlay::build(true, false);
    assert_eq!(
        m.items,
        vec![MenuItem::Logout, MenuItem::Quit, MenuItem::Cancel]
    );
}

#[test]
fn child_screen_menu_offers_back_first() {
    let m = MenuOverlay::build(true, true);
    assert_eq!(
        m.items,
        vec![
            MenuItem::Back,
            MenuItem::Logout,
            MenuItem::Quit,
            MenuItem::Cancel
        ]
    );
}

#[test]
fn esc_dismisses_menu() {
    let mut m = MenuOverlay::build(true, true);
    assert_eq!(m.handle_key(key(KeyCode::Esc)), MenuIntent::Cancel);
}

#[test]
fn menu_ctrl_c_quits() {
    let mut m = MenuOverlay::build(true, false);
    let k = KeyEvent { code: KeyCode::Char('c'), control: true };
    assert_eq!(m.handle_key(k), MenuIntent::Quit);
}

#[test]
fn enter_on_back_emits_back() {
    let mut m = MenuOverlay::build(true, true);
    // Back is item 0.
    assert_eq!(m.handle_key(key(KeyCode::Enter)), MenuIntent::Back);
}

#[test]
fn enter_on_logout_emits_logout() {
    let mut m = MenuOverlay::build(true, false);
    // Logout is item 0 when not pushed.
    assert_eq!(m.handle_key(key(KeyCode::Enter)), MenuIntent::Logout);
}

#[test]
fn j_advances_then_enter_picks() {
    let mut m = MenuOverlay::build(true, true);
    m.handle_key(key(KeyCode::Char('j'))); // Logout
    assert_eq!(m.handle_key(key(KeyCode::Enter)), MenuIntent::Logout);
}

#[test]
fn digit_picks_directly() {
    let mut m = MenuOverlay::build(true, true);
    // 4 = Cancel
    assert_eq!(m.handle_key(key(KeyCode::Char('4'))), MenuIntent::Cancel);
}

#[test]
fn out_of_range_digit_is_no_op() {
    let mut m = MenuOverlay::build(false, false);
    // Only 2 items; pressing 9 does nothing.
    assert_eq!(m.handle_key(key(KeyCode::Char('9'))), MenuIntent::Nothing);
}

#[test]
fn the_selection_stops_at_the_ends() {
    let mut m = MenuOverlay::build(false, false);
    m.handle_key(key(KeyCode::Up));
    assert_eq!(m.selected, 0);
    for _ in 0..5 {
        m.handle_key(key(KeyCode::Down));
    }
    assert_eq!(m.selected, 1);
    assert_eq!(m.handle_key(key(KeyCode::Enter)), MenuIntent::Cancel);
}

#[test]
fn the_card_lists_the_items() {
    let m = MenuOverlay::build(true, true);
    let area = Rect { x: 0, y: 0, width: 80, height: 24 };
    let f = m.render(area, &Theme::cyber());
    assert_eq!(f.rows.len(), 4);
    for (row, item) in f.rows.iter().zip(&m.items) {
        assert!(row.text().contains(item.label()));
    }
    assert!(f.card.width <= 80 && f.card.height <= 24);
}
