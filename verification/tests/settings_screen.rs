//! The settings screen, driven from outside.
use cs_tui::key::{KeyCode, KeyEvent};
use cs_tui::settings_screen::{
    NotificationPrefs, Settings, SettingsIntent, SettingsPane, SettingsScreen, FIELD_COUNT,
};
use cs_tui::theme::Theme;

fn key(code: KeyCode, control: bool) -> KeyEvent {
    KeyEvent { code, control }
}

#[test]
fn keys_ignored_before_load() {
    let mut s = SettingsScreen::new();
    let i = s.handle_key(key(KeyCode::Char(' '), false));
    assert_eq!(i, SettingsIntent::Nothing);
    assert_eq!(s.focused, 0);
}

#[test]
fn apply_loaded_populates_values() {
    let mut s = SettingsScreen::new();
    let settings = Settings {
        filter_nsfw: Some(true),
        icon_theme: Some("cyber".into()),
        notifications: NotificationPrefs {
            bookmark: Some(false),
            ..Default::default()
        },
        ..Default::default()
    };
    s.apply_loaded(Ok(settings));
    assert!(s.loaded);
    assert_eq!(s.bools[0], Some(true)); // the NSFW filter
    assert_eq!(s.bools[7], Some(false)); // notif.bookmark
    assert_eq!(s.texts[10], "cyber");
}

#[test]
fn space_toggles_bool() {
    let mut s = SettingsScreen::new();
    s.apply_loaded(Ok(Settings {
        filter_nsfw: Some(false),
        ..Default::default()
    }));
    s.focused = 0;
    s.handle_key(key(KeyCode::Char(' '), false));
    assert_eq!(s.bools[0], Some(true));
    assert!(s.dirty[0]);
}

#[test]
fn typing_edits_text_field() {
    let mut s = SettingsScreen::new();
    s.apply_loaded(Ok(Settings::default()));
    s.focused = 10; // iconTheme
    s.handle_key(key(KeyCode::Char('c'), false));
    s.handle_key(key(KeyCode::Char('6'), false));
    s.handle_key(key(KeyCode::Char('4'), false));
    assert_eq!(s.texts[10], "c64");
    assert!(s.dirty[10]);
}

#[test]
fn submit_with_no_dirty_cancels() {
    let mut s = SettingsScreen::new();
    s.apply_loaded(Ok(Settings::default()));
    let i = s.handle_key(key(KeyCode::Char('s'), true));
    assert_eq!(i, SettingsIntent::Cancel);
}

#[test]
fn submit_with_dirty_emits_update() {
    let mut s = SettingsScreen::new();
    s.apply_loaded(Ok(Settings::default()));
    s.focused = 0;
    s.handle_key(key(KeyCode::Char(' '), false));
    let i = s.handle_key(key(KeyCode::Char('s'), true));
    match i {
        SettingsIntent::Submit { update } => {
            assert_eq!(update.filter_nsfw, Some(true));
        }
        other => panic!("expected Submit, got {other:?}"),
    }
}

#[test]
fn notification_toggles_grouped_into_subobject() {
    let mut s = SettingsScreen::new();
    s.apply_loaded(Ok(Settings::default()));
    s.focused = 7; // notif.bookmark
    s.handle_key(key(KeyCode::Char(' '), false));
    let update = s.build_update();
    assert!(update.notifications.is_some());
    assert_eq!(update.notifications.unwrap().bookmark, Some(true));
}

#[test]
fn tab_cycles_focus() {
    let mut s = SettingsScreen::new();
    s.apply_loaded(Ok(Settings::default()));
    assert_eq!(s.focused, 0);
    s.handle_key(key(KeyCode::Tab, false));
    assert_eq!(s.focused, 1);
}

#[test]
fn flipping_twice_restores() {
    let mut s = SettingsScreen::new();
    s.apply_loaded(Ok(Settings { filter_nsfw: Some(true), ..Default::default() }));
    s.handle_key(key(KeyCode::Char(' '), false));
    s.handle_key(key(KeyCode::Char(' '), false));
    assert_eq!(s.bools[0], Some(true));
    assert!(s.dirty[0]);
}

#[test]
fn focus_goes_round() {
    let mut s = SettingsScreen::new();
    s.apply_loaded(Ok(Settings::default()));
    for _ in 0..FIELD_COUNT {
        s.handle_key(key(KeyCode::Tab, false));
    }
    assert_eq!(s.focused, 0);
    s.handle_key(key(KeyCode::BackTab, false));
    assert_eq!(s.focused, FIELD_COUNT - 1);
    assert!(s.is_editing_text());
}

#[test]
fn an_update_carries_only_what_changed() {
    let mut s = SettingsScreen::new();
    s.apply_loaded(Ok(Settings { icon_theme: Some("cyber".into()), ..Default::default() }));
    assert!(s.build_update().is_empty());
    s.focused = 10;
    s.handle_key(key(KeyCode::Backspace, false));
    let update = s.build_update();
    assert_eq!(update.icon_theme.as_deref(), Some("cybe"));
    assert_eq!(update.filter_nsfw, None);
    assert!(update.notifications.is_none());
}

#[test]
fn failures_are_shown() {
    let theme = Theme::cyber();
    let mut s = SettingsScreen::new();
    assert!(matches!(s.render(&theme).pane, SettingsPane::Waiting(_)));
    s.apply_loaded(Err("boom".into()));
    match s.render(&theme).pane {
        SettingsPane::Rows { status, .. } => assert!(status.text().contains("boom")),
        other => panic!("{other:?}"),
    }
    s.apply_loaded(Ok(Settings::default()));
    s.submitting = true;
    s.finish_submit(Err("no".into()));
    assert!(!s.submitting);
    match s.render(&theme).pane {
        SettingsPane::Rows { rows, selected, status } => {
            assert_eq!((rows.len(), selected), (FIELD_COUNT, 0));
            assert!(status.text().contains("no"));
        }
        other => panic!("{other:?}"),
    }
}

#[test]
fn letters_that_move_elsewhere_are_typed_into_a_text() {
    let mut s = SettingsScreen::new();
    s.apply_loaded(Ok(Settings::default()));
    s.focused = 10; // iconTheme
    s.handle_key(key(KeyCode::Char('j'), false));
    s.handle_key(key(KeyCode::Char('k'), false));
    assert_eq!(s.texts[10], "jk");
    assert!(s.dirty[10]);
    assert_eq!(s.focused, 10);
    // On a switch they move.
    s.focused = 0;
    s.handle_key(key(KeyCode::Char('j'), false));
    assert_eq!(s.focused, 1);
    s.handle_key(key(KeyCode::Char('k'), false));
    assert_eq!(s.focused, 0);
}
