//! Entries, guilds and settings.
use cs_tui::config::{stamp_of, Config, ImageSharpness};
use cs_tui::key::{KeyCode, KeyEvent};
use cs_tui::model::{
    role_label, visible_entries, Entry, EntryEdit, GuildRole, Moment, TitleEdit, UserGuild,
};

fn at(secs: i64) -> Moment {
    Moment { secs, ..Moment::default() }
}

#[test]
fn an_edit_changes_only_what_it_carries() {
    let mut e = Entry { title: Some("old".into()), content: "text".into(), ..Entry::default() };
    e.apply_edit(&EntryEdit { title: Some(TitleEdit::Remove), ..EntryEdit::default() }, at(5));
    assert_eq!(e.title, None);
    assert_eq!(e.content, "text");
    assert_eq!(e.edited_at, Some(at(5)));
    e.apply_edit(&EntryEdit { title: Some(TitleEdit::Replace("new".into())), ..EntryEdit::default() }, at(6));
    assert_eq!(e.title.as_deref(), Some("new"));
    assert_eq!(e.edited_at, Some(at(6)));
}

#[test]
fn filtered_entries_are_left_out() {
    let items = vec![
        Entry::default(),
        Entry { is_nsfw: true, ..Entry::default() },
        Entry::default(),
    ];
    assert_eq!(visible_entries(&items, true), vec![0, 1, 2]);
    assert_eq!(visible_entries(&items, false), vec![0, 2]);
}

#[test]
fn roles_have_names() {
    assert_eq!(role_label(Some(GuildRole::Founder)), Some("founder"));
    assert_eq!(role_label(None), None);
    assert!(!UserGuild::default().is_badge());
}

#[test]
fn stamps_are_given_by_place() {
    let stamps = vec!["noon".to_string()];
    assert_eq!(stamp_of(Some(at(1)), &stamps, 0), "noon");
    assert_eq!(stamp_of(None, &stamps, 0), "");
    assert_eq!(stamp_of(Some(at(1)), &stamps, 1), "");
}

#[test]
fn settings_have_defaults() {
    assert!(Config::default().confirm_deletes);
    assert!(Config::default().hyperlinks);
    assert_eq!(ImageSharpness::parse("fuzzy"), None);
}

#[test]
fn control_c_always_quits() {
    assert!(KeyEvent { code: KeyCode::Char('c'), control: true }.is_quit());
    assert!(!KeyEvent { code: KeyCode::Char('c'), control: false }.is_quit());
}

#[test]
fn seconds_between_moments_are_whole() {
    let t = Moment { secs: 10, nanos: 900_000_000, offset: 3600 };
    assert_eq!(at(12).seconds_since(t), 1);
    assert_eq!(at(10).seconds_since(t), 0);
    assert_eq!(at(9).seconds_since(t), -1);
    assert_eq!(at(-5).seconds_since(at(5)), -10);
    assert_eq!(t.seconds_since(t), 0);
}
