//! The journal screen, driven from outside.
use cs_tui::config::Config;
use cs_tui::hyperlink::osc8;
use cs_tui::journal::{
    civil_text, format_full, format_relative, relative_text, CivilTime, DetailMode, JournalDetail,
    JournalFrame, JournalIntent, JournalList, JournalScreen, Note, NoteRevision,
};
use cs_tui::key::{KeyCode, KeyEvent};
use cs_tui::model::Moment;
use cs_tui::theme::Theme;

fn key(code: KeyCode) -> KeyEvent {
    KeyEvent { code, control: false }
}

fn note(id: &str, content: &str) -> Note {
    Note {
        note_id: id.into(),
        author_id: "u".into(),
        content: content.into(),
        topics: vec!["journal".into()],
        revision_number: 1,
        deleted: false,
        created_at: None,
    }
}

const NOW: i64 = 1_700_000_000;

fn at(secs: i64) -> Moment {
    Moment { secs, ..Moment::default() }
}

fn frame(s: &JournalScreen) -> JournalFrame {
    s.render(at(NOW), 80, &Theme::cyber(), &Config::default())
}

#[test]
fn c_emits_compose() {
    let mut s = JournalScreen::new();
    s.apply_initial(Ok((vec![note("n1", "x")], None)));
    assert_eq!(
        s.handle_key(key(KeyCode::Char('c')), true),
        JournalIntent::Compose
    );
}

#[test]
fn render_makes_a_note_link_clickable() {
    let mut s = JournalScreen::new();
    s.apply_initial(Ok((
        vec![note("n1", "see [site](https://x.example/page)")],
        None,
    )));

    let linked = match frame(&s).detail {
        JournalDetail::Note(p) => p
            .targets
            .iter()
            .any(|t| osc8(&t.url, "").contains("\u{1b}]8;;https://x.example/page\u{1b}\\")),
        other => panic!("expected a note, got {other:?}"),
    };
    assert!(
        linked,
        "a markdown link in a journal note is an OSC 8 hyperlink"
    );
}

#[test]
fn e_emits_edit_selected() {
    let mut s = JournalScreen::new();
    s.apply_initial(Ok((vec![note("n1", "x")], None)));
    let intent = s.handle_key(key(KeyCode::Char('e')), true);
    assert_eq!(
        intent,
        JournalIntent::EditSelected {
            note_id: "n1".into(),
            content: "x".into(),
            topics: vec!["journal".into()],
        }
    );
}

#[test]
fn d_then_y_deletes() {
    let mut s = JournalScreen::new();
    s.apply_initial(Ok((vec![note("n1", "x")], None)));
    s.handle_key(key(KeyCode::Char('d')), true);
    assert!(s.confirming_delete);
    let intent = s.handle_key(key(KeyCode::Char('y')), true);
    assert_eq!(
        intent,
        JournalIntent::DeleteSelected {
            note_id: "n1".into()
        }
    );
}

#[test]
fn d_then_other_key_cancels() {
    let mut s = JournalScreen::new();
    s.apply_initial(Ok((vec![note("n1", "x")], None)));
    s.handle_key(key(KeyCode::Char('d')), true);
    let intent = s.handle_key(key(KeyCode::Char('x')), true);
    assert_eq!(intent, JournalIntent::Nothing);
    assert!(!s.confirming_delete);
}

#[test]
fn v_emits_show_revisions() {
    let mut s = JournalScreen::new();
    s.apply_initial(Ok((vec![note("n1", "x")], None)));
    let intent = s.handle_key(key(KeyCode::Char('v')), true);
    assert_eq!(
        intent,
        JournalIntent::ShowRevisions {
            note_id: "n1".into()
        }
    );
}

#[test]
fn apply_revisions_switches_mode() {
    let mut s = JournalScreen::new();
    s.apply_initial(Ok((vec![note("n1", "x")], None)));
    s.apply_revisions(
        "n1".into(),
        Ok(vec![NoteRevision {
            revision_number: 1,
            content: "x".into(),
            topics: vec![],
            created_at: None,
        }]),
    );
    assert_eq!(s.mode, DetailMode::Revisions);
}

#[test]
fn v_in_revisions_mode_returns_to_current() {
    let mut s = JournalScreen::new();
    s.apply_initial(Ok((vec![note("n1", "x")], None)));
    s.apply_revisions("n1".into(), Ok(vec![]));
    let intent = s.handle_key(key(KeyCode::Char('v')), true);
    assert_eq!(intent, JournalIntent::HideRevisions);
}

#[test]
fn remove_local_drops_note() {
    let mut s = JournalScreen::new();
    s.apply_initial(Ok((vec![note("n1", "a"), note("n2", "b")], None)));
    s.remove_local("n1");
    assert_eq!(s.notes.len(), 1);
    assert_eq!(s.notes[0].note_id, "n2");
}

#[test]
fn deleting_without_a_question_where_it_is_switched_off() {
    let mut s = JournalScreen::new();
    s.apply_initial(Ok((vec![note("n1", "x")], None)));
    assert_eq!(
        s.handle_key(key(KeyCode::Char('d')), false),
        JournalIntent::DeleteSelected { note_id: "n1".into() }
    );
}

#[test]
fn ages_are_told_roughly() {
    assert_eq!(format_relative(at(NOW - 5), at(NOW)), "5s ago");
    assert_eq!(format_relative(at(NOW - 5 * 60), at(NOW)), "5m ago");
    assert_eq!(format_relative(at(NOW - 3 * 3600), at(NOW)), "3h ago");
    assert_eq!(format_relative(at(NOW - 2 * 86400), at(NOW)), "2d ago");
    assert_eq!(format_relative(at(0), at(NOW)), "1970-01-01");
}

#[test]
fn stamps_are_told_in_full() {
    assert_eq!(format_full(at(NOW)), "2023-11-14 22:13");
    assert_eq!(format_full(at(0)), "1970-01-01 00:00");
    let c = CivilTime { year: 2024, month: 2, day: 29, hour: 7, minute: 5 };
    assert_eq!(civil_text(c), "2024-02-29 07:05");
    assert_eq!(relative_text(at(0), at(NOW), Some(c)), "2024-02-29");
}

#[test]
fn moments_are_told_by_their_own_clock() {
    // Half past midnight, two hours ahead of UTC.
    let t = Moment { secs: 1_699_914_600, nanos: 0, offset: 7200 };
    assert_eq!(format_full(at(1_699_914_600)), "2023-11-13 22:30");
    assert_eq!(format_full(t), "2023-11-14 00:30");
    let later = at(t.secs + 40 * 86400);
    assert_eq!(format_relative(t, later), "2023-11-14");
    assert_eq!(format_relative(at(t.secs), later), "2023-11-13");
    let behind = Moment { offset: -7200, ..at(3600) };
    assert_eq!(format_full(behind), "1969-12-31 23:00");
    // How long ago it was does not depend on the clock.
    assert_eq!(format_relative(t, Moment { offset: -3600, ..at(t.secs + 61) }), "1m ago");
}

#[test]
fn ages_leave_out_the_fraction() {
    let t = Moment { nanos: 500_000_000, ..at(NOW) };
    let now = Moment { nanos: 100_000_000, ..at(NOW + 60) };
    assert_eq!(format_relative(t, now), "59s ago");
    assert_eq!(format_relative(at(NOW), now), "1m ago");
    // A clock that runs a little behind.
    assert_eq!(format_relative(t, at(NOW)), "0s ago");
    assert_eq!(format_relative(t, Moment { nanos: 400_000_000, ..at(NOW - 1) }), "-1s ago");
}

#[test]
fn days_follow_the_gregorian_calendar() {
    assert_eq!(format_full(at(951_782_400)), "2000-02-29 00:00");
    assert_eq!(format_full(at(951_868_800)), "2000-03-01 00:00");
    assert_eq!(format_full(at(-2_203_977_600)), "1900-02-28 00:00");
    assert_eq!(format_full(at(-2_203_891_200)), "1900-03-01 00:00");
    assert_eq!(format_full(at(253_402_300_799)), "9999-12-31 23:59");
    assert_eq!(format_full(at(-377_705_116_800)), "-9999-01-01 00:00");
}

#[test]
fn moments_beyond_the_calendar_have_no_date() {
    assert_eq!(format_full(at(i64::MAX)), "");
    assert_eq!(format_full(Moment { offset: 1, ..at(i64::MAX) }), "");
    assert_eq!(format_relative(at(i64::MAX), at(i64::MIN)), "-18446744073709551615s ago");
}

#[test]
fn a_dropped_note_leaves_the_selection_on_a_note() {
    let mut s = JournalScreen::new();
    s.apply_initial(Ok((vec![note("a", "a"), note("b", "b")], None)));
    s.handle_key(key(KeyCode::Char('j')), true);
    s.remove_local("b");
    assert_eq!(s.selected, 0);
    s.remove_local("a");
    assert_eq!(s.selected, 0);
    assert!(s.notes.is_empty());
}

#[test]
fn the_list_and_the_note_are_shown_side_by_side() {
    let mut s = JournalScreen::new();
    assert!(matches!(frame(&s).list, JournalList::Message(_)));
    s.apply_initial(Ok((vec![note("a", "first line\nsecond")], None)));
    let f = frame(&s);
    match f.list {
        JournalList::Rows { rows, selected } => {
            assert_eq!((rows.len(), selected), (1, 0));
            let text: String = rows[0].iter().map(|l| l.text()).collect();
            assert!(text.contains("first line"), "{text}");
            assert!(!text.contains("second"), "{text}");
        }
        other => panic!("expected rows, got {other:?}"),
    }
    s.apply_revisions(
        "a".into(),
        Ok(vec![NoteRevision {
            revision_number: 4,
            content: "older".into(),
            topics: vec![],
            created_at: Some(at(0)),
        }]),
    );
    match frame(&s).detail {
        JournalDetail::Revisions { rows, selected, text, .. } => {
            assert_eq!((rows.len(), selected), (1, 0));
            assert!(rows[0].text().contains('4'));
            let lines = text.unwrap().lines;
            assert!(lines.iter().any(|l| l.text().contains("older")));
        }
        other => panic!("expected revisions, got {other:?}"),
    }
}
