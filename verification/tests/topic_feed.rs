//! The topic feed, driven from outside.
use cs_tui::config::Config;
use cs_tui::key::{KeyCode, KeyEvent};
use cs_tui::list::ListBody;
use cs_tui::model::{Attachment, Entry, Moment};
use cs_tui::theme::Theme;
use cs_tui::topic_feed::{TopicFeedIntent, TopicFeedScreen};

fn key(code: KeyCode) -> KeyEvent {
    KeyEvent { code, control: false }
}

fn screen(slug: &str) -> TopicFeedScreen {
    TopicFeedScreen::new(slug.to_string(), &Config::default())
}

fn entry(post_id: &str) -> Entry {
    Entry {
        post_id: post_id.into(),
        author_id: "a".into(),
        author_username: "alice".into(),
        content: format!("entry {post_id}"),
        title: None,
        slug: None,
        topics: vec!["music".into()],
        replies_count: 0,
        bookmarks_count: 0,
        is_public: false,
        is_nsfw: false,
        attachments: vec![],
        created_at: None,
        edited_at: None,
        deleted: false,
    }
}

fn edited_stamp() -> Moment {
    Moment { secs: 1_700_000_000, ..Moment::default() }
}

/// Everything the screen shows, as one string.
fn render_to_string(s: &TopicFeedScreen, width: u16) -> String {
    let f = s.render(width, &vec![], &Theme::cyber(), &Config::default());
    let mut text = f.title.text();
    match f.body {
        ListBody::Message(line) => text.push_str(&line.text()),
        ListBody::Rows { rows, .. } => {
            for row in &rows {
                for line in row {
                    text.push_str(&line.text());
                }
            }
        }
    }
    for line in &f.bottom {
        text.push_str(&line.text());
    }
    text
}

#[test]
fn backspace_returns_back_to_index() {
    let mut s = screen("music");
    assert_eq!(s.handle_key(key(KeyCode::Backspace)), TopicFeedIntent::Back);
}

#[test]
fn f_and_m_toggle_the_topic_even_while_loading() {
    // new() starts loading; follow/mute must still work (they're topic-level).
    let mut s = screen("music");
    assert!(s.list.loading);
    assert_eq!(
        s.handle_key(key(KeyCode::Char('f'))),
        TopicFeedIntent::ToggleFollow {
            slug: "music".into()
        }
    );
    assert_eq!(
        s.handle_key(key(KeyCode::Char('m'))),
        TopicFeedIntent::ToggleMute {
            slug: "music".into()
        }
    );
}

#[test]
fn p_plays_the_highlighted_entrys_jukebox() {
    let mut s = screen("music");
    let mut e = entry("p1");
    e.attachments = vec![Attachment::Audio {
        src: "https://youtu.be/abc".into(),
        origin: "youtube".into(),
        artist: "Art of Noise".into(),
        title: "Paranoimia".into(),
        genre: "electronic".into(),
    }];
    s.apply_initial(Ok((vec![e], None)));
    match s.handle_key(key(KeyCode::Char('p'))) {
        TopicFeedIntent::PlayJukebox(Some(t)) => {
            assert_eq!(t.url, "https://youtu.be/abc");
            assert_eq!(t.title, "Paranoimia");
        }
        other => panic!("expected PlayJukebox(Some), got {other:?}"),
    }
}

#[test]
fn p_with_no_jukebox_yields_play_none() {
    let mut s = screen("music");
    s.apply_initial(Ok((vec![entry("p1")], None)));
    assert_eq!(
        s.handle_key(key(KeyCode::Char('p'))),
        TopicFeedIntent::PlayJukebox(None)
    );
}

#[test]
fn o_opens_the_highlighted_entrys_jukebox() {
    let mut s = screen("music");
    let mut e = entry("p1");
    e.attachments = vec![Attachment::Audio {
        src: "https://youtu.be/abc".into(),
        origin: "youtube".into(),
        artist: "Art of Noise".into(),
        title: "Paranoimia".into(),
        genre: "electronic".into(),
    }];
    s.apply_initial(Ok((vec![e], None)));
    assert_eq!(
        s.handle_key(key(KeyCode::Char('o'))),
        TopicFeedIntent::OpenJukebox("https://youtu.be/abc".into())
    );
}

#[test]
fn followed_state_renders_a_star_in_the_header() {
    let mut s = screen("music");
    s.set_topic_state(true, false);
    s.apply_initial(Ok((vec![], None)));
    let text = render_to_string(&s, 60);
    assert!(
        text.contains('★'),
        "followed topic header should show a star"
    );
}

#[test]
fn enter_opens_selected_post() {
    let mut s = screen("music");
    s.apply_initial(Ok((vec![entry("p1"), entry("p2")], None)));
    s.list.selected = 1;
    let intent = s.handle_key(key(KeyCode::Enter));
    assert_eq!(
        intent,
        TopicFeedIntent::OpenSelected {
            post_id: "p2".into()
        }
    );
}

#[test]
fn apply_more_appends() {
    let mut s = screen("linux");
    s.apply_initial(Ok((vec![entry("p1")], Some("c".into()))));
    s.apply_more(Ok((vec![entry("p2")], None)));
    assert_eq!(s.list.items.len(), 2);
    assert!(s.list.next_cursor.is_none());
}

#[test]
fn j_at_bottom_auto_loads_next_page() {
    let mut s = screen("music");
    s.apply_initial(Ok((vec![entry("p1"), entry("p2")], Some("next".into()))));
    s.handle_key(key(KeyCode::Char('j')));
    assert_eq!(s.list.selected, 1);
    let intent = s.handle_key(key(KeyCode::Char('j')));
    assert_eq!(intent, TopicFeedIntent::LoadMore);
    assert!(s.list.loading);
}

#[test]
fn nsfw_entries_hidden_by_default() {
    let mut s = screen("music");
    let mut nsfw = entry("p2");
    nsfw.is_nsfw = true;
    s.apply_initial(Ok((vec![entry("p1"), nsfw, entry("p3")], None)));
    // Default config nsfw=false → the NSFW entry is filtered out.
    assert_eq!(s.visible_indices(), vec![0, 2]);
}

#[test]
fn enter_opens_visible_entry_skipping_nsfw() {
    let mut s = screen("music");
    let mut nsfw = entry("p2");
    nsfw.is_nsfw = true;
    s.apply_initial(Ok((vec![nsfw, entry("p3")], None)));
    // selected=0 maps to the first VISIBLE entry (p3), not the hidden p2.
    let intent = s.handle_key(key(KeyCode::Enter));
    assert_eq!(
        intent,
        TopicFeedIntent::OpenSelected {
            post_id: "p3".into()
        }
    );
}

#[test]
fn j_at_bottom_without_cursor_does_nothing() {
    let mut s = screen("music");
    s.apply_initial(Ok((vec![entry("p1")], None)));
    let intent = s.handle_key(key(KeyCode::Char('j')));
    assert_eq!(intent, TopicFeedIntent::Nothing);
    assert_eq!(s.list.selected, 0);
    assert!(!s.list.loading);
}

#[test]
fn an_edited_entry_is_marked_in_the_list() {
    let mut s = screen("music");
    s.apply_initial(Ok((vec![entry("p1")], None)));
    assert!(
        !render_to_string(&s, 80).contains("(edited)"),
        "an untouched entry carries no marker"
    );

    let mut edited = entry("p1");
    edited.edited_at = Some(edited_stamp());
    s.apply_initial(Ok((vec![edited], None)));
    let text = render_to_string(&s, 80);
    assert!(
        text.contains("(edited)"),
        "edited entry is marked: {text:?}"
    );
    assert!(text.contains("@alice"), "the rest of the header survives");
}

#[test]
fn e_requests_an_edit_of_the_selected_entry() {
    let mut s = screen("music");
    let mut second = entry("p2");
    second.title = Some("Headline".into());
    second.is_public = true;
    s.apply_initial(Ok((vec![entry("p1"), second], None)));
    s.list.selected = 1;
    assert_eq!(
        s.handle_key(key(KeyCode::Char('e'))),
        TopicFeedIntent::EditEntry {
            post_id: "p2".into(),
            content: "entry p2".into(),
            title: Some("Headline".into()),
            topics: vec!["music".into()],
            is_public: true,
            is_nsfw: false,
        }
    );
}

#[test]
fn capital_f_opens_the_flag_prompt_and_enter_files_the_report() {
    let mut s = screen("music");
    s.apply_initial(Ok((vec![entry("p1")], None)));
    assert_eq!(s.handle_key(key(KeyCode::Char('F'))), TopicFeedIntent::Nothing);
    assert!(s.is_text_input(), "the open prompt captures text");
    for c in "spam".chars() {
        assert_eq!(s.handle_key(key(KeyCode::Char(c))), TopicFeedIntent::Nothing);
    }
    assert_eq!(
        s.handle_key(key(KeyCode::Enter)),
        TopicFeedIntent::FlagEntry {
            post_id: "p1".into(),
            reason: Some("spam".into()),
        }
    );
    assert!(!s.is_text_input(), "submitting closes the prompt");
}

#[test]
fn an_empty_flag_reason_is_a_valid_report() {
    let mut s = screen("music");
    s.apply_initial(Ok((vec![entry("p1")], None)));
    s.handle_key(key(KeyCode::Char('F')));
    assert_eq!(
        s.handle_key(key(KeyCode::Enter)),
        TopicFeedIntent::FlagEntry {
            post_id: "p1".into(),
            reason: None,
        }
    );
}

#[test]
fn the_flag_prompt_swallows_the_topic_toggles() {
    // `f` and `m` are topic-level toggles here, so a reason mentioning
    // "misinformation" must not follow or mute the topic as it is typed.
    let mut s = screen("music");
    s.apply_initial(Ok((vec![entry("p1")], None)));
    s.handle_key(key(KeyCode::Char('F')));
    for c in "fm".chars() {
        assert_eq!(s.handle_key(key(KeyCode::Char(c))), TopicFeedIntent::Nothing);
    }
    assert_eq!(
        s.flag_prompt.as_ref().map(|p| p.reason.as_str()),
        Some("fm")
    );
}

#[test]
fn the_flag_prompt_takes_backspace_before_the_back_key() {
    let mut s = screen("music");
    s.apply_initial(Ok((vec![entry("p1")], None)));
    s.handle_key(key(KeyCode::Char('F')));
    s.handle_key(key(KeyCode::Char('x')));
    assert_eq!(
        s.handle_key(key(KeyCode::Backspace)),
        TopicFeedIntent::Nothing,
        "backspace edits the reason instead of leaving the topic"
    );
    assert_eq!(s.flag_prompt.as_ref().map(|p| p.reason.as_str()), Some(""));
}

#[test]
fn esc_cancels_the_flag_prompt_and_the_shell_hook_reports_it() {
    let mut s = screen("music");
    s.apply_initial(Ok((vec![entry("p1")], None)));
    s.handle_key(key(KeyCode::Char('F')));
    assert_eq!(s.handle_key(key(KeyCode::Esc)), TopicFeedIntent::Nothing);
    assert!(s.flag_prompt.is_none());

    assert!(!s.cancel_flag_prompt(), "nothing open, key not consumed");
    s.handle_key(key(KeyCode::Char('F')));
    assert!(s.cancel_flag_prompt(), "open prompt consumes the escape");
    assert!(!s.is_text_input());
}

#[test]
fn paste_into_the_flag_prompt_collapses_newlines() {
    let mut s = screen("music");
    s.apply_initial(Ok((vec![entry("p1")], None)));
    s.paste_text("ignored"); // no prompt open yet
    assert!(s.flag_prompt.is_none());
    s.handle_key(key(KeyCode::Char('F')));
    s.paste_text("copy\npasted");
    assert_eq!(
        s.flag_prompt.as_ref().map(|p| p.reason.as_str()),
        Some("copy pasted")
    );
}

#[test]
fn flag_prompt_replaces_the_status_line_while_open() {
    let mut s = screen("music");
    s.apply_initial(Ok((vec![entry("p1")], None)));
    assert!(
        render_to_string(&s, 80).contains("e edit"),
        "the new keys are advertised on the status line"
    );
    s.handle_key(key(KeyCode::Char('F')));
    let text = render_to_string(&s, 80);
    assert!(text.contains("flag reason"), "prompt is drawn: {text:?}");
    assert!(text.contains("@alice"), "the list stays visible behind it");
}

#[test]
fn apply_edited_entry_updates_in_place() {
    let mut s = screen("music");
    s.apply_initial(Ok((vec![entry("p1"), entry("p2")], None)));
    let mut fresh = entry("p2");
    fresh.content = "rewritten".into();
    fresh.title = Some("Fixed".into());
    fresh.edited_at = Some(edited_stamp());

    assert!(s.apply_edited_entry(&fresh));
    assert_eq!(s.list.items[1].content, "rewritten");
    assert_eq!(s.list.items[1].title.as_deref(), Some("Fixed"));
    assert!(s.list.items[1].edited_at.is_some());
    assert_eq!(s.list.items[0].content, "entry p1", "others untouched");

    assert!(
        !s.apply_edited_entry(&entry("gone")),
        "an entry we never loaded reports a miss"
    );
}

#[test]
fn apply_edited_entry_reclamps_a_selection_it_hides() {
    let mut s = screen("music");
    s.apply_initial(Ok((vec![entry("p1"), entry("p2")], None)));
    s.include_nsfw = false;
    s.list.selected = 1; // sitting on "p2"
    let mut fresh = entry("p2");
    fresh.is_nsfw = true; // the row the cursor is on disappears
    assert!(s.apply_edited_entry(&fresh));
    assert_eq!(s.visible_indices(), vec![0]);
    assert_eq!(s.list.selected, 0, "selection clamps to the shrunken view");
}

#[test]
fn control_c_quits_the_topic_even_from_the_prompt() {
    let mut s = screen("music");
    s.apply_initial(Ok((vec![entry("p1")], None)));
    s.handle_key(key(KeyCode::Char('F')));
    let quit = KeyEvent { code: KeyCode::Char('c'), control: true };
    assert_eq!(s.handle_key(quit), TopicFeedIntent::Quit);
    assert!(s.is_text_input());
}

#[test]
fn a_topic_row_counts_and_marks_what_it_carries() {
    let mut s = screen("music");
    s.set_topic_state(true, true);
    let mut e = entry("p1");
    e.replies_count = 3;
    e.bookmarks_count = 12;
    e.content = "look ![cat](https://x.example/c.png)".into();
    e.created_at = Some(edited_stamp());
    e.attachments = vec![Attachment::Audio {
        src: "https://youtu.be/abc".into(),
        origin: "youtube".into(),
        artist: "A".into(),
        title: "T".into(),
        genre: "G".into(),
    }];
    s.apply_initial(Ok((vec![e], Some("next".into()))));
    let f = s.render(80, &vec!["09:30".to_string()], &Theme::cyber(), &Config::default());
    assert_eq!(f.title.text(), " cs-tui • #music ★ muted ");
    match f.body {
        ListBody::Rows { rows, .. } => assert_eq!(
            rows[0][0].text(),
            "@alice · 09:30 · 3 replies · 12 bookmarks · [image] · [jukebox]"
        ),
        other => panic!("expected rows, got {other:?}"),
    }
    assert_eq!(
        f.bottom[0].text(),
        "1 entries · scroll for more · enter open · p play · o open · e edit · F flag · \
         f unfollow · m unmute · r refresh · esc back"
    );
}

#[test]
fn a_refresh_empties_the_topic() {
    let mut s = screen("music");
    s.apply_initial(Ok((vec![entry("p1")], Some("c".into()))));
    assert_eq!(s.handle_key(key(KeyCode::Char('r'))), TopicFeedIntent::Refresh);
    assert!(s.list.items.is_empty());
    assert!(s.list.next_cursor.is_none());
    assert_eq!(s.handle_key(key(KeyCode::Enter)), TopicFeedIntent::Nothing);
}
