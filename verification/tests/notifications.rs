//! The notifications screen, driven from outside.
use cs_tui::config::Config;
use cs_tui::key::{KeyCode, KeyEvent};
use cs_tui::list::ListBody;
use cs_tui::model::Moment;
use cs_tui::notifications::{
    empty_label, reason_text, status_text, summarize, summary_style, NotifTypeFilter, Notification,
    NotificationMetadata, NotificationType, NotificationsFilter, NotificationsIntent,
    NotificationsScreen, UnreadCount, MAX_AUTO_PAGES,
};
use cs_tui::theme::Theme;

fn key(code: KeyCode) -> KeyEvent {
    KeyEvent { code, control: false }
}

fn notif(
    id: &str,
    kind: NotificationType,
    target: Option<&str>,
    reply: Option<&str>,
) -> Notification {
    Notification {
        notification_id: id.into(),
        kind,
        read: false,
        created_at: None,
        actor_id: None,
        actor_username: None,
        target_id: target.map(String::from),
        target_type: target.map(|_| "post".to_string()),
        reason: None,
        metadata: NotificationMetadata {
            reply_id: reply.map(String::from),
            ..Default::default()
        },
    }
}

/// A notification about the reader's own account: no real sender, just the
/// `"system"` handle and a reason.
fn account_notif(id: &str, kind: NotificationType, reason: &str) -> Notification {
    let mut n = notif(id, kind, None, None);
    n.actor_username = Some("system".into());
    n.reason = Some(reason.into());
    n
}

/// Load a page into the screen, checking it needs no follow-up fetch.
fn seed(s: &mut NotificationsScreen, items: Vec<Notification>, cursor: Option<&str>) {
    let next = s.apply_initial(Ok((items, cursor.map(String::from))));
    assert!(next.is_none(), "seed page unexpectedly asked to keep paging");
}

/// Run the automatic chain to exhaustion over pages that are filtered away to
/// nothing, returning how many pages the screen asked for.
fn drain_auto_pages(s: &mut NotificationsScreen, first: Option<String>) -> usize {
    let mut next = first;
    let mut pages: usize = 0;
    while next.is_some() {
        pages += 1;
        assert!(pages <= 64, "the automatic chain ran away");
        next = s.apply_more(Ok((vec![], Some(format!("c{pages}")))));
    }
    pages
}

#[test]
fn new_starts_loading() {
    let s = NotificationsScreen::new();
    assert!(s.list.loading);
    assert!(s.list.items.is_empty());
}

#[test]
fn notifications_apply_initial_populates_and_clears_loading() {
    let mut s = NotificationsScreen::new();
    seed(
        &mut s,
        vec![notif("n1", NotificationType::Reply, Some("p1"), Some("r1"))],
        Some("cur"),
    );
    assert!(!s.list.loading);
    assert_eq!(s.list.items.len(), 1);
    assert_eq!(s.list.next_cursor.as_deref(), Some("cur"));
}

#[test]
fn j_advances_selection_bounded() {
    let mut s = NotificationsScreen::new();
    seed(
        &mut s,
        vec![
            notif("a", NotificationType::Poke, None, None),
            notif("b", NotificationType::Poke, None, None),
        ],
        None,
    );
    s.handle_key(key(KeyCode::Char('j')));
    assert_eq!(s.list.selected, 1);
    s.handle_key(key(KeyCode::Char('j')));
    assert_eq!(s.list.selected, 1);
}

#[test]
fn j_at_bottom_auto_loads() {
    let mut s = NotificationsScreen::new();
    seed(
        &mut s,
        vec![notif("a", NotificationType::Poke, None, None)],
        Some("next"),
    );
    let intent = s.handle_key(key(KeyCode::Char('j')));
    assert_eq!(intent, NotificationsIntent::LoadMore);
    assert!(s.list.loading);
}

#[test]
fn an_empty_first_page_with_a_cursor_asks_for_the_next_one() {
    let mut s = NotificationsScreen::new();
    let next = s.apply_initial(Ok((vec![], Some("cur".into()))));
    assert_eq!(next.as_deref(), Some("cur"));
    assert!(s.list.loading, "the screen owns the follow-up fetch");
}

#[test]
fn an_empty_page_without_a_cursor_is_the_end() {
    let mut s = NotificationsScreen::new();
    let next = s.apply_initial(Ok((vec![], None)));
    assert!(next.is_none());
    assert!(!s.list.loading);
}

#[test]
fn a_page_that_added_nothing_keeps_paging() {
    let mut s = NotificationsScreen::new();
    seed(
        &mut s,
        vec![notif("a", NotificationType::Poke, None, None)],
        Some("c1"),
    );
    let next = s.apply_more(Ok((vec![], Some("c2".into()))));
    assert_eq!(next.as_deref(), Some("c2"), "a short page is not the end");
}

#[test]
fn a_page_that_added_rows_hands_the_list_back() {
    // Progress is enough: the cursor is still on the state, so scrolling off
    // the last row pulls the next page the ordinary way.
    let mut s = NotificationsScreen::new();
    seed(
        &mut s,
        vec![notif("a", NotificationType::Poke, None, None)],
        Some("c1"),
    );
    let next = s.apply_more(Ok((
        vec![notif("b", NotificationType::Poke, None, None)],
        Some("c2".into()),
    )));
    assert!(next.is_none());
    assert!(!s.list.loading);
    assert_eq!(s.list.next_cursor.as_deref(), Some("c2"));
}

#[test]
fn the_automatic_chain_is_capped() {
    let mut s = NotificationsScreen::new();
    let first = s.apply_initial(Ok((vec![], Some("c0".into()))));
    assert_eq!(
        drain_auto_pages(&mut s, first),
        usize::from(MAX_AUTO_PAGES),
        "a run of filtered pages must not turn into unbounded requests"
    );
    assert!(!s.list.loading, "the reader gets the screen back");
    assert!(
        s.list.next_cursor.is_some(),
        "and the list still knows there is more"
    );
}

#[test]
fn asking_for_more_renews_the_automatic_chain() {
    let mut s = NotificationsScreen::new();
    let first = s.apply_initial(Ok((vec![], Some("c0".into()))));
    drain_auto_pages(&mut s, first);
    // `n` is a load-more key while a cursor remains.
    assert_eq!(
        s.handle_key(key(KeyCode::Char('n'))),
        NotificationsIntent::LoadMore
    );
    let next = s.apply_more(Ok((vec![], Some("c9".into()))));
    assert!(next.is_some(), "the renewed budget chases the next page");
}

#[test]
fn a_fresh_load_renews_the_automatic_chain() {
    let mut s = NotificationsScreen::new();
    let first = s.apply_initial(Ok((vec![], Some("c0".into()))));
    drain_auto_pages(&mut s, first);
    let again = s.apply_initial(Ok((vec![], Some("c0".into()))));
    assert!(again.is_some(), "a refresh starts with a full budget");
}

#[test]
fn a_failed_page_is_not_retried_automatically() {
    // The error belongs on the status line with a retry key, not under a run
    // of requests the reader never asked for.
    let mut s = NotificationsScreen::new();
    seed(
        &mut s,
        vec![notif("a", NotificationType::Poke, None, None)],
        Some("c1"),
    );
    let next = s.apply_more(Err("boom".into()));
    assert!(next.is_none());
    assert!(!s.list.loading);
}

#[test]
fn an_empty_list_with_a_cursor_does_not_claim_an_empty_inbox() {
    let mut s = NotificationsScreen::new();
    let _ = s.apply_initial(Ok((vec![], Some("c".into()))));
    assert_eq!(empty_label(&s), "nothing on this page · n for the next");

    let mut done = NotificationsScreen::new();
    seed(&mut done, vec![], None);
    assert_eq!(empty_label(&done), "no notifications");
}

#[test]
fn enter_opens_when_target_present() {
    let mut s = NotificationsScreen::new();
    seed(
        &mut s,
        vec![notif("n1", NotificationType::Reply, Some("p1"), Some("r1"))],
        None,
    );
    let intent = s.handle_key(key(KeyCode::Enter));
    assert_eq!(
        intent,
        NotificationsIntent::OpenSelected {
            post_id: "p1".into(),
            highlight_reply_id: Some("r1".into()),
        }
    );
}

#[test]
fn enter_with_no_target_yields_none() {
    let mut s = NotificationsScreen::new();
    seed(
        &mut s,
        vec![notif("n1", NotificationType::Poke, None, None)],
        None,
    );
    let intent = s.handle_key(key(KeyCode::Enter));
    assert_eq!(intent, NotificationsIntent::Nothing);
}

#[test]
fn enter_ignores_non_navigable_notification_with_a_target_id() {
    // A follower-style notification can carry a non-post target_id but an
    // empty target_type, so Enter must not try to open it as a post.
    let mut s = NotificationsScreen::new();
    let mut n = notif("n1", NotificationType::NewFollower, Some("u1"), None);
    n.target_type = None;
    seed(&mut s, vec![n], None);
    assert_eq!(s.handle_key(key(KeyCode::Enter)), NotificationsIntent::Nothing);
}

#[test]
fn enter_on_dm_notification_opens_cmail_with_sender() {
    let mut s = NotificationsScreen::new();
    let mut n = notif("n1", NotificationType::DmMessage, None, None);
    n.actor_username = Some("alice".into());
    n.actor_id = Some("u-alice".into());
    seed(&mut s, vec![n], None);
    assert_eq!(
        s.handle_key(key(KeyCode::Enter)),
        NotificationsIntent::OpenCmail {
            username: "alice".into(),
            user_id: Some("u-alice".into()),
        }
    );
}

#[test]
fn enter_falls_back_to_the_actors_profile() {
    // A graffiti mention has no target of its own, so the person who wrote
    // it is the only thing to open.
    let mut s = NotificationsScreen::new();
    let mut n = notif("n1", NotificationType::GraffitiMention, None, None);
    n.actor_username = Some("alice".into());
    seed(&mut s, vec![n], None);
    assert_eq!(
        s.handle_key(key(KeyCode::Enter)),
        NotificationsIntent::OpenUser {
            username: "alice".into()
        }
    );
}

#[test]
fn a_readable_target_still_wins_over_the_profile_fallback() {
    let mut s = NotificationsScreen::new();
    let mut n = notif("n1", NotificationType::Reply, Some("p1"), Some("r1"));
    n.actor_username = Some("alice".into());
    seed(&mut s, vec![n], None);
    assert_eq!(
        s.handle_key(key(KeyCode::Enter)),
        NotificationsIntent::OpenSelected {
            post_id: "p1".into(),
            highlight_reply_id: Some("r1".into()),
        }
    );
}

#[test]
fn enter_on_an_account_notification_opens_nothing() {
    let mut s = NotificationsScreen::new();
    let n = account_notif("n1", NotificationType::PostCooldown, "posting too fast");
    seed(&mut s, vec![n], None);
    assert_eq!(s.handle_key(key(KeyCode::Enter)), NotificationsIntent::Nothing);
}

#[test]
fn enter_on_a_dm_from_system_opens_no_conversation() {
    // Same sentinel, the other route out of this screen.
    let mut s = NotificationsScreen::new();
    let mut n = notif("n1", NotificationType::DmMessage, None, None);
    n.actor_username = Some("system".into());
    seed(&mut s, vec![n], None);
    assert_eq!(s.handle_key(key(KeyCode::Enter)), NotificationsIntent::Nothing);
}

#[test]
fn m_marks_selected() {
    let mut s = NotificationsScreen::new();
    seed(
        &mut s,
        vec![notif("n1", NotificationType::Reply, None, None)],
        None,
    );
    let intent = s.handle_key(key(KeyCode::Char('m')));
    assert_eq!(
        intent,
        NotificationsIntent::MarkSelectedRead {
            notification_id: "n1".into()
        }
    );
}

#[test]
fn m_on_already_read_is_a_noop() {
    // Marking an already-read item would waste a rate-limited write and
    // wrongly decrement the global unread count.
    let mut s = NotificationsScreen::new();
    seed(
        &mut s,
        vec![notif("n1", NotificationType::Reply, None, None)],
        None,
    );
    s.mark_local("n1"); // now read
    assert_eq!(
        s.handle_key(key(KeyCode::Char('m'))),
        NotificationsIntent::Nothing
    );
}

#[test]
fn capital_m_marks_all() {
    let mut s = NotificationsScreen::new();
    seed(&mut s, vec![], None);
    let key_m = key(KeyCode::Char('M'));
    assert_eq!(s.handle_key(key_m), NotificationsIntent::MarkAllRead);
}

#[test]
fn f_cycles_filter() {
    let mut s = NotificationsScreen::new();
    seed(&mut s, vec![], None);
    assert!(matches!(s.filter, NotificationsFilter::All));
    s.handle_key(key(KeyCode::Char('f')));
    assert!(matches!(s.filter, NotificationsFilter::Unread));
    s.handle_key(key(KeyCode::Char('f')));
    assert!(matches!(s.filter, NotificationsFilter::Read));
    s.handle_key(key(KeyCode::Char('f')));
    assert!(matches!(s.filter, NotificationsFilter::All));
}

#[test]
fn t_cycles_type_filter_and_reloads() {
    let mut s = NotificationsScreen::new();
    seed(&mut s, vec![], None);
    assert!(matches!(s.type_filter, NotifTypeFilter::All));
    assert!(s.selected_types().is_empty());

    let intent = s.handle_key(key(KeyCode::Char('t')));
    assert_eq!(intent, NotificationsIntent::ToggleFilter);
    assert!(matches!(s.type_filter, NotifTypeFilter::Mentions));
    assert!(s.selected_types().contains(&NotificationType::PostMention));
    assert!(s.list.loading, "changing the type filter triggers a reload");
}

#[test]
fn type_filter_wraps_back_to_all() {
    let mut s = NotificationsScreen::new();
    seed(&mut s, vec![], None);
    for _ in 0..5 {
        s.handle_key(key(KeyCode::Char('t')));
        s.list.loading = false; // let the next press through
    }
    assert!(matches!(s.type_filter, NotifTypeFilter::All));
}

#[test]
fn the_type_buckets_carry_the_v086_types_and_fit_the_query() {
    assert!(
        NotifTypeFilter::Mentions
            .types()
            .contains(&NotificationType::GraffitiMention),
        "a graffiti mention is a mention"
    );
    for kind in [
        NotificationType::ModeratorGranted,
        NotificationType::ModeratorRemoved,
        NotificationType::ApiAccessGranted,
        NotificationType::ApiAccessRemoved,
        NotificationType::SystemBanLifted,
        NotificationType::PostCooldown,
        NotificationType::RateLimitWarning,
    ] {
        assert!(
            NotifTypeFilter::System.types().contains(&kind),
            "{kind:?} is missing from the system bucket, so the filter hides it"
        );
    }
    for bucket in [
        NotifTypeFilter::All,
        NotifTypeFilter::Mentions,
        NotifTypeFilter::Replies,
        NotifTypeFilter::Social,
        NotifTypeFilter::System,
    ] {
        assert!(
            bucket.types().len() <= 20,
            "the {} bucket is past the query cap",
            bucket.label()
        );
    }
}

#[test]
fn mark_local_flips_read_flag() {
    let mut s = NotificationsScreen::new();
    seed(
        &mut s,
        vec![
            notif("a", NotificationType::Poke, None, None),
            notif("b", NotificationType::Poke, None, None),
        ],
        None,
    );
    s.mark_local("a");
    assert!(s.list.items[0].read);
    assert!(!s.list.items[1].read);
}

#[test]
fn mark_all_local_flips_every_record() {
    let mut s = NotificationsScreen::new();
    seed(
        &mut s,
        vec![
            notif("a", NotificationType::Poke, None, None),
            notif("b", NotificationType::Poke, None, None),
        ],
        None,
    );
    s.mark_all_local();
    assert!(s.list.items.iter().all(|n| n.read));
}

#[test]
fn marking_read_moves_the_unread_figure_and_back() {
    let mut s = NotificationsScreen::new();
    seed(
        &mut s,
        vec![
            notif("a", NotificationType::Poke, None, None),
            notif("b", NotificationType::Poke, None, None),
        ],
        None,
    );
    s.set_unread_count(UnreadCount {
        count: 2,
        exact: true,
    });
    s.mark_local("a");
    assert!(status_text(&s).contains("1 unread"));
    s.unmark_local("a"); // the server rejected the mark
    assert!(status_text(&s).contains("2 unread"));
    // A second mark of the same row must not count twice.
    s.mark_local("a");
    s.mark_local("a");
    assert!(status_text(&s).contains("1 unread"));
}

#[test]
fn the_status_line_renders_a_capped_count_as_99_plus() {
    let mut s = NotificationsScreen::new();
    seed(
        &mut s,
        vec![notif("a", NotificationType::Poke, None, None)],
        None,
    );
    s.set_unread_count(UnreadCount {
        count: 100,
        exact: false,
    });
    let text = status_text(&s);
    assert!(text.contains("99+ unread"), "{text}");
    assert!(!text.contains("100"), "{text}");
}

#[test]
fn the_status_line_owns_up_to_unread_left_by_a_partial_mark_all() {
    let mut s = NotificationsScreen::new();
    seed(
        &mut s,
        vec![notif("a", NotificationType::Poke, None, None)],
        None,
    );
    s.mark_all_local();
    assert!(
        !status_text(&s).contains("unread"),
        "the optimistic state is a clean inbox"
    );
    s.set_unread_count(UnreadCount {
        count: 4,
        exact: true,
    });
    let text = status_text(&s);
    assert!(text.contains("4 unread not on this page"), "{text}");
}

#[test]
fn summary_includes_actor_for_reply() {
    let actor_n = Notification {
        notification_id: "n".into(),
        kind: NotificationType::Reply,
        read: false,
        created_at: None,
        actor_id: Some("u".into()),
        actor_username: Some("alice".into()),
        target_id: None,
        target_type: None,
        reason: None,
        metadata: NotificationMetadata::default(),
    };
    let s = summarize(&actor_n, actor_n.actor_name());
    assert!(s.contains("@alice"));
    assert!(s.contains("replied"));
}

#[test]
fn graffiti_mention_names_its_actor() {
    let mut n = notif("n", NotificationType::GraffitiMention, None, None);
    n.actor_username = Some("alice".into());
    let text = summarize(&n, n.actor_name());
    assert!(text.contains("@alice"), "{text}");
    assert!(text.contains("graffiti"), "{text}");
}

#[test]
fn account_notifications_never_read_as_someone_elses_doing() {
    // They arrive with the "system" sentinel (or no actor at all), which
    // `actor_name` renders as "system": phrasing any of them as "@system did
    // X" would invent a user and offer a handle nobody can open.
    for kind in [
        NotificationType::PostCooldown,
        NotificationType::RateLimitWarning,
        NotificationType::SystemBan,
        NotificationType::SystemBanLifted,
        NotificationType::ModeratorGranted,
        NotificationType::ModeratorRemoved,
        NotificationType::ApiAccessGranted,
        NotificationType::ApiAccessRemoved,
    ] {
        let n = account_notif("n", kind, "because");
        let text = summarize(&n, n.actor_name());
        assert!(!text.is_empty(), "{kind:?} has no summary");
        assert!(!text.contains('@'), "{kind:?} named an actor: {text}");
    }
}

#[test]
fn an_unmodelled_system_notification_is_not_pinned_on_a_user() {
    // A type invented after this build decodes as `Unknown`, and the system
    // ones still carry the sentinel handle.
    let mut n = notif("n", NotificationType::Unknown, None, None);
    n.actor_username = Some("system".into());
    assert_eq!(summarize(&n, n.actor_name()), "notice about your account");
    n.actor_username = Some("alice".into());
    assert!(summarize(&n, n.actor_name()).contains("@alice"));
}

#[test]
fn the_reason_is_what_an_account_notification_has_to_say() {
    let mut n = account_notif("n", NotificationType::PostCooldown, "  saved as a note  ");
    assert_eq!(reason_text(&n).as_deref(), Some("saved as a note"));
    n.reason = Some("   ".into());
    assert_eq!(reason_text(&n).as_deref(), None, "a blank reason adds no line");
    n.reason = None;
    assert_eq!(reason_text(&n).as_deref(), None);
}

#[test]
fn the_notifications_that_change_what_you_can_do_stand_out() {
    let theme = Theme::cyber();
    for kind in [
        NotificationType::SystemBan,
        NotificationType::PostCooldown,
        NotificationType::RateLimitWarning,
        NotificationType::ApiAccessRemoved,
    ] {
        let n = account_notif("n", kind, "because");
        assert_eq!(
            summary_style(&n, &theme),
            theme.warning_style(),
            "{kind:?} should be picked out of the list"
        );
    }
    let ordinary = notif("n", NotificationType::Poke, None, None);
    assert_eq!(summary_style(&ordinary, &theme), theme.base());
}

#[test]
fn every_summary_has_its_wording() {
    let mut n = notif("n", NotificationType::ThreadReply, None, None);
    n.actor_username = Some("ann".into());
    assert_eq!(summarize(&n, "ann"), "@ann replied in @a thread's thread");
    n.metadata.thread_author = Some("bob".into());
    assert_eq!(summarize(&n, "ann"), "@ann replied in @bob's thread");
    n.kind = NotificationType::GuildNewThread;
    assert_eq!(summarize(&n, "ann"), "new thread in a guild by @ann");
    n.metadata.guild_name = Some("Gardeners".into());
    assert_eq!(summarize(&n, "ann"), "new thread in Gardeners by @ann");
    n.kind = NotificationType::NewPostFriend;
    assert_eq!(summarize(&n, "ann"), "@ann posted (from friends)");
    n.kind = NotificationType::RateLimitWarning;
    assert_eq!(summarize(&n, "ann"), "you're approaching a posting limit");
}

#[test]
fn unmarking_restores_what_marking_changed() {
    let mut s = NotificationsScreen::new();
    seed(&mut s, vec![notif("a", NotificationType::Poke, None, None)], None);
    s.set_unread_count(UnreadCount { count: 7, exact: true });
    s.mark_local("a");
    assert_eq!(s.unread.count, 6);
    s.unmark_local("a");
    assert_eq!(s.unread.count, 7);
    assert!(!s.list.items[0].read);
    s.mark_local("nobody");
    assert_eq!(s.unread.count, 7);
}

#[test]
fn control_c_quits_the_notifications() {
    let mut s = NotificationsScreen::new();
    let intent = s.handle_key(KeyEvent { code: KeyCode::Char('c'), control: true });
    assert_eq!(intent, NotificationsIntent::Quit);
}

#[test]
fn refreshing_waits_for_the_page_on_its_way() {
    let mut s = NotificationsScreen::new();
    assert_eq!(s.handle_key(key(KeyCode::Char('r'))), NotificationsIntent::Nothing);
    seed(&mut s, vec![notif("a", NotificationType::Poke, None, None)], None);
    assert_eq!(s.handle_key(key(KeyCode::Char('r'))), NotificationsIntent::Refresh);
    assert!(s.list.items.is_empty());
}

#[test]
fn a_rendered_row_carries_summary_time_and_reason() {
    let mut s = NotificationsScreen::new();
    let mut n = account_notif("a", NotificationType::PostCooldown, "slow down");
    n.created_at = Some(Moment::default());
    seed(&mut s, vec![n], None);
    let theme = Theme::cyber();
    let cfg = Config { compact: false, ..Config::default() };
    let f = s.render(&vec!["12:00".to_string()], &theme, &cfg);
    assert_eq!(f.title.text(), " cs-tui • notifications ");
    match f.body {
        ListBody::Rows { rows, .. } => {
            assert_eq!(rows.len(), 1);
            assert_eq!(
                rows[0][0].text(),
                "● your entry was held back and saved as a note · 12:00"
            );
            assert_eq!(rows[0][1].text(), "  slow down");
            assert_eq!(rows[0][2].text(), "");
        }
        other => panic!("expected rows, got {other:?}"),
    }
    assert_eq!(
        f.status.text(),
        "1 items · end · enter open · m mark · M mark-all · f read · t type · r refresh · esc menu"
    );
}
