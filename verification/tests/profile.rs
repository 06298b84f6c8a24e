//! The profile screen, driven from outside.
use cs_tui::config::Config;
use cs_tui::hyperlink::osc8;
use cs_tui::key::{KeyCode, KeyEvent};
use cs_tui::list::ListBody;
use cs_tui::model::{Entry, Follow, GuildRole, Moment, Reply, User, UserGuild};
use cs_tui::profile::{
    follow_row, guild_row, ProfileIntent, ProfilePane, ProfileScreen, ProfileTab,
};
use cs_tui::theme::Theme;

fn key(code: KeyCode) -> KeyEvent {
    KeyEvent { code, control: false }
}

fn user(name: &str) -> User {
    User { id: "u".into(), username: name.into(), ..User::default() }
}

fn profile_entry(post_id: &str) -> Entry {
    Entry {
        post_id: post_id.into(),
        author_id: "u".into(),
        author_username: "me".into(),
        content: "hi".into(),
        is_public: true,
        ..Entry::default()
    }
}

fn user_guild(slug: &str, role: GuildRole) -> UserGuild {
    UserGuild {
        guild_id: format!("g-{slug}"),
        slug: slug.into(),
        name: format!("Guild {slug}"),
        role: Some(role),
        ..UserGuild::default()
    }
}

fn profile_reply(reply_id: &str) -> Reply {
    Reply {
        reply_id: reply_id.into(),
        post_id: "p1".into(),
        author_id: "u".into(),
        author_username: "me".into(),
        content: "hi back".into(),
        ..Reply::default()
    }
}

const NOW: Moment = Moment { secs: 1_700_000_000, nanos: 0, offset: 0 };

/// Everything the screen shows, as one string.
fn render_to_string(s: &ProfileScreen, width: u16) -> String {
    let f = s.render(width, &vec![], &Theme::cyber(), &Config::default());
    let mut text = f.title.text();
    text.push_str(&f.tabs.text());
    match f.pane {
        ProfilePane::Info(p) => {
            for line in &p.lines {
                text.push_str(&line.text());
            }
        }
        ProfilePane::Items(ListBody::Message(line)) => text.push_str(&line.text()),
        ProfilePane::Items(ListBody::Rows { rows, .. }) => {
            for row in &rows {
                for line in row {
                    text.push_str(&line.text());
                }
            }
        }
    }
    text.push_str(&f.status.text());
    text
}

#[test]
fn m_messages_another_user() {
    let mut s = ProfileScreen::new_for("bob".into());
    s.apply_user(Ok(user("bob")));
    assert_eq!(
        s.handle_key(key(KeyCode::Char('m'))),
        ProfileIntent::MessageUser {
            username: "bob".into(),
            user_id: Some("u".into()),
        }
    );
}

#[test]
fn m_does_nothing_on_own_profile() {
    let mut s = ProfileScreen::new_own();
    s.apply_user(Ok(user("me")));
    assert_eq!(s.handle_key(key(KeyCode::Char('m'))), ProfileIntent::Nothing);
}

#[test]
fn capital_p_pins_an_unpinned_post_on_own_posts_tab() {
    let mut s = ProfileScreen::new_own();
    s.apply_user(Ok(user("me"))); // pinned_post_id = None
    s.posts.apply_initial(Ok((vec![profile_entry("p1")], None)));
    s.tab = ProfileTab::Posts;
    assert_eq!(
        s.handle_key(key(KeyCode::Char('P'))),
        ProfileIntent::PinPost {
            post_id: "p1".into(),
            pin: true,
        }
    );
}

#[test]
fn render_makes_the_website_url_clickable() {
    let mut s = ProfileScreen::new_own();
    let mut u = user("me");
    u.website_url = Some("https://example.com".into());
    s.apply_user(Ok(u));
    s.tab = ProfileTab::Info;

    let f = s.render(60, &vec![], &Theme::cyber(), &Config::default());
    let linked = match f.pane {
        ProfilePane::Info(p) => p.targets.iter().any(|t| {
            osc8(&t.url, "x").contains("\u{1b}]8;;https://example.com\u{1b}\\")
        }),
        ProfilePane::Items(_) => false,
    };
    assert!(linked, "the profile website URL is an OSC 8 hyperlink");
}

#[test]
fn capital_p_unpins_the_currently_pinned_post() {
    let mut s = ProfileScreen::new_own();
    let mut u = user("me");
    u.pinned_post_id = Some("p1".into());
    s.apply_user(Ok(u));
    s.posts.apply_initial(Ok((vec![profile_entry("p1")], None)));
    s.tab = ProfileTab::Posts;
    assert_eq!(
        s.handle_key(key(KeyCode::Char('P'))),
        ProfileIntent::PinPost {
            post_id: "p1".into(),
            pin: false,
        }
    );
}

#[test]
fn capital_p_pokes_instead_of_pinning_on_another_users_posts_tab() {
    let mut s = ProfileScreen::new_for("bob".into()); // not self
    s.apply_user(Ok(user("bob")));
    s.posts.apply_initial(Ok((vec![profile_entry("p1")], None)));
    s.tab = ProfileTab::Posts;
    assert_eq!(
        s.handle_key(key(KeyCode::Char('P'))),
        ProfileIntent::PokeUser {
            username: "bob".into()
        }
    );
}

#[test]
fn own_profile_starts_on_info_tab() {
    let s = ProfileScreen::new_own();
    assert!(s.is_self);
    assert!(s.is_root);
    assert_eq!(s.tab, ProfileTab::Info);
}

#[test]
fn other_profile_is_not_root() {
    let s = ProfileScreen::new_for("bob".into());
    assert!(!s.is_self);
    assert!(!s.is_root);
}

#[test]
fn backspace_quits_on_root_back_on_pushed() {
    let mut own = ProfileScreen::new_own();
    assert_eq!(own.handle_key(key(KeyCode::Backspace)), ProfileIntent::Quit);

    let mut other = ProfileScreen::new_for("bob".into());
    assert_eq!(
        other.handle_key(key(KeyCode::Backspace)),
        ProfileIntent::Back
    );
}

#[test]
fn h_and_l_cycle_tabs() {
    let mut s = ProfileScreen::new_own();
    s.handle_key(key(KeyCode::Char('l')));
    assert_eq!(s.tab, ProfileTab::Posts);
    s.handle_key(key(KeyCode::Char('l')));
    assert_eq!(s.tab, ProfileTab::Replies);
    s.handle_key(key(KeyCode::Char('h')));
    assert_eq!(s.tab, ProfileTab::Posts);
}

#[test]
fn shift_number_picks_tab() {
    let mut s = ProfileScreen::new_own();
    s.handle_key(key(KeyCode::Char('@')));
    assert_eq!(s.tab, ProfileTab::Posts);
    s.handle_key(key(KeyCode::Char('%')));
    assert_eq!(s.tab, ProfileTab::Following);
}

#[test]
fn tab_and_shift_tab_cycle_tabs() {
    let mut s = ProfileScreen::new_own();
    s.handle_key(key(KeyCode::Tab));
    assert_eq!(s.tab, ProfileTab::Posts);
    s.handle_key(key(KeyCode::Tab));
    assert_eq!(s.tab, ProfileTab::Replies);
    s.handle_key(key(KeyCode::BackTab));
    assert_eq!(s.tab, ProfileTab::Posts);
}

#[test]
fn j_at_bottom_auto_loads_current_tab() {
    let mut s = ProfileScreen::new_own();
    s.tab = ProfileTab::Posts;
    s.posts.loading = false;
    s.posts.next_cursor = Some("next".into());
    // At the bottom of the active tab with more available, j paginates it.
    let intent = s.handle_key(key(KeyCode::Char('j')));
    assert_eq!(intent, ProfileIntent::LoadMoreCurrentTab);
}

#[test]
fn capital_f_toggles_follow_when_other_user() {
    let mut s = ProfileScreen::new_for("bob".into());
    s.apply_user(Ok(user("bob")));
    assert_eq!(
        s.handle_key(key(KeyCode::Char('F'))),
        ProfileIntent::ToggleFollow
    );
}

#[test]
fn capital_f_does_nothing_on_own_profile() {
    let mut s = ProfileScreen::new_own();
    s.apply_user(Ok(user("me")));
    assert_eq!(s.handle_key(key(KeyCode::Char('F'))), ProfileIntent::Nothing);
}

#[test]
fn e_triggers_edit_only_on_self() {
    let mut s = ProfileScreen::new_own();
    s.apply_user(Ok(user("me")));
    assert_eq!(
        s.handle_key(key(KeyCode::Char('e'))),
        ProfileIntent::EditOwnProfile
    );

    let mut other = ProfileScreen::new_for("bob".into());
    other.apply_user(Ok(user("bob")));
    assert_eq!(
        other.handle_key(key(KeyCode::Char('e'))),
        ProfileIntent::Nothing
    );
}

#[test]
fn enter_on_posts_emits_open_post() {
    let mut s = ProfileScreen::new_own();
    s.apply_user(Ok(user("me")));
    s.tab = ProfileTab::Posts;
    s.posts.items = vec![Entry {
        post_id: "p1".into(),
        author_id: "u".into(),
        author_username: "me".into(),
        content: "x".into(),
        title: None,
        slug: None,
        topics: vec![],
        replies_count: 0,
        bookmarks_count: 0,
        is_public: false,
        is_nsfw: false,
        attachments: vec![],
        created_at: None,
        edited_at: None,
        deleted: false,
    }];
    s.posts.loading = false;
    s.posts.loaded = true;
    let intent = s.handle_key(key(KeyCode::Enter));
    assert_eq!(
        intent,
        ProfileIntent::OpenPost {
            post_id: "p1".into()
        }
    );
}

#[test]
fn enter_on_following_opens_user() {
    let mut s = ProfileScreen::new_for("alice".into());
    s.apply_user(Ok(user("alice")));
    s.tab = ProfileTab::Following;
    s.following.items = vec![Follow {
        follow_id: "f1".into(),
        follower_id: "u1".into(),
        followed_id: "u2".into(),
        follower_username: "alice".into(),
        followed_username: "bob".into(),
        created_at: None,
    }];
    s.following.loading = false;
    s.following.loaded = true;
    let intent = s.handle_key(key(KeyCode::Enter));
    assert_eq!(
        intent,
        ProfileIntent::OpenUser {
            username: "bob".into()
        }
    );
}

#[test]
fn enter_on_following_without_username_is_noop() {
    let mut s = ProfileScreen::new_for("alice".into());
    s.apply_user(Ok(user("alice")));
    s.tab = ProfileTab::Following;
    s.following.items = vec![Follow {
        follow_id: "f1".into(),
        follower_id: "u1".into(),
        followed_id: "u2".into(),
        follower_username: String::new(),
        followed_username: String::new(),
        created_at: None,
    }];
    s.following.loading = false;
    s.following.loaded = true;
    assert_eq!(s.handle_key(key(KeyCode::Enter)), ProfileIntent::Nothing);
}

#[test]
fn follow_row_falls_back_to_id_without_username() {
    let theme = Theme::default();
    // Username present -> rendered as "@name".
    let with_name = follow_row("bob", "u2", &theme);
    assert_eq!(with_name.spans[0].content.as_str(), "@bob");
    // Username missing -> truncated id, not a bare "@".
    let no_name = follow_row("", "user-id-1234", &theme);
    assert_eq!(no_name.spans[0].content.as_str(), "user-id-1234");
    // Neither username nor id -> explicit placeholder.
    let empty = follow_row("", "", &theme);
    assert_eq!(empty.spans[0].content.as_str(), "(unknown user)");
}

#[test]
fn apply_user_sets_username_when_none() {
    let mut s = ProfileScreen::new_own();
    s.apply_user(Ok(user("me")));
    assert_eq!(s.username.as_deref(), Some("me"));
}

#[test]
fn capital_p_pokes_another_user() {
    let mut s = ProfileScreen::new_for("bob".into());
    s.apply_user(Ok(user("bob")));
    assert_eq!(
        s.handle_key(key(KeyCode::Char('P'))),
        ProfileIntent::PokeUser {
            username: "bob".into()
        }
    );
}

#[test]
fn capital_p_pokes_the_handle_the_server_confirmed() {
    // The screen was opened with one spelling; the loaded profile is the
    // authority on the handle the poke is addressed to.
    let mut s = ProfileScreen::new_for("BOB".into());
    s.apply_user(Ok(user("bob")));
    assert_eq!(
        s.handle_key(key(KeyCode::Char('P'))),
        ProfileIntent::PokeUser {
            username: "bob".into()
        }
    );
}

#[test]
fn capital_p_never_pokes_yourself() {
    let mut s = ProfileScreen::new_own();
    s.apply_user(Ok(user("me")));
    assert_eq!(s.handle_key(key(KeyCode::Char('P'))), ProfileIntent::Nothing);
}

#[test]
fn capital_p_waits_for_the_profile_to_load() {
    let mut s = ProfileScreen::new_for("bob".into());
    assert_eq!(s.handle_key(key(KeyCode::Char('P'))), ProfileIntent::Nothing);
}

#[test]
fn capital_e_edits_the_selected_post() {
    let mut s = ProfileScreen::new_own();
    s.apply_user(Ok(user("me")));
    s.posts
        .apply_initial(Ok((vec![profile_entry("p1"), profile_entry("p2")], None)));
    s.posts.selected = 1;
    s.tab = ProfileTab::Posts;
    assert_eq!(
        s.handle_key(key(KeyCode::Char('E'))),
        ProfileIntent::EditEntry {
            post_id: "p2".into(),
            content: "hi".into(),
        }
    );
}

#[test]
fn capital_e_is_not_offered_on_someone_elses_post() {
    let mut s = ProfileScreen::new_for("bob".into());
    s.apply_user(Ok(user("bob")));
    s.posts.apply_initial(Ok((vec![profile_entry("p1")], None)));
    s.tab = ProfileTab::Posts;
    assert_eq!(s.handle_key(key(KeyCode::Char('E'))), ProfileIntent::Nothing);
}

#[test]
fn capital_e_is_ignored_off_the_posts_tab() {
    let mut s = ProfileScreen::new_own();
    s.apply_user(Ok(user("me")));
    s.posts.apply_initial(Ok((vec![profile_entry("p1")], None)));
    s.tab = ProfileTab::Replies;
    assert_eq!(s.handle_key(key(KeyCode::Char('E'))), ProfileIntent::Nothing);
}

#[test]
fn capital_e_with_an_empty_posts_tab_is_a_noop() {
    let mut s = ProfileScreen::new_own();
    s.apply_user(Ok(user("me")));
    s.tab = ProfileTab::Posts;
    assert_eq!(s.handle_key(key(KeyCode::Char('E'))), ProfileIntent::Nothing);
}

#[test]
fn lowercase_e_still_edits_your_profile_from_the_posts_tab() {
    // The two edits are one keystroke apart, so the old binding has to
    // survive the new one on the tab they share.
    let mut s = ProfileScreen::new_own();
    s.apply_user(Ok(user("me")));
    s.posts.apply_initial(Ok((vec![profile_entry("p1")], None)));
    s.tab = ProfileTab::Posts;
    assert_eq!(
        s.handle_key(key(KeyCode::Char('e'))),
        ProfileIntent::EditOwnProfile
    );
}

#[test]
fn posts_tab_marks_an_edited_entry() {
    let mut s = ProfileScreen::new_own();
    s.apply_user(Ok(user("me")));
    let mut edited = profile_entry("p1");
    edited.edited_at = Some(NOW);
    s.posts.apply_initial(Ok((vec![edited], None)));
    s.tab = ProfileTab::Posts;
    assert!(
        render_to_string(&s, 70).contains("(edited)"),
        "an entry with editedAt set is marked as edited"
    );
}

#[test]
fn posts_tab_leaves_an_untouched_entry_unmarked() {
    let mut s = ProfileScreen::new_own();
    s.apply_user(Ok(user("me")));
    s.posts.apply_initial(Ok((vec![profile_entry("p1")], None)));
    s.tab = ProfileTab::Posts;
    assert!(
        !render_to_string(&s, 70).contains("(edited)"),
        "an entry without editedAt carries no marker"
    );
}

#[test]
fn replies_tab_marks_an_edited_reply() {
    let mut s = ProfileScreen::new_own();
    s.apply_user(Ok(user("me")));
    let mut edited = profile_reply("r1");
    edited.edited_at = Some(NOW);
    s.replies.apply_initial(Ok((vec![edited], None)));
    s.tab = ProfileTab::Replies;
    assert!(
        render_to_string(&s, 70).contains("(edited)"),
        "a reply with editedAt set is marked as edited"
    );
}

#[test]
fn replies_tab_leaves_an_untouched_reply_unmarked() {
    let mut s = ProfileScreen::new_own();
    s.apply_user(Ok(user("me")));
    s.replies
        .apply_initial(Ok((vec![profile_reply("r1")], None)));
    s.tab = ProfileTab::Replies;
    assert!(
        !render_to_string(&s, 70).contains("(edited)"),
        "a reply without editedAt carries no marker"
    );
}

#[test]
fn apply_edited_entry_swaps_the_matching_row() {
    let mut s = ProfileScreen::new_own();
    s.posts
        .apply_initial(Ok((vec![profile_entry("p1"), profile_entry("p2")], None)));
    let mut fresh = profile_entry("p2");
    fresh.content = "corrected".into();
    fresh.edited_at = Some(NOW);
    assert!(s.apply_edited_entry(fresh));
    assert_eq!(s.posts.items[0].content, "hi", "other rows are untouched");
    assert_eq!(s.posts.items[1].content, "corrected");
    assert!(s.posts.items[1].edited_at.is_some());
}

#[test]
fn apply_edited_entry_reports_a_miss() {
    let mut s = ProfileScreen::new_own();
    s.posts.apply_initial(Ok((vec![profile_entry("p1")], None)));
    assert!(!s.apply_edited_entry(profile_entry("gone")));
    assert_eq!(s.posts.items.len(), 1);
}

#[test]
fn status_line_offers_poke_on_another_profile_only() {
    let mut other = ProfileScreen::new_for("bob".into());
    other.apply_user(Ok(user("bob")));
    assert!(render_to_string(&other, 160).contains("P poke"));

    let mut own = ProfileScreen::new_own();
    own.apply_user(Ok(user("me")));
    assert!(!render_to_string(&own, 160).contains("P poke"));
}

#[test]
fn your_own_profile_reached_by_name_offers_no_self_directed_actions() {
    let mut me = ProfileScreen::new_for("me".into());
    me.viewer_user_id = Some("u".into());
    me.apply_user(Ok(user("me")));
    assert!(me.is_viewing_self(), "same id means it is my own profile");

    let text = render_to_string(&me, 160);
    assert!(!text.contains("P poke"), "{text:?}");
    assert!(!text.contains("F follow/unfollow"), "{text:?}");
    assert!(!text.contains("m message"), "{text:?}");
    assert_eq!(
        me.handle_key(key(KeyCode::Char('P'))),
        ProfileIntent::Nothing,
        "poking yourself must not even be attempted",
    );

    // A different account is still fully actionable.
    let mut bob = ProfileScreen::new_for("bob".into());
    bob.viewer_user_id = Some("someone-else".into());
    bob.apply_user(Ok(user("bob")));
    assert!(!bob.is_viewing_self());
    assert!(render_to_string(&bob, 160).contains("P poke"));
}

#[test]
fn status_line_offers_edit_on_your_own_posts_tab_only() {
    let mut own = ProfileScreen::new_own();
    own.apply_user(Ok(user("me")));
    own.tab = ProfileTab::Posts;
    assert!(render_to_string(&own, 160).contains("E edit"));

    let mut other = ProfileScreen::new_for("bob".into());
    other.apply_user(Ok(user("bob")));
    other.tab = ProfileTab::Posts;
    assert!(
        !render_to_string(&other, 160).contains("E edit"),
        "the hint tracks the binding, which is your own posts only"
    );
}

#[test]
fn status_line_shows_a_poke_in_flight() {
    let mut s = ProfileScreen::new_for("bob".into());
    s.apply_user(Ok(user("bob")));
    assert!(!render_to_string(&s, 160).contains("poke pending"));
    s.poke_pending = true;
    assert!(render_to_string(&s, 160).contains("poke pending"));
}

#[test]
fn shifted_six_selects_the_guilds_tab() {
    let mut s = ProfileScreen::new_own();
    assert_eq!(
        s.handle_key(key(KeyCode::Char('^'))),
        ProfileIntent::SelectTab(ProfileTab::Guilds)
    );
    assert_eq!(s.tab, ProfileTab::Guilds);
}

#[test]
fn guilds_is_the_last_tab_in_the_cycle() {
    let mut s = ProfileScreen::new_own();
    // h from the first tab wraps backwards onto the last one.
    s.handle_key(key(KeyCode::Char('h')));
    assert_eq!(s.tab, ProfileTab::Guilds);
    s.handle_key(key(KeyCode::Char('l')));
    assert_eq!(s.tab, ProfileTab::Info);
}

#[test]
fn apply_guilds_fills_the_tab_and_leaves_no_cursor() {
    let mut s = ProfileScreen::new_for("bob".into());
    s.apply_guilds(Ok(vec![
        user_guild("owls", GuildRole::Member),
        user_guild("divers", GuildRole::Apprentice),
    ]));
    assert!(s.guilds.loaded);
    assert!(!s.guilds.loading);
    assert_eq!(s.guilds.items.len(), 2);
    assert!(
        s.guilds.next_cursor.is_none(),
        "the guilds have no pagination, so nothing may imply a second page"
    );
}

#[test]
fn apply_guilds_surfaces_a_failure() {
    let mut s = ProfileScreen::new_for("bob".into());
    s.apply_guilds(Err("api NotFound (404): no such user".into()));
    assert!(s.guilds.error.is_some());
    assert!(s.guilds.items.is_empty());
    assert!(!s.guilds.loading);
}

#[test]
fn the_guilds_tab_never_asks_for_another_page() {
    let mut s = ProfileScreen::new_own();
    s.tab = ProfileTab::Guilds;
    s.apply_guilds(Ok(vec![user_guild("owls", GuildRole::Founder)]));
    // Sitting on the last row is where every other tab pulls the next page.
    assert_eq!(s.handle_key(key(KeyCode::Char('j'))), ProfileIntent::Nothing);
    assert_eq!(s.handle_key(key(KeyCode::Char('n'))), ProfileIntent::Nothing);
    assert_eq!(s.handle_key(key(KeyCode::PageDown)), ProfileIntent::Nothing);
}

#[test]
fn r_refreshes_the_guilds_tab() {
    let mut s = ProfileScreen::new_own();
    s.tab = ProfileTab::Guilds;
    s.apply_guilds(Ok(vec![user_guild("owls", GuildRole::Founder)]));
    assert_eq!(
        s.handle_key(key(KeyCode::Char('r'))),
        ProfileIntent::RefreshCurrentTab
    );
}

#[test]
fn enter_on_the_guilds_tab_opens_the_selected_guild() {
    let mut s = ProfileScreen::new_for("bob".into());
    s.apply_user(Ok(user("bob")));
    s.tab = ProfileTab::Guilds;
    s.apply_guilds(Ok(vec![
        user_guild("owls", GuildRole::Member),
        user_guild("divers", GuildRole::Apprentice),
    ]));
    s.guilds.selected = 1;
    assert_eq!(
        s.handle_key(key(KeyCode::Enter)),
        ProfileIntent::OpenGuild {
            slug: "divers".into()
        },
        "an apprenticeship opens the same way the badge guild does"
    );
}

#[test]
fn enter_on_a_guild_row_without_a_slug_is_a_noop() {
    // Every guild route is addressed by slug, so a row that decoded without
    // one would request `/v1/guilds/` and fail.
    let mut s = ProfileScreen::new_for("bob".into());
    s.tab = ProfileTab::Guilds;
    s.apply_guilds(Ok(vec![UserGuild::default()]));
    assert_eq!(s.handle_key(key(KeyCode::Enter)), ProfileIntent::Nothing);
}

#[test]
fn the_guilds_tab_shows_every_guild_with_its_role() {
    let mut s = ProfileScreen::new_for("bob".into());
    s.apply_user(Ok(user("bob")));
    s.tab = ProfileTab::Guilds;
    s.apply_guilds(Ok(vec![
        user_guild("owls", GuildRole::Member),
        user_guild("divers", GuildRole::Apprentice),
    ]));
    let text = render_to_string(&s, 100);
    assert!(text.contains("Guild owls"), "{text:?}");
    assert!(text.contains("#owls"), "{text:?}");
    assert!(text.contains("member"), "{text:?}");
    // The apprenticeship is listed too: it is not on the profile badge, but
    // the user is in the guild.
    assert!(text.contains("Guild divers"), "{text:?}");
    assert!(text.contains("apprentice"), "{text:?}");
    assert_eq!(
        text.matches("profile badge").count(),
        1,
        "exactly one guild carries the badge: {text:?}"
    );
}

#[test]
fn an_empty_guilds_tab_says_so() {
    let mut s = ProfileScreen::new_for("bob".into());
    s.apply_user(Ok(user("bob")));
    s.tab = ProfileTab::Guilds;
    s.apply_guilds(Ok(vec![]));
    assert!(render_to_string(&s, 100).contains("no guilds"));
}

#[test]
fn the_guilds_tab_status_line_promises_no_further_pages() {
    let mut s = ProfileScreen::new_own();
    s.apply_user(Ok(user("me")));
    s.tab = ProfileTab::Guilds;
    s.apply_guilds(Ok(vec![user_guild("owls", GuildRole::Founder)]));
    let text = render_to_string(&s, 160);
    assert!(text.contains("enter open"), "{text:?}");
    assert!(
        !text.contains("scroll for more"),
        "the tab cannot page, so it must not offer to: {text:?}"
    );
}

#[test]
fn an_unmodelled_role_is_never_labelled_as_member() {
    let row = guild_row(
        &UserGuild {
            slug: "owls".into(),
            role: Some(GuildRole::Unknown),
            ..Default::default()
        },
        "",
        &Theme::default(),
    );
    let text: String = row.spans.iter().map(|s| s.content.as_str()).collect();
    assert!(
        !text.contains("member"),
        "an unmodelled role must not be dressed up as one: {text:?}"
    );
}

#[test]
fn guild_row_marks_the_badge_guild_only() {
    let theme = Theme::default();
    let row = |g: &UserGuild| -> String {
        guild_row(g, "", &theme)
            .spans
            .iter()
            .map(|s| s.content.as_str())
            .collect()
    };
    assert!(row(&user_guild("owls", GuildRole::Founder)).contains("profile badge"));
    assert!(row(&user_guild("owls", GuildRole::Member)).contains("profile badge"));
    assert!(!row(&user_guild("divers", GuildRole::Apprentice)).contains("profile badge"));
    assert!(!row(&UserGuild::default()).contains("profile badge"));
}

#[test]
fn guild_row_names_a_guild_that_arrived_without_a_name() {
    let theme = Theme::default();
    let slug_only = UserGuild {
        slug: "owls".into(),
        ..UserGuild::default()
    };
    assert_eq!(
        guild_row(&slug_only, "", &theme).spans[0].content.as_str(),
        "#owls"
    );
    assert_eq!(
        guild_row(&UserGuild::default(), "", &theme).spans[0]
            .content.as_str(),
        "(unknown guild)"
    );
}

#[test]
fn guild_row_dates_the_membership_when_the_server_sent_one() {
    let theme = Theme::default();
    let mut g = user_guild("owls", GuildRole::Member);
    assert!(
        !guild_row(&g, "", &theme)
            .spans
            .iter()
            .any(|s| s.content.contains("joined")),
        "no joinedAt, nothing to date"
    );
    g.joined_at = Some(NOW);
    let dated: String = guild_row(&g, "", &theme)
        .spans
        .iter()
        .map(|s| s.content.as_str())
        .collect();
    assert!(dated.contains("· joined "), "{dated:?}");
}

#[test]
fn the_info_tab_spells_the_profile_out() {
    let mut s = ProfileScreen::new_for("bob".into());
    let mut u = user("bob");
    u.display_name = Some("Bob".into());
    u.bio = Some("one\r\ntwo\n".into());
    u.posts_count = Some(3);
    u.followers_count = Some(20);
    u.guild_name = Some("Owls".into());
    u.location_name = Some("Oslo".into());
    u.website_url = Some("https://b.example".into());
    u.website_name = Some("home".into());
    u.pinned_post_id = Some("p9".into());
    u.is_following = Some(true);
    s.apply_user(Ok(u));
    let p = s.render_info(80, &Theme::cyber(), &Config::default());
    let lines: Vec<String> = p.lines.iter().map(|l| l.text()).collect();
    assert_eq!(
        lines,
        vec![
            "Bob",
            "@bob",
            "",
            "one",
            "two",
            "",
            "3 posts · 20 followers · 0 following",
            "guild: Owls",
            "📍 Oslo",
            "🔗 home (https://b.example)",
            "📌 pinned: p9",
            "",
            "F to unfollow",
            "P to poke (1/hour, 8/day across everyone)",
        ]
    );
}

#[test]
fn a_profile_that_failed_to_load_says_why() {
    let mut s = ProfileScreen::new_for("bob".into());
    let p = s.render_info(80, &Theme::cyber(), &Config::default());
    assert_eq!(p.lines[0].text(), "loading profile…");
    s.apply_user(Err("no such user".into()));
    let p = s.render_info(80, &Theme::cyber(), &Config::default());
    assert_eq!(p.lines.len(), 1);
    assert_eq!(p.lines[0].text(), "no such user");
    assert!(!s.loading_user);
}

#[test]
fn the_guild_row_reads_from_name_to_badge() {
    let mut g = user_guild("owls", GuildRole::Founder);
    g.joined_at = Some(Moment::default());
    assert_eq!(
        guild_row(&g, "2024-01-01", &Theme::cyber()).text(),
        "Guild owls  #owls · founder · joined 2024-01-01 · profile badge"
    );
}

#[test]
fn control_c_quits_the_profile() {
    let mut s = ProfileScreen::new_for("bob".into());
    let quit = KeyEvent { code: KeyCode::Char('c'), control: true };
    assert_eq!(s.handle_key(quit), ProfileIntent::Quit);
}

#[test]
fn a_page_on_its_way_is_not_asked_for_again() {
    let mut s = ProfileScreen::new_own();
    s.tab = ProfileTab::Posts;
    s.posts.loading = true;
    s.posts.next_cursor = Some("next".into());
    assert_eq!(s.handle_key(key(KeyCode::Char('j'))), ProfileIntent::Nothing);
    assert_eq!(s.handle_key(key(KeyCode::Char('r'))), ProfileIntent::Nothing);
}

#[test]
fn six_steps_go_round_the_tabs() {
    let mut s = ProfileScreen::new_own();
    for tab in [
        ProfileTab::Posts,
        ProfileTab::Replies,
        ProfileTab::Followers,
        ProfileTab::Following,
        ProfileTab::Guilds,
        ProfileTab::Info,
    ] {
        assert_eq!(s.handle_key(key(KeyCode::Tab)), ProfileIntent::SelectTab(tab));
    }
    assert_eq!(s.handle_key(key(KeyCode::Char('!'))), ProfileIntent::Nothing);
    assert_eq!(ProfileTab::from_shifted('1'), None);
    assert_eq!(ProfileTab::Guilds.label(), "guilds");
}
