//! The post screen, driven from outside.
use cs_tui::config::Config;
use cs_tui::draw::Rect;
use cs_tui::flag::MAX_FLAG_REASON;
use cs_tui::hyperlink::osc8;
use cs_tui::key::{KeyCode, KeyEvent};
use cs_tui::list::SelectionStyle;
use cs_tui::model::{Attachment, Entry, EntryEdit, Moment, Reply, TitleEdit};
use cs_tui::post_detail::{
    within_edit_window, Body, BodyStyle, DetailFrame, Encoding, PostDetailIntent, PostDetailScreen,
    EDIT_WINDOW_SECS,
};
use cs_tui::theme::Theme;

const NOW: i64 = 1_700_000_000;

fn at(secs: i64) -> Moment {
    Moment { secs, ..Moment::default() }
}

fn key(code: KeyCode) -> KeyEvent {
    KeyEvent { code, control: false }
}

fn entry(post_id: &str) -> Entry {
    Entry {
        post_id: post_id.into(),
        author_id: "a".into(),
        author_username: "alice".into(),
        content: "hello\nworld".into(),
        title: None,
        slug: None,
        topics: vec!["music".into()],
        replies_count: 0,
        bookmarks_count: 0,
        is_public: false,
        is_nsfw: false,
        attachments: vec![],
        created_at: None,
        edited_at: None,
        deleted: false,
    }
}

fn reply(reply_id: &str, post_id: &str) -> Reply {
    Reply {
        reply_id: reply_id.into(),
        post_id: post_id.into(),
        author_id: "b".into(),
        author_username: "bob".into(),
        content: format!("reply {reply_id}"),
        parent_reply_id: None,
        attachments: vec![],
        created_at: None,
        edited_at: None,
        deleted: false,
    }
}

/// The body. With `inline_images` a gap is kept for each picture and its URL is
/// left out; without, the URL is shown as text.
fn body_mode(s: &PostDetailScreen, theme: Theme, inline_images: bool) -> Body {
    let img_rows = if inline_images { 6 } else { 0 };
    s.compose_body(
        &vec![],
        BodyStyle {
            theme,
            selection: SelectionStyle::Fill,
            inline_images,
            img_rows,
        },
    )
}

fn body_text_mode(s: &PostDetailScreen, inline_images: bool) -> Vec<String> {
    body_mode(s, Theme::cyber(), inline_images)
        .lines
        .iter()
        .map(|l| l.text())
        .collect()
}

fn body_text(s: &PostDetailScreen) -> Vec<String> {
    body_text_mode(s, false)
}

fn image_attachment(src: &str) -> Attachment {
    Attachment::Image {
        src: src.into(),
        width: 0,
        height: 0,
    }
}

fn jukebox(src: &str) -> Attachment {
    Attachment::Audio {
        src: src.into(),
        origin: "youtube".into(),
        artist: "Art of Noise".into(),
        title: "Paranoimia".into(),
        genre: "electronic".into(),
    }
}

/// A tiny picture.
fn tiny_png() -> Vec<u8> {
    let buf = image::ImageBuffer::from_pixel(2, 2, image::Rgba([10u8, 20, 30, 255]));
    let mut cur = std::io::Cursor::new(Vec::new());
    image::DynamicImage::ImageRgba8(buf)
        .write_to(&mut cur, image::ImageFormat::Png)
        .expect("encode png");
    cur.into_inner()
}

/// A screen whose first reply fetch has settled, so the status line shows
/// the browse hints instead of "loading replies…".
fn settled(e: Entry) -> PostDetailScreen {
    let mut s = PostDetailScreen::new(e);
    s.apply_replies_initial(Ok((Vec::new(), None)));
    s
}

/// What a terminal of that size shows: a border, the body, the reason while it
/// is asked for, and the status.
fn frame(
    s: &mut PostDetailScreen,
    width: u16,
    height: u16,
    images_on: bool,
    graphics: bool,
) -> DetailFrame {
    let rows = if s.is_text_input() { 4 } else { 3 };
    let body = Rect { x: 1, y: 1, width: width - 2, height: height - rows };
    s.render(
        body,
        width - 2,
        &vec![],
        at(NOW),
        &Theme::cyber(),
        &Config::default(),
        images_on,
        graphics,
    )
}

/// The pictures that are drawn: in view, and decoded from the cached bytes.
fn drawn(s: &PostDetailScreen, f: &DetailFrame) -> Vec<String> {
    f.overlays
        .iter()
        .map(|o| o.url.clone())
        .filter(|url| matches!(s.decode_image(url), Some(Ok(_))))
        .collect()
}

/// Everything that is shown, row by row.
fn rendered_rows(s: &mut PostDetailScreen, width: u16, height: u16) -> Vec<String> {
    let f = frame(s, width, height, false, false);
    let mut rows: Vec<String> = f.lines.iter().map(|l| l.text()).collect();
    rows.extend(f.prompt.iter().map(|l| l.text()));
    rows.push(f.status.text());
    rows
}

#[test]
fn j_k_select_replies_and_b_bookmarks_the_selection() {
    let mut s = PostDetailScreen::new(entry("p1"));
    s.apply_replies_initial(Ok((vec![reply("r1", "p1"), reply("r2", "p1")], None)));

    // No selection → b bookmarks the post.
    assert_eq!(
        s.handle_key(key(KeyCode::Char('b')), true),
        PostDetailIntent::Bookmark
    );

    // J selects the first reply; b bookmarks it.
    s.handle_key(key(KeyCode::Char('J')), true);
    assert_eq!(s.selected_reply, Some(0));
    assert_eq!(
        s.handle_key(key(KeyCode::Char('b')), true),
        PostDetailIntent::BookmarkReply {
            reply_id: "r1".into()
        }
    );

    // J advances, K retreats; selection clamps at the ends.
    s.handle_key(key(KeyCode::Char('J')), true);
    assert_eq!(s.selected_reply, Some(1));
    s.handle_key(key(KeyCode::Char('J')), true);
    assert_eq!(s.selected_reply, Some(1), "stays on the last reply");
    s.handle_key(key(KeyCode::Char('K')), true);
    assert_eq!(s.selected_reply, Some(0));

    // A fresh reply page clears the selection.
    s.apply_replies_initial(Ok((vec![reply("r1", "p1")], None)));
    assert_eq!(s.selected_reply, None);
}

#[test]
fn w_toggles_watch_at_thread_level_even_with_a_reply_selected() {
    let mut s = PostDetailScreen::new(entry("p1"));
    s.apply_replies_initial(Ok((vec![reply("r1", "p1")], None)));

    // No selection → w is a thread-level toggle.
    assert_eq!(
        s.handle_key(key(KeyCode::Char('w')), true),
        PostDetailIntent::ToggleWatch
    );

    // Selecting a reply doesn't retarget w (unlike b, which targets the reply).
    s.handle_key(key(KeyCode::Char('J')), true);
    assert_eq!(s.selected_reply, Some(0));
    assert_eq!(
        s.handle_key(key(KeyCode::Char('w')), true),
        PostDetailIntent::ToggleWatch
    );
}

#[test]
fn watching_indicator_shows_only_when_watching() {
    let mut s = PostDetailScreen::new(entry("p1"));
    // Unknown state: no indicator.
    assert!(!body_text(&s).iter().any(|l| l.contains("watching")));
    // Watching: the meta line gains the indicator.
    s.set_watching(true);
    assert!(body_text(&s).iter().any(|l| l.contains("★ watching")));
    // Not watching: indicator hidden again.
    s.set_watching(false);
    assert!(!body_text(&s).iter().any(|l| l.contains("watching")));
}

#[test]
fn all_image_urls_lists_post_then_each_replys_first_image() {
    let mut e = entry("p1");
    e.attachments = vec![image_attachment("https://x/post.png")];
    let r0 = reply("r0", "p1"); // no image
    let mut r1 = reply("r1", "p1");
    r1.attachments = vec![image_attachment("https://x/reply.png")];
    let mut s = PostDetailScreen::new(e);
    s.apply_replies_initial(Ok((vec![r0, r1], None)));

    // Post image first, then each reply that has one — in body order. The
    // image-less reply contributes nothing.
    assert_eq!(
        s.all_image_urls(),
        vec!["https://x/post.png", "https://x/reply.png"]
    );
}

#[test]
fn reply_image_renders_inline_so_its_url_is_hidden() {
    // With graphics on, the reply's image is drawn in a reserved gap, so its
    // URL is suppressed; a blank-row gap is reserved for the overlay.
    let mut s = PostDetailScreen::new(entry("p1"));
    let mut r = reply("r1", "p1");
    r.content = "look ![a cat](https://x/cat.png)".into();
    s.apply_replies_initial(Ok((vec![r], None)));
    let body = body_text_mode(&s, true).join("\n");
    assert!(body.contains("[image: a cat]"), "alt tag shown: {body:?}");
    assert!(
        !body.contains("https://x/cat.png"),
        "image drawn inline, url hidden: {body:?}"
    );
    // A slot was recorded for the inline image overlay.
    assert_eq!(body_mode(&s, Theme::cyber(), true).slots.len(), 1, "one inline image reserved");
}

#[test]
fn reply_image_url_is_surfaced_when_graphics_are_off() {
    // No graphics (terminal can't, or `i` toggled off): the image isn't drawn,
    // so its URL is surfaced as text instead and no gap is reserved.
    let mut s = PostDetailScreen::new(entry("p1"));
    let mut r = reply("r1", "p1");
    r.content = "look ![a cat](https://x/cat.png)".into();
    s.apply_replies_initial(Ok((vec![r], None)));
    let body = body_text_mode(&s, false).join("\n");
    assert!(body.contains("[image: a cat]"), "alt tag shown: {body:?}");
    assert!(
        body.contains("https://x/cat.png"),
        "image url surfaced as text: {body:?}"
    );
    assert!(body_mode(&s, Theme::cyber(), false).slots.is_empty(), "no gap reserved");
}

#[test]
fn post_image_url_is_hidden_when_drawn_inline() {
    let mut e = entry("p1");
    e.content = "hero ![a cat](https://x/cat.png)".into();
    let s = PostDetailScreen::new(e);
    let body = body_text_mode(&s, true).join("\n");
    assert!(body.contains("[image: a cat]"), "alt tag shown: {body:?}");
    assert!(
        !body.contains("https://x/cat.png"),
        "post image url hidden (the image is drawn): {body:?}"
    );
}

#[test]
fn image_bytes_cache_and_request_dedup() {
    let mut s = PostDetailScreen::new(entry("p1"));
    assert!(!s.has_image_bytes("https://x/a.png"));
    s.cache_image_bytes("https://x/a.png".into(), vec![1, 2, 3]);
    assert!(s.has_image_bytes("https://x/a.png"));
    assert!(!s.has_image_bytes("https://x/other.png"));

    // mark_requested returns true only the first time, so exactly one fetch
    // is spawned per URL.
    assert!(s.mark_requested("https://x/a.png".into()), "first request");
    assert!(
        !s.mark_requested("https://x/a.png".into()),
        "second request is a no-op"
    );
}

#[test]
fn inline_image_is_decoded_and_overlaid_once_in_view() {
    let mut s = PostDetailScreen::new(entry("p1"));
    let mut r = reply("r1", "p1");
    r.attachments = vec![image_attachment("https://x/cat.png")];
    s.apply_replies_initial(Ok((vec![r], None)));
    s.cache_image_bytes("https://x/cat.png".into(), tiny_png());

    let f = frame(&mut s, 40, 40, true, true);

    // The reply's gap is near the top and fully in view.
    assert!(
        drawn(&s, &f).contains(&"https://x/cat.png".to_string()),
        "inline image decoded and cached for overlay"
    );
}

#[test]
fn inline_image_is_clipped_not_shrunk_when_partly_off_screen() {
    let mut s = PostDetailScreen::new(entry("p1"));
    let mut r = reply("r1", "p1");
    r.content = "photo:".into();
    r.attachments = vec![image_attachment("https://x/cat.png")];
    s.apply_replies_initial(Ok((vec![r], None)));
    s.cache_image_bytes("https://x/cat.png".into(), tiny_png());

    // The (width, height) in cells of the area that the picture is cut to.
    let measure = |s: &mut PostDetailScreen, scroll: u16| -> (u16, u16) {
        s.scroll = scroll;
        let f = frame(s, 40, 20, true, true);
        (f.overlays[0].area.width, f.overlays[0].area.height)
    };

    let (w_clipped, h_clipped) = measure(&mut s, 0); // gap near the viewport bottom
    let (w_full, h_full) = measure(&mut s, 4); // scrolled so the gap fully fits
    assert!(w_full > 0 && h_full > 0, "image renders when fully in view");
    assert_eq!(
        w_clipped, w_full,
        "width is identical at both scrolls — the image is clipped, not resized"
    );
    assert!(
        h_clipped < h_full,
        "the partly-off-screen image shows fewer rows (clipped): {h_clipped} vs {h_full}"
    );
}

#[test]
fn off_screen_inline_image_is_not_decoded_until_scrolled_into_view() {
    // Many image-less replies push the only image-bearing reply far down.
    let mut replies: Vec<Reply> = (0..30).map(|i| reply(&format!("r{i}"), "p1")).collect();
    let mut last = reply("rlast", "p1");
    last.attachments = vec![image_attachment("https://x/cat.png")];
    replies.push(last);
    let mut s = PostDetailScreen::new(entry("p1"));
    s.apply_replies_initial(Ok((replies, None)));
    s.cache_image_bytes("https://x/cat.png".into(), tiny_png());

    let f = frame(&mut s, 40, 12, true, true);

    assert!(
        !drawn(&s, &f).contains(&"https://x/cat.png".to_string()),
        "an off-screen image must not be decoded until it scrolls into view"
    );
    s.scroll = s.max_scroll;
    let f = frame(&mut s, 40, 12, true, true);
    assert_eq!(drawn(&s, &f), vec!["https://x/cat.png"]);
}

#[test]
fn images_disabled_reserves_no_gap_and_decodes_nothing() {
    let mut s = PostDetailScreen::new(entry("p1"));
    let mut r = reply("r1", "p1");
    r.attachments = vec![image_attachment("https://x/cat.png")];
    s.apply_replies_initial(Ok((vec![r], None)));
    s.cache_image_bytes("https://x/cat.png".into(), tiny_png());

    let f = frame(&mut s, 40, 40, false, true);

    assert_eq!(f.img_rows, 0, "no gap reserved when off");
    assert!(
        drawn(&s, &f).is_empty(),
        "nothing decoded when images are off"
    );
}

#[test]
fn render_overlays_an_osc8_hyperlink_on_a_surfaced_url() {
    // A markdown link surfaces its URL on its own row, and that row is linked.
    let mut e = entry("p1");
    e.content = "see [the site](https://x.example/page)".into();
    let mut s = PostDetailScreen::new(e);

    let f = frame(&mut s, 60, 20, false, false);

    let linked = f
        .targets
        .iter()
        .any(|t| osc8(&t.url, "").contains("\u{1b}]8;;https://x.example/page\u{1b}\\"));
    assert!(linked, "the URL row is wrapped in an OSC 8 hyperlink");
}

#[test]
fn compose_body_leads_with_title_when_present() {
    let mut e = entry("p1");
    e.title = Some("Headline Here".into());
    let lines = body_text(&PostDetailScreen::new(e));
    assert_eq!(lines[0], "Headline Here", "title should be the first line");
}

#[test]
fn compose_body_renders_jukebox_link_and_metadata() {
    let mut e = entry("p1");
    e.attachments = vec![Attachment::Audio {
        src: "https://www.youtube.com/watch?v=abc".into(),
        origin: "youtube".into(),
        artist: "Art of Noise".into(),
        title: "Paranoimia".into(),
        genre: "electronic".into(),
    }];
    let lines = body_text(&PostDetailScreen::new(e)).join("\n");
    assert!(lines.contains("♪ Paranoimia"), "track title: {lines:?}");
    assert!(lines.contains("Art of Noise"), "artist: {lines:?}");
    assert!(
        lines.contains("https://www.youtube.com/watch?v=abc"),
        "the jukebox link must be retained in the post body: {lines:?}"
    );
}

#[test]
fn compose_body_omits_title_when_none() {
    let lines = body_text(&PostDetailScreen::new(entry("p1"))); // title: None
    assert!(
        lines[0].starts_with("@alice"),
        "without a title the first line is the author header, got {:?}",
        lines[0]
    );
}

#[test]
fn new_starts_loading_replies() {
    let s = PostDetailScreen::new(entry("p1"));
    assert!(s.loading_replies);
    assert!(s.replies.is_empty());
    assert_eq!(s.scroll, 0);
}

#[test]
fn backspace_emits_back() {
    let mut s = PostDetailScreen::new(entry("p1"));
    assert_eq!(
        s.handle_key(key(KeyCode::Backspace), true),
        PostDetailIntent::Back
    );
}

#[test]
fn r_plain_reply_and_q_quote_reply_are_distinct() {
    let mut s = PostDetailScreen::new(entry("p1"));
    assert_eq!(
        s.handle_key(key(KeyCode::Char('R')), true),
        PostDetailIntent::Reply
    );
    assert_eq!(
        s.handle_key(key(KeyCode::Char('Q')), true),
        PostDetailIntent::QuoteReply
    );
}

#[test]
fn o_opens_the_post_jukebox_link() {
    let mut e = entry("p1");
    e.attachments = vec![jukebox("https://youtu.be/abc")];
    let mut s = PostDetailScreen::new(e);
    assert_eq!(
        s.handle_key(key(KeyCode::Char('o')), true),
        PostDetailIntent::OpenUrl("https://youtu.be/abc".into())
    );
}

#[test]
fn o_is_a_noop_without_a_jukebox_link() {
    let mut s = PostDetailScreen::new(entry("p1")); // no attachments
    assert_eq!(
        s.handle_key(key(KeyCode::Char('o')), true),
        PostDetailIntent::Nothing
    );
}

#[test]
fn o_prefers_the_selected_replys_jukebox_link() {
    let mut e = entry("p1");
    e.attachments = vec![jukebox("https://youtu.be/post")];
    let mut s = PostDetailScreen::new(e);
    let mut r = reply("r1", "p1");
    r.attachments = vec![jukebox("https://youtu.be/reply")];
    s.apply_replies_initial(Ok((vec![r], None)));

    // No selection → opens the post's link.
    assert_eq!(
        s.handle_key(key(KeyCode::Char('o')), true),
        PostDetailIntent::OpenUrl("https://youtu.be/post".into())
    );
    // Select the reply → opens the reply's link instead.
    s.handle_key(key(KeyCode::Char('J')), true);
    assert_eq!(
        s.handle_key(key(KeyCode::Char('o')), true),
        PostDetailIntent::OpenUrl("https://youtu.be/reply".into())
    );
}

#[test]
fn p_plays_the_post_jukebox_track() {
    let mut e = entry("p1");
    e.attachments = vec![jukebox("https://youtu.be/abc")];
    let mut s = PostDetailScreen::new(e);
    match s.handle_key(key(KeyCode::Char('p')), true) {
        PostDetailIntent::PlayJukebox(Some(t)) => {
            assert_eq!(t.url, "https://youtu.be/abc");
            assert_eq!(t.title, "Paranoimia");
        }
        other => panic!("expected PlayJukebox(Some), got {other:?}"),
    }
}

#[test]
fn p_without_a_jukebox_yields_play_none() {
    let mut s = PostDetailScreen::new(entry("p1")); // no attachments
    assert_eq!(
        s.handle_key(key(KeyCode::Char('p')), true),
        PostDetailIntent::PlayJukebox(None)
    );
}

#[test]
fn b_emits_bookmark() {
    let mut s = PostDetailScreen::new(entry("p1"));
    assert_eq!(
        s.handle_key(key(KeyCode::Char('b')), true),
        PostDetailIntent::Bookmark
    );
}

#[test]
fn j_and_k_adjust_scroll_bounded() {
    let mut s = PostDetailScreen::new(entry("p1"));
    s.max_scroll = 100; // normally set by render
    s.handle_key(key(KeyCode::Char('j')), true);
    s.handle_key(key(KeyCode::Char('j')), true);
    assert_eq!(s.scroll, 2);
    s.handle_key(key(KeyCode::Char('k')), true);
    assert_eq!(s.scroll, 1);
    s.handle_key(key(KeyCode::Char('k')), true);
    s.handle_key(key(KeyCode::Char('k')), true);
    assert_eq!(s.scroll, 0);
}

#[test]
fn j_does_not_scroll_past_max() {
    let mut s = PostDetailScreen::new(entry("p1"));
    s.max_scroll = 3;
    for _ in 0..10 {
        s.handle_key(key(KeyCode::Char('j')), true);
    }
    assert_eq!(s.scroll, 3, "scroll must not run past the content");
}

#[test]
fn g_jumps_to_top_and_capital_g_to_bottom() {
    let mut s = PostDetailScreen::new(entry("p1"));
    s.max_scroll = 42;
    s.scroll = 20;
    s.handle_key(key(KeyCode::Char('g')), true);
    assert_eq!(s.scroll, 0);
    s.handle_key(key(KeyCode::Char('G')), true);
    assert_eq!(s.scroll, 42, "G jumps to the bottom of the content");
}

#[test]
fn j_at_bottom_with_more_replies_loads_them() {
    let mut s = PostDetailScreen::new(entry("p1"));
    s.loading_replies = false;
    s.next_replies_cursor = Some("c".into());
    s.max_scroll = 0; // content fits; already at the bottom
    let intent = s.handle_key(key(KeyCode::Char('j')), true);
    assert_eq!(intent, PostDetailIntent::LoadMoreReplies);
    assert!(s.loading_replies);
}

#[test]
fn n_requests_more_only_with_cursor() {
    let mut s = PostDetailScreen::new(entry("p1"));
    s.loading_replies = false;
    assert_eq!(
        s.handle_key(key(KeyCode::Char('n')), true),
        PostDetailIntent::Nothing
    );

    s.next_replies_cursor = Some("c".into());
    assert_eq!(
        s.handle_key(key(KeyCode::Char('n')), true),
        PostDetailIntent::LoadMoreReplies
    );
    assert!(s.loading_replies);
}

#[test]
fn r_resets_and_requests_refresh() {
    let mut s = PostDetailScreen::new(entry("p1"));
    s.replies = vec![reply("r1", "p1")];
    s.next_replies_cursor = Some("c".into());
    s.loading_replies = false;
    assert_eq!(
        s.handle_key(key(KeyCode::Char('r')), true),
        PostDetailIntent::RefreshReplies
    );
    assert!(s.replies.is_empty());
    assert!(s.next_replies_cursor.is_none());
    assert!(s.loading_replies);
}

#[test]
fn apply_replies_initial_populates() {
    let mut s = PostDetailScreen::new(entry("p1"));
    s.apply_replies_initial(Ok((vec![reply("r1", "p1")], Some("cur".into()))));
    assert!(!s.loading_replies);
    assert_eq!(s.replies.len(), 1);
    assert_eq!(s.next_replies_cursor.as_deref(), Some("cur"));
}

#[test]
fn apply_replies_initial_error_sets_error() {
    let mut s = PostDetailScreen::new(entry("p1"));
    s.apply_replies_initial(Err("boom".into()));
    assert_eq!(s.error.as_deref(), Some("boom"));
    assert!(!s.loading_replies);
}

#[test]
fn apply_replies_more_appends() {
    let mut s = PostDetailScreen::new(entry("p1"));
    s.apply_replies_initial(Ok((vec![reply("r1", "p1")], Some("c".into()))));
    s.apply_replies_more(Ok((vec![reply("r2", "p1")], None)));
    assert_eq!(s.replies.len(), 2);
    assert!(s.next_replies_cursor.is_none());
}

#[test]
fn compose_body_includes_separator_when_replies_present() {
    let mut s = PostDetailScreen::new(entry("p1"));
    s.apply_replies_initial(Ok((vec![reply("r1", "p1")], None)));
    let lines = body_mode(&s, Theme::dark(), false).lines;
    // Look for the replies separator marker.
    let body_text: String = lines
        .iter()
        .flat_map(|l| l.spans.iter().map(|sp| sp.content.as_str()))
        .collect::<Vec<_>>()
        .join(" ");
    assert!(body_text.contains("replies"));
    assert!(body_text.contains("@bob"));
}

#[test]
fn e_edits_the_post_when_nothing_is_selected_and_the_reply_when_one_is() {
    let mut e = entry("p1");
    e.title = Some("Headline".into());
    e.is_public = true;
    let mut s = PostDetailScreen::new(e);
    s.apply_replies_initial(Ok((vec![reply("r1", "p1")], None)));

    // No selection → the post, carrying every editable field.
    assert_eq!(
        s.handle_key(key(KeyCode::Char('e')), true),
        PostDetailIntent::EditEntry {
            post_id: "p1".into(),
            content: "hello\nworld".into(),
            title: Some("Headline".into()),
            topics: vec!["music".into()],
            is_public: true,
            is_nsfw: false,
        }
    );

    // Selecting a reply retargets `e`, exactly as it retargets `b`.
    s.handle_key(key(KeyCode::Char('J')), true);
    assert_eq!(
        s.handle_key(key(KeyCode::Char('e')), true),
        PostDetailIntent::EditReply {
            reply_id: "r1".into(),
            content: "reply r1".into(),
        }
    );
}

#[test]
fn e_is_offered_on_a_post_far_past_the_edit_window() {
    // The 5-minute window is the server's to enforce; the client offers the
    // key regardless and lets the 403 speak, the way `d` already does.
    let mut e = entry("p1");
    e.created_at = Some(at(NOW - 3 * 3600));
    let mut s = PostDetailScreen::new(e);
    assert!(matches!(
        s.handle_key(key(KeyCode::Char('e')), true),
        PostDetailIntent::EditEntry { .. }
    ));
}

#[test]
fn f_prompts_for_a_reason_and_enter_files_the_report() {
    let mut s = PostDetailScreen::new(entry("p1"));
    // `F` files nothing on its own, it opens the prompt.
    assert_eq!(
        s.handle_key(key(KeyCode::Char('F')), true),
        PostDetailIntent::Nothing
    );
    assert!(s.is_text_input(), "the prompt owns the keyboard");
    for c in "spam".chars() {
        s.handle_key(key(KeyCode::Char(c)), true);
    }
    s.handle_key(key(KeyCode::Backspace), true);
    assert_eq!(
        s.handle_key(key(KeyCode::Enter), true),
        PostDetailIntent::FlagEntry {
            post_id: "p1".into(),
            reason: Some("spa".into()),
        }
    );
    assert!(!s.is_text_input(), "submitting closes the prompt");
}

#[test]
fn f_reports_the_selected_reply() {
    let mut s = PostDetailScreen::new(entry("p1"));
    s.apply_replies_initial(Ok((vec![reply("r1", "p1"), reply("r2", "p1")], None)));
    s.handle_key(key(KeyCode::Char('J')), true);
    s.handle_key(key(KeyCode::Char('J')), true);
    assert_eq!(s.selected_reply, Some(1));

    s.handle_key(key(KeyCode::Char('F')), true);
    assert_eq!(
        s.handle_key(key(KeyCode::Enter), true),
        PostDetailIntent::FlagReply {
            reply_id: "r2".into(),
            reason: None,
        }
    );
}

#[test]
fn a_blank_reason_files_the_report_without_one() {
    // The reason is optional, so an empty submit is valid and travels as
    // `None` rather than as an empty string.
    let mut s = PostDetailScreen::new(entry("p1"));
    s.handle_key(key(KeyCode::Char('F')), true);
    assert_eq!(
        s.handle_key(key(KeyCode::Enter), true),
        PostDetailIntent::FlagEntry {
            post_id: "p1".into(),
            reason: None,
        }
    );

    // So does a reason that is nothing but spaces.
    s.handle_key(key(KeyCode::Char('F')), true);
    s.handle_key(key(KeyCode::Char(' ')), true);
    s.handle_key(key(KeyCode::Char(' ')), true);
    assert_eq!(
        s.handle_key(key(KeyCode::Enter), true),
        PostDetailIntent::FlagEntry {
            post_id: "p1".into(),
            reason: None,
        }
    );
}

#[test]
fn the_reason_stops_at_the_servers_character_cap() {
    let mut s = PostDetailScreen::new(entry("p1"));
    s.handle_key(key(KeyCode::Char('F')), true);
    for _ in 0..(MAX_FLAG_REASON + 50) {
        s.handle_key(key(KeyCode::Char('x')), true);
    }
    match s.handle_key(key(KeyCode::Enter), true) {
        PostDetailIntent::FlagEntry {
            reason: Some(reason),
            ..
        } => assert_eq!(
            reason.chars().count(),
            MAX_FLAG_REASON,
            "typing stops at the cap instead of building a body the API rejects"
        ),
        other => panic!("expected a reasoned FlagEntry, got {other:?}"),
    }
}

#[test]
fn a_reason_can_be_pasted_and_edited_at_the_caret() {
    // The shared field gives this screen the same editing the feeds have:
    // bracketed paste (newlines collapsed so it cannot submit) and caret
    // keys, not just append-and-backspace.
    let mut s = PostDetailScreen::new(entry("p1"));
    s.paste_text("dropped"); // no prompt open yet
    assert!(!s.is_text_input());

    s.handle_key(key(KeyCode::Char('F')), true);
    s.paste_text("copy\npasted");
    s.handle_key(key(KeyCode::Home), true);
    for c in "why: ".chars() {
        s.handle_key(key(KeyCode::Char(c)), true);
    }
    assert_eq!(
        s.handle_key(key(KeyCode::Enter), true),
        PostDetailIntent::FlagEntry {
            post_id: "p1".into(),
            reason: Some("why: copy pasted".into()),
        }
    );
}

#[test]
fn esc_and_cancel_flag_prompt_both_abandon_the_report() {
    let mut s = PostDetailScreen::new(entry("p1"));

    // Esc reaching the screen closes the prompt and files nothing.
    s.handle_key(key(KeyCode::Char('F')), true);
    assert_eq!(s.handle_key(key(KeyCode::Esc), true), PostDetailIntent::Nothing);
    assert!(!s.is_text_input());

    // The app's Esc hook does the same, and says whether it acted so a
    // second Esc can keep its usual "go back" meaning.
    s.handle_key(key(KeyCode::Char('F')), true);
    assert!(s.cancel_flag_prompt(), "closed the open prompt");
    assert!(!s.cancel_flag_prompt(), "nothing left to close");
    assert!(!s.is_text_input());
}

#[test]
fn keys_typed_into_a_reason_never_reach_the_screens_bindings() {
    // Every bare letter is text while the prompt is open, so selecting,
    // deleting and bookmarking all stay out of the way.
    let mut s = PostDetailScreen::new(entry("p1"));
    s.apply_replies_initial(Ok((vec![reply("r1", "p1")], None)));
    s.handle_key(key(KeyCode::Char('F')), true);
    for c in "Jdyb".chars() {
        assert_eq!(s.handle_key(key(KeyCode::Char(c)), true), PostDetailIntent::Nothing);
    }
    assert_eq!(s.selected_reply, None, "J did not move the selection");
    assert!(!s.confirming_delete, "d did not arm a delete");
    assert_eq!(
        s.handle_key(key(KeyCode::Enter), true),
        PostDetailIntent::FlagEntry {
            post_id: "p1".into(),
            reason: Some("Jdyb".into()),
        }
    );
}

#[test]
fn is_text_input_is_false_until_the_prompt_opens() {
    let mut s = PostDetailScreen::new(entry("p1"));
    assert!(!s.is_text_input(), "browsing captures no text");
    s.handle_key(key(KeyCode::Char('F')), true);
    assert!(s.is_text_input());
}

#[test]
fn the_edited_marker_shows_only_on_edited_items() {
    let mut e = entry("p1");
    let mut edited_reply = reply("r1", "p1");
    edited_reply.edited_at = Some(at(NOW));

    // Nothing edited: no marker anywhere.
    let mut s = PostDetailScreen::new(e.clone());
    s.apply_replies_initial(Ok((vec![reply("r0", "p1")], None)));
    assert!(
        !body_text(&s).iter().any(|l| l.contains("(edited)")),
        "an untouched post and reply say nothing"
    );

    // The entry's own `editedAt` marks its author line.
    e.edited_at = Some(at(NOW));
    let mut s = PostDetailScreen::new(e);
    s.apply_replies_initial(Ok((vec![reply("r0", "p1"), edited_reply], None)));
    let body = body_text(&s);
    assert!(
        body.iter()
            .any(|l| l.starts_with("@alice") && l.contains("(edited)")),
        "the entry header carries the marker: {body:?}"
    );
    // Exactly one of the two replies is marked.
    assert_eq!(
        body.iter()
            .filter(|l| l.starts_with("@bob") && l.contains("(edited)"))
            .count(),
        1,
        "only the edited reply is marked: {body:?}"
    );
}

#[test]
fn apply_entry_edit_applies_only_the_fields_it_carries() {
    let mut e = entry("p1");
    e.title = Some("Keep Me".into());
    e.created_at = Some(at(NOW));
    let created = e.created_at;
    let mut s = PostDetailScreen::new(e);

    s.apply_entry_edit(&EntryEdit {
        content: Some("corrected".into()),
        topics: Some(vec!["rust".into()]),
        is_nsfw: Some(true),
        ..EntryEdit::default()
    }, at(NOW));

    assert_eq!(s.entry.content, "corrected");
    assert_eq!(s.entry.topics, vec!["rust".to_string()]);
    assert!(s.entry.is_nsfw);
    assert_eq!(
        s.entry.title.as_deref(),
        Some("Keep Me"),
        "an omitted field is left alone"
    );
    assert_eq!(s.entry.created_at, created, "createdAt never changes");
    assert!(s.entry.edited_at.is_some(), "the marker appears at once");
    assert!(body_text(&s).iter().any(|l| l.contains("(edited)")));
}

#[test]
fn apply_entry_edit_removes_a_title_and_sets_a_new_one() {
    let mut e = entry("p1");
    e.title = Some("Old".into());
    let mut s = PostDetailScreen::new(e);

    s.apply_entry_edit(&EntryEdit {
        title: Some(TitleEdit::Replace("New".into())),
        ..EntryEdit::default()
    }, at(NOW));
    assert_eq!(s.entry.title.as_deref(), Some("New"));

    s.apply_entry_edit(&EntryEdit {
        title: Some(TitleEdit::Remove),
        ..EntryEdit::default()
    }, at(NOW));
    assert_eq!(s.entry.title, None, "an empty title is a removal");
}

#[test]
fn apply_reply_edit_touches_only_the_matching_reply() {
    let mut s = PostDetailScreen::new(entry("p1"));
    s.apply_replies_initial(Ok((vec![reply("r1", "p1"), reply("r2", "p1")], None)));

    assert!(s.apply_reply_edit("r2", "corrected".into(), at(NOW)));
    assert_eq!(s.replies[1].content, "corrected");
    assert!(s.replies[1].edited_at.is_some());
    assert_eq!(
        s.replies[0].content, "reply r1",
        "the neighbour is untouched"
    );
    assert!(s.replies[0].edited_at.is_none());

    assert!(
        !s.apply_reply_edit("nope", "x".into(), at(NOW)),
        "a reply that isn't on this page reports back as a miss"
    );
}

#[test]
fn the_reason_prompt_renders_its_label_the_typed_text_and_its_keys() {
    let mut s = PostDetailScreen::new(entry("p1"));
    s.handle_key(key(KeyCode::Char('F')), true);
    for c in "bot".chars() {
        s.handle_key(key(KeyCode::Char(c)), true);
    }
    let rows = rendered_rows(&mut s, 80, 12);
    assert!(
        rows.iter().any(|r| r.contains("reason (optional): bot")),
        "the field shows the label and what was typed: {rows:?}"
    );
    assert!(
        rows.iter()
            .any(|r| r.contains("report this post") && r.contains("enter send")),
        "the status line names the target and the keys: {rows:?}"
    );
    assert!(
        rows.iter().any(|r| r.contains("3/500")),
        "and how much of the reason budget is spent: {rows:?}"
    );
}

#[test]
fn the_status_line_notes_a_closed_edit_window_but_still_offers_the_key() {
    // Fresh post: the plain hint.
    let mut e = entry("p1");
    e.created_at = Some(at(NOW));
    let rows = rendered_rows(&mut settled(e), 200, 10);
    let status = rows.join("\n");
    assert!(status.contains("e edit"), "the key is offered: {status:?}");
    assert!(!status.contains("5m passed"), "no note yet: {status:?}");
    assert!(status.contains("F flag"), "so is flagging: {status:?}");

    // Old post: the hint says the window has passed, and still offers `e`.
    let mut e = entry("p1");
    e.created_at = Some(at(NOW - 1 * 3600));
    let rows = rendered_rows(&mut settled(e), 200, 10);
    let status = rows.join("\n");
    assert!(
        status.contains("e edit (5m passed)"),
        "a soft hint, not a removal: {status:?}"
    );

    // Unknown publish time: fail open, no discouraging note.
    let rows = rendered_rows(&mut settled(entry("p1")), 200, 10);
    let status = rows.join("\n");
    assert!(status.contains("e edit"));
    assert!(
        !status.contains("5m passed"),
        "a timestamp we never received can't close the window: {status:?}"
    );
}

#[test]
fn within_edit_window_fails_open_and_expires_on_a_known_timestamp() {
    assert!(
        within_edit_window(None, at(NOW)),
        "no timestamp means the server decides"
    );
    assert!(within_edit_window(Some(at(NOW)), at(NOW)));
    assert!(within_edit_window(Some(at(NOW - 299)), at(NOW)));
    assert!(!within_edit_window(Some(at(NOW - 301)), at(NOW)));
}

#[test]
fn d_asks_before_the_post_is_deleted() {
    let mut s = PostDetailScreen::new(entry("p1"));
    assert_eq!(s.handle_key(key(KeyCode::Char('d')), true), PostDetailIntent::Nothing);
    assert!(s.confirming_delete);
    assert_eq!(
        s.handle_key(key(KeyCode::Char('y')), true),
        PostDetailIntent::DeleteEntryConfirmed
    );
    // Where the question is switched off, one key does it.
    assert_eq!(
        s.handle_key(key(KeyCode::Char('d')), false),
        PostDetailIntent::DeleteEntryConfirmed
    );
}

#[test]
fn a_picture_is_prepared_once_for_each_size() {
    let mut s = PostDetailScreen::new(entry("p1"));
    assert_eq!(s.encoding_for("u", None, (38, 6)), Encoding::Missing);
    assert!(s.decode_image("u").is_none());
    s.cache_image_bytes("u".into(), tiny_png());
    assert_eq!(s.encoding_for("u", None, (38, 6)), Encoding::Build);
    assert_eq!(s.encoding_for("u", Some((38, 6)), (38, 6)), Encoding::Ready);
    assert_eq!(s.encoding_for("u", Some((38, 6)), (38, 7)), Encoding::Build);
    let picture = s.decode_image("u").unwrap().unwrap();
    assert_eq!((picture.width(), picture.height()), (2, 2));
    s.cache_image_bytes("u".into(), vec![1, 2, 3]);
    assert!(s.decode_image("u").unwrap().is_err());
}

#[test]
fn the_edit_window_closes_on_the_second() {
    assert!(within_edit_window(Some(at(NOW - EDIT_WINDOW_SECS)), at(NOW)));
    assert!(!within_edit_window(Some(at(NOW - EDIT_WINDOW_SECS - 1)), at(NOW)));
}

#[test]
fn the_edit_window_closes_on_the_next_whole_second() {
    let created = Moment { nanos: 500_000_000, ..at(NOW) };
    let last = Moment { nanos: 499_999_999, ..at(NOW + EDIT_WINDOW_SECS + 1) };
    assert!(within_edit_window(Some(created), last));
    assert!(!within_edit_window(Some(created), Moment { nanos: 500_000_000, ..last }));
    // The clock it was told by does not matter.
    assert!(within_edit_window(Some(Moment { offset: 3600, ..created }), last));
}

#[test]
fn stamps_stand_beside_their_authors() {
    let mut e = entry("p1");
    e.created_at = Some(at(NOW));
    let mut r = reply("r1", "p1");
    r.created_at = Some(at(NOW));
    let mut s = PostDetailScreen::new(e);
    s.apply_replies_initial(Ok((vec![r], None)));
    let style = BodyStyle {
        theme: Theme::cyber(),
        selection: SelectionStyle::Bar,
        inline_images: false,
        img_rows: 0,
    };
    let body = s.compose_body(&vec!["noon".into(), "dusk".into()], style);
    let text: Vec<String> = body.lines.iter().map(|l| l.text()).collect();
    assert!(text[0].contains("noon"), "{text:?}");
    assert!(text[body.reply_starts[0]].contains("dusk"), "{text:?}");
}

#[test]
fn selecting_a_reply_scrolls_to_it() {
    let replies: Vec<Reply> = (0..30).map(|i| reply(&format!("r{i}"), "p1")).collect();
    let mut s = PostDetailScreen::new(entry("p1"));
    s.apply_replies_initial(Ok((replies, None)));
    frame(&mut s, 40, 12, false, false);
    for _ in 0..10 {
        s.handle_key(key(KeyCode::Char('J')), true);
    }
    assert_eq!(s.scroll, s.reply_anchors[9]);
}
