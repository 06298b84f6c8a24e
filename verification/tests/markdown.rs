//! Markdown as styled lines.
use cs_tui::draw::Line;
use cs_tui::markdown::{
    content_preview, image_placeholder, link_suffix_redundant, preview_events, render_events,
    render_markdown, render_markdown_collect, render_markdown_with, ImageUrls, MdEvent,
};
use cs_tui::theme::Theme;

fn flat_text(lines: &[Line]) -> String {
    lines
        .iter()
        .map(|l| l.text())
        .collect::<Vec<_>>()
        .join("\n")
}

#[test]
fn plain_text_renders_verbatim() {
    let lines = render_markdown("hello world", &Theme::dark());
    let text = flat_text(&lines);
    assert!(text.contains("hello world"));
}

#[test]
fn heading_gets_prefix() {
    let lines = render_markdown("## title", &Theme::dark());
    let text = flat_text(&lines);
    assert!(text.contains("## title"));
}

#[test]
fn bold_runs_apply_bold_modifier() {
    let lines = render_markdown("hello **world**", &Theme::dark());
    let has_bold = lines.iter().any(|l| {
        l.spans.iter().any(|s| {
            s.style.bold && s.content.contains("world")
        })
    });
    assert!(has_bold);
}

#[test]
fn italic_runs_apply_italic_modifier() {
    let lines = render_markdown("hello *world*", &Theme::dark());
    let has_italic = lines.iter().any(|l| {
        l.spans.iter().any(|s| {
            s.style.italic && s.content.contains("world")
        })
    });
    assert!(has_italic);
}

#[test]
fn code_span_renders_with_backticks() {
    let lines = render_markdown("see `foo` here", &Theme::dark());
    let text = flat_text(&lines);
    assert!(text.contains("`foo`"));
}

#[test]
fn unordered_list_renders_bullets() {
    let lines = render_markdown("- a\n- b\n- c", &Theme::dark());
    let text = flat_text(&lines);
    assert!(text.contains("• a"));
    assert!(text.contains("• b"));
    assert!(text.contains("• c"));
}

#[test]
fn blockquote_prefix_appears() {
    let lines = render_markdown("> quoted text", &Theme::dark());
    let text = flat_text(&lines);
    assert!(text.contains("│ quoted text"));
}

#[test]
fn at_mention_is_highlighted() {
    let lines = render_markdown("hi @alice and @bob_42", &Theme::dark());
    let mentions: Vec<&str> = lines
        .iter()
        .flat_map(|l| l.spans.iter())
        .filter(|s| s.content.starts_with('@'))
        .map(|s| s.content.as_str())
        .collect();
    assert!(mentions.contains(&"@alice"));
    assert!(mentions.contains(&"@bob_42"));
}

#[test]
fn lone_at_sign_is_not_a_mention() {
    let lines = render_markdown("email me at me", &Theme::dark());
    let mentions = lines
        .iter()
        .flat_map(|l| l.spans.iter())
        .filter(|s| s.content.starts_with('@') && s.style.bold)
        .count();
    assert_eq!(mentions, 0);
}

#[test]
fn horizontal_rule_renders_dashes() {
    let lines = render_markdown("above\n\n---\n\nbelow", &Theme::dark());
    let text = flat_text(&lines);
    assert!(text.contains("───"));
}

#[test]
fn image_placeholder_carries_alt_text_and_url_when_shown() {
    // Default (Show): the alt rides the tag and the URL is surfaced so the
    // terminal can make it clickable (replies/journal, which draw no graphics).
    let lines = render_markdown("![a cat](https://x/cat.png)", &Theme::dark());
    let text = flat_text(&lines);
    assert!(
        text.contains("[image: a cat]"),
        "alt is in the tag: {text:?}"
    );
    assert!(
        text.contains("https://x/cat.png"),
        "url is surfaced as text: {text:?}"
    );
}

#[test]
fn image_url_is_hidden_when_image_is_drawn_as_graphics() {
    // The post body draws the image itself, so the long URL is suppressed.
    let lines = render_markdown_with(
        "![a cat](https://x/cat.png)",
        &Theme::dark(),
        ImageUrls::Hide,
    );
    let text = flat_text(&lines);
    assert!(
        text.contains("[image: a cat]"),
        "alt is in the tag: {text:?}"
    );
    assert!(
        !text.contains("https://x/cat.png"),
        "url not inlined: {text:?}"
    );
}

#[test]
fn collect_reports_surfaced_link_url_position() {
    let (lines, links) = render_markdown_collect(
        "see [the site](https://x.example/page)",
        &Theme::dark(),
        ImageUrls::Show,
    );
    assert_eq!(links.len(), 1, "one link recorded: {links:?}");
    let lr = &links[0];
    assert_eq!(lr.url, "https://x.example/page");
    assert_eq!(lr.col, 2, "URL starts past the 2-space indent");
    // The recorded line index points at the bare-URL line.
    let line_text: String = lines[lr.line]
        .spans
        .iter()
        .map(|s| s.content.as_str())
        .collect();
    assert_eq!(line_text.trim(), "https://x.example/page");
    // The recorded column is exactly where the URL glyphs begin on that line.
    assert_eq!(&line_text[lr.col as usize..], "https://x.example/page");
}

#[test]
fn collect_reports_no_links_for_plain_text() {
    let (_lines, links) =
        render_markdown_collect("just words, no links", &Theme::dark(), ImageUrls::Show);
    assert!(links.is_empty(), "no links recorded: {links:?}");
}

#[test]
fn collect_records_image_url_position_when_shown() {
    // Graphics-off contexts surface the image URL as text; it gets a LinkRef
    // too, so the row can be made clickable.
    let (_lines, links) = render_markdown_collect(
        "![a cat](https://x/cat.png)",
        &Theme::dark(),
        ImageUrls::Show,
    );
    assert_eq!(links.len(), 1);
    assert_eq!(links[0].url, "https://x/cat.png");
}

#[test]
fn image_without_alt_is_a_plain_tag() {
    let lines = render_markdown_with("![](https://x/cat.png)", &Theme::dark(), ImageUrls::Hide);
    let text = flat_text(&lines);
    assert!(
        text.contains("[image]"),
        "no-alt image is a plain tag: {text:?}"
    );
    assert!(!text.contains("[image:"), "no empty alt suffix");
}

#[test]
fn link_surfaces_its_url_on_its_own_line() {
    let lines = render_markdown("see [the site](https://x.example/page)", &Theme::dark());
    let text = flat_text(&lines);
    assert!(text.contains("the site"), "link text shown: {text:?}");
    // The URL is surfaced bare (no parens) on its own line below the text, so
    // it can't wrap mid-string and the terminal can linkify the whole thing.
    assert!(
        text.lines().any(|l| l.trim() == "https://x.example/page"),
        "url is alone on its own line: {text:?}"
    );
    assert!(
        !text.contains("(https://x.example/page)"),
        "url is not parenthesised inline: {text:?}"
    );
}

#[test]
fn autolink_does_not_duplicate_the_url() {
    // The visible text already IS the URL — don't render `url (url)`.
    let lines = render_markdown("<https://x.example/page>", &Theme::dark());
    let text = flat_text(&lines);
    assert!(
        text.contains("https://x.example/page"),
        "url shown: {text:?}"
    );
    assert_eq!(
        text.matches("https://x.example/page").count(),
        1,
        "url appears exactly once: {text:?}"
    );
}

#[test]
fn email_autolink_does_not_duplicate_with_mailto() {
    // `<a@b>` => visible text "a@b", dest_url "mailto:a@b" — the suffix would
    // read `a@b (mailto:a@b)`; the mailto-aware dedup suppresses it.
    let lines = render_markdown("<user@example.com>", &Theme::dark());
    let text = flat_text(&lines);
    assert!(text.contains("user@example.com"), "address shown: {text:?}");
    assert!(
        !text.contains("mailto:"),
        "no redundant mailto suffix: {text:?}"
    );
}

#[test]
fn link_with_inline_code_matching_url_is_not_duplicated() {
    // `[`url`](url)`: the code content IS the URL, so the visible text already
    // conveys it — the suffix must be suppressed (code is accumulated to the
    // dedup string).
    let lines = render_markdown(
        "[`https://x.example/p`](https://x.example/p)",
        &Theme::dark(),
    );
    let text = flat_text(&lines);
    assert_eq!(
        text.matches("https://x.example/p").count(),
        1,
        "code-as-url link not duplicated: {text:?}"
    );
}

#[test]
fn link_with_inline_code_and_distinct_url_still_surfaces_url() {
    // Mixed link text including code, distinct from the URL — surface the URL.
    let lines = render_markdown("[run `cmd` now](https://x.example/p)", &Theme::dark());
    let text = flat_text(&lines);
    assert!(text.contains("run "), "text shown: {text:?}");
    assert!(text.contains("`cmd`"), "code shown: {text:?}");
    assert!(
        text.lines().any(|l| l.trim() == "https://x.example/p"),
        "distinct url surfaced on its own line: {text:?}"
    );
}

#[test]
fn content_preview_drops_images_and_collapses_whitespace() {
    let p = content_preview("![alt](https://x/a.png)\n\nThe knight took her hand.", 200);
    assert_eq!(p, "The knight took her hand.");
}

#[test]
fn content_preview_is_empty_for_image_only_post() {
    assert_eq!(content_preview("![alt](https://x/a.png)", 200), "");
}

#[test]
fn content_preview_truncates() {
    let p = content_preview(&"x ".repeat(200), 10);
    assert!(p.chars().count() <= 10);
    assert!(p.ends_with('…'));
}

#[test]
fn empty_input_yields_empty_output() {
    let lines = render_markdown("", &Theme::dark());
    assert!(lines.is_empty() || lines.iter().all(|l| l.spans.is_empty()));
}

#[test]
fn multiparagraph_keeps_separation() {
    let lines = render_markdown("first para\n\nsecond para", &Theme::dark());
    let text = flat_text(&lines);
    assert!(text.contains("first para"));
    assert!(text.contains("second para"));
}

#[test]
fn styles_end_where_their_runs_end() {
    let lines = render_markdown("**bold** plain", &Theme::dark());
    let plain: Vec<_> = lines[0].spans.iter().filter(|s| s.content.contains("plain")).collect();
    assert_eq!(plain.len(), 1);
    assert!(!plain[0].style.bold);
}

#[test]
fn nested_lists_are_indented() {
    let text = flat_text(&render_markdown("- a\n  - b", &Theme::dark()));
    let indent = |part: &str| {
        let line = text.lines().find(|l| l.contains(part)).unwrap();
        line.chars().take_while(|c| *c == ' ').count()
    };
    assert!(indent("• b") > indent("• a"), "{text}");
}

#[test]
fn events_alone_decide_what_is_shown() {
    let events = vec![MdEvent::Text("hi".into()), MdEvent::Break, MdEvent::Code("x".into())];
    let (lines, links) = render_events(&events, &Theme::dark(), ImageUrls::Show);
    assert_eq!(flat_text(&lines), "hi\n`x`");
    assert!(links.is_empty());
    assert_eq!(preview_events(&events, 20), "hi x");
}

#[test]
fn placeholders_and_suffixes() {
    assert_eq!(image_placeholder(""), "[image]");
    assert_eq!(image_placeholder(" a cat "), "[image: a cat]");
    assert!(link_suffix_redundant("https://a.b", "https://a.b"));
    assert!(link_suffix_redundant("me@a.b", "mailto:me@a.b"));
    assert!(!link_suffix_redundant("site", "https://a.b"));
}

#[test]
fn links_name_the_column_where_their_urls_start() {
    let src = "> [a](https://one.example)\n\ntext\n\n[b](https://two.example) and [c](https://three.example)";
    let (lines, links) = render_markdown_collect(src, &Theme::dark(), ImageUrls::Show);
    assert_eq!(links.len(), 3);
    assert_eq!((links[0].col, links[1].col, links[2].col), (4, 2, 2));
    assert!(links[0].line < links[1].line && links[1].line < links[2].line);
    for l in &links {
        let rest: String = lines[l.line].text().chars().skip(l.col as usize).collect();
        assert_eq!(rest, l.url);
    }
}
