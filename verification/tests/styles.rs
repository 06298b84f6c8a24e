//! Message styles.
use cs_tui::draw::Span;
use cs_tui::styles::{
    anim_tick, corrupt_one, corrupt_spans, glitch_hit, is_monochrome, mask, styled_spans_at,
    to_script, wave_crest, MessageStyle, TextStyles, ABOVE, BELOW, RAINBOW, SPOILER_GLYPH,
    THROUGH,
};
use cs_tui::theme::{Color, ColorMode, Style, Theme, ThemeKind};
use unicode_width::UnicodeWidthChar;

fn one(name: &str) -> Option<MessageStyle> {
    Some(MessageStyle::One(name.to_string()))
}

fn many(names: &[&str]) -> Option<MessageStyle> {
    Some(MessageStyle::Many(
        names.iter().map(|s| (*s).to_string()).collect(),
    ))
}

fn text_of(spans: &[Span]) -> String {
    spans.iter().map(|s| s.content.as_str()).collect()
}

/// Whether `c` is one of the marks that hang off a corrupted glyph.
fn is_combining(c: char) -> bool {
    ('\u{0300}'..='\u{036f}').contains(&c)
}

#[test]
fn only_blink_wave_and_glitch_animate() {
    for (name, want) in [
        ("blink", true),
        ("wave", true),
        ("glitch", true),
        ("slow", false),
        ("rainbow", false),
        ("quiet", false),
        ("l33t", false),
    ] {
        let st = TextStyles::from_message(one(name).as_ref());
        assert_eq!(st.animates(), want, "{name}");
    }
}

#[test]
fn wave_and_glitch_are_different_kinds_of_effect() {
    let theme = Theme::default();
    let text = "the quick brown fox jumps";
    let wave = TextStyles::from_message(one("wave").as_ref());
    let glitch = TextStyles::from_message(one("glitch").as_ref());

    let wave_spans = styled_spans_at(text, wave, false, theme.base(), &theme, Some(0));
    assert_eq!(text_of(&wave_spans), text, "a wave does not touch the text");
    assert!(
        wave_spans
            .iter()
            .any(|s| s.style.bold),
        "it moves a bright crest through the row instead",
    );

    // Corruption is a later pass, over already-styled spans; see
    // `corrupt_spans` for why it has to be last.
    let plain = styled_spans_at(text, glitch, false, theme.base(), &theme, Some(0));
    let corrupted = corrupt_spans(plain, 0);
    assert_ne!(
        text_of(&corrupted),
        text,
        "a glitch corrupts the glyphs themselves",
    );
    assert!(
        !corrupted
            .iter()
            .any(|s| s.style.reversed),
        "and does not fall back to inverting the row, which is the static \
         stand-in and is what made the two look alike",
    );
}

#[test]
fn corruption_never_costs_a_column() {
    // The property that makes this safe to do at all: combining marks are
    // zero-width, so a corrupted row occupies exactly the columns the layout
    // budgeted and nothing reflows.
    let theme = Theme::default();
    let text = "the quick brown fox";
    let glitch = TextStyles::from_message(one("glitch").as_ref());
    let width = |s: &str| -> usize {
        s.chars()
            .map(|c| UnicodeWidthChar::width(c).unwrap_or(0))
            .sum()
    };
    for frame in 0..24 {
        let spans = styled_spans_at(text, glitch, false, theme.base(), &theme, Some(frame));
        let out = text_of(&corrupt_spans(spans, frame));
        assert_eq!(width(&out), width(text), "frame {frame} changed the width");
    }
}

#[test]
fn a_glyph_never_takes_two_marks_from_the_same_set() {
    let theme = Theme::default();
    let text = "corruption spreads through the whole of the signal";
    let glitch = TextStyles::from_message(one("glitch").as_ref());
    let mut seen_stacked = false;
    for frame in 0..64 {
        let spans = styled_spans_at(text, glitch, false, theme.base(), &theme, Some(frame));
        let out = text_of(&corrupt_spans(spans, frame));
        let mut run: Vec<char> = Vec::new();
        let flush = |run: &Vec<char>, seen: &mut bool| {
            for set in [&ABOVE[..], &BELOW[..], &THROUGH[..]] {
                let n = run.iter().filter(|c| set.contains(c)).count();
                assert!(n <= 1, "frame {frame} stacked {n} from one set: {out:?}");
            }
            if run.len() > 1 {
                *seen = true;
            }
        };
        for c in out.chars() {
            if is_combining(c) {
                run.push(c);
            } else {
                flush(&run, &mut seen_stacked);
                run.clear();
            }
        }
        flush(&run, &mut seen_stacked);
    }
    assert!(
        seen_stacked,
        "and the weights should still produce stacked marks, or the sets \
         are pointless",
    );
}

#[test]
fn a_corrupted_glyph_always_shows_it() {
    // A hit whose rolls all came up empty would render identically to a
    // miss, quietly thinning the effect below the rate `glitch_hit` sets.
    for at in 0..512usize {
        for frame in 0..8usize {
            if !glitch_hit(at, frame) {
                continue;
            }
            let mut out = String::new();
            corrupt_one(&mut out, at, frame);
            assert!(!out.is_empty(), "hit at {at} frame {frame} drew nothing");
        }
    }
}

#[test]
fn even_a_two_letter_message_glitches_every_frame() {
    // At one hit in five, a short row renders clean most frames and the
    // effect reads as a twitch. Every frame corrupts at least one
    // character, whatever the length.
    let theme = Theme::default();
    let glitch = TextStyles::from_message(one("glitch").as_ref());
    for text in ["h", "hi", "hey", "ok then", "a much longer line of prose"] {
        for frame in 0..64 {
            let spans = styled_spans_at(text, glitch, false, theme.base(), &theme, Some(frame));
            let out = text_of(&corrupt_spans(spans, frame));
            assert!(
                out.chars().any(is_combining),
                "{text:?} frame {frame} rendered clean",
            );
        }
    }
}

#[test]
fn a_row_with_nothing_to_corrupt_is_left_alone() {
    // `blink` blanks a row to spaces on its off frames, and a glitched
    // blinking message hands that row straight to this. Forcing a hit would
    // have to pick a character, and there is none.
    let theme = Theme::default();
    let glitch = TextStyles::from_message(one("glitch").as_ref());
    for text in ["", "   "] {
        let spans = styled_spans_at(text, glitch, false, theme.base(), &theme, Some(3));
        let out = text_of(&corrupt_spans(spans, 3));
        assert_eq!(out, text, "{text:?} should come back untouched");
    }
}

#[test]
fn corruption_leaves_whitespace_alone() {
    // A mark floating in the gap between words reads as a rendering fault
    // rather than as corruption.
    let theme = Theme::default();
    let glitch = TextStyles::from_message(one("glitch").as_ref());
    for frame in 0..24 {
        let spans = styled_spans_at(
            "a b c d e f g h",
            glitch,
            false,
            theme.base(),
            &theme,
            Some(frame),
        );
        let out = text_of(&corrupt_spans(spans, frame));
        let mut chars = out.chars().peekable();
        while let Some(c) = chars.next() {
            if c == ' ' {
                if let Some(&next) = chars.peek() {
                    assert!(
                        !is_combining(next),
                        "frame {frame} decorated a space: {out:?}",
                    );
                }
            }
        }
    }
}

#[test]
fn the_wave_crest_actually_travels() {
    // A crest that sat still would just be a highlight.
    let seen: std::collections::HashSet<Vec<bool>> = (0..8)
        .map(|f| (0..12).map(|i| wave_crest(i, f)).collect())
        .collect();
    assert!(
        seen.len() > 2,
        "the crest occupies different cells over time"
    );
}

#[test]
fn a_wave_never_touches_the_text() {
    let theme = Theme::default();
    // Wave only: `glitch` deliberately adds zero-width marks, in a later
    // pass that runs after everything which indexes the row.
    let styles = TextStyles::from_message(one("wave").as_ref());
    let hostile = "hey @neo \u{df}\u{130}\u{131} stra\u{df}e caf\u{e9}";
    for frame in 0..24 {
        let rendered = text_of(&styled_spans_at(
            hostile,
            styles,
            false,
            theme.base(),
            &theme,
            Some(frame),
        ));
        assert_eq!(rendered, hostile, "frame {frame} rewrote the text");
    }
}

#[test]
fn a_frame_never_changes_how_wide_a_row_is() {
    // The property that lets the pane animate without reflowing: the
    // animation only flips case and visibility, so every frame occupies
    // exactly the columns the layout was computed for.
    let theme = Theme::default();
    let styles = TextStyles::from_message(many(&["wave", "glitch", "blink"]).as_ref());
    let text = "Hello there, World";
    let base_width: usize = text.chars().map(|c| c.width().unwrap_or(0)).sum();
    for frame in 0..24 {
        let spans = styled_spans_at(text, styles, false, theme.base(), &theme, Some(frame));
        let rendered: String = spans.iter().map(|s| s.content.as_str()).collect();
        let w: usize = rendered.chars().map(|c| c.width().unwrap_or(0)).sum();
        assert_eq!(w, base_width, "frame {frame} changed the row width");
    }
}

#[test]
fn blink_alternates_between_showing_and_hiding() {
    let theme = Theme::default();
    let styles = TextStyles::from_message(one("blink").as_ref());
    let shown: Vec<bool> = (0..16)
        .map(|f| {
            let spans = styled_spans_at("hi", styles, false, theme.base(), &theme, Some(f));
            text_of(&spans).trim().is_empty()
        })
        .collect();
    assert!(
        shown.iter().any(|b| *b) && shown.iter().any(|b| !*b),
        "blink must actually alternate: {shown:?}",
    );
}

#[test]
fn the_same_frame_always_renders_identically() {
    // Glitch is deterministic per (position, frame), so a redraw for some
    // other reason does not reshuffle the message under the reader.
    let theme = Theme::default();
    let styles = TextStyles::from_message(one("glitch").as_ref());
    let once = text_of(&styled_spans_at(
        "steady",
        styles,
        false,
        theme.base(),
        &theme,
        Some(7),
    ));
    let twice = text_of(&styled_spans_at(
        "steady",
        styles,
        false,
        theme.base(),
        &theme,
        Some(7),
    ));
    assert_eq!(once, twice);
}

#[test]
fn without_a_frame_the_static_approximation_is_unchanged() {
    // What `animate_styles = false` keeps, and what a client that never
    // animates has always shown.
    let theme = Theme::default();
    let styles = TextStyles::from_message(many(&["wave", "glitch"]).as_ref());
    let spans = styled_spans_at("Hello", styles, false, theme.base(), &theme, None);
    assert_eq!(text_of(&spans), "Hello", "the text is untouched");
}

#[test]
fn a_single_style_name_decodes() {
    let styles = TextStyles::from_message(one("rainbow").as_ref());
    assert_eq!(
        styles,
        TextStyles {
            rainbow: true,
            ..TextStyles::default()
        },
    );
}

#[test]
fn names_are_matched_case_insensitively() {
    assert!(TextStyles::from_message(one("RAINBOW").as_ref()).rainbow);
    assert!(TextStyles::from_message(one(" Quiet ").as_ref()).quiet);
}

#[test]
fn a_chain_decodes_from_an_array_and_from_a_plus_joined_name() {
    let from_array = TextStyles::from_message(many(&["quiet", "rainbow"]).as_ref());
    assert!(from_array.rainbow && from_array.quiet);

    let from_literal = TextStyles::from_message(one("quiet+rainbow").as_ref());
    assert_eq!(from_literal, from_array);
}

#[test]
fn every_rendered_style_in_the_spec_table_decodes() {
    for name in [
        "blink", "rainbow", "quiet", "slow", "glitch", "spoiler", "wave", "art",
    ] {
        let styles = TextStyles::from_message(one(name).as_ref());
        assert_ne!(
            styles,
            TextStyles::default(),
            "{name} should set at least one flag",
        );
    }
}

#[test]
fn no_style_the_font_names_and_unknown_names_all_decode_to_nothing() {
    assert_eq!(TextStyles::from_message(None), TextStyles::default());
    for name in ["comic", "times", "sparkle"] {
        assert_eq!(
            TextStyles::from_message(one(name).as_ref()),
            TextStyles::default(),
            "{name} should render as plain text",
        );
    }
}

#[test]
fn an_unreadable_style_shape_is_plain() {
    // MessageStyle::Other is the catch-all for a `style` field whose JSON
    // shape this client cannot read. It must never reach the reader.
    let other = MessageStyle::Other;
    let styles = TextStyles::from_message(Some(&other));
    assert_eq!(styles, TextStyles::default());

    let theme = Theme::cyber();
    let spans = styled_spans_at("hello", styles, false, theme.base(), &theme, None);
    assert_eq!(text_of(&spans), "hello");
}

#[test]
fn an_unknown_style_name_never_leaks_into_the_output() {
    let theme = Theme::cyber();
    let styles = TextStyles::from_message(one("hologram").as_ref());
    let spans = styled_spans_at("hi there", styles, false, theme.base(), &theme, None);
    let text = text_of(&spans);
    assert_eq!(text, "hi there");
    assert!(!text.contains("hologram"), "the style name must not print");
}

#[test]
fn l33t_substitutes_both_cases_and_leaves_the_rest() {
    let styles = TextStyles::from_message(one("l33t").as_ref());
    assert!(styles.l33t && styles.substitutes());
    assert_eq!(styles.transform("Ates oi"), "4735 01");
    // Punctuation, digits and non-ASCII are not in the table.
    assert_eq!(styles.transform("!? 9 \u{e9}"), "!? 9 \u{e9}");
}

#[test]
fn flip_lowercases_reverses_and_maps() {
    let styles = TextStyles::from_message(one("flip").as_ref());
    assert!(styles.flip);
    // "Hi" -> lowercase "hi" -> map to "\u{265}\u{1d09}" -> reverse.
    assert_eq!(styles.transform("Hi"), "\u{1d09}\u{265}");
    // The self-mapping letters still reverse.
    assert_eq!(styles.transform("sox"), "xos");
}

#[test]
fn cursive_maps_ascii_letters_and_aliases_the_block_holes() {
    let styles = TextStyles::from_message(one("cursive").as_ref());
    assert!(styles.cursive);
    // 'A' is the base of the block; 'a' is the lowercase base.
    assert_eq!(styles.transform("Aa"), "\u{1d49c}\u{1d4b6}");
    // Every hole aliases into Letterlike Symbols, not an unassigned point.
    assert_eq!(
        styles.transform("BEFHILMRego"),
        "\u{212c}\u{2130}\u{2131}\u{210b}\u{2110}\u{2112}\u{2133}\u{211b}\u{212f}\u{210a}\u{2134}"
    );
    // Non-letters pass through.
    assert_eq!(styles.transform("a1!"), "\u{1d4b6}1!");
}

#[test]
fn every_script_substitution_lands_on_an_assigned_code_point() {
    let styles = TextStyles::from_message(one("cursive").as_ref());
    let alphabet: String = ('A'..='Z').chain('a'..='z').collect();
    for c in styles.transform(&alphabet).chars() {
        // The unassigned holes in the Mathematical Script block. Landing on
        // one of these means `to_script` did base+offset where it should
        // have aliased, which renders as tofu rather than a letter.
        let cp = u32::from(c);
        assert!(
            !matches!(
                cp,
                0x1D49D
                    | 0x1D4A0
                    | 0x1D4A1
                    | 0x1D4A3
                    | 0x1D4A4
                    | 0x1D4A7
                    | 0x1D4A8
                    | 0x1D4AD
                    | 0x1D4BA
                    | 0x1D4BC
                    | 0x1D4C4
            ),
            "U+{cp:04X} is an unassigned hole in Mathematical Script"
        );
    }
}

#[test]
fn the_ornamental_two_and_unknown_names_never_substitute() {
    for name in ["comic", "times", "banana"] {
        let styles = TextStyles::from_message(one(name).as_ref());
        assert!(
            !styles.substitutes(),
            "{name} must not rewrite the text: it has no terminal equivalent"
        );
        assert_eq!(styles.transform("hello"), "hello");
    }
}

#[test]
fn a_message_with_no_substitution_style_borrows_rather_than_copies() {
    let styles = TextStyles::from_message(one("rainbow").as_ref());
    assert!(matches!(
        styles.transform("hello"),
        std::borrow::Cow::Borrowed(_)
    ));
}

#[test]
fn substitutions_chain_in_a_fixed_order() {
    let styles = TextStyles::from_message(many(&["l33t", "flip"]).as_ref());
    assert!(styles.l33t && styles.flip);
    // l33t first ("test" -> "7357"), then flip reverses. The digits have no
    // flip mapping, so they survive as themselves, reversed.
    assert_eq!(styles.transform("test"), "7537");
}

#[test]
fn quiet_dims_the_row() {
    let theme = Theme::cyber();
    let styles = TextStyles::from_message(one("quiet").as_ref());
    let spans = styled_spans_at("psst", styles, false, theme.base(), &theme, None);
    assert_eq!(spans.len(), 1);
    assert!(spans[0].style.dim);
}

#[test]
fn the_static_styles_each_pick_up_their_decoration() {
    let theme = Theme::cyber();
    let bold: fn(&Style) -> bool = |s| s.bold;
    let italic: fn(&Style) -> bool = |s| s.italic;
    let dim: fn(&Style) -> bool = |s| s.dim;
    let reversed: fn(&Style) -> bool = |s| s.reversed;
    for (name, modifier) in [
        ("blink", bold),
        ("wave", italic),
        ("slow", dim),
        ("glitch", reversed),
    ] {
        let styles = TextStyles::from_message(one(name).as_ref());
        let spans = styled_spans_at("x", styles, false, theme.base(), &theme, None);
        assert!(
            modifier(&spans[0].style),
            "{name} should render with its own modifier",
        );
    }
}

#[test]
fn chained_styles_combine_their_decorations() {
    let theme = Theme::cyber();
    let styles = TextStyles::from_message(many(&["quiet", "wave"]).as_ref());
    let spans = styled_spans_at("both", styles, false, theme.base(), &theme, None);
    assert!(spans[0].style.dim);
    assert!(spans[0].style.italic);
}

#[test]
fn rainbow_colors_each_character_in_turn() {
    let theme = Theme::cyber();
    let styles = TextStyles::from_message(one("rainbow").as_ref());
    let spans = styled_spans_at("abcdefg", styles, false, theme.base(), &theme, None);
    assert_eq!(spans.len(), 7, "one span per character");
    assert_eq!(text_of(&spans), "abcdefg", "the text is untouched");
    assert_eq!(spans[0].style.fg, Some(RAINBOW[0]));
    assert_eq!(spans[1].style.fg, Some(RAINBOW[1]));
    assert_eq!(spans[6].style.fg, Some(RAINBOW[0]), "the cycle wraps");
}

#[test]
fn rainbow_uses_hues_that_read_on_light_and_dark_terminals() {
    // The normal ANSI hues, not the bright ones: a bright yellow vanishes on
    // the cream `paper` palette.
    for color in RAINBOW {
        assert!(
            !matches!(
                color,
                Color::LightRed
                    | Color::LightYellow
                    | Color::LightGreen
                    | Color::LightCyan
                    | Color::LightBlue
                    | Color::LightMagenta
            ),
            "{color:?} is a bright variant",
        );
    }
}

#[test]
fn rainbow_emits_no_color_under_no_color() {
    // NO_COLOR flattens the palette; a fixed rainbow palette would otherwise
    // keep painting after the user asked for none.
    let theme = Theme::cyber().adapt(ColorMode::Monochrome);
    let styles = TextStyles::from_message(one("rainbow").as_ref());
    let spans = styled_spans_at("abc", styles, false, theme.base(), &theme, None);
    assert_eq!(spans.len(), 1, "collapses to one plain span");
    assert!(spans[0].style.bold);
    assert_eq!(spans[0].style.fg, Some(Color::Reset));
}

#[test]
fn a_spoiler_is_masked_until_it_is_revealed() {
    let theme = Theme::cyber();
    let styles = TextStyles::from_message(one("spoiler").as_ref());

    let hidden = styled_spans_at("the butler", styles, false, theme.base(), &theme, None);
    let masked = text_of(&hidden);
    assert!(!masked.contains("butler"), "the text must not be readable");
    assert!(masked.chars().all(|c| c == SPOILER_GLYPH));

    let shown = styled_spans_at("the butler", styles, true, theme.base(), &theme, None);
    assert_eq!(text_of(&shown), "the butler");
}

#[test]
fn a_masked_spoiler_keeps_the_display_width_of_the_text() {
    // Revealing must not reflow the pane, so the mask has to occupy exactly
    // the columns the text did, including for wide glyphs.
    let theme = Theme::cyber();
    let styles = TextStyles::from_message(one("spoiler").as_ref());
    for text in ["plain text", "你好世界", "wide 👍 emoji"] {
        let width: usize = text
            .chars()
            .map(|c| UnicodeWidthChar::width(c).unwrap_or(0))
            .sum();
        let masked = text_of(&styled_spans_at(
            text,
            styles,
            false,
            theme.base(),
            &theme,
            None,
        ));
        assert_eq!(masked.chars().count(), width, "mask width for {text:?}");
    }
}

#[test]
fn art_is_flagged_but_carries_no_decoration_of_its_own() {
    assert_eq!(
        TextStyles::from_message(one("art").as_ref()),
        TextStyles {
            art: true,
            ..TextStyles::default()
        },
        "art changes how the content is decoded, not how it is decorated",
    );
}

#[test]
fn styling_never_changes_the_text_except_for_a_hidden_spoiler() {
    let theme = Theme::cyber();
    for name in [
        "blink", "l33t", "comic", "cursive", "times", "rainbow", "flip", "quiet", "slow",
        "glitch", "wave",
    ] {
        let styles = TextStyles::from_message(one(name).as_ref());
        let spans = styled_spans_at("hello world", styles, false, theme.base(), &theme, None);
        assert_eq!(text_of(&spans), "hello world", "{name} altered the text");
    }
}

#[test]
fn monochrome_detection_does_not_misfire_on_real_palettes() {
    // `cyber` has a Reset background but real foreground colors.
    for kind in ThemeKind::ALL {
        assert!(!is_monochrome(&kind.theme()), "{}", kind.name());
    }
    assert!(is_monochrome(&Theme::cyber().adapt(ColorMode::Monochrome)));
}

#[test]
fn a_mask_covers_the_columns_of_the_text() {
    assert_eq!(mask("ab日"), "▒▒▒▒");
    assert_eq!(mask(""), "");
}

#[test]
fn script_letters_are_distinct() {
    let letters: std::collections::HashSet<char> =
        ('A'..='Z').chain('a'..='z').map(to_script).collect();
    assert_eq!(letters.len(), 52);
    assert_eq!(to_script('!'), '!');
}

#[test]
fn flipping_lowers_letters_beyond_ascii() {
    let styles = TextStyles::from_message(one("flip").as_ref());
    assert_eq!(styles.transform("É!"), "!é");
}

#[test]
fn the_clock_ticks_in_steps() {
    assert_eq!(anim_tick(), 150);
}

#[test]
fn deleting_the_marks_restores_the_runs() {
    let style = Theme::cyber().base();
    let runs = ["the signal ", "", "日本 decays"];
    for frame in 0..40 {
        let spans: Vec<Span> =
            runs.iter().map(|t| Span { content: t.to_string(), style }).collect();
        let out = corrupt_spans(spans, frame);
        assert_eq!(out.len(), runs.len());
        for (span, run) in out.iter().zip(runs) {
            let back: String =
                span.content.chars().filter(|c| !('\u{300}'..='\u{36f}').contains(c)).collect();
            assert_eq!(back, run);
        }
    }
}
