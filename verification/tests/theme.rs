//! Palettes and colors.
use cs_tui::theme::{rgb_to_ansi256, Color, ColorMode, Theme, ThemeKind};

#[test]
fn default_is_cyber() {
    let t = Theme::default();
    assert_eq!(t.accent, Theme::cyber().accent);
}

#[test]
fn custom_kind_round_trips() {
    assert_eq!(ThemeKind::from_name("custom"), ThemeKind::Custom);
    assert_eq!(ThemeKind::Custom.name(), "custom");
}

#[test]
fn theme_kind_names_round_trip() {
    for k in ThemeKind::ALL {
        assert_eq!(ThemeKind::from_name(k.name()), k);
    }
    assert_eq!(ThemeKind::from_name("CYBER"), ThemeKind::Cyber);
    assert_eq!(ThemeKind::from_name("unknown"), ThemeKind::Cyber);
}

#[test]
fn theme_kind_resolves_to_matching_palette() {
    assert_eq!(ThemeKind::C64.theme().accent, Theme::c64().accent);
}

#[test]
fn cyber_and_dark_are_visually_distinct() {
    let (c, d) = (Theme::cyber(), Theme::dark());
    assert_ne!(c.accent, d.accent, "accent must differ");
    assert_ne!(c.border, d.border, "border must differ");
}

#[test]
fn indexed256_downsamples_truecolor_but_leaves_named_colors() {
    // vapor is all Rgb → every slot becomes an indexed color.
    let v = Theme::vapor().adapt(ColorMode::Indexed256);
    for c in [v.accent, v.background, v.error, v.border] {
        assert!(
            matches!(c, Color::Indexed(_)),
            "expected indexed, got {c:?}"
        );
    }
    // cyber uses named/indexed colors → unchanged by the downsample.
    let c = Theme::cyber();
    assert_eq!(c.adapt(ColorMode::Indexed256).accent, c.accent);
}

#[test]
fn monochrome_drops_all_color() {
    let m = Theme::vapor().adapt(ColorMode::Monochrome);
    for c in [
        m.foreground,
        m.accent,
        m.error,
        m.muted,
        m.border,
        m.selection,
    ] {
        assert_eq!(c, Color::Reset);
    }
}

#[test]
fn with_background_overrides_only_when_some() {
    let base = Theme::cyber();
    // Some(_) forces the background (transparency override).
    assert_eq!(
        base.clone().with_background(Some(Color::Reset)).background,
        Color::Reset
    );
    assert_eq!(
        base.clone().with_background(Some(Color::Black)).background,
        Color::Black
    );
    // None leaves the palette's own background untouched.
    assert_eq!(
        base.clone().with_background(None).background,
        base.background
    );
    // Only the background slot moves; selection (and the rest) are unchanged.
    assert_eq!(
        base.clone().with_background(Some(Color::Black)).selection,
        base.selection
    );
}

#[test]
fn full_mode_is_identity() {
    let v = Theme::vapor();
    assert_eq!(v.adapt(ColorMode::Full).accent, v.accent);
}

#[test]
fn rgb_to_ansi256_maps_primaries_and_grays() {
    assert_eq!(rgb_to_ansi256(0, 0, 0), 16); // black → cube origin
    assert_eq!(rgb_to_ansi256(255, 255, 255), 231); // white → cube corner
    assert_eq!(rgb_to_ansi256(255, 0, 0), 196); // pure red
    // Mid grays land in the 232..=255 ramp.
    assert!((232..=255).contains(&rgb_to_ansi256(128, 128, 128)));
}

#[test]
fn vapor_is_a_built_in_in_the_cycle() {
    assert!(ThemeKind::ALL.contains(&ThemeKind::Vapor));
    assert_eq!(ThemeKind::from_name("vapor"), ThemeKind::Vapor);
    assert_eq!(ThemeKind::Vapor.name(), "vapor");
    assert_eq!(ThemeKind::Vapor.theme().accent, Theme::vapor().accent);
}

#[test]
fn vapor_titles_are_cyan_not_pink() {
    // Cyan's "second job": titles share the cyan border instead of the pink
    // accent, so the frame reads as one color and cyan co-leads with pink.
    let t = Theme::vapor();
    assert_eq!(t.heading, t.border, "vapor titles join the cyan frame");
    assert_ne!(t.heading, t.accent, "titles must not be the pink accent");
}

#[test]
fn legacy_palettes_keep_titles_on_their_accent() {
    for t in [Theme::cyber(), Theme::c64(), Theme::vt320(), Theme::dark()] {
        assert_eq!(t.heading, t.accent);
    }
}

#[test]
fn framed_palettes_put_titles_on_the_border() {
    // vapor/paper/gruvbox follow the "chrome is one color" rule: the title
    // shares the border color and is distinct from the content accent.
    for t in [Theme::vapor(), Theme::paper(), Theme::gruvbox()] {
        assert_eq!(t.heading, t.border, "title joins the frame");
        assert_ne!(t.heading, t.accent, "title is not the content accent");
    }
}

#[test]
fn new_palettes_keep_status_colors_distinct() {
    // Same usability guarantee as vapor: a toast's meaning must read at a
    // glance, so accent and the three status colors can't collide.
    for t in [Theme::paper(), Theme::gruvbox()] {
        let slots = [t.accent, t.success, t.error, t.warning];
        for (i, a) in slots.iter().enumerate() {
            for b in &slots[i + 1..] {
                assert_ne!(a, b, "status colors must be distinct");
            }
        }
    }
}

#[test]
fn warning_never_collides_with_body_text() {
    for k in ThemeKind::ALL {
        let t = k.theme();
        assert_ne!(
            t.warning,
            t.foreground,
            "{}: warning == foreground",
            k.name()
        );
    }
}

#[test]
fn paper_is_the_one_light_theme() {
    // Its background must be lighter than its foreground (the only built-in
    // where that holds), and every other built-in stays dark.
    let lum = |c: Color| match c {
        Color::Rgb(r, g, b) => Some(u16::from(r) * 30 + u16::from(g) * 59 + u16::from(b) * 11),
        _ => None,
    };
    let p = Theme::paper();
    assert!(
        lum(p.background) > lum(p.foreground),
        "paper is light-on-dark-ink"
    );
}

#[test]
fn vapor_keeps_status_colors_distinct() {
    // Usability: a glance at a toast must distinguish meaning, so the accent
    // and the three status colors must not collide.
    let t = Theme::vapor();
    let slots = [t.accent, t.success, t.error, t.warning];
    for (i, a) in slots.iter().enumerate() {
        for b in &slots[i + 1..] {
            assert_ne!(a, b, "vapor status colors must be distinct");
        }
    }
}

#[test]
fn the_terminal_decides_how_many_colors_there_are() {
    let detect = |no_color: Option<&str>, term: Option<&str>| {
        ColorMode::detect(no_color.map(|s| s.as_bytes().to_vec()), term.map(String::from))
    };
    assert_eq!(detect(None, Some("truecolor")), ColorMode::Full);
    assert_eq!(detect(None, Some("24bit")), ColorMode::Full);
    assert_eq!(detect(None, Some("256")), ColorMode::Indexed256);
    assert_eq!(detect(None, None), ColorMode::Indexed256);
    assert_eq!(detect(Some("1"), Some("truecolor")), ColorMode::Monochrome);
    // An empty setting is no setting.
    assert_eq!(detect(Some(""), Some("truecolor")), ColorMode::Full);
}

#[test]
fn adapting_twice_changes_nothing_more() {
    for kind in ThemeKind::ALL {
        for mode in [ColorMode::Full, ColorMode::Indexed256, ColorMode::Monochrome] {
            let once = kind.theme().adapt(mode);
            assert_eq!(once.adapt(mode), once);
        }
    }
}

#[test]
fn colors_land_on_the_nearest_step() {
    assert_eq!(rgb_to_ansi256(0, 255, 0), 46);
    assert_eq!(rgb_to_ansi256(0, 0, 255), 21);
    assert_eq!(rgb_to_ansi256(8, 8, 8), 232);
}

#[test]
fn colors_between_the_steps_go_to_the_closer_one() {
    assert_eq!(rgb_to_ansi256(238, 238, 238), 255);
    assert_eq!(rgb_to_ansi256(248, 248, 248), 231);
    assert_eq!(rgb_to_ansi256(128, 128, 129), 244);
    assert_eq!(rgb_to_ansi256(5, 5, 5), 232);
    assert_eq!(rgb_to_ansi256(3, 3, 3), 16);
    // Both black and the darkest gray are as close: the lower index.
    assert_eq!(rgb_to_ansi256(4, 4, 4), 16);
}

#[test]
fn no_step_is_closer_than_the_one_that_is_taken() {
    let cube = [0i32, 95, 135, 175, 215, 255];
    let rgb = |i: i32| {
        if i < 232 {
            let k = i - 16;
            [cube[(k / 36) as usize], cube[(k / 6 % 6) as usize], cube[(k % 6) as usize]]
        } else {
            [8 + 10 * (i - 232); 3]
        }
    };
    let samples = [0u8, 4, 8, 47, 48, 75, 95, 115, 116, 128, 155, 200, 235, 238, 244, 248, 255];
    for r in samples {
        for g in samples {
            for b in samples {
                let far = |i: i32| {
                    let [x, y, z] = rgb(i);
                    let (r, g, b) = (r as i32, g as i32, b as i32);
                    (x - r) * (x - r) + (y - g) * (y - g) + (z - b) * (z - b)
                };
                let want = (16..256).min_by_key(|i| far(*i)).unwrap();
                assert_eq!(rgb_to_ansi256(r, g, b) as i32, want, "{r} {g} {b}");
            }
        }
    }
}
