//! Moving through a list.
use cs_tui::key::KeyCode;
use cs_tui::list_nav::{is_nav_key, navigate, navigate_paged, ListNav};

#[test]
fn j_advances_until_the_last_visible_item() {
    let mut sel = 0;
    assert_eq!(
        navigate(KeyCode::Char('j'), &mut sel, 3, false),
        ListNav::Moved
    );
    assert_eq!(sel, 1);
    navigate(KeyCode::Char('j'), &mut sel, 3, false);
    assert_eq!(sel, 2);
    // At the bottom with no more pages: stays put, no load.
    assert_eq!(
        navigate(KeyCode::Char('j'), &mut sel, 3, false),
        ListNav::Moved
    );
    assert_eq!(sel, 2);
}

#[test]
fn j_at_bottom_loads_more_when_a_page_exists() {
    let mut sel = 2;
    assert_eq!(
        navigate(KeyCode::Char('j'), &mut sel, 3, true),
        ListNav::LoadMore
    );
    assert_eq!(sel, 2, "load-more must not also move the cursor");
}

#[test]
fn down_arrow_mirrors_j() {
    let mut sel = 0;
    assert_eq!(navigate(KeyCode::Down, &mut sel, 2, false), ListNav::Moved);
    assert_eq!(sel, 1);
}

#[test]
fn k_decrements_without_underflow() {
    let mut sel = 1;
    navigate(KeyCode::Char('k'), &mut sel, 3, false);
    assert_eq!(sel, 0);
    navigate(KeyCode::Char('k'), &mut sel, 3, false);
    assert_eq!(sel, 0, "saturates at zero");
}

#[test]
fn g_and_capital_g_jump_to_ends() {
    let mut sel = 1;
    navigate(KeyCode::Char('G'), &mut sel, 5, false);
    assert_eq!(sel, 4);
    navigate(KeyCode::Char('g'), &mut sel, 5, false);
    assert_eq!(sel, 0);
}

#[test]
fn capital_g_on_empty_view_stays_at_zero() {
    let mut sel = 0;
    navigate(KeyCode::Char('G'), &mut sel, 0, false);
    assert_eq!(sel, 0);
}

#[test]
fn n_asks_for_the_next_page_only_when_there_is_one() {
    let mut sel = 0;
    assert_eq!(
        navigate(KeyCode::Char('n'), &mut sel, 3, true),
        ListNav::LoadMore
    );
    // No next page: not a nav key, so the screen may use it for its own.
    assert_eq!(
        navigate(KeyCode::Char('n'), &mut sel, 3, false),
        ListNav::Ignored
    );
}

#[test]
fn pagedown_pages_and_only_loads_more_from_the_end() {
    let mut sel = 0;
    assert_eq!(
        navigate_paged(KeyCode::PageDown, &mut sel, 20, true, 5),
        ListNav::Moved
    );
    assert_eq!(sel, 5, "a page is a page, not one item");

    sel = 19;
    assert_eq!(
        navigate_paged(KeyCode::PageDown, &mut sel, 20, true, 5),
        ListNav::LoadMore,
        "at the end it still fetches, so paging down a feed keeps going",
    );

    sel = 19;
    assert_eq!(
        navigate_paged(KeyCode::PageDown, &mut sel, 20, false, 5),
        ListNav::Moved,
        "with nothing left to fetch it simply stays put",
    );
}

#[test]
fn pageup_moves_a_page_and_stops_at_the_top() {
    let mut sel = 12;
    assert_eq!(
        navigate_paged(KeyCode::PageUp, &mut sel, 20, false, 5),
        ListNav::Moved
    );
    assert_eq!(sel, 7);

    sel = 2;
    assert_eq!(
        navigate_paged(KeyCode::PageUp, &mut sel, 20, false, 5),
        ListNav::Moved
    );
    assert_eq!(sel, 0, "saturating, never wrapping to the bottom");
}

#[test]
fn paging_never_runs_off_the_end_of_the_list() {
    let mut sel = 0;
    navigate_paged(KeyCode::PageDown, &mut sel, 3, false, 50);
    assert_eq!(sel, 2, "clamped to the last item, not to the page size");
}

#[test]
fn a_page_of_zero_still_moves_one() {
    // `page_items` is 1 before the first render; a literal zero would make
    // the key silently dead.
    let mut sel = 3;
    navigate_paged(KeyCode::PageUp, &mut sel, 20, false, 0);
    assert_eq!(sel, 2);
}

#[test]
fn space_is_not_a_load_more_key() {
    // Load-on-scroll (j/Down at the bottom) covers paging, so Space is a
    // no-op the screen is free to handle, not a hidden load-more trigger.
    let mut sel = 0;
    assert_eq!(
        navigate(KeyCode::Char(' '), &mut sel, 3, true),
        ListNav::Ignored
    );
    assert_eq!(sel, 0);
}

#[test]
fn empty_view_with_more_loads_on_down() {
    let mut sel = 0;
    assert_eq!(
        navigate(KeyCode::Char('j'), &mut sel, 0, true),
        ListNav::LoadMore
    );
}

#[test]
fn non_navigation_keys_are_ignored() {
    let mut sel = 0;
    for k in [
        KeyCode::Enter,
        KeyCode::Char('r'),
        KeyCode::Char('b'),
        KeyCode::Char('d'),
    ] {
        assert_eq!(navigate(k, &mut sel, 3, true), ListNav::Ignored);
    }
    assert_eq!(sel, 0);
}

#[test]
fn home_and_end_are_the_ends() {
    let mut sel = 3;
    assert_eq!(navigate(KeyCode::Home, &mut sel, 5, true), ListNav::Moved);
    assert_eq!(sel, 0);
    assert_eq!(navigate(KeyCode::End, &mut sel, 5, true), ListNav::Moved);
    assert_eq!(sel, 4);
}

#[test]
fn nav_keys_are_recognised() {
    for k in [KeyCode::Char('j'), KeyCode::Up, KeyCode::PageDown, KeyCode::Char('G')] {
        assert!(is_nav_key(k), "{k:?}");
    }
    for k in [KeyCode::Char('x'), KeyCode::Enter, KeyCode::Char('q')] {
        assert!(!is_nav_key(k), "{k:?}");
    }
}
