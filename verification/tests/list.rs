//! Lists that load by pages.
use cs_tui::draw::{Line, Span};
use cs_tui::list::{
    load_more_error, render_body, render_body_indexed, row_window, ListBody, RowWindow, SelectionStyle, TabState,
};
use cs_tui::theme::Theme;

#[test]
fn the_window_anchors_on_the_newest_message() {
    // 5 items of 2 rows in a 7-row pane: the tail is flush at the bottom
    // and the second item is cut to its last row.
    let heights = [2u16; 5];
    assert_eq!(
        row_window(&heights, 4, (0, 0), 7),
        RowWindow {
            first: 1,
            top: 1,
            last: 4,
            bottom: 0
        },
    );
}

#[test]
fn a_cursor_already_on_screen_leaves_the_window_alone() {
    let heights = [2u16; 5];
    // Row 3 of 10, cursor on the item spanning rows 4-5: on screen
    // already, so the view does not move.
    let prev = (1, 1);
    assert_eq!(
        row_window(&heights, 2, prev, 4),
        RowWindow {
            first: 1,
            top: 1,
            last: 3,
            bottom: 1
        },
    );
    // Stepping the cursor above the window pulls it up to that item's
    // head rather than scrolling by a whole screen.
    assert_eq!(
        row_window(&heights, 0, prev, 4),
        RowWindow {
            first: 0,
            top: 0,
            last: 1,
            bottom: 0
        },
    );
}

#[test]
fn an_item_taller_than_the_pane_shows_its_head() {
    // Its speaker row is the part worth seeing, and anchoring on its bottom
    // would hide who is talking.
    let heights = [2u16, 9, 2];
    assert_eq!(
        row_window(&heights, 1, (0, 0), 4),
        RowWindow {
            first: 1,
            top: 0,
            last: 1,
            bottom: 5
        },
    );
}

#[test]
fn a_list_shorter_than_the_pane_is_not_scrolled() {
    let heights = [2u16, 2, 2];
    assert_eq!(
        row_window(&heights, 2, (0, 0), 20),
        RowWindow {
            first: 0,
            top: 0,
            last: 2,
            bottom: 0
        },
    );
}

#[test]
fn list_apply_initial_populates_and_clears_loading() {
    let mut s: TabState<i32> = TabState::loading();
    s.apply_initial(Ok((vec![1, 2, 3], Some("c".into()))));
    assert_eq!(s.items, vec![1, 2, 3]);
    assert!(!s.loading);
    assert!(s.loaded);
    assert_eq!(s.next_cursor.as_deref(), Some("c"));
}

#[test]
fn apply_more_appends_and_keeps_cursor() {
    let mut s: TabState<i32> = TabState::default();
    s.apply_initial(Ok((vec![1], Some("c".into()))));
    s.apply_more(Ok((vec![2, 3], None)));
    assert_eq!(s.items, vec![1, 2, 3]);
    assert!(s.next_cursor.is_none());
}

#[test]
fn load_more_error_only_surfaces_with_existing_items() {
    let mut s: TabState<i32> = TabState::default();
    // Empty + error = initial-load failure → not an inline status error.
    s.apply_initial(Err("boom".into()));
    assert!(load_more_error(&s).is_none());

    // Populated, then a load-more fails → inline status error.
    s.apply_initial(Ok((vec![1], Some("c".into()))));
    s.apply_more(Err("blip".into()));
    assert!(load_more_error(&s).unwrap().contains("blip"));
}

#[test]
fn apply_initial_resets_stale_scroll_offset() {
    let mut s: TabState<i32> = TabState::default();
    s.apply_initial(Ok(((0..100).collect(), None)));
    s.shift_offset(94); // emulate the viewport having scrolled to the tail
    assert_eq!(s.list_offset(), 94);
    s.apply_initial(Ok(((0..50).collect(), None)));
    assert_eq!(s.list_offset(), 0);
}

#[test]
fn filtered_initial_clamps_selection_to_view() {
    let mut s: TabState<i32> = TabState {
        selected: 5,
        ..Default::default()
    };
    // Only 2 items are "visible" → selection resets.
    s.apply_initial_filtered(Ok((vec![1, 2, 3], None)), |_| 2);
    assert_eq!(s.selected, 0);
}

#[test]
fn a_render_counts_the_rows_that_fit() {
    let mut s: TabState<i32> = TabState::default();
    assert_eq!(s.page_items(), 1);
    s.record_render(0, &vec![2, 2, 2, 2], 5);
    assert_eq!(s.page_items(), 2);
    s.record_render(2, &vec![2, 2, 9, 2], 5);
    assert_eq!(s.page_items(), 1);
}

#[test]
fn a_list_says_why_it_is_empty() {
    let theme = Theme::cyber();
    let mut s: TabState<i32> = TabState::loading();
    let text = |s: &TabState<i32>| match render_body(s, vec![], "nothing", &theme, SelectionStyle::Fill) {
        ListBody::Message(line) => line.text(),
        ListBody::Rows { .. } => panic!("rows of an empty list"),
    };
    assert!(text(&s).contains("loading"));
    s.apply_initial(Err("boom".into()));
    assert!(text(&s).contains("boom"));
    s.apply_initial(Ok((vec![], None)));
    assert!(text(&s).contains("nothing"));
}

#[test]
fn rows_keep_their_order_and_selection() {
    let theme = Theme::cyber();
    let mut s: TabState<i32> = TabState::default();
    s.apply_initial(Ok((vec![7, 8], None)));
    s.selected = 1;
    let row = |t: &str| vec![Line { spans: vec![Span { content: t.into(), style: theme.base() }] }];
    match render_body(&s, vec![row("seven"), row("eight")], "nothing", &theme, SelectionStyle::Bar) {
        ListBody::Rows { rows, selected, offset, .. } => {
            assert_eq!(rows.len(), 2);
            assert_eq!(rows[1][0].text(), "eight");
            assert_eq!((selected, offset), (1, 0));
        }
        ListBody::Message(line) => panic!("{}", line.text()),
    }
}

#[test]
fn visible_items_are_drawn_by_their_position() {
    let theme = Theme::cyber();
    let mut s: TabState<i32> = TabState::default();
    s.apply_initial(Ok((vec![7, 8, 9], None)));
    s.selected = 5;
    let draw = |pos: usize, n: &i32| {
        vec![Line { spans: vec![Span { content: format!("{pos}:{n}"), style: theme.base() }] }]
    };
    match render_body_indexed(&s, &[2, 0], "nothing", draw, &theme, SelectionStyle::Fill) {
        ListBody::Rows { rows, selected, .. } => {
            let text: Vec<String> = rows.iter().map(|r| r[0].text()).collect();
            assert_eq!(text, vec!["0:9", "1:7"]);
            assert_eq!(selected, 1);
        }
        ListBody::Message(line) => panic!("{}", line.text()),
    }
}

#[test]
fn offsets_move_both_ways() {
    let mut s: TabState<i32> = TabState::default();
    s.shift_offset(5);
    s.shift_offset_back(2);
    assert_eq!(s.list_offset(), 3);
    s.shift_offset_back(9);
    assert_eq!(s.list_offset(), 0);
    s.set_window(4, 2);
    assert_eq!((s.list_offset(), s.top_clip()), (4, 2));
}

#[test]
fn a_settled_window_stays() {
    let heights = [3u16, 1, 9, 2, 4, 1, 6];
    for selected in 0..heights.len() {
        for prev in [(0usize, 0u16), (2, 4), (6, 1), (9, 0)] {
            let w = row_window(&heights, selected, prev, 7);
            assert_eq!(row_window(&heights, selected, (w.first, w.top), 7), w);
        }
    }
}
