//! Links that a terminal can follow.
use cs_tui::draw::{Line, Rect, Span};
use cs_tui::hyperlink::{
    apply_link_targets, find_link_targets, line_rows, line_urls, render_linked_paragraph, linkify_run,
    osc8, Cell, Grid,
};
use cs_tui::theme::Style;
use ratatui::backend::{Backend, CrosstermBackend};
use ratatui::buffer::{Buffer, CellDiffOption};
use std::cell::RefCell;
use std::rc::Rc;

const ST: &str = "\u{1b}\\"; // string terminator

fn plain() -> Style {
    Style {
        fg: None,
        bg: None,
        bold: false,
        dim: false,
        italic: false,
        underlined: false,
        reversed: false,
    }
}

fn raw(text: &str) -> Span {
    Span { content: text.to_string(), style: plain() }
}

fn line(spans: Vec<Span>) -> Line {
    Line { spans }
}

fn rect(x: u16, y: u16, width: u16, height: u16) -> Rect {
    Rect { x, y, width, height }
}

fn empty(width: u16, height: u16) -> Buffer {
    Buffer::empty(ratatui::layout::Rect::new(0, 0, width, height))
}

/// The cells of a buffer.
fn grid(buf: &Buffer) -> Grid {
    let area = buf.area;
    Grid {
        area: rect(area.x, area.y, area.width, area.height),
        rows: (0..area.height)
            .map(|y| {
                (0..area.width)
                    .map(|x| Cell { symbol: buf[(x, y)].symbol().to_string(), skip: false })
                    .collect()
            })
            .collect(),
    }
}

/// A buffer with the cells of a grid.
fn buffer(g: &Grid) -> Buffer {
    let mut buf = empty(g.area.width, g.area.height);
    for (y, row) in g.rows.iter().enumerate() {
        for (x, cell) in row.iter().enumerate() {
            let to = &mut buf[(x as u16, y as u16)];
            to.set_symbol(&cell.symbol);
            if cell.skip {
                to.set_diff_option(CellDiffOption::Skip);
            }
        }
    }
    buf
}

fn paint(lines: &[&str], width: u16, height: u16) -> Grid {
    let mut buf = empty(width, height);
    for (y, text) in lines.iter().enumerate() {
        buf.set_string(0, y as u16, text, ratatui::style::Style::default());
    }
    grid(&buf)
}

fn buf_with(text: &str, width: u16) -> Grid {
    paint(&[text], width, 1)
}

#[derive(Clone)]
struct Sink(Rc<RefCell<Vec<u8>>>);

impl std::io::Write for Sink {
    fn write(&mut self, b: &[u8]) -> std::io::Result<usize> {
        self.0.borrow_mut().extend_from_slice(b);
        Ok(b.len())
    }
    fn flush(&mut self) -> std::io::Result<()> {
        Ok(())
    }
}

#[test]
fn osc8_wraps_text_in_open_and_close() {
    let seq = osc8("https://x.example/p", "click");
    assert_eq!(
        seq,
        format!("\u{1b}]8;;https://x.example/p{ST}click\u{1b}]8;;{ST}")
    );
}

#[test]
fn osc8_strips_control_chars_to_block_escape_injection() {
    // A malicious URL tries to terminate the OSC early (ESC \) and inject a
    // clear-screen (ESC [ 2 J) plus a BEL. Every control byte is dropped, so
    // the only ESCs left are the ones the builder itself emits, and none of
    // them lead an injected sequence.
    let evil = "http://x\u{1b}\\\u{1b}[2J\u{07}/p";
    let seq = osc8(evil, "label");
    // The builder emits four ESCs: open-OSC, ST, close-OSC, ST. The URL's two
    // injected ESCs are gone, leaving exactly those four.
    assert_eq!(
        seq.matches('\u{1b}').count(),
        4,
        "only the builder's own four ESCs remain: {seq:?}"
    );
    assert!(!seq.contains('\u{07}'), "BEL stripped: {seq:?}");
    assert!(
        !seq.contains("\u{1b}[2J"),
        "the clear-screen escape never forms (no ESC precedes [2J): {seq:?}"
    );
}

#[test]
fn linkify_run_wraps_the_visible_url_and_skips_trailing_cells() {
    let url = "https://x.example/p";
    let mut buf = buf_with(url, 40);
    let cols = linkify_run(&mut buf, 0, 0, url, 40);
    assert_eq!(cols, url.len() as u16, "every glyph of the URL is linked");

    // The first cell now carries the whole atomic OSC 8 sequence.
    let first = buf.rows[0 as usize][0 as usize].symbol.as_str().to_string();
    assert_eq!(first, osc8(url, url), "first cell holds open+text+close");

    // The remaining covered cells are skipped so the diff won't redraw them.
    for x in 1..cols {
        assert!(buf.rows[0 as usize][x as usize].skip, "cell {x} is skipped");
    }
    // The cell just past the link is untouched (not skipped).
    assert!(
        !buf.rows[0 as usize][cols as usize].skip,
        "cell past the link is live"
    );
}

#[test]
fn linkify_run_stops_at_the_first_blank_cell() {
    // The URL ends at the space; only those glyphs are linked.
    let mut buf = buf_with("https://x.com more", 40);
    let cols = linkify_run(&mut buf, 0, 0, "https://x.com", 40);
    assert_eq!(cols, "https://x.com".len() as u16, "stops at the space");
    let first = buf.rows[0 as usize][0 as usize].symbol.as_str().to_string();
    assert_eq!(first, osc8("https://x.com", "https://x.com"));
}

#[test]
fn linkify_run_truncates_visible_text_to_the_column_budget() {
    // A long URL that would wrap: only the columns that fit are linked, but the
    // full URL stays the click target. The visible prefix still satisfies the
    // prefix guard.
    let url = "https://x.example/very/long/path/that/would/wrap";
    let mut buf = buf_with(url, 80);
    let cols = linkify_run(&mut buf, 0, 0, url, 10);
    assert_eq!(cols, 10, "limited to the 10-column budget");
    let first = buf.rows[0 as usize][0 as usize].symbol.as_str().to_string();
    assert_eq!(
        first,
        osc8(url, &url[..10]),
        "visible text is the first 10 cols, target is the full URL"
    );
}

#[test]
fn linkify_run_guard_rejects_a_mismatched_position() {
    // The cells say "hello" but we claim a URL is here — refuse to wrap it.
    let mut buf = buf_with("hello world", 40);
    assert_eq!(linkify_run(&mut buf, 0, 0, "https://x.com", 40), 0);
    assert_eq!(
        buf.rows[0 as usize][0 as usize].symbol.as_str(),
        "h",
        "buffer left untouched"
    );
}

#[test]
fn linkify_run_is_a_noop_on_a_blank_start_or_empty_url() {
    let mut buf = buf_with("   url", 40);
    assert_eq!(
        linkify_run(&mut buf, 0, 0, "https://x", 40),
        0,
        "blank start"
    );
    let mut buf2 = buf_with("url", 40);
    assert_eq!(linkify_run(&mut buf2, 0, 0, "   ", 40), 0, "empty url");
}

#[test]
fn line_urls_finds_a_scheme_url_with_its_column_and_width() {
    // Two-space indent, then the URL (the surfaced-link layout).
    let l = line(vec![raw("  https://x.example/page")]);
    let found = line_urls(&l);
    assert_eq!(found.len(), 1);
    let (col, width, url) = &found[0];
    assert_eq!(*col, 2, "URL starts past the indent");
    assert_eq!(*url, "https://x.example/page");
    assert_eq!(*width, "https://x.example/page".len() as u16);
}

#[test]
fn line_urls_accounts_for_wide_glyphs_before_the_url() {
    // A width-2 emoji then a label, mirroring the profile website line.
    let l = line(vec![raw("🔗 site (https://x.com)")]);
    let found = line_urls(&l);
    assert_eq!(found.len(), 1);
    let (col, _w, url) = &found[0];
    assert_eq!(*url, "https://x.com", "trailing paren trimmed");
    // "🔗"=2 + " "=1 + "site"=4 + " "=1 + "("=1 => column 9.
    assert_eq!(*col, 9, "column shifted past the wide emoji");
}

#[test]
fn line_urls_ignores_plain_text_and_bare_words() {
    let l = line(vec![raw("just some words, no link here")]);
    assert!(line_urls(&l).is_empty());
}

#[test]
fn find_and_apply_overlay_a_link_on_the_right_row() {
    let lines = vec![
        line(vec![raw("header")]),
        line(vec![raw("")]),
        line(vec![raw("  https://x.example/p")]),
    ];
    let targets = find_link_targets(&lines, 40);
    assert_eq!(targets.len(), 1);
    assert_eq!(targets[0].row, 2, "URL is on the third logical row");

    let texts: Vec<String> = lines.iter().map(Line::text).collect();
    let texts: Vec<&str> = texts.iter().map(String::as_str).collect();
    let mut buf = paint(&texts, 40, 5);
    apply_link_targets(&mut buf, rect(0, 0, 40, 5), 0, &targets);

    let cell = buf.rows[2 as usize][2 as usize].symbol.as_str().to_string();
    assert!(
        cell.contains("\u{1b}]8;;https://x.example/p\u{1b}\\"),
        "row 2 carries the hyperlink: {cell:?}"
    );
}

#[test]
fn apply_skips_targets_scrolled_out_of_view() {
    let lines = vec![line(vec![raw("  https://x.example/p")])];
    let targets = find_link_targets(&lines, 40);
    let mut buf = paint(&["  https://x.example/p"], 40, 3);
    // Scrolled down by 5 rows: the only target (row 0) is off-screen.
    apply_link_targets(&mut buf, rect(0, 0, 40, 3), 5, &targets);
    assert_eq!(
        buf.rows[0 as usize][2 as usize].symbol.as_str(),
        "h",
        "nothing linked when scrolled past"
    );
}

#[test]
fn osc8_bytes_reach_the_crossterm_wire() {
    // The diff prints each changed symbol, so the escape bytes must come out of
    // the terminal backend. It is driven directly and needs no terminal.
    // Paint the URL glyphs as a paragraph would, then overlay.
    let area = rect(0, 0, 30, 1);
    let lines = vec![line(vec![raw("  https://x.example/page")])];
    let targets = find_link_targets(&lines, area.width);
    let prev = empty(area.width, area.height);
    let mut next = paint(&["  https://x.example/page"], area.width, area.height);
    apply_link_targets(&mut next, area, 0, &targets);
    let next = buffer(&next);

    let sink = Sink(Rc::new(RefCell::new(Vec::new())));
    let mut backend = CrosstermBackend::new(sink.clone());
    backend.draw(prev.diff(&next).into_iter()).unwrap();
    Backend::flush(&mut backend).unwrap();

    let bytes = sink.0.borrow().clone();
    let wire = String::from_utf8_lossy(&bytes);
    assert!(
        wire.contains("\u{1b}]8;;https://x.example/page\u{1b}\\"),
        "OSC 8 open sequence must be written to the terminal: {wire:?}"
    );
}

#[test]
fn wrapped_lines_push_links_down() {
    let lines = vec![
        line(vec![raw("a line of more than ten columns")]),
        line(vec![raw("https://x.io")]),
    ];
    assert_eq!(line_rows(&lines, 10), vec![4, 2]);
    assert_eq!(line_rows(&lines, 40), vec![1, 1]);
    let targets = find_link_targets(&lines, 10);
    assert_eq!(targets[0].row, 4);
    assert_eq!(targets[0].url, "https://x.io");
}

#[test]
fn links_are_found_only_where_they_are_wanted() {
    let on = render_linked_paragraph(vec![line(vec![raw("see https://x.io")])], 40, 2, true);
    assert_eq!((on.targets.len(), on.scroll), (1, 2));
    assert_eq!((on.targets[0].col, on.targets[0].width), (4, 12));
    let off = render_linked_paragraph(vec![line(vec![raw("see https://x.io")])], 40, 2, false);
    assert!(off.targets.is_empty());
    assert_eq!(off.lines[0].text(), "see https://x.io");
}

#[test]
fn trailing_punctuation_is_no_part_of_a_url() {
    let l = line(vec![raw("(http://a.b/c), https://d.e.")]);
    let urls: Vec<String> = line_urls(&l).into_iter().map(|(_, _, u)| u).collect();
    assert_eq!(urls, vec!["http://a.b/c", "https://d.e"]);
}

#[test]
fn urls_on_a_line_follow_one_another() {
    let line = Line { spans: vec![raw("日本 (https://a.b/c)., "), raw("MAILTO:x@y! ftp:// http://d")] };
    assert_eq!(
        line_urls(&line),
        vec![
            (6, 13, "https://a.b/c".to_string()),
            (23, 10, "MAILTO:x@y".to_string()),
            (42, 8, "http://d".to_string()),
        ]
    );
}
