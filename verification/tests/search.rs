//! The search screen, driven from outside.
use cs_tui::key::{KeyCode, KeyEvent};
use cs_tui::search::{
    one_line_preview, PostHit, ReplyHit, SearchIntent, SearchPreview, SearchScreen, UserHit,
};
use cs_tui::theme::Theme;

fn key(code: KeyCode) -> KeyEvent {
    KeyEvent { code, control: false }
}

fn preview() -> SearchPreview {
    SearchPreview {
        users: vec![UserHit {
            username: "neo".into(),
            ..UserHit::default()
        }],
        posts: vec![PostHit {
            post_id: "p1".into(),
            author_username: "trinity".into(),
            content: "hello".into(),
            ..PostHit::default()
        }],
        replies: vec![ReplyHit {
            reply_id: "r1".into(),
            post_id: "p2".into(),
            content: "re".into(),
            ..ReplyHit::default()
        }],
    }
}

#[test]
fn typing_and_enter_runs_the_search() {
    let mut s = SearchScreen::new();
    for c in "neon".chars() {
        s.handle_key(key(KeyCode::Char(c)));
    }
    assert_eq!(
        s.handle_key(key(KeyCode::Enter)),
        SearchIntent::Run {
            query: "neon".into()
        }
    );
    assert!(!s.is_editing());
}

#[test]
fn navigating_and_opening_hits() {
    let mut s = SearchScreen::new();
    s.editing = false;
    s.apply_results(Ok(preview()));
    // Row 0 = user "neo".
    assert_eq!(
        s.open_selected(),
        SearchIntent::OpenUser {
            username: "neo".into()
        }
    );
    // Down to the post row.
    s.handle_key(key(KeyCode::Down));
    assert_eq!(
        s.open_selected(),
        SearchIntent::OpenPost {
            post_id: "p1".into(),
            highlight_reply_id: None,
        }
    );
    // Down to the reply row → opens its parent post with the reply highlighted.
    s.handle_key(key(KeyCode::Down));
    assert_eq!(
        s.open_selected(),
        SearchIntent::OpenPost {
            post_id: "p2".into(),
            highlight_reply_id: Some("r1".into()),
        }
    );
}

#[test]
fn slash_returns_to_editing() {
    let mut s = SearchScreen::new();
    s.editing = false;
    assert_eq!(s.handle_key(key(KeyCode::Char('/'))), SearchIntent::Nothing);
    assert!(s.is_editing());
}

#[test]
fn blank_queries_are_not_run() {
    let mut s = SearchScreen::new();
    s.paste_text("   ");
    assert_eq!(s.handle_key(key(KeyCode::Enter)), SearchIntent::Nothing);
}

#[test]
fn queries_are_trimmed() {
    let mut s = SearchScreen::new();
    s.paste_text("  neon ");
    assert_eq!(
        s.handle_key(key(KeyCode::Enter)),
        SearchIntent::Run { query: "neon".into() }
    );
    assert!(s.loading);
}

#[test]
fn results_are_listed_by_kind() {
    let theme = Theme::cyber();
    let mut s = SearchScreen::new();
    s.editing = false;
    s.apply_results(Ok(preview()));
    let text: Vec<String> = s.body_lines(&theme).iter().map(|l| l.text()).collect();
    let at = |part: &str| text.iter().position(|l| l.contains(part)).unwrap();
    assert!(at("neo") < at("trinity"));
    assert!(at("trinity") < at("re"));
    s.apply_results(Ok(SearchPreview::default()));
    assert!(s.results.as_ref().unwrap().is_empty());
    s.apply_results(Err("boom".into()));
    let text: String = s.body_lines(&theme).iter().map(|l| l.text()).collect();
    assert!(text.contains("boom"), "{text}");
    assert!(!s.render(&theme).title.text().is_empty());
}

#[test]
fn previews_take_one_line() {
    assert_eq!(one_line_preview("a\n  b", 20), "a b");
    assert!(one_line_preview("abcdefgh", 4).chars().count() <= 4);
}
