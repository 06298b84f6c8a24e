//! Search overlay: full-text search across users, posts and replies.
//!
//! The groups are navigable as one flattened list, opening the selected hit into
//! its post or profile.
use vstd::prelude::*;

use crate::draw::{self, push_line, push_span, Line, Span};
use crate::input::{self, collapse_newlines};
use crate::key::{KeyCode, KeyEvent};
use crate::list_nav;
use crate::strs::{self, join, trim, words};
use crate::text::{self, truncate_to_width};
use crate::theme::Theme;

verus! {

/// A user that was found.
#[derive(Debug, Clone, PartialEq, Eq, Default)]
pub struct UserHit {
    pub username: String,
    pub display_name: Option<String>,
}

/// A post that was found.
#[derive(Debug, Clone, PartialEq, Eq, Default)]
pub struct PostHit {
    pub post_id: String,
    pub author_username: String,
    pub title: Option<String>,
    pub content: String,
}

/// A reply that was found.
#[derive(Debug, Clone, PartialEq, Eq, Default)]
pub struct ReplyHit {
    pub reply_id: String,
    pub post_id: String,
    pub content: String,
}

/// What a search found, by group.
#[derive(Debug, Clone, PartialEq, Eq, Default)]
pub struct SearchPreview {
    pub users: Vec<UserHit>,
    pub posts: Vec<PostHit>,
    pub replies: Vec<ReplyHit>,
}

/// What a [`SearchPreview`] holds.
#[verifier::ext_equal]
pub struct HitsView {
    pub users: Seq<UserHit>,
    pub posts: Seq<PostHit>,
    pub replies: Seq<ReplyHit>,
}

impl View for SearchPreview {
    type V = HitsView;

    open spec fn view(&self) -> HitsView {
        HitsView { users: self.users@, posts: self.posts@, replies: self.replies@ }
    }
}

impl SearchPreview {
    /// Whether nothing was found.
    pub fn is_empty(&self) -> (r: bool)
        ensures
            r == (self@.count() == 0),
    {
        self.users.len() == 0 && self.posts.len() == 0 && self.replies.len() == 0
    }
}

/// One navigable hit.
pub enum Hit {
    User(UserHit),
    Post(PostHit),
    Reply(ReplyHit),
}

impl HitsView {
    pub open spec fn count(self) -> int {
        (self.users.len() + self.posts.len() + self.replies.len()) as int
    }

    /// The hit at a place of the flattened list: users, then posts, then
    /// replies.
    pub open spec fn at(self, i: int) -> Option<Hit> {
        let posts_from = self.users.len();
        let replies_from = self.users.len() + self.posts.len();
        if i < 0 || i >= self.count() {
            None
        } else if i < posts_from {
            Some(Hit::User(self.users[i]))
        } else if i < replies_from {
            Some(Hit::Post(self.posts[i - posts_from]))
        } else {
            Some(Hit::Reply(self.replies[i - replies_from]))
        }
    }
}

/// What is asked of the shell.
#[derive(Debug, Clone, PartialEq, Eq)]
pub enum SearchIntent {
    Run { query: String },
    OpenPost { post_id: String, highlight_reply_id: Option<String> },
    OpenUser { username: String },
    Back,
    Quit,
    /// Nothing is asked.
    Nothing,
}

/// What a [`SearchIntent`] says.
#[verifier::ext_equal]
pub enum SearchIntentView {
    Run { query: Seq<char> },
    OpenPost { post_id: Seq<char>, highlight_reply_id: Option<Seq<char>> },
    OpenUser { username: Seq<char> },
    Back,
    Quit,
    Nothing,
}

impl View for SearchIntent {
    type V = SearchIntentView;

    open spec fn view(&self) -> SearchIntentView {
        match self {
            SearchIntent::Run { query } => SearchIntentView::Run { query: query@ },
            SearchIntent::OpenPost { post_id, highlight_reply_id } => SearchIntentView::OpenPost {
                post_id: post_id@,
                highlight_reply_id: strs::opt_text(*highlight_reply_id),
            },
            SearchIntent::OpenUser { username } => SearchIntentView::OpenUser {
                username: username@,
            },
            SearchIntent::Back => SearchIntentView::Back,
            SearchIntent::Quit => SearchIntentView::Quit,
            SearchIntent::Nothing => SearchIntentView::Nothing,
        }
    }
}

/// The screen.
#[derive(Debug)]
pub struct SearchScreen {
    pub query: String,
    /// Whether the query is being typed, rather than the hits browsed.
    pub editing: bool,
    pub results: Option<SearchPreview>,
    pub loading: bool,
    pub error: Option<String>,
    /// The selected place of the flattened list.
    pub selected: usize,
}

/// What a [`SearchScreen`] holds.
#[verifier::ext_equal]
pub struct SearchView {
    pub query: Seq<char>,
    pub editing: bool,
    pub results: Option<HitsView>,
    pub loading: bool,
    pub error: Option<Seq<char>>,
    pub selected: int,
}

pub open spec fn hits_of(r: Option<SearchPreview>) -> Option<HitsView> {
    match r {
        Some(r) => Some(r@),
        None => None,
    }
}

impl View for SearchScreen {
    type V = SearchView;

    open spec fn view(&self) -> SearchView {
        SearchView {
            query: self.query@,
            editing: self.editing,
            results: hits_of(self.results),
            loading: self.loading,
            error: strs::opt_text(self.error),
            selected: self.selected as int,
        }
    }
}

impl SearchView {
    pub open spec fn started() -> SearchView {
        SearchView {
            query: Seq::empty(),
            editing: true,
            results: None,
            loading: false,
            error: None,
            selected: 0,
        }
    }

    /// How many rows there are to move over.
    pub open spec fn rows(self) -> int {
        match self.results {
            Some(r) => if r.count() < usize::MAX {
                r.count()
            } else {
                usize::MAX as int
            },
            None => 0,
        }
    }

    /// What opening the selected hit asks: a reply opens its post with the reply
    /// picked out.
    pub open spec fn opens(self) -> SearchIntentView {
        match self.results {
            Some(r) => match r.at(self.selected) {
                Some(Hit::User(u)) => SearchIntentView::OpenUser { username: u.username@ },
                Some(Hit::Post(p)) => SearchIntentView::OpenPost {
                    post_id: p.post_id@,
                    highlight_reply_id: None,
                },
                Some(Hit::Reply(r)) => SearchIntentView::OpenPost {
                    post_id: r.post_id@,
                    highlight_reply_id: Some(r.reply_id@),
                },
                None => SearchIntentView::Nothing,
            },
            None => SearchIntentView::Nothing,
        }
    }

    /// The screen and the intent after a key in the query.
    pub open spec fn typed(self, key: KeyEvent) -> (SearchView, SearchIntentView) {
        match key.code {
            KeyCode::Esc => (self, SearchIntentView::Back),
            KeyCode::Enter => {
                let query = strs::trimmed(self.query);
                if query.len() == 0 {
                    (self, SearchIntentView::Nothing)
                } else {
                    (
                        SearchView {
                            editing: false,
                            loading: true,
                            error: None,
                            selected: 0,
                            ..self
                        },
                        SearchIntentView::Run { query },
                    )
                }
            },
            KeyCode::Backspace => (
                SearchView {
                    query: if self.query.len() > 0 {
                        self.query.drop_last()
                    } else {
                        self.query
                    },
                    ..self
                },
                SearchIntentView::Nothing,
            ),
            KeyCode::Char(c) => (
                SearchView {
                    query: if key.control {
                        self.query
                    } else {
                        self.query.push(c)
                    },
                    ..self
                },
                SearchIntentView::Nothing,
            ),
            _ => (self, SearchIntentView::Nothing),
        }
    }

    /// The screen and the intent after a key.
    pub open spec fn keyed(self, key: KeyEvent) -> (SearchView, SearchIntentView) {
        if key.is_quit_spec() {
            (self, SearchIntentView::Quit)
        } else if self.editing {
            self.typed(key)
        } else {
            match key.code {
                KeyCode::Esc => (self, SearchIntentView::Back),
                KeyCode::Char('/') | KeyCode::Char('e') => (
                    SearchView { editing: true, ..self },
                    SearchIntentView::Nothing,
                ),
                KeyCode::Enter => (self, self.opens()),
                code => (
                    SearchView {
                        selected: list_nav::navigated(
                            code,
                            self.selected,
                            self.rows(),
                            false,
                            1,
                        ).0,
                        ..self
                    },
                    SearchIntentView::Nothing,
                ),
            }
        }
    }
}

impl SearchScreen {
    pub fn new() -> (r: SearchScreen)
        ensures
            r@ == SearchView::started(),
    {
        SearchScreen {
            query: String::new(),
            editing: true,
            results: None,
            loading: false,
            error: None,
            selected: 0,
        }
    }

    pub fn is_editing(&self) -> (r: bool)
        ensures
            r == self@.editing,
    {
        self.editing
    }

    /// Insert pasted text, on one line, into the query while it is typed.
    pub fn paste_text(&mut self, text: &str)
        ensures
            final(self)@ == old(self)@.pasted(text@),
    {
        if self.editing {
            self.query.append(collapse_newlines(text).as_str());
        }
    }

    fn row_count(&self) -> (r: usize)
        ensures
            r == self@.rows(),
    {
        match &self.results {
            Some(r) => {
                let a: usize = r.users.len();
                let b: usize = r.posts.len();
                let c: usize = r.replies.len();
                if b > usize::MAX - a || c > usize::MAX - a - b {
                    usize::MAX
                } else {
                    a + b + c
                }
            },
            None => 0,
        }
    }

    /// Take a key and say what is asked of the shell.
    pub fn handle_key(&mut self, key: KeyEvent) -> (r: SearchIntent)
        ensures
            (final(self)@, r@) == old(self)@.keyed(key),
    {
        if key.is_quit() {
            return SearchIntent::Quit;
        }
        if self.editing {
            return self.handle_editing_key(key);
        }
        match key.code {
            KeyCode::Esc => SearchIntent::Back,
            KeyCode::Char('/') | KeyCode::Char('e') => {
                self.editing = true;
                SearchIntent::Nothing
            },
            KeyCode::Enter => self.open_selected(),
            code => {
                let len: usize = self.row_count();
                let _ = list_nav::navigate(code, &mut self.selected, len, false);
                SearchIntent::Nothing
            },
        }
    }

    fn handle_editing_key(&mut self, key: KeyEvent) -> (r: SearchIntent)
        ensures
            (final(self)@, r@) == old(self)@.typed(key),
    {
        match key.code {
            KeyCode::Esc => SearchIntent::Back,
            KeyCode::Enter => {
                let query = trim(self.query.as_str());
                if query.as_str().is_empty() {
                    return SearchIntent::Nothing;
                }
                self.editing = false;
                self.loading = true;
                self.error = None;
                self.selected = 0;
                SearchIntent::Run { query }
            },
            KeyCode::Backspace => {
                let _ = self.query.pop();
                SearchIntent::Nothing
            },
            KeyCode::Char(c) => {
                if !key.control {
                    self.query.push(c);
                }
                SearchIntent::Nothing
            },
            _ => SearchIntent::Nothing,
        }
    }

    /// What opening the selected hit asks.
    pub fn open_selected(&self) -> (r: SearchIntent)
        ensures
            r@ == self@.opens(),
    {
        let hits = match &self.results {
            Some(r) => r,
            None => {
                return SearchIntent::Nothing;
            },
        };
        let mut i: usize = self.selected;
        if i < hits.users.len() {
            return SearchIntent::OpenUser { username: hits.users[i].username.clone() };
        }
        i = i - hits.users.len();
        if i < hits.posts.len() {
            return SearchIntent::OpenPost {
                post_id: hits.posts[i].post_id.clone(),
                highlight_reply_id: None,
            };
        }
        i = i - hits.posts.len();
        if i < hits.replies.len() {
            return SearchIntent::OpenPost {
                post_id: hits.replies[i].post_id.clone(),
                highlight_reply_id: Some(hits.replies[i].reply_id.clone()),
            };
        }
        SearchIntent::Nothing
    }

    /// The hits arrived, or the search failed.
    pub fn apply_results(&mut self, result: Result<SearchPreview, String>)
        ensures
            final(self)@ == old(self)@.answered(result),
    {
        self.loading = false;
        match result {
            Ok(preview) => {
                self.results = Some(preview);
                self.selected = 0;
                self.error = None;
            },
            Err(msg) => {
                self.error = Some(msg);
            },
        }
    }
}

impl SearchView {
    /// The screen after an answer to a query.
    pub open spec fn answered(self, result: Result<SearchPreview, String>) -> SearchView {
        match result {
            Ok(preview) => SearchView {
                loading: false,
                results: Some(preview@),
                selected: 0,
                error: None,
                ..self
            },
            Err(msg) => SearchView { loading: false, error: Some(msg@), ..self },
        }
    }

    /// The screen after a paste.
    pub open spec fn pasted(self, text: Seq<char>) -> SearchView {
        SearchView {
            query: if self.editing {
                self.query + input::collapsed_from(text, 0)
            } else {
                self.query
            },
            ..self
        }
    }
}

impl Default for SearchScreen {
    fn default() -> (r: SearchScreen)
        ensures
            r@ == SearchView::started(),
    {
        SearchScreen::new()
    }
}

// ---------------------------------------------------------------------------
// What is shown.
// ---------------------------------------------------------------------------

/// A text on one line, its white space evened out, cut to `max` columns.
pub open spec fn one_line(s: Seq<char>, max: int) -> Seq<char> {
    text::truncated(strs::joined(strs::words_from(s, 0), " "@), max)
}

/// A text on one line, its white space evened out, cut to `max` columns.
pub fn one_line_preview(s: &str, max: usize) -> (r: String)
    ensures
        r@ == one_line(s@, max as int),
{
    truncate_to_width(join(&words(s), " ").as_str(), max)
}

pub open spec fn user_label(u: UserHit) -> Seq<char> {
    match u.display_name {
        Some(d) if d@.len() > 0 => "@"@ + u.username@ + " · "@ + d@,
        _ => "@"@ + u.username@,
    }
}

pub open spec fn post_label(p: PostHit) -> Seq<char> {
    (match p.title {
        Some(t) if t@.len() > 0 => t@,
        _ => one_line(p.content@, 60),
    }) + "  · @"@ + p.author_username@
}

pub open spec fn reply_label(r: ReplyHit) -> Seq<char> {
    one_line(r.content@, 70)
}

/// The row of a hit.
pub open spec fn hit_row(label: Seq<char>, selected: bool, theme: Theme) -> Seq<draw::SpanView> {
    seq![
        draw::span(
            if selected {
                "▌ "@
            } else {
                "  "@
            },
            theme.accent_spec(),
        ),
        draw::span(
            label,
            if selected {
                theme.accent_spec()
            } else {
                theme.base_spec()
            },
        ),
    ]
}

/// The header of a group.
pub open spec fn group_header(label: Seq<char>, theme: Theme) -> Seq<draw::SpanView> {
    draw::one("── "@ + label + " ──"@, theme.muted_spec())
}

/// The rows of the first `n` users; the one at `sel` is selected.
pub open spec fn user_rows(users: Seq<UserHit>, n: int, sel: int, theme: Theme) -> Seq<
    Seq<draw::SpanView>,
> {
    Seq::new(n as nat, |i: int| hit_row(user_label(users[i]), i == sel, theme))
}

/// The rows of the first `n` posts; the one at `sel` is selected.
pub open spec fn post_rows(posts: Seq<PostHit>, n: int, sel: int, theme: Theme) -> Seq<
    Seq<draw::SpanView>,
> {
    Seq::new(n as nat, |i: int| hit_row(post_label(posts[i]), i == sel, theme))
}

/// The rows of the first `n` replies; the one at `sel` is selected.
pub open spec fn reply_rows(replies: Seq<ReplyHit>, n: int, sel: int, theme: Theme) -> Seq<
    Seq<draw::SpanView>,
> {
    Seq::new(n as nat, |i: int| hit_row(reply_label(replies[i]), i == sel, theme))
}

/// The groups that have hits, each under its header.
pub open spec fn hit_lines(r: HitsView, sel: int, theme: Theme) -> Seq<Seq<draw::SpanView>> {
    (if r.users.len() > 0 {
        seq![group_header("Users"@, theme)] + user_rows(
            r.users,
            r.users.len() as int,
            sel,
            theme,
        )
    } else {
        Seq::empty()
    }) + (if r.posts.len() > 0 {
        seq![group_header("Posts"@, theme)] + post_rows(
            r.posts,
            r.posts.len() as int,
            sel - r.users.len(),
            theme,
        )
    } else {
        Seq::empty()
    }) + (if r.replies.len() > 0 {
        seq![group_header("Replies"@, theme)] + reply_rows(
            r.replies,
            r.replies.len() as int,
            sel - r.users.len() - r.posts.len(),
            theme,
        )
    } else {
        Seq::empty()
    })
}

impl SearchView {
    pub open spec fn body(self, theme: Theme) -> Seq<Seq<draw::SpanView>> {
        if self.loading {
            seq![draw::one("searching…"@, theme.accent_spec())]
        } else if let Some(msg) = self.error {
            seq![draw::one(msg, theme.error_spec())]
        } else {
            match self.results {
                None => seq![draw::one("type a query and press enter"@, theme.muted_spec())],
                Some(r) => if r.count() == 0 {
                    seq![draw::one("no results"@, theme.muted_spec())]
                } else {
                    hit_lines(r, self.selected, theme)
                },
            }
        }
    }

    pub open spec fn query_line(self, theme: Theme) -> Seq<draw::SpanView> {
        let line = seq![
            draw::span("search: "@, theme.muted_spec()),
            draw::span(self.query, theme.base_spec()),
        ];
        if self.editing {
            line.push(draw::span("▏"@, theme.accent_spec()))
        } else {
            line
        }
    }
}

fn result_line(label: String, selected: bool, theme: &Theme) -> (r: Line)
    ensures
        r@ == hit_row(label@, selected, *theme),
{
    let mut spans: Vec<Span> = Vec::new();
    if selected {
        push_span(&mut spans, Span::of("▌ ", theme.accent_style()));
        push_span(&mut spans, Span::new(label, theme.accent_style()));
    } else {
        push_span(&mut spans, Span::of("  ", theme.accent_style()));
        push_span(&mut spans, Span::new(label, theme.base()));
    }
    assert(draw::span_views(spans@) =~= hit_row(label@, selected, *theme));
    Line::new(spans)
}

fn section_header(label: &str, theme: &Theme) -> (r: Line)
    ensures
        r@ == group_header(label@, *theme),
{
    let mut s = "── ".to_owned();
    s.append(label);
    s.append(" ──");
    Line::single(s, theme.muted_style())
}

fn push_users(lines: &mut Vec<Line>, users: &Vec<UserHit>, sel: usize, theme: &Theme)
    ensures
        draw::line_views(final(lines)@) == draw::line_views(old(lines)@) + (if users@.len() > 0 {
            seq![group_header("Users"@, *theme)] + user_rows(
                users@,
                users@.len() as int,
                sel as int,
                *theme,
            )
        } else {
            Seq::empty()
        }),
{
    if users.len() == 0 {
        assert(draw::line_views(lines@) =~= draw::line_views(lines@)
            + Seq::<Seq<draw::SpanView>>::empty());
        return;
    }
    let ghost before = draw::line_views(lines@);
    let ghost header = seq![group_header("Users"@, *theme)];
    push_line(lines, section_header("Users", theme));
    let mut i: usize = 0;
    assert(draw::line_views(lines@) =~= before + (header + user_rows(
        users@,
        0,
        sel as int,
        *theme,
    )));
    while i < users.len()
        invariant
            i <= users@.len(),
            draw::line_views(lines@) == before + (header + user_rows(
                users@,
                i as int,
                sel as int,
                *theme,
            )),
        decreases users@.len() - i,
    {
        let u = &users[i];
        let mut label = "@".to_owned();
        label.append(u.username.as_str());
        if let Some(d) = &u.display_name {
            if !d.as_str().is_empty() {
                label.append(" · ");
                label.append(d.as_str());
            }
        }
        push_line(lines, result_line(label, i == sel, theme));
        i = i + 1;
        assert(draw::line_views(lines@) =~= before + (header + user_rows(
            users@,
            i as int,
            sel as int,
            *theme,
        )));
    }
}

fn push_posts(lines: &mut Vec<Line>, posts: &Vec<PostHit>, sel: Option<usize>, theme: &Theme)
    ensures
        draw::line_views(final(lines)@) == draw::line_views(old(lines)@) + (if posts@.len() > 0 {
            seq![group_header("Posts"@, *theme)] + post_rows(
                posts@,
                posts@.len() as int,
                place(sel),
                *theme,
            )
        } else {
            Seq::empty()
        }),
{
    if posts.len() == 0 {
        assert(draw::line_views(lines@) =~= draw::line_views(lines@)
            + Seq::<Seq<draw::SpanView>>::empty());
        return;
    }
    let ghost before = draw::line_views(lines@);
    let ghost header = seq![group_header("Posts"@, *theme)];
    push_line(lines, section_header("Posts", theme));
    let mut i: usize = 0;
    assert(draw::line_views(lines@) =~= before + (header + post_rows(
        posts@,
        0,
        place(sel),
        *theme,
    )));
    while i < posts.len()
        invariant
            i <= posts@.len(),
            draw::line_views(lines@) == before + (header + post_rows(
                posts@,
                i as int,
                place(sel),
                *theme,
            )),
        decreases posts@.len() - i,
    {
        let p = &posts[i];
        let mut label = match &p.title {
            Some(t) => if t.as_str().is_empty() {
                one_line_preview(p.content.as_str(), 60)
            } else {
                t.clone()
            },
            None => one_line_preview(p.content.as_str(), 60),
        };
        label.append("  · @");
        label.append(p.author_username.as_str());
        push_line(lines, result_line(label, is_at(sel, i), theme));
        i = i + 1;
        assert(draw::line_views(lines@) =~= before + (header + post_rows(
            posts@,
            i as int,
            place(sel),
            *theme,
        )));
    }
}

fn push_replies(lines: &mut Vec<Line>, replies: &Vec<ReplyHit>, sel: Option<usize>, theme: &Theme)
    ensures
        draw::line_views(final(lines)@) == draw::line_views(old(lines)@) + (if replies@.len() > 0 {
            seq![group_header("Replies"@, *theme)] + reply_rows(
                replies@,
                replies@.len() as int,
                place(sel),
                *theme,
            )
        } else {
            Seq::empty()
        }),
{
    if replies.len() == 0 {
        assert(draw::line_views(lines@) =~= draw::line_views(lines@)
            + Seq::<Seq<draw::SpanView>>::empty());
        return;
    }
    let ghost before = draw::line_views(lines@);
    let ghost header = seq![group_header("Replies"@, *theme)];
    push_line(lines, section_header("Replies", theme));
    let mut i: usize = 0;
    assert(draw::line_views(lines@) =~= before + (header + reply_rows(
        replies@,
        0,
        place(sel),
        *theme,
    )));
    while i < replies.len()
        invariant
            i <= replies@.len(),
            draw::line_views(lines@) == before + (header + reply_rows(
                replies@,
                i as int,
                place(sel),
                *theme,
            )),
        decreases replies@.len() - i,
    {
        let label = one_line_preview(replies[i].content.as_str(), 70);
        push_line(lines, result_line(label, is_at(sel, i), theme));
        i = i + 1;
        assert(draw::line_views(lines@) =~= before + (header + reply_rows(
            replies@,
            i as int,
            place(sel),
            *theme,
        )));
    }
}

/// A place in a group, or one before it.
pub open spec fn place(sel: Option<usize>) -> int {
    match sel {
        Some(i) => i as int,
        None => -1,
    }
}

fn is_at(sel: Option<usize>, i: usize) -> (r: bool)
    ensures
        r == (i == place(sel)),
{
    match sel {
        Some(s) => s == i,
        None => false,
    }
}

proof fn lemma_place_before_group(
    posts: Seq<PostHit>,
    replies: Seq<ReplyHit>,
    a: int,
    b: int,
    theme: Theme,
)
    requires
        a < 0,
        b < 0,
    ensures
        post_rows(posts, posts.len() as int, a, theme) == post_rows(
            posts,
            posts.len() as int,
            b,
            theme,
        ),
        reply_rows(replies, replies.len() as int, a, theme) == reply_rows(
            replies,
            replies.len() as int,
            b,
            theme,
        ),
{
    assert(post_rows(posts, posts.len() as int, a, theme) =~= post_rows(
        posts,
        posts.len() as int,
        b,
        theme,
    ));
    assert(reply_rows(replies, replies.len() as int, a, theme) =~= reply_rows(
        replies,
        replies.len() as int,
        b,
        theme,
    ));
}

/// What one render shows.
#[derive(Debug)]
pub struct SearchFrame {
    pub title: Line,
    pub query: Line,
    pub body: Vec<Line>,
    pub hint: Line,
}

impl SearchScreen {
    /// The lines of the body.
    pub fn body_lines(&self, theme: &Theme) -> (lines: Vec<Line>)
        ensures
            draw::line_views(lines@) == self@.body(*theme),
    {
        let mut lines: Vec<Line> = Vec::new();
        if self.loading {
            push_line(&mut lines, Line::of("searching…", theme.accent_style()));
            assert(draw::line_views(lines@) =~= self@.body(*theme));
            return lines;
        }
        if let Some(msg) = &self.error {
            push_line(&mut lines, Line::of(msg.as_str(), theme.error_style()));
            assert(draw::line_views(lines@) =~= self@.body(*theme));
            return lines;
        }
        let r = match &self.results {
            Some(r) => r,
            None => {
                push_line(
                    &mut lines,
                    Line::of("type a query and press enter", theme.muted_style()),
                );
                assert(draw::line_views(lines@) =~= self@.body(*theme));
                return lines;
            },
        };
        if r.is_empty() {
            push_line(&mut lines, Line::of("no results", theme.muted_style()));
            assert(draw::line_views(lines@) =~= self@.body(*theme));
            return lines;
        }
        let in_posts: Option<usize> = if self.selected >= r.users.len() {
            Some(self.selected - r.users.len())
        } else {
            None
        };
        let in_replies: Option<usize> = match in_posts {
            Some(i) => if i >= r.posts.len() {
                Some(i - r.posts.len())
            } else {
                None
            },
            None => None,
        };
        push_users(&mut lines, &r.users, self.selected, theme);
        push_posts(&mut lines, &r.posts, in_posts, theme);
        push_replies(&mut lines, &r.replies, in_replies, theme);
        proof {
            let sel = self.selected as int;
            if sel < r.users@.len() {
                lemma_place_before_group(
                    r.posts@,
                    Seq::empty(),
                    -1,
                    sel - r.users@.len(),
                    *theme,
                );
            }
            if sel < r.users@.len() + r.posts@.len() {
                lemma_place_before_group(
                    Seq::empty(),
                    r.replies@,
                    -1,
                    sel - r.users@.len() - r.posts@.len(),
                    *theme,
                );
            }
            assert(draw::line_views(lines@) =~= self@.body(*theme));
        }
        lines
    }

    /// What the screen shows.
    pub fn render(&self, theme: &Theme) -> (f: SearchFrame)
        ensures
            f.title@ == draw::one(" cs-tui • search "@, theme.heading_spec()),
            f.query@ == self@.query_line(*theme),
            draw::line_views(f.body@) == self@.body(*theme),
            f.hint@ == draw::one(
                if self@.editing {
                    "enter search · esc close"@
                } else {
                    "↑↓ move · enter open · / edit · esc close"@
                },
                theme.muted_spec(),
            ),
    {
        let mut spans: Vec<Span> = Vec::new();
        push_span(&mut spans, Span::of("search: ", theme.muted_style()));
        push_span(&mut spans, Span::of(self.query.as_str(), theme.base()));
        if self.editing {
            push_span(&mut spans, Span::of("▏", theme.accent_style()));
        }
        assert(draw::span_views(spans@) =~= self@.query_line(*theme));
        let hint = if self.editing {
            "enter search · esc close"
        } else {
            "↑↓ move · enter open · / edit · esc close"
        };
        SearchFrame {
            title: Line::of(" cs-tui • search ", theme.heading_style()),
            query: Line::new(spans),
            body: self.body_lines(theme),
            hint: Line::of(hint, theme.muted_style()),
        }
    }
}

// ---------------------------------------------------------------------------
// Laws.
// ---------------------------------------------------------------------------

/// Only a query that says something is ever run, and running it ends the
/// typing.
pub proof fn law_blank_queries_are_not_run(s: SearchView, key: KeyEvent)
    ensures
        s.keyed(key).1 matches SearchIntentView::Run { query } ==> query.len() > 0 && query
            == strs::trimmed(s.query) && !s.keyed(key).0.editing && s.keyed(key).0.loading,
{
}

/// Every hit has its place in the flattened list, and there are no others.
pub proof fn law_every_hit_has_a_place(r: HitsView, i: int)
    ensures
        0 <= i < r.users.len() ==> r.at(i) == Some(Hit::User(r.users[i])),
        0 <= i < r.posts.len() ==> r.at(r.users.len() + i) == Some(Hit::Post(r.posts[i])),
        0 <= i < r.replies.len() ==> r.at(r.users.len() + r.posts.len() + i) == Some(
            Hit::Reply(r.replies[i]),
        ),
        (r.at(i) is Some) == (0 <= i < r.count()),
{
}

/// Enter on the hits opens the one at the selected place: a user by name, a post
/// by its id, and a reply by its post's id with the reply picked out.
pub proof fn law_enter_opens_the_selected_hit(s: SearchView, key: KeyEvent, r: HitsView)
    requires
        !s.editing,
        key.code == KeyCode::Enter,
        s.results == Some(r),
    ensures
        ({
            let i = s.selected;
            let u = r.users.len() as int;
            let p = r.posts.len() as int;
            let n = r.replies.len() as int;
            &&& s.keyed(key).0 == s
            &&& 0 <= i < u ==> s.keyed(key).1 == (SearchIntentView::OpenUser {
                username: r.users[i].username@,
            })
            &&& u <= i < u + p ==> s.keyed(key).1 == (SearchIntentView::OpenPost {
                post_id: r.posts[i - u].post_id@,
                highlight_reply_id: None,
            })
            &&& u + p <= i < u + p + n ==> s.keyed(key).1 == (SearchIntentView::OpenPost {
                post_id: r.replies[i - u - p].post_id@,
                highlight_reply_id: Some(r.replies[i - u - p].reply_id@),
            })
            &&& !(0 <= i < u + p + n) ==> s.keyed(key).1 == SearchIntentView::Nothing
        }),
{
}

/// While the query is typed, a character goes to its end, backspace takes the last
/// one off, Enter asks for what was typed, and nothing else changes it.
pub proof fn law_typing_edits_the_query(s: SearchView, key: KeyEvent, c: char)
    requires
        s.editing,
    ensures
        key.code == KeyCode::Char(c) && !key.control ==> s.keyed(key) == (
            SearchView { query: s.query.push(c), ..s },
            SearchIntentView::Nothing,
        ),
        key.code == KeyCode::Backspace && s.query.len() > 0 ==> s.keyed(key) == (
            SearchView { query: s.query.drop_last(), ..s },
            SearchIntentView::Nothing,
        ),
        key.code == KeyCode::Enter && (exists|k: int|
            0 <= k < s.query.len() && !strs::white_space(#[trigger] s.query[k])) ==> s.keyed(key)
            == (
            SearchView { editing: false, loading: true, error: None, selected: 0, ..s },
            SearchIntentView::Run { query: strs::trimmed(s.query) },
        ),
        key.code == KeyCode::Esc ==> s.keyed(key) == (s, SearchIntentView::Back),
        key.code != KeyCode::Backspace && !(key.code is Char && !key.control) ==> s.keyed(
            key,
        ).0.query == s.query,
{
    strs::law_trimming_takes_only_outer_white_space(s.query);
}

/// While the hits are browsed, a step goes to the neighbor and stays among the
/// hits, the query is taken up again on demand, and the hits stay as they are.
pub proof fn law_browsing_moves_over_the_hits(s: SearchView, key: KeyEvent, r: HitsView)
    requires
        !s.editing,
        s.results == Some(r),
        0 <= s.selected,
        r.users.len() + r.posts.len() + r.replies.len() <= usize::MAX,
    ensures
        ({
            let n = r.users.len() + r.posts.len() + r.replies.len();
            let after = s.keyed(key).0;
            &&& (key.code == KeyCode::Down || key.code == KeyCode::Char('j')) ==> after
                == (SearchView {
                selected: if s.selected + 1 < n {
                    s.selected + 1
                } else {
                    s.selected
                },
                ..s
            })
            &&& (key.code == KeyCode::Up || key.code == KeyCode::Char('k')) ==> after
                == (SearchView {
                selected: if s.selected > 0 {
                    s.selected - 1
                } else {
                    0
                },
                ..s
            })
            &&& (key.code == KeyCode::Char('/') || key.code == KeyCode::Char('e')) ==> after
                == (SearchView { editing: true, ..s })
            &&& key.code == KeyCode::Esc ==> s.keyed(key) == (s, SearchIntentView::Back)
            &&& s.selected < n ==> after.selected < n
            &&& after.results == s.results && after.query == s.query
        }),
        key.code == KeyCode::Char('c') && key.control ==> s.keyed(key) == (
            s,
            SearchIntentView::Quit,
        ),
{
}

/// Every hit is shown on a row of its own, below its group's header and in order,
/// and exactly the selected one is marked.
pub proof fn law_every_hit_is_shown(r: HitsView, sel: int, theme: Theme, i: int)
    ensures
        ({
            let lines = hit_lines(r, sel, theme);
            let u = r.users.len() as int;
            let p = r.posts.len() as int;
            let n = r.replies.len() as int;
            let posts_from = if u > 0 {
                u + 1
            } else {
                0
            };
            let replies_from = posts_from + if p > 0 {
                p + 1
            } else {
                0
            };
            &&& 0 <= i < u ==> lines[1 + i] == hit_row(user_label(r.users[i]), i == sel, theme)
            &&& 0 <= i < p ==> lines[posts_from + 1 + i] == hit_row(
                post_label(r.posts[i]),
                u + i == sel,
                theme,
            )
            &&& 0 <= i < n ==> lines[replies_from + 1 + i] == hit_row(
                reply_label(r.replies[i]),
                u + p + i == sel,
                theme,
            )
            &&& lines.len() == replies_from + if n > 0 {
                n + 1
            } else {
                0
            }
        }),
{
}

/// The row of a hit says who or what it is; the selected row has the bar and the
/// accent, and no other has either.
pub proof fn law_rows_name_their_hits(
    u: UserHit,
    p: PostHit,
    label: Seq<char>,
    selected: bool,
    theme: Theme,
)
    ensures
        ({
            let row = hit_row(label, selected, theme);
            &&& row.len() == 2
            &&& row[1].content == label
            &&& row[0].content == (if selected {
                seq!['▌', ' ']
            } else {
                seq![' ', ' ']
            })
            &&& selected ==> row[1].style == theme.accent_spec()
            &&& !selected ==> row[1].style == theme.base_spec()
        }),
        user_label(u)[0] == '@',
        user_label(u).subrange(1, (1 + u.username@.len()) as int) == u.username@,
        match u.display_name {
            Some(d) if d@.len() > 0 => user_label(u).len() == 4 + u.username@.len() + d@.len()
                && user_label(u).skip(user_label(u).len() - d@.len()) == d@,
            _ => user_label(u).len() == 1 + u.username@.len(),
        },
        post_label(p).skip(post_label(p).len() - p.author_username@.len()) == p.author_username@,
        p.title matches Some(t) ==> t@.len() > 0 ==> post_label(p).take(t@.len() as int) == t@,
{
    reveal_strlit("▌ ");
    reveal_strlit("  ");
    reveal_strlit("@");
    reveal_strlit(" · ");
    reveal_strlit("  · @");
    assert("▌ "@ =~= seq!['▌', ' ']);
    assert("  "@ =~= seq![' ', ' ']);
    let l = user_label(u);
    assert(l.subrange(1, (1 + u.username@.len()) as int) =~= u.username@);
    if let Some(d) = u.display_name {
        if d@.len() > 0 {
            assert(l.skip(l.len() - d@.len()) =~= d@);
        }
    }
    let q = post_label(p);
    assert(q.skip(q.len() - p.author_username@.len()) =~= p.author_username@);
    if let Some(t) = p.title {
        if t@.len() > 0 {
            assert(q.take(t@.len() as int) =~= t@);
        }
    }
}

/// A failure is shown in place of the hits, and so is a search that is under way.
pub proof fn law_states_are_told_apart(s: SearchView, theme: Theme)
    ensures
        s.loading ==> s.body(theme).len() == 1 && s.body(theme)[0][0].content == "searching…"@,
        !s.loading ==> (s.error matches Some(msg) ==> s.body(theme).len() == 1 && s.body(
            theme,
        )[0][0].content == msg),
        !s.loading && s.error is None ==> (s.results matches Some(r) ==> (if r.users.len() == 0
            && r.posts.len() == 0 && r.replies.len() == 0 {
            s.body(theme).len() == 1 && s.body(theme)[0][0].content == "no results"@
        } else {
            s.body(theme) == hit_lines(r, s.selected, theme)
        })),
        s.query_line(theme)[1].content == s.query,
        (s.query_line(theme).len() == 3) == s.editing,
{
}

/// An answer replaces the hits and is shown from its first row; a failed one says why and
/// leaves the hits there were.
pub proof fn law_answers_replace_the_hits(s: SearchView, got: SearchPreview, msg: String)
    ensures
        ({
            let a = s.answered(Ok(got));
            &&& a.results == Some(got@)
            &&& a.selected == 0 && !a.loading && a.error is None
            &&& a.query == s.query && a.editing == s.editing
        }),
        ({
            let a = s.answered(Err(msg));
            &&& a.error == Some(msg@) && !a.loading
            &&& a.results == s.results && a.selected == s.selected && a.query == s.query
        }),
{
}

/// A paste is added to the query on one line while it is edited, and else ignored.
pub proof fn law_a_paste_is_added_to_the_query(s: SearchView, text: Seq<char>)
    ensures
        s.editing ==> s.pasted(text).query == s.query + input::collapsed_from(text, 0),
        !s.editing ==> s.pasted(text) == s,
        s.pasted(text).results == s.results,
        s.pasted(text).editing == s.editing,
{
}

/// A search starts with an empty query that is being typed.
pub proof fn law_searches_start_with_the_query()
    ensures
        SearchView::started().editing,
        SearchView::started().query.len() == 0,
        SearchView::started().results is None,
        !SearchView::started().loading,
        SearchView::started().error is None,
        SearchView::started().selected == 0,
{
}

/// A short preview is the words of the text with one space between them.
pub proof fn law_previews_are_on_one_line(s: Seq<char>, max: int)
    ensures
        text::str_width(strs::joined(strs::words_from(s, 0), " "@)) <= max ==> one_line(s, max)
            == strs::joined(strs::words_from(s, 0), " "@),
{
}

} // verus!
