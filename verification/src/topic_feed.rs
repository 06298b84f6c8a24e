//! Topic feed screen: the entries tagged with one topic.
use vstd::prelude::*;

use crate::audio::{self, JukeboxTrack};
use crate::config::{self, Config};
use crate::draw::{self, push_block, push_line, push_span, Line, Span};
use crate::flag::{self, FlagPrompt, FlagPromptKey};
use crate::images;
use crate::key::{KeyCode, KeyEvent};
use crate::list::{self, ListBody, Page, TabState, TabView};
use crate::list_nav::{self, ListNav};
use crate::markdown;
use crate::model::{self, copy_attachments, visible_entries, Entry};
use crate::strs::{self, clone_opt, clone_strings, decimal_text, same};
use crate::text;
use crate::theme::Theme;

verus! {

/// What is asked of the shell.
#[derive(Debug, Clone, PartialEq, Eq)]
pub enum TopicFeedIntent {
    /// Return to the topics index.
    Back,
    LoadMore,
    Refresh,
    OpenSelected { post_id: String },
    /// Edit the selected entry, whose current values travel along. It is
    /// offered on every entry: only the server knows who may edit what.
    EditEntry {
        post_id: String,
        content: String,
        title: Option<String>,
        topics: Vec<String>,
        is_public: bool,
        is_nsfw: bool,
    },
    /// Report the selected entry; a blank reason travels as `None`.
    FlagEntry { post_id: String, reason: Option<String> },
    /// Play or toggle the selected entry's track, if it has one.
    PlayJukebox(Option<JukeboxTrack>),
    /// Open the selected entry's track in the browser.
    OpenJukebox(String),
    /// Follow or unfollow this topic.
    ToggleFollow { slug: String },
    /// Mute or unmute this topic.
    ToggleMute { slug: String },
    Quit,
    /// Nothing is asked.
    Nothing,
}

/// What a [`TopicFeedIntent`] says.
#[verifier::ext_equal]
pub enum TopicIntentView {
    Back,
    LoadMore,
    Refresh,
    OpenSelected { post_id: Seq<char> },
    EditEntry {
        post_id: Seq<char>,
        content: Seq<char>,
        title: Option<Seq<char>>,
        topics: Seq<String>,
        is_public: bool,
        is_nsfw: bool,
    },
    FlagEntry { post_id: Seq<char>, reason: Option<Seq<char>> },
    PlayJukebox(Option<JukeboxTrack>),
    OpenJukebox(Seq<char>),
    ToggleFollow { slug: Seq<char> },
    ToggleMute { slug: Seq<char> },
    Quit,
    Nothing,
}

impl View for TopicFeedIntent {
    type V = TopicIntentView;

    open spec fn view(&self) -> TopicIntentView {
        match self {
            TopicFeedIntent::Back => TopicIntentView::Back,
            TopicFeedIntent::LoadMore => TopicIntentView::LoadMore,
            TopicFeedIntent::Refresh => TopicIntentView::Refresh,
            TopicFeedIntent::OpenSelected { post_id } => TopicIntentView::OpenSelected {
                post_id: post_id@,
            },
            TopicFeedIntent::EditEntry { post_id, content, title, topics, is_public, is_nsfw } =>
                TopicIntentView::EditEntry {
                post_id: post_id@,
                content: content@,
                title: strs::opt_text(*title),
                topics: topics@,
                is_public: *is_public,
                is_nsfw: *is_nsfw,
            },
            TopicFeedIntent::FlagEntry { post_id, reason } => TopicIntentView::FlagEntry {
                post_id: post_id@,
                reason: strs::opt_text(*reason),
            },
            TopicFeedIntent::PlayJukebox(t) => TopicIntentView::PlayJukebox(*t),
            TopicFeedIntent::OpenJukebox(url) => TopicIntentView::OpenJukebox(url@),
            TopicFeedIntent::ToggleFollow { slug } => TopicIntentView::ToggleFollow {
                slug: slug@,
            },
            TopicFeedIntent::ToggleMute { slug } => TopicIntentView::ToggleMute { slug: slug@ },
            TopicFeedIntent::Quit => TopicIntentView::Quit,
            TopicFeedIntent::Nothing => TopicIntentView::Nothing,
        }
    }
}

/// The screen.
#[derive(Debug)]
pub struct TopicFeedScreen {
    pub slug: String,
    pub list: TabState<Entry>,
    pub include_nsfw: bool,
    /// Whether the user follows and mutes this topic.
    pub followed: bool,
    pub muted: bool,
    /// The open flag-reason prompt, on an entry's post id. While it is open it
    /// owns every key the screen sees.
    pub flag_prompt: Option<FlagPrompt<String>>,
}

/// What a [`TopicFeedScreen`] holds.
#[verifier::ext_equal]
pub struct TopicView {
    pub slug: Seq<char>,
    pub list: TabView<model::EntryView>,
    pub include_nsfw: bool,
    pub followed: bool,
    pub muted: bool,
    pub flag_prompt: Option<flag::FlagView<String>>,
}

/// What an optional prompt holds.
pub open spec fn prompt_view(p: Option<FlagPrompt<String>>) -> Option<flag::FlagView<String>> {
    match p {
        Some(p) => Some(p@),
        None => None,
    }
}

impl View for TopicFeedScreen {
    type V = TopicView;

    open spec fn view(&self) -> TopicView {
        TopicView {
            slug: self.slug@,
            list: model::entry_tab(self.list@),
            include_nsfw: self.include_nsfw,
            followed: self.followed,
            muted: self.muted,
            flag_prompt: prompt_view(self.flag_prompt),
        }
    }
}

/// The intent that edits an entry.
pub open spec fn edit_of(e: model::EntryView) -> TopicIntentView {
    TopicIntentView::EditEntry {
        post_id: e.post_id,
        content: e.content,
        title: e.title,
        topics: e.topics,
        is_public: e.is_public,
        is_nsfw: e.is_nsfw,
    }
}

/// A list emptied to be fetched again.
pub open spec fn cleared(l: TabView<model::EntryView>) -> TabView<model::EntryView> {
    TabView {
        items: Seq::empty(),
        next_cursor: None,
        selected: 0,
        loading: true,
        error: None,
        ..l
    }
}

/// An entry after a fresh copy of it was folded in.
pub open spec fn refreshed(e: model::EntryView, fresh: model::EntryView) -> model::EntryView {
    model::EntryView {
        content: fresh.content,
        title: fresh.title,
        topics: fresh.topics,
        attachments: fresh.attachments,
        is_public: fresh.is_public,
        is_nsfw: fresh.is_nsfw,
        edited_at: fresh.edited_at,
        replies_count: fresh.replies_count,
        bookmarks_count: fresh.bookmarks_count,
        ..e
    }
}

/// Where the first entry with that id stands at or after position `i`.
pub open spec fn entry_index(items: Seq<model::EntryView>, id: Seq<char>, i: int) -> Option<int>
    decreases items.len() - i,
{
    if i < 0 || i >= items.len() {
        None
    } else if items[i].post_id == id {
        Some(i)
    } else {
        entry_index(items, id, i + 1)
    }
}

impl TopicView {
    /// The positions of the entries that are shown.
    pub open spec fn shown(self) -> Seq<usize> {
        model::visible(self.list.items, self.include_nsfw)
    }

    /// The highlighted entry, among those that are shown.
    pub open spec fn selected(self) -> Option<model::EntryView> {
        if 0 <= self.list.selected < self.shown().len() {
            Some(self.list.items[self.shown()[self.list.selected] as int])
        } else {
            None
        }
    }

    /// The screen and the intent after a key that a prompt gets.
    pub open spec fn prompted(self, prompt: flag::FlagView<String>, key: KeyEvent) -> (
        TopicView,
        TopicIntentView,
    ) {
        match flag::key_outcome(key) {
            FlagPromptKey::Consumed => (
                TopicView { flag_prompt: Some(prompt.typed(key)), ..self },
                TopicIntentView::Nothing,
            ),
            FlagPromptKey::Cancelled => (
                TopicView { flag_prompt: None, ..self },
                TopicIntentView::Nothing,
            ),
            FlagPromptKey::Submitted => (
                TopicView { flag_prompt: None, ..self },
                TopicIntentView::FlagEntry {
                    post_id: prompt.target@,
                    reason: flag::sent_reason(prompt.reason),
                },
            ),
        }
    }

    /// The screen and the intent after a key on the list, once no page is on
    /// its way and the key did not move the selection.
    pub open spec fn acted(self, code: KeyCode) -> (TopicView, TopicIntentView) {
        match code {
            KeyCode::Char('r') => (
                TopicView { list: cleared(self.list), ..self },
                TopicIntentView::Refresh,
            ),
            KeyCode::Enter => (
                self,
                match self.selected() {
                    Some(e) => TopicIntentView::OpenSelected { post_id: e.post_id },
                    None => TopicIntentView::Nothing,
                },
            ),
            KeyCode::Char('p') => (
                self,
                TopicIntentView::PlayJukebox(
                    match self.selected() {
                        Some(e) => audio::track_of(e.attachments),
                        None => None,
                    },
                ),
            ),
            KeyCode::Char('o') => (
                self,
                match self.selected() {
                    Some(e) => match audio::url_of(e.attachments) {
                        Some(url) => TopicIntentView::OpenJukebox(url@),
                        None => TopicIntentView::Nothing,
                    },
                    None => TopicIntentView::Nothing,
                },
            ),
            KeyCode::Char('e') => (
                self,
                match self.selected() {
                    Some(e) => edit_of(e),
                    None => TopicIntentView::Nothing,
                },
            ),
            _ => (self, TopicIntentView::Nothing),
        }
    }

    /// Whether `next` follows from this screen by opening a prompt on the
    /// highlighted entry, if there is one.
    pub open spec fn opens_prompt(self, next: TopicView) -> bool {
        match self.selected() {
            Some(e) => {
                &&& next.flag_prompt matches Some(p)
                &&& p.target@ == e.post_id
                &&& p == flag::FlagView::opened(p.target)
                &&& next == (TopicView { flag_prompt: next.flag_prompt, ..self })
            },
            None => next == self,
        }
    }

    /// The screen after the movement keys were tried, and what they did.
    pub open spec fn moved(self, code: KeyCode) -> (TopicView, ListNav) {
        let (selected, nav) = list_nav::navigated(
            code,
            self.list.selected,
            self.shown().len() as int,
            self.list.next_cursor is Some,
            1,
        );
        (
            TopicView {
                list: TabView {
                    selected,
                    loading: self.list.loading || nav == ListNav::LoadMore,
                    ..self.list
                },
                ..self
            },
            nav,
        )
    }

    /// Whether a key leads from this screen to `next` with that intent. Follow
    /// and mute work while entries load; the list waits.
    pub open spec fn answers(self, key: KeyEvent, next: TopicView, intent: TopicIntentView) -> bool {
        if key.is_quit_spec() {
            next == self && intent == TopicIntentView::Quit
        } else if let Some(prompt) = self.flag_prompt {
            (next, intent) == self.prompted(prompt, key)
        } else if key.code == KeyCode::Backspace {
            next == self && intent == TopicIntentView::Back
        } else if key.code == KeyCode::Char('f') {
            next == self && intent == (TopicIntentView::ToggleFollow { slug: self.slug })
        } else if key.code == KeyCode::Char('m') {
            next == self && intent == (TopicIntentView::ToggleMute { slug: self.slug })
        } else if self.list.loading {
            next == self && intent == TopicIntentView::Nothing
        } else {
            let (moved, nav) = self.moved(key.code);
            match nav {
                ListNav::LoadMore => next == moved && intent == TopicIntentView::LoadMore,
                ListNav::Moved => next == moved && intent == TopicIntentView::Nothing,
                ListNav::Ignored => if key.code == KeyCode::Char('F') {
                    moved.opens_prompt(next) && intent == TopicIntentView::Nothing
                } else {
                    (next, intent) == moved.acted(key.code)
                },
            }
        }
    }

    /// The screen after a fresh copy of one entry was folded in: the selection
    /// goes back to the last row that is shown when it was past it.
    pub open spec fn with_fresh(self, fresh: model::EntryView) -> TopicView {
        match entry_index(self.list.items, fresh.post_id, 0) {
            Some(i) => {
                let items = self.list.items.update(i, refreshed(self.list.items[i], fresh));
                let count = model::visible(items, self.include_nsfw).len();
                TopicView {
                    list: TabView {
                        items,
                        selected: if self.list.selected < count {
                            self.list.selected
                        } else if count == 0 {
                            0
                        } else {
                            count - 1
                        },
                        ..self.list
                    },
                    ..self
                }
            },
            None => self,
        }
    }

    /// Whether an entry with that id is loaded.
    pub open spec fn holds(self, post_id: Seq<char>) -> bool {
        entry_index(self.list.items, post_id, 0) is Some
    }

    /// The screen after a paste: only an open prompt takes it.
    pub open spec fn pasted(self, text: Seq<char>) -> TopicView {
        TopicView {
            flag_prompt: match self.flag_prompt {
                Some(p) => Some(p.pasted(text)),
                None => None,
            },
            ..self
        }
    }

    /// The screen with the selection on the first row when it was past the rows
    /// that are shown.
    pub open spec fn reset(self) -> TopicView {
        if self.list.selected >= self.shown().len() {
            TopicView { list: TabView { selected: 0, ..self.list }, ..self }
        } else {
            self
        }
    }
}

/// How many items an initial page brings.
pub open spec fn page_len(page: Page<Entry>) -> int {
    match page {
        Ok((items, _)) => items@.len() as int,
        Err(_) => 0,
    }
}

impl TopicView {
    /// The screen once it is known how the reader stands to the topic.
    pub open spec fn with_state(self, followed: bool, muted: bool) -> TopicView {
        TopicView { followed, muted, ..self }
    }

    /// The screen without its prompt, and whether there was one.
    pub open spec fn without_prompt(self) -> (TopicView, bool) {
        (TopicView { flag_prompt: None, ..self }, self.flag_prompt is Some)
    }
}

impl TopicFeedScreen {
    /// A screen for the topic `slug`, waiting for its first page.
    pub fn new(slug: String, cfg: &Config) -> (r: TopicFeedScreen)
        ensures
            r@ == (TopicView {
                slug: slug@,
                list: TabView { loading: true, ..TabView::fresh() },
                include_nsfw: cfg.nsfw,
                followed: false,
                muted: false,
                flag_prompt: None,
            }),
    {
        let r = TopicFeedScreen {
            slug,
            list: TabState::loading(),
            include_nsfw: cfg.nsfw,
            followed: false,
            muted: false,
            flag_prompt: None,
        };
        assert(r@.list.items =~= Seq::<model::EntryView>::empty());
        r
    }

    /// Update the follow and mute state of this topic.
    pub fn set_topic_state(&mut self, followed: bool, muted: bool)
        ensures
            final(self)@ == old(self)@.with_state(followed, muted),
    {
        self.followed = followed;
        self.muted = muted;
    }

    /// Whether a field is capturing text: only while the prompt is open.
    pub fn is_text_input(&self) -> (r: bool)
        ensures
            r == (self@.flag_prompt is Some),
    {
        self.flag_prompt.is_some()
    }

    /// Close an open prompt without reporting anything; says whether there was
    /// one.
    pub fn cancel_flag_prompt(&mut self) -> (r: bool)
        ensures
            (final(self)@, r) == old(self)@.without_prompt(),
    {
        let open = self.flag_prompt.is_some();
        self.flag_prompt = None;
        open
    }

    /// Insert pasted text into the prompt; nothing else captures text here.
    pub fn paste_text(&mut self, text: &str)
        ensures
            final(self)@ == old(self)@.pasted(text@),
    {
        if let Some(mut prompt) = self.flag_prompt.take() {
            prompt.paste(text);
            self.flag_prompt = Some(prompt);
        }
    }

    /// Fold a freshly fetched copy of one entry into the loaded list, in place.
    /// Says whether the entry was loaded.
    pub fn apply_edited_entry(&mut self, fresh: &Entry) -> (r: bool)
        ensures
            r == old(self)@.holds(fresh@.post_id),
            final(self)@ == old(self)@.with_fresh(fresh@),
    {
        let mut i: usize = 0;
        while i < self.list.items.len()
            invariant
                i <= self.list.items@.len(),
                *self == *old(self),
                entry_index(self@.list.items, fresh@.post_id, i as int) == entry_index(
                    self@.list.items,
                    fresh@.post_id,
                    0,
                ),
            decreases self.list.items@.len() - i,
        {
            if same(self.list.items[i].post_id.as_str(), fresh.post_id.as_str()) {
                let mut item = self.list.items.remove(i);
                item.content = fresh.content.clone();
                item.title = clone_opt(&fresh.title);
                item.topics = clone_strings(&fresh.topics);
                item.attachments = copy_attachments(&fresh.attachments);
                item.is_public = fresh.is_public;
                item.is_nsfw = fresh.is_nsfw;
                item.edited_at = fresh.edited_at;
                item.replies_count = fresh.replies_count;
                item.bookmarks_count = fresh.bookmarks_count;
                assert(item@ =~= refreshed(old(self)@.list.items[i as int], fresh@));
                self.list.items.insert(i, item);
                assert(self@.list.items =~= old(self)@.list.items.update(i as int, item@));
                let view_len: usize = self.visible_indices().len();
                if self.list.selected >= view_len {
                    self.list.selected = if view_len > 0 {
                        view_len - 1
                    } else {
                        0
                    };
                }
                return true;
            }
            i = i + 1;
        }
        false
    }

    /// The positions of the entries that are shown.
    pub fn visible_indices(&self) -> (r: Vec<usize>)
        ensures
            r@ == self@.shown(),
            r@.len() <= self.list.items@.len(),
            forall|k: int| 0 <= k < r@.len() ==> #[trigger] r@[k] < self.list.items@.len(),
    {
        visible_entries(&self.list.items, self.include_nsfw)
    }

    /// The highlighted entry, among those that are shown.
    pub fn selected_entry(&self) -> (r: Option<&Entry>)
        ensures
            match r {
                Some(e) => self@.selected() == Some(e@),
                None => self@.selected() is None,
            },
    {
        let visible = self.visible_indices();
        if self.list.selected < visible.len() {
            let at: usize = visible[self.list.selected];
            Some(&self.list.items[at])
        } else {
            None
        }
    }

    fn prompt_key(&mut self, prompt: FlagPrompt<String>, key: KeyEvent) -> (r: TopicFeedIntent)
        requires
            old(self).flag_prompt is None,
        ensures
            (final(self)@, r@) == old(self)@.prompted(prompt@, key),
    {
        let mut prompt = prompt;
        match prompt.handle_key(key) {
            FlagPromptKey::Consumed => {
                self.flag_prompt = Some(prompt);
                TopicFeedIntent::Nothing
            },
            FlagPromptKey::Cancelled => TopicFeedIntent::Nothing,
            FlagPromptKey::Submitted => {
                let reason = prompt.reason_to_send();
                TopicFeedIntent::FlagEntry { post_id: prompt.target, reason }
            },
        }
    }

    fn act(&mut self, code: KeyCode) -> (r: TopicFeedIntent)
        requires
            code != KeyCode::Char('F'),
        ensures
            (final(self)@, r@) == old(self)@.acted(code),
    {
        match code {
            KeyCode::Char('r') => {
                self.list.items.clear();
                self.list.next_cursor = None;
                self.list.selected = 0;
                self.list.loading = true;
                self.list.error = None;
                assert(self@.list.items =~= Seq::<model::EntryView>::empty());
                TopicFeedIntent::Refresh
            },
            KeyCode::Enter => match self.selected_entry() {
                Some(e) => TopicFeedIntent::OpenSelected { post_id: e.post_id.clone() },
                None => TopicFeedIntent::Nothing,
            },
            KeyCode::Char('p') => TopicFeedIntent::PlayJukebox(
                match self.selected_entry() {
                    Some(e) => audio::jukebox_track(&e.attachments),
                    None => None,
                },
            ),
            KeyCode::Char('o') => match self.selected_entry() {
                Some(e) => match audio::jukebox_url(&e.attachments) {
                    Some(url) => TopicFeedIntent::OpenJukebox(url),
                    None => TopicFeedIntent::Nothing,
                },
                None => TopicFeedIntent::Nothing,
            },
            KeyCode::Char('e') => match self.selected_entry() {
                Some(e) => TopicFeedIntent::EditEntry {
                    post_id: e.post_id.clone(),
                    content: e.content.clone(),
                    title: clone_opt(&e.title),
                    topics: clone_strings(&e.topics),
                    is_public: e.is_public,
                    is_nsfw: e.is_nsfw,
                },
                None => TopicFeedIntent::Nothing,
            },
            _ => TopicFeedIntent::Nothing,
        }
    }

    /// Take a key and say what is asked of the shell.
    pub fn handle_key(&mut self, key: KeyEvent) -> (r: TopicFeedIntent)
        ensures
            old(self)@.answers(key, final(self)@, r@),
    {
        if key.is_quit() {
            return TopicFeedIntent::Quit;
        }
        if let Some(prompt) = self.flag_prompt.take() {
            return self.prompt_key(prompt, key);
        }
        match key.code {
            KeyCode::Backspace => {
                return TopicFeedIntent::Back;
            },
            KeyCode::Char('f') => {
                return TopicFeedIntent::ToggleFollow { slug: self.slug.clone() };
            },
            KeyCode::Char('m') => {
                return TopicFeedIntent::ToggleMute { slug: self.slug.clone() };
            },
            _ => {},
        }
        if self.list.loading {
            return TopicFeedIntent::Nothing;
        }
        let len: usize = self.visible_indices().len();
        let has_more = self.list.next_cursor.is_some();
        match list_nav::navigate(key.code, &mut self.list.selected, len, has_more) {
            ListNav::LoadMore => {
                self.list.loading = true;
                return TopicFeedIntent::LoadMore;
            },
            ListNav::Moved => {
                return TopicFeedIntent::Nothing;
            },
            ListNav::Ignored => {},
        }
        assert(self@ == old(self)@.moved(key.code).0);
        if key.code == KeyCode::Char('F') {
            let target = match self.selected_entry() {
                Some(e) => Some(e.post_id.clone()),
                None => None,
            };
            if let Some(id) = target {
                self.flag_prompt = Some(FlagPrompt::new(id));
            }
            return TopicFeedIntent::Nothing;
        }
        self.act(key.code)
    }

    /// Apply an initial load or refresh.
    pub fn apply_initial(&mut self, result: Page<Entry>)
        ensures
            final(self)@ == (TopicView {
                list: model::entry_tab(old(self).list@.after_initial(result, page_len(result))),
                ..old(self)@
            }).reset(),
    {
        self.list.apply_initial(result);
        if self.list.selected >= self.visible_indices().len() {
            self.list.selected = 0;
        }
    }

    /// Append a load-more page.
    pub fn apply_more(&mut self, result: Page<Entry>)
        ensures
            final(self)@ == (TopicView {
                list: model::entry_tab(old(self).list@.after_more(result)),
                ..old(self)@
            }),
    {
        self.list.apply_more(result);
    }
}

// ---------------------------------------------------------------------------
// What is shown.
// ---------------------------------------------------------------------------

/// Whether a post shows an image, in its text or as an attachment.
pub open spec fn pictured(e: model::EntryView) -> bool {
    images::attaches_image(e.attachments) || images::shows_image(
        markdown::markdown_events(e.content),
    )
}

/// The header of an entry's row.
pub open spec fn entry_header(e: model::EntryView, when: Seq<char>, theme: Theme) -> Seq<
    draw::SpanView,
> {
    let head = seq![
        draw::span("@"@ + e.author_username, theme.accent_spec()),
        draw::span(
            " · "@ + when + text::edited_text(e.edited_at) + " · "@ + strs::decimal(
                e.replies_count as nat,
            ) + " replies · "@ + strs::decimal(e.bookmarks_count as nat) + " bookmarks"@,
            theme.muted_spec(),
        ),
    ];
    let with_image = if pictured(e) {
        head.push(draw::span(" · [image]"@, theme.accent_spec()))
    } else {
        head
    };
    if audio::track_of(e.attachments) is Some {
        with_image.push(draw::span(" · [jukebox]"@, theme.accent_spec()))
    } else {
        with_image
    }
}

/// The rows of one entry.
pub open spec fn entry_lines(e: model::EntryView, when: Seq<char>, cfg: Config, theme: Theme) -> Seq<
    Seq<draw::SpanView>,
> {
    let snippet = markdown::preview(
        markdown::markdown_events(e.content),
        cfg.preview_length as int,
    );
    let head = seq![entry_header(e, when, theme)];
    let body = if snippet.len() > 0 {
        head.push(draw::one(snippet, theme.base_spec()))
    } else {
        head
    };
    if cfg.compact {
        body
    } else {
        body.push(draw::blank())
    }
}

/// The rows of one entry: author, time and counts, then a preview of the text,
/// and a blank row unless the list is compact.
pub fn entry_item(entry: &Entry, when: &str, cfg: &Config, theme: &Theme) -> (r: Vec<Line>)
    ensures
        draw::line_views(r@) == entry_lines(entry@, when@, *cfg, *theme),
{
    let mut author = "@".to_owned();
    author.append(entry.author_username.as_str());
    let mut meta = " · ".to_owned();
    meta.append(when);
    meta.append(text::edited_marker(entry.edited_at));
    meta.append(" · ");
    meta.append(decimal_text(entry.replies_count).as_str());
    meta.append(" replies · ");
    meta.append(decimal_text(entry.bookmarks_count).as_str());
    meta.append(" bookmarks");
    let mut spans: Vec<Span> = Vec::new();
    push_span(&mut spans, Span::new(author, theme.accent_style()));
    push_span(&mut spans, Span::new(meta, theme.muted_style()));
    if images::has_image(entry) {
        push_span(&mut spans, Span::of(" · [image]", theme.accent_style()));
    }
    if audio::has_audio(entry) {
        push_span(&mut spans, Span::of(" · [jukebox]", theme.accent_style()));
    }
    assert(draw::span_views(spans@) =~= entry_header(entry@, when@, *theme));
    let mut lines: Vec<Line> = Vec::new();
    push_line(&mut lines, Line::new(spans));
    let snippet = markdown::content_preview(entry.content.as_str(), cfg.preview_length);
    if !snippet.as_str().is_empty() {
        push_line(&mut lines, Line::single(snippet, theme.base()));
    }
    if !cfg.compact {
        push_line(&mut lines, Line::empty());
    }
    assert(draw::line_views(lines@) =~= entry_lines(entry@, when@, *cfg, *theme));
    lines
}

/// The rows of the first `n` of the entries at the positions `at`.
pub open spec fn entry_rows(
    items: Seq<model::EntryView>,
    at: Seq<usize>,
    n: int,
    stamps: Seq<String>,
    cfg: Config,
    theme: Theme,
) -> Seq<Seq<Seq<draw::SpanView>>> {
    Seq::new(
        n as nat,
        |k: int|
            entry_lines(
                items[at[k] as int],
                config::stamp(items[at[k] as int].created_at, stamps, at[k] as int),
                cfg,
                theme,
            ),
    )
}

/// The rows of the entries at the positions `at`.
pub fn render_entries(
    items: &Vec<Entry>,
    at: &Vec<usize>,
    stamps: &Vec<String>,
    cfg: &Config,
    theme: &Theme,
) -> (rows: Vec<Vec<Line>>)
    requires
        forall|k: int| 0 <= k < at@.len() ==> #[trigger] at@[k] < items@.len(),
    ensures
        draw::block_views(rows@) == entry_rows(
            model::entry_views(items@),
            at@,
            at@.len() as int,
            stamps@,
            *cfg,
            *theme,
        ),
{
    let mut rows: Vec<Vec<Line>> = Vec::new();
    let mut k: usize = 0;
    let ghost views = model::entry_views(items@);
    assert(draw::block_views(rows@) =~= entry_rows(views, at@, 0, stamps@, *cfg, *theme));
    while k < at.len()
        invariant
            k <= at@.len(),
            forall|k: int| 0 <= k < at@.len() ==> #[trigger] at@[k] < items@.len(),
            views == model::entry_views(items@),
            draw::block_views(rows@) == entry_rows(
                views,
                at@,
                k as int,
                stamps@,
                *cfg,
                *theme,
            ),
        decreases at@.len() - k,
    {
        let i: usize = at[k];
        let when = config::stamp_of(items[i].created_at, stamps, i);
        push_block(&mut rows, entry_item(&items[i], when.as_str(), cfg, theme));
        k = k + 1;
        assert(draw::block_views(rows@) =~= entry_rows(
            views,
            at@,
            k as int,
            stamps@,
            *cfg,
            *theme,
        ));
    }
    rows
}

impl TopicView {
    pub open spec fn title_text(self) -> Seq<char> {
        " cs-tui • #"@ + self.slug + (match (self.followed, self.muted) {
            (true, true) => " ★ muted"@,
            (true, false) => " ★"@,
            (false, true) => " muted"@,
            (false, false) => ""@,
        }) + " "@
    }

    /// The status line: a load-more failure, or the counts and the keys, those
    /// of the track only where the highlighted entry has one.
    pub open spec fn status_shown(self, theme: Theme) -> Seq<draw::SpanView> {
        match list::more_error_text(self.list) {
            Some(msg) => draw::one(msg, theme.error_spec()),
            None => if self.list.loading {
                draw::one("loading… · enter open · r refresh · esc back"@, theme.muted_spec())
            } else {
                draw::one(
                    strs::decimal(self.list.items.len()) + " entries · "@ + (
                    if self.list.next_cursor is Some {
                        "scroll for more · "@
                    } else {
                        ""@
                    }) + "enter open"@ + (if self.selected() is Some && audio::track_of(
                        self.selected()->Some_0.attachments,
                    ) is Some {
                        " · p play · o open"@
                    } else {
                        ""@
                    }) + " · e edit · F flag · f "@ + (if self.followed {
                        "unfollow"@
                    } else {
                        "follow"@
                    }) + " · m "@ + (if self.muted {
                        "unmute"@
                    } else {
                        "mute"@
                    }) + " · r refresh · esc back"@,
                    theme.muted_spec(),
                )
            },
        }
    }

    /// The rows at the bottom: the prompt while one is open, else the status
    /// line.
    pub open spec fn bottom_rows(self, width: int, theme: Theme) -> Seq<Seq<draw::SpanView>> {
        match self.flag_prompt {
            Some(p) => flag::prompt_rows(p.reason, p.cursor, width, theme),
            None => seq![self.status_shown(theme)],
        }
    }
}

/// What one render shows.
#[derive(Debug)]
pub struct TopicFrame {
    pub title: Line,
    pub body: ListBody,
    pub bottom: Vec<Line>,
}

impl TopicFeedScreen {
    fn status(&self, theme: &Theme) -> (r: Line)
        ensures
            r@ == self@.status_shown(*theme),
    {
        if let Some(msg) = list::load_more_error(&self.list) {
            return Line::single(msg, theme.error_style());
        }
        if self.list.loading {
            return Line::of("loading… · enter open · r refresh · esc back", theme.muted_style());
        }
        let media = match self.selected_entry() {
            Some(e) => audio::has_audio(e),
            None => false,
        };
        let mut s = decimal_text(self.list.items.len() as u64);
        s.append(" entries · ");
        s.append(if self.list.next_cursor.is_some() {
            "scroll for more · "
        } else {
            ""
        });
        s.append("enter open");
        s.append(if media {
            " · p play · o open"
        } else {
            ""
        });
        s.append(" · e edit · F flag · f ");
        s.append(if self.followed {
            "unfollow"
        } else {
            "follow"
        });
        s.append(" · m ");
        s.append(if self.muted {
            "unmute"
        } else {
            "mute"
        });
        s.append(" · r refresh · esc back");
        Line::single(s, theme.muted_style())
    }

    /// What the screen shows; `stamps` gives the time of each entry as text and
    /// `width` the columns of the bottom rows.
    pub fn render(&self, width: u16, stamps: &Vec<String>, theme: &Theme, cfg: &Config) -> (f:
        TopicFrame)
        ensures
            f.title@ == draw::one(self@.title_text(), theme.heading_spec()),
            f.body@ == list::body_of(
                self@.list,
                entry_rows(
                    self@.list.items,
                    self@.shown(),
                    self@.shown().len() as int,
                    stamps@,
                    *cfg,
                    *theme,
                ),
                "no entries in this topic"@,
                *theme,
                cfg.selection,
            ),
            draw::line_views(f.bottom@) == self@.bottom_rows(width as int, *theme),
    {
        let mut title = " cs-tui • #".to_owned();
        title.append(self.slug.as_str());
        title.append(if self.followed {
            if self.muted {
                " ★ muted"
            } else {
                " ★"
            }
        } else if self.muted {
            " muted"
        } else {
            ""
        });
        title.append(" ");
        let visible = self.visible_indices();
        let rows = render_entries(&self.list.items, &visible, stamps, cfg, theme);
        let body = list::render_body(
            &self.list,
            rows,
            "no entries in this topic",
            theme,
            cfg.selection,
        );
        let bottom = match &self.flag_prompt {
            Some(prompt) => flag::render_flag_prompt(prompt, width, theme),
            None => {
                let mut lines: Vec<Line> = Vec::new();
                push_line(&mut lines, self.status(theme));
                lines
            },
        };
        assert(draw::line_views(bottom@) =~= self@.bottom_rows(width as int, *theme));
        TopicFrame { title: Line::single(title, theme.heading_style()), body, bottom }
    }
}

// ---------------------------------------------------------------------------
// Laws.
// ---------------------------------------------------------------------------

/// While a prompt is open, no key but Ctrl+C does anything to the screen behind
/// it: neither the topic nor its list changes, and nothing but a report is
/// asked.
pub proof fn law_an_open_prompt_owns_the_keys(
    s: TopicView,
    key: KeyEvent,
    next: TopicView,
    intent: TopicIntentView,
)
    requires
        s.flag_prompt is Some,
        !key.is_quit_spec(),
        s.answers(key, next, intent),
    ensures
        next == (TopicView { flag_prompt: next.flag_prompt, ..s }),
        intent is Nothing || intent is FlagEntry,
{
}

/// The highlighted entry is never one that is hidden.
pub proof fn law_hidden_entries_are_never_selected(s: TopicView)
    requires
        s.list.items.len() <= usize::MAX,
        !s.include_nsfw,
    ensures
        s.selected() matches Some(e) ==> !e.is_nsfw,
{
    model::lemma_visible(s.list.items, s.include_nsfw, s.list.items.len() as int);
    if s.selected() is Some {
        let _ = s.shown()[s.list.selected];
    }
}

proof fn lemma_entry_index(items: Seq<model::EntryView>, id: Seq<char>, i: int)
    requires
        0 <= i,
    ensures
        match entry_index(items, id, i) {
            Some(k) => i <= k < items.len() && items[k].post_id == id && forall|j: int|
                i <= j < k ==> (#[trigger] items[j]).post_id != id,
            None => forall|j: int| i <= j < items.len() ==> (#[trigger] items[j]).post_id != id,
        },
    decreases items.len() - i,
{
    if i < items.len() && items[i].post_id != id {
        lemma_entry_index(items, id, i + 1);
    }
}

/// Folding in a fresh copy leaves every other entry alone, and the selection on
/// a row that is shown, if there is one.
pub proof fn law_fresh_copy_touches_one_entry(s: TopicView, fresh: model::EntryView)
    requires
        0 <= s.list.selected,
    ensures
        s.with_fresh(fresh).list.items.len() == s.list.items.len(),
        forall|k: int|
            0 <= k < s.list.items.len() && s.list.items[k].post_id != fresh.post_id
                ==> #[trigger] s.with_fresh(fresh).list.items[k] == s.list.items[k],
        entry_index(s.list.items, fresh.post_id, 0) is Some && s.with_fresh(fresh).shown().len() > 0
            ==> s.with_fresh(fresh).list.selected < s.with_fresh(fresh).shown().len(),
{
    lemma_entry_index(s.list.items, fresh.post_id, 0);
}

/// The keys on the highlighted entry are for the entry on that row among those that
/// are shown: it is opened by its id, edited with its own values, played and opened
/// by its own track, and reported by its id.
pub proof fn law_the_highlighted_entry_is_acted_on(
    s: TopicView,
    key: KeyEvent,
    next: TopicView,
    intent: TopicIntentView,
)
    requires
        s.answers(key, next, intent),
        s.flag_prompt is None,
        !s.list.loading,
        0 <= s.list.selected < model::visible(s.list.items, s.include_nsfw).len(),
    ensures
        ({
            let e = s.list.items[model::visible(s.list.items, s.include_nsfw)[
                s.list.selected
            ] as int];
            &&& key.code == KeyCode::Enter ==> next == s && intent
                == (TopicIntentView::OpenSelected { post_id: e.post_id })
            &&& key.code == KeyCode::Char('e') ==> next == s && intent
                == (TopicIntentView::EditEntry {
                post_id: e.post_id,
                content: e.content,
                title: e.title,
                topics: e.topics,
                is_public: e.is_public,
                is_nsfw: e.is_nsfw,
            })
            &&& key.code == KeyCode::Char('p') ==> next == s && intent
                == TopicIntentView::PlayJukebox(audio::track_of(e.attachments))
            &&& key.code == KeyCode::Char('o') ==> next == s && intent == (match audio::track_of(
                e.attachments,
            ) {
                Some(t) => TopicIntentView::OpenJukebox(t.url@),
                None => TopicIntentView::Nothing,
            })
            &&& key.code == KeyCode::Char('F') ==> {
                &&& intent == TopicIntentView::Nothing
                &&& next.flag_prompt matches Some(p)
                &&& p.target@ == e.post_id
                &&& p.reason.len() == 0
                &&& next.list == s.list
            }
        }),
{
    assert(s.moved(key.code).0 =~= s || list_nav::nav_key(key.code));
}

/// Nothing is opened or edited but what is highlighted, and nothing is reported but
/// the target of the prompt.
pub proof fn law_intents_name_their_entry(
    s: TopicView,
    key: KeyEvent,
    next: TopicView,
    intent: TopicIntentView,
)
    requires
        s.answers(key, next, intent),
    ensures
        intent matches TopicIntentView::OpenSelected { post_id } ==> ({
            let rows = model::visible(s.list.items, s.include_nsfw);
            0 <= s.list.selected < rows.len() && post_id
                == s.list.items[rows[s.list.selected] as int].post_id
        }),
        intent matches TopicIntentView::EditEntry { post_id, content, .. } ==> ({
            let rows = model::visible(s.list.items, s.include_nsfw);
            0 <= s.list.selected < rows.len() && post_id
                == s.list.items[rows[s.list.selected] as int].post_id && content
                == s.list.items[rows[s.list.selected] as int].content
        }),
        intent matches TopicIntentView::FlagEntry { post_id, reason } ==> (s.flag_prompt matches Some(
            p,
        ) && post_id == p.target@ && key.code == KeyCode::Enter && next.flag_prompt is None),
        intent matches TopicIntentView::ToggleFollow { slug } ==> slug == s.slug && key.code
            == KeyCode::Char('f'),
        intent matches TopicIntentView::ToggleMute { slug } ==> slug == s.slug && key.code
            == KeyCode::Char('m'),
{
    assert(s.moved(key.code).0.list.items == s.list.items);
}

/// The prompt takes what is typed; Enter sends the trimmed reason with its target,
/// and escape drops it.
pub proof fn law_a_prompt_is_sent_or_dropped(
    s: TopicView,
    key: KeyEvent,
    next: TopicView,
    intent: TopicIntentView,
    p: flag::FlagView<String>,
)
    requires
        s.answers(key, next, intent),
        s.flag_prompt == Some(p),
        !(key.code == KeyCode::Char('c') && key.control),
    ensures
        key.code == KeyCode::Enter ==> next == (TopicView { flag_prompt: None, ..s }) && intent == (
        TopicIntentView::FlagEntry {
            post_id: p.target@,
            reason: if strs::trimmed(p.reason).len() == 0 {
                None
            } else {
                Some(strs::trimmed(p.reason))
            },
        }),
        key.code == KeyCode::Esc ==> next == (TopicView { flag_prompt: None, ..s }) && intent
            == TopicIntentView::Nothing,
        key.code != KeyCode::Enter && key.code != KeyCode::Esc ==> next.flag_prompt == Some(
            p.typed(key),
        ) && intent == TopicIntentView::Nothing,
{
}

/// The whole topic is followed and muted by its own slug, also while entries load;
/// leaving goes back; and while entries load nothing else happens.
pub proof fn law_topic_keys_always_work(
    s: TopicView,
    key: KeyEvent,
    next: TopicView,
    intent: TopicIntentView,
)
    requires
        s.answers(key, next, intent),
        s.flag_prompt is None,
    ensures
        key.code == KeyCode::Char('f') ==> next == s && intent == (TopicIntentView::ToggleFollow {
            slug: s.slug,
        }),
        key.code == KeyCode::Char('m') ==> next == s && intent == (TopicIntentView::ToggleMute {
            slug: s.slug,
        }),
        key.code == KeyCode::Backspace ==> next == s && intent == TopicIntentView::Back,
        key.code == KeyCode::Char('c') && key.control ==> next == s && intent
            == TopicIntentView::Quit,
        s.list.loading ==> next == s,
        s.list.loading ==> !(intent is LoadMore) && !(intent is Refresh) && !(
        intent is OpenSelected),
{
}

/// A step goes to the neighbor among the rows that are shown; at the last one it
/// asks for more where there is more; and `r` empties the list and asks for it
/// anew.
pub proof fn law_steps_move_over_the_shown_rows(
    s: TopicView,
    key: KeyEvent,
    next: TopicView,
    intent: TopicIntentView,
)
    requires
        s.answers(key, next, intent),
        s.flag_prompt is None,
        !s.list.loading,
        0 <= s.list.selected < model::visible(s.list.items, s.include_nsfw).len(),
    ensures
        ({
            let last = model::visible(s.list.items, s.include_nsfw).len() - 1;
            let at = s.list.selected;
            let down = key.code == KeyCode::Down || key.code == KeyCode::Char('j');
            let up = key.code == KeyCode::Up || key.code == KeyCode::Char('k');
            &&& down && at < last ==> intent is Nothing && next == (TopicView {
                list: TabView { selected: at + 1, ..s.list },
                ..s
            })
            &&& down && at == last && s.list.next_cursor is Some ==> intent is LoadMore && next == (
            TopicView { list: TabView { loading: true, ..s.list }, ..s })
            &&& down && at == last && s.list.next_cursor is None ==> intent is Nothing && next == s
            &&& up && at > 0 ==> intent is Nothing && next == (TopicView {
                list: TabView { selected: at - 1, ..s.list },
                ..s
            })
        }),
        key.code == KeyCode::Char('r') ==> intent is Refresh && next.list.items.len() == 0
            && next.list.loading && next.list.selected == 0 && next.list.next_cursor is None
            && next.list.error is None && next.slug == s.slug,
{
    assert(TabView { loading: false, ..s.list } =~= s.list);
}

/// A fresh copy of an entry brings its text, title, topics, attachments, flags,
/// counts and edit mark to the entry with its id, which keeps its author and when
/// it was published; it is said whether there is one.
pub proof fn law_a_fresh_copy_is_folded_in(s: TopicView, fresh: model::EntryView, at: int)
    requires
        0 <= at < s.list.items.len(),
        s.list.items[at].post_id == fresh.post_id,
        forall|k: int| 0 <= k < at ==> (#[trigger] s.list.items[k]).post_id != fresh.post_id,
    ensures
        s.holds(fresh.post_id),
        ({
            let was = s.list.items[at];
            let now = s.with_fresh(fresh).list.items[at];
            &&& now.content == fresh.content && now.title == fresh.title && now.topics
                == fresh.topics && now.attachments == fresh.attachments
            &&& now.is_public == fresh.is_public && now.is_nsfw == fresh.is_nsfw && now.edited_at
                == fresh.edited_at
            &&& now.replies_count == fresh.replies_count && now.bookmarks_count
                == fresh.bookmarks_count
            &&& now.post_id == was.post_id && now.author_username == was.author_username
                && now.created_at == was.created_at
        }),
{
    lemma_entry_index(s.list.items, fresh.post_id, 0);
    let k = entry_index(s.list.items, fresh.post_id, 0)->Some_0;
    if at < k {
        assert(s.list.items[at].post_id != fresh.post_id);
    }
    if k < at {
        assert(s.list.items[k].post_id != fresh.post_id);
    }
}

/// An id that is not loaded changes nothing, and that is said.
pub proof fn law_an_unknown_copy_changes_nothing(s: TopicView, fresh: model::EntryView)
    requires
        forall|k: int|
            0 <= k < s.list.items.len() ==> (#[trigger] s.list.items[k]).post_id != fresh.post_id,
    ensures
        !s.holds(fresh.post_id),
        s.with_fresh(fresh) == s,
{
    lemma_entry_index(s.list.items, fresh.post_id, 0);
}

/// The row of an entry tells its author, its time and counts, whether it was edited,
/// has an image or a track, and a preview of its text; there is a row for each
/// entry that is shown, in order.
pub proof fn law_rows_tell_of_their_entries(
    items: Seq<model::EntryView>,
    at: Seq<usize>,
    stamps: Seq<String>,
    cfg: Config,
    theme: Theme,
    k: int,
)
    requires
        0 <= k < at.len(),
        at[k] < items.len(),
    ensures
        ({
            let rows = entry_rows(items, at, at.len() as int, stamps, cfg, theme);
            let e = items[at[k] as int];
            let row = rows[k];
            let when = config::stamp(e.created_at, stamps, at[k] as int);
            let snippet = markdown::preview(
                markdown::markdown_events(e.content),
                cfg.preview_length as int,
            );
            let n = row[0].len() as int;
            let picture = images::attaches_image(e.attachments) || images::shows_image(
                markdown::markdown_events(e.content),
            );
            let track = audio::track_of(e.attachments) is Some;
            &&& rows.len() == at.len()
            &&& row[0][0].content == seq!['@'] + e.author_username
            &&& row[0][1].content == seq![' ', '·', ' '] + when + (if e.edited_at is Some {
                " · (edited)"@
            } else {
                Seq::empty()
            }) + seq![' ', '·', ' '] + strs::decimal(e.replies_count as nat) + " replies · "@
                + strs::decimal(e.bookmarks_count as nat) + " bookmarks"@
            &&& picture ==> row[0][2].content == " · [image]"@
            &&& track ==> row[0][n - 1].content == " · [jukebox]"@
            &&& n == 2 + (if picture {
                1int
            } else {
                0
            }) + (if track {
                1int
            } else {
                0
            })
            &&& snippet.len() > 0 ==> row[1][0].content == snippet
            &&& row.len() == 1 + (if snippet.len() > 0 {
                1int
            } else {
                0
            }) + (if cfg.compact {
                0int
            } else {
                1
            })
        }),
{
    reveal_strlit("@");
    reveal_strlit(" · ");
    reveal_strlit("");
    assert("@"@ =~= seq!['@']);
    assert(" · "@ =~= seq![' ', '·', ' ']);
    assert(""@ =~= Seq::<char>::empty());
}

/// A paste reaches an open prompt only.
pub proof fn law_only_a_prompt_takes_a_paste(s: TopicView, text: Seq<char>)
    ensures
        s.flag_prompt is None ==> s.pasted(text) == s,
        s.flag_prompt matches Some(p) ==> s.pasted(text) == (TopicView {
            flag_prompt: Some(p.pasted(text)),
            ..s
        }),
{
}

/// How the reader stands to the topic is kept as it was told, and a prompt that is
/// closed is closed once; the entries stay.
pub proof fn law_the_topic_state_is_kept(s: TopicView, followed: bool, muted: bool)
    ensures
        s.with_state(followed, muted).followed == followed,
        s.with_state(followed, muted).muted == muted,
        s.with_state(followed, muted).list == s.list,
        s.without_prompt().1 == (s.flag_prompt is Some),
        s.without_prompt().0.flag_prompt is None,
        !s.without_prompt().0.without_prompt().1,
        s.without_prompt().0.list == s.list,
{
}

/// The title names the topic, with a star where it is followed and a word where it is
/// muted.
pub proof fn law_the_title_names_the_topic(s: TopicView)
    ensures
        s.followed && !s.muted ==> s.title_text() == " cs-tui • #"@ + s.slug + " ★"@ + " "@,
        !s.followed && s.muted ==> s.title_text() == " cs-tui • #"@ + s.slug + " muted"@ + " "@,
        s.followed && s.muted ==> s.title_text() == " cs-tui • #"@ + s.slug + " ★ muted"@ + " "@,
        !s.followed && !s.muted ==> s.title_text() == " cs-tui • #"@ + s.slug + " "@,
{
    reveal_strlit("");
    assert(" cs-tui • #"@ + s.slug + ""@ =~= " cs-tui • #"@ + s.slug);
}

/// After a first page the cursor is on an entry that is shown, and stays where it was if
/// that is one.
pub proof fn law_the_cursor_stays_among_the_shown(s: TopicView)
    requires
        0 <= s.list.selected,
    ensures
        s.shown().len() > 0 ==> s.reset().list.selected < s.shown().len(),
        s.list.selected < s.shown().len() ==> s.reset() == s,
        s.list.selected >= s.shown().len() ==> s.reset().list.selected == 0,
        s.reset().list.items == s.list.items,
{
}

/// The prompt takes the place of the status line.
pub proof fn law_the_prompt_is_shown(s: TopicView, width: int, theme: Theme)
    ensures
        s.flag_prompt is None ==> s.bottom_rows(width, theme) == seq![s.status_shown(theme)],
        s.flag_prompt matches Some(p) ==> s.bottom_rows(width, theme).len() == 2 && s.bottom_rows(
            width,
            theme,
        )[1] == crate::input::windowed(p.reason, p.cursor, width, theme),
{
}

/// The status counts the entries that are loaded and tells the keys by how the reader
/// stands to the topic.
pub proof fn law_the_told_keys_fit_the_topic(s: TopicView, theme: Theme)
    requires
        list::more_error_text(s.list) is None,
        !s.list.loading,
    ensures
        ({
            let t = s.status_shown(theme)[0].content;
            let d = strs::decimal(s.list.items.len()) + " entries · "@;
            &&& strs::starts_with(t, d)
            &&& s.followed ==> strs::occurs(t, " · e edit · F flag · f "@ + "unfollow"@ + " · m "@)
            &&& !s.followed ==> strs::occurs(t, " · e edit · F flag · f "@ + "follow"@ + " · m "@)
            &&& s.muted ==> strs::occurs(t, " · m "@ + "unmute"@ + " · r refresh · esc back"@)
            &&& !s.muted ==> strs::occurs(t, " · m "@ + "mute"@ + " · r refresh · esc back"@)
        }),
{
    let more = if s.list.next_cursor is Some {
        "scroll for more · "@
    } else {
        ""@
    };
    let play = if s.selected() is Some && audio::track_of(s.selected()->Some_0.attachments) is Some {
        " · p play · o open"@
    } else {
        ""@
    };
    let follow = if s.followed {
        "unfollow"@
    } else {
        "follow"@
    };
    let mute = if s.muted {
        "unmute"@
    } else {
        "mute"@
    };
    lemma_told_parts(
        strs::decimal(s.list.items.len()) + " entries · "@,
        more,
        "enter open"@,
        play,
        " · e edit · F flag · f "@,
        follow,
        " · m "@,
        mute,
        " · r refresh · esc back"@,
    );
}

/// Parts that stand one behind the other are found together.
proof fn lemma_told_parts(
    d: Seq<char>,
    more: Seq<char>,
    open: Seq<char>,
    play: Seq<char>,
    a: Seq<char>,
    follow: Seq<char>,
    m: Seq<char>,
    mute: Seq<char>,
    tail: Seq<char>,
)
    ensures
        ({
            let t = d + more + open + play + a + follow + m + mute + tail;
            &&& strs::starts_with(t, d)
            &&& strs::occurs(t, a + follow + m)
            &&& strs::occurs(t, m + mute + tail)
        }),
{
    let head = d + more + open + play;
    lemma_starts_grow(d, d, more);
    lemma_starts_grow(d + more, d, open);
    lemma_starts_grow(d + more + open, d, play);
    lemma_starts_grow(head, d, a);
    lemma_starts_grow(head + a, d, follow);
    lemma_starts_grow(head + a + follow, d, m);
    lemma_starts_grow(head + a + follow + m, d, mute);
    lemma_starts_grow(head + a + follow + m + mute, d, tail);
    lemma_three_together(head, a, follow, m);
    lemma_occurs_grows(head + a + follow + m, a + follow + m, mute);
    lemma_occurs_grows(head + a + follow + m + mute, a + follow + m, tail);
    lemma_three_together(head + a + follow, m, mute, tail);
}

proof fn lemma_starts_grow(t: Seq<char>, p: Seq<char>, rest: Seq<char>)
    requires
        strs::starts_with(t, p) || t == p,
    ensures
        strs::starts_with(t + rest, p),
{
    assert((t + rest).take(p.len() as int) =~= t.take(p.len() as int));
    assert(p.take(p.len() as int) =~= p);
}

proof fn lemma_occurs_grows(t: Seq<char>, p: Seq<char>, rest: Seq<char>)
    requires
        strs::occurs(t, p),
    ensures
        strs::occurs(t + rest, p),
{
    let i = choose|i: int| #[trigger] strs::occurs_at(t, p, i);
    assert((t + rest).subrange(i, i + p.len()) =~= t.subrange(i, i + p.len()));
    assert(strs::occurs_at(t + rest, p, i));
}

proof fn lemma_three_together(head: Seq<char>, a: Seq<char>, b: Seq<char>, c: Seq<char>)
    ensures
        strs::occurs(head + a + b + c, a + b + c),
{
    let t = head + a + b + c;
    let p = a + b + c;
    assert(t.subrange(head.len() as int, (head.len() + p.len()) as int) =~= p);
    assert(strs::occurs_at(t, p, head.len() as int));
}

} // verus!
