//! Post detail screen: the entry's header and content, and its replies.
use vstd::prelude::*;

use crate::audio::{self, JukeboxTrack};
use crate::config::{self, Config};
use crate::draw::{self, append_lines, push_line, push_span, Line, Rect, Span};
use crate::flag::{self, FlagPrompt, FlagPromptKey};
use crate::hyperlink::{self, LinkTarget};
use crate::images::{self, ImageCache};
use crate::input;
use crate::key::{KeyCode, KeyEvent};
use crate::list::{Page, SelectionStyle};
use crate::markdown::{self, render_markdown_with, ImageUrls};
use crate::model::{self, Entry, EntryEdit, Moment, Reply};
use crate::strs::{self, clone_opt, clone_strings, decimal_text, same, trim};
use crate::text::{self, edited_marker};
use crate::theme::{Style, Theme};

verus! {

/// How long after publishing the server still accepts an edit, in seconds.
pub const EDIT_WINDOW_SECS: i64 = 300;

/// What is asked of the shell.
#[derive(Debug, Clone, PartialEq, Eq)]
pub enum PostDetailIntent {
    /// Return to the previous screen.
    Back,
    /// Exit the app.
    Quit,
    /// Load the next page of replies.
    LoadMoreReplies,
    /// Fetch the replies from scratch.
    RefreshReplies,
    /// Start composing a reply.
    Reply,
    /// Start a reply pre-filled with a quote of the post.
    QuoteReply,
    /// Bookmark this post.
    Bookmark,
    /// Bookmark the selected reply.
    BookmarkReply { reply_id: String },
    /// Toggle watching this thread.
    ToggleWatch,
    /// Open a URL in the browser.
    OpenUrl(String),
    /// Play or toggle the focused track.
    PlayJukebox(Option<JukeboxTrack>),
    /// The user confirmed deletion of the entry.
    DeleteEntryConfirmed,
    /// Edit this entry, whose current values travel along.
    EditEntry {
        post_id: String,
        content: String,
        title: Option<String>,
        topics: Vec<String>,
        is_public: bool,
        is_nsfw: bool,
    },
    /// Edit the selected reply.
    EditReply { reply_id: String, content: String },
    /// Report this entry.
    FlagEntry { post_id: String, reason: Option<String> },
    /// Report the selected reply.
    FlagReply { reply_id: String, reason: Option<String> },
    /// Nothing is asked.
    Nothing,
}

/// What a [`PostDetailIntent`] says.
#[verifier::ext_equal]
pub enum IntentView {
    Back,
    Quit,
    LoadMoreReplies,
    RefreshReplies,
    Reply,
    QuoteReply,
    Bookmark,
    BookmarkReply { reply_id: Seq<char> },
    ToggleWatch,
    OpenUrl(Seq<char>),
    PlayJukebox(Option<JukeboxTrack>),
    DeleteEntryConfirmed,
    EditEntry {
        post_id: Seq<char>,
        content: Seq<char>,
        title: Option<Seq<char>>,
        topics: Seq<String>,
        is_public: bool,
        is_nsfw: bool,
    },
    EditReply { reply_id: Seq<char>, content: Seq<char> },
    FlagEntry { post_id: Seq<char>, reason: Option<Seq<char>> },
    FlagReply { reply_id: Seq<char>, reason: Option<Seq<char>> },
    Nothing,
}

impl View for PostDetailIntent {
    type V = IntentView;

    open spec fn view(&self) -> IntentView {
        match self {
            PostDetailIntent::Back => IntentView::Back,
            PostDetailIntent::Quit => IntentView::Quit,
            PostDetailIntent::LoadMoreReplies => IntentView::LoadMoreReplies,
            PostDetailIntent::RefreshReplies => IntentView::RefreshReplies,
            PostDetailIntent::Reply => IntentView::Reply,
            PostDetailIntent::QuoteReply => IntentView::QuoteReply,
            PostDetailIntent::Bookmark => IntentView::Bookmark,
            PostDetailIntent::BookmarkReply { reply_id } => IntentView::BookmarkReply {
                reply_id: reply_id@,
            },
            PostDetailIntent::ToggleWatch => IntentView::ToggleWatch,
            PostDetailIntent::OpenUrl(url) => IntentView::OpenUrl(url@),
            PostDetailIntent::PlayJukebox(t) => IntentView::PlayJukebox(*t),
            PostDetailIntent::DeleteEntryConfirmed => IntentView::DeleteEntryConfirmed,
            PostDetailIntent::EditEntry { post_id, content, title, topics, is_public, is_nsfw } =>
                IntentView::EditEntry {
                post_id: post_id@,
                content: content@,
                title: strs::opt_text(*title),
                topics: topics@,
                is_public: *is_public,
                is_nsfw: *is_nsfw,
            },
            PostDetailIntent::EditReply { reply_id, content } => IntentView::EditReply {
                reply_id: reply_id@,
                content: content@,
            },
            PostDetailIntent::FlagEntry { post_id, reason } => IntentView::FlagEntry {
                post_id: post_id@,
                reason: strs::opt_text(*reason),
            },
            PostDetailIntent::FlagReply { reply_id, reason } => IntentView::FlagReply {
                reply_id: reply_id@,
                reason: strs::opt_text(*reason),
            },
            PostDetailIntent::Nothing => IntentView::Nothing,
        }
    }
}

/// What an open flag-reason prompt reports, captured when it opens.
#[derive(Debug, Clone, PartialEq, Eq)]
pub enum FlagTarget {
    /// The entry itself, by post id.
    Entry(String),
    /// One reply, by reply id.
    Reply(String),
}

impl FlagTarget {
    pub open spec fn label_spec(self) -> Seq<char> {
        match self {
            FlagTarget::Entry(_) => "this post"@,
            FlagTarget::Reply(_) => "this reply"@,
        }
    }

    /// How the status line names this target while the prompt is open.
    pub fn label(&self) -> (r: &'static str)
        ensures
            r@ == self.label_spec(),
    {
        match self {
            FlagTarget::Entry(_) => "this post",
            FlagTarget::Reply(_) => "this reply",
        }
    }
}

/// The intent that files a report.
pub open spec fn filed(prompt: flag::FlagView<FlagTarget>) -> IntentView {
    let reason = flag::sent_reason(prompt.reason);
    match prompt.target {
        FlagTarget::Entry(post_id) => IntentView::FlagEntry { post_id: post_id@, reason },
        FlagTarget::Reply(reply_id) => IntentView::FlagReply { reply_id: reply_id@, reason },
    }
}

/// The intent that files `prompt`'s report. A blank reason travels as `None`.
pub fn flag_intent(prompt: FlagPrompt<FlagTarget>) -> (r: PostDetailIntent)
    ensures
        r@ == filed(prompt@),
{
    let reason = prompt.reason_to_send();
    match prompt.target {
        FlagTarget::Entry(post_id) => PostDetailIntent::FlagEntry { post_id, reason },
        FlagTarget::Reply(reply_id) => PostDetailIntent::FlagReply { reply_id, reason },
    }
}

/// Whether something published at `created_at` can still be edited at `now`. A
/// time that was never received keeps the window open.
pub open spec fn edit_window_open(created_at: Option<Moment>, now: Moment) -> bool {
    match created_at {
        Some(t) => now.since(t) <= EDIT_WINDOW_SECS,
        None => true,
    }
}

/// Whether `created_at` could still be inside the server's edit window.
pub fn within_edit_window(created_at: Option<Moment>, now: Moment) -> (r: bool)
    ensures
        r == edit_window_open(created_at, now),
{
    match created_at {
        Some(t) => now.seconds_since(t) <= EDIT_WINDOW_SECS as i128,
        None => true,
    }
}

/// The screen.
pub struct PostDetailScreen {
    pub entry: Entry,
    pub replies: Vec<Reply>,
    pub next_replies_cursor: Option<String>,
    pub loading_replies: bool,
    pub error: Option<String>,
    pub scroll: u16,
    /// The largest useful scroll offset, as of the last render.
    pub max_scroll: u16,
    /// A reply to highlight.
    pub highlight_reply_id: Option<String>,
    /// Whether the viewer watches this thread, once that is known.
    pub watching: Option<bool>,
    /// The selected reply; `None` means the post itself is the focus.
    pub selected_reply: Option<usize>,
    /// The row at which each reply starts, as of the last render.
    pub reply_anchors: Vec<u16>,
    /// A delete was asked for and waits for its confirmation.
    pub confirming_delete: bool,
    /// The open flag-reason prompt.
    pub flag_prompt: Option<FlagPrompt<FlagTarget>>,
    /// The cover art of the post's track, shown when the post has no image.
    pub cover_art: Option<String>,
    /// Fetched image files by URL.
    pub image_bytes: ImageCache<Vec<u8>>,
    /// Image URLs that were already requested.
    pub requested: ImageCache<bool>,
}

/// What a [`PostDetailScreen`] holds.
#[verifier::ext_equal]
pub struct DetailView {
    pub entry: model::EntryView,
    pub replies: Seq<Reply>,
    pub next_replies_cursor: Option<Seq<char>>,
    pub loading_replies: bool,
    pub error: Option<Seq<char>>,
    pub scroll: int,
    pub max_scroll: int,
    pub highlight_reply_id: Option<Seq<char>>,
    pub watching: Option<bool>,
    pub selected_reply: Option<usize>,
    pub reply_anchors: Seq<u16>,
    pub confirming_delete: bool,
    pub flag_prompt: Option<flag::FlagView<FlagTarget>>,
    pub cover_art: Option<Seq<char>>,
    pub image_bytes: Seq<(String, Vec<u8>)>,
    pub requested: Seq<(String, bool)>,
}

/// What an optional prompt holds.
pub open spec fn prompt_view(p: Option<FlagPrompt<FlagTarget>>) -> Option<
    flag::FlagView<FlagTarget>,
> {
    match p {
        Some(p) => Some(p@),
        None => None,
    }
}

impl View for PostDetailScreen {
    type V = DetailView;

    open spec fn view(&self) -> DetailView {
        DetailView {
            entry: self.entry@,
            replies: self.replies@,
            next_replies_cursor: strs::opt_text(self.next_replies_cursor),
            loading_replies: self.loading_replies,
            error: strs::opt_text(self.error),
            scroll: self.scroll as int,
            max_scroll: self.max_scroll as int,
            highlight_reply_id: strs::opt_text(self.highlight_reply_id),
            watching: self.watching,
            selected_reply: self.selected_reply,
            reply_anchors: self.reply_anchors@,
            confirming_delete: self.confirming_delete,
            flag_prompt: prompt_view(self.flag_prompt),
            cover_art: strs::opt_text(self.cover_art),
            image_bytes: self.image_bytes@,
            requested: self.requested@,
        }
    }
}

// ---------------------------------------------------------------------------
// Keys.
// ---------------------------------------------------------------------------

impl DetailView {
    /// The selected reply, if one is selected and there.
    pub open spec fn focus(self) -> Option<Reply> {
        match self.selected_reply {
            Some(i) => if i < self.replies.len() {
                Some(self.replies[i as int])
            } else {
                None
            },
            None => None,
        }
    }

    /// The link of the focused track: the selected reply's, else the post's.
    pub open spec fn focused_url(self) -> Option<String> {
        match self.focus() {
            Some(r) => match audio::url_of(r.attachments@) {
                Some(url) => Some(url),
                None => audio::url_of(self.entry.attachments),
            },
            None => audio::url_of(self.entry.attachments),
        }
    }

    /// The focused track: the selected reply's, else the post's.
    pub open spec fn focused_track_spec(self) -> Option<JukeboxTrack> {
        match self.focus() {
            Some(r) => match audio::track_of(r.attachments@) {
                Some(t) => Some(t),
                None => audio::track_of(self.entry.attachments),
            },
            None => audio::track_of(self.entry.attachments),
        }
    }

    pub open spec fn edits(self) -> IntentView {
        match self.focus() {
            Some(r) => IntentView::EditReply { reply_id: r.reply_id@, content: r.content@ },
            None => IntentView::EditEntry {
                post_id: self.entry.post_id,
                content: self.entry.content,
                title: self.entry.title,
                topics: self.entry.topics,
                is_public: self.entry.is_public,
                is_nsfw: self.entry.is_nsfw,
            },
        }
    }

    /// Whether an open prompt would report what is focused.
    pub open spec fn reports(self, t: FlagTarget) -> bool {
        match self.focus() {
            Some(r) => t matches FlagTarget::Reply(id) && id@ == r.reply_id@,
            None => t matches FlagTarget::Entry(id) && id@ == self.entry.post_id,
        }
    }

    /// Reply `i` is selected and scrolled to the top of the pane.
    pub open spec fn at_reply(self, i: usize) -> DetailView {
        DetailView {
            selected_reply: Some(i),
            scroll: if i < self.reply_anchors.len() {
                draw::least(self.reply_anchors[i as int] as int, self.max_scroll)
            } else {
                self.scroll
            },
            ..self
        }
    }

    pub open spec fn scrolled(self, to: int) -> DetailView {
        DetailView { scroll: to, ..self }
    }

    /// The screen and the intent after a key, when no prompt is open and no
    /// delete is being confirmed. `F` is not among them: it opens a prompt.
    pub open spec fn commanded(self, code: KeyCode, confirm_deletes: bool) -> (
        DetailView,
        IntentView,
    ) {
        match code {
            KeyCode::Backspace => (self, IntentView::Back),
            KeyCode::Char('R') => (self, IntentView::Reply),
            KeyCode::Char('Q') => (self, IntentView::QuoteReply),
            KeyCode::Char('J') => if self.replies.len() == 0 {
                (self, IntentView::Nothing)
            } else {
                let next = match self.selected_reply {
                    Some(i) => draw::least(i + 1, self.replies.len() - 1),
                    None => 0,
                };
                (self.at_reply(next as usize), IntentView::Nothing)
            },
            KeyCode::Char('K') => match self.selected_reply {
                Some(i) => (self.at_reply(draw::less(i as int, 1) as usize), IntentView::Nothing),
                None => (self, IntentView::Nothing),
            },
            KeyCode::Char('b') => match self.focus() {
                Some(r) => (self, IntentView::BookmarkReply { reply_id: r.reply_id@ }),
                None => (self, IntentView::Bookmark),
            },
            KeyCode::Char('e') => (self, self.edits()),
            KeyCode::Char('w') => (self, IntentView::ToggleWatch),
            KeyCode::Char('o') => match self.focused_url() {
                Some(url) => (self, IntentView::OpenUrl(url@)),
                None => (self, IntentView::Nothing),
            },
            KeyCode::Char('p') => (self, IntentView::PlayJukebox(self.focused_track_spec())),
            KeyCode::Char('d') => if confirm_deletes {
                (DetailView { confirming_delete: true, ..self }, IntentView::Nothing)
            } else {
                (self, IntentView::DeleteEntryConfirmed)
            },
            KeyCode::Char('j') | KeyCode::Down => if self.scroll >= self.max_scroll
                && self.next_replies_cursor is Some && !self.loading_replies {
                (DetailView { loading_replies: true, ..self }, IntentView::LoadMoreReplies)
            } else {
                (self.scrolled(draw::least(self.scroll + 1, self.max_scroll)), IntentView::Nothing)
            },
            KeyCode::Char('k') | KeyCode::Up => (
                self.scrolled(draw::less(self.scroll, 1)),
                IntentView::Nothing,
            ),
            KeyCode::PageDown | KeyCode::Char(' ') => (
                self.scrolled(draw::least(self.scroll + 10, self.max_scroll)),
                IntentView::Nothing,
            ),
            KeyCode::PageUp => (self.scrolled(draw::less(self.scroll, 10)), IntentView::Nothing),
            KeyCode::Char('g') | KeyCode::Home => (self.scrolled(0), IntentView::Nothing),
            KeyCode::Char('G') | KeyCode::End => (
                self.scrolled(self.max_scroll),
                IntentView::Nothing,
            ),
            KeyCode::Char('n') => if self.next_replies_cursor is Some {
                (DetailView { loading_replies: true, ..self }, IntentView::LoadMoreReplies)
            } else {
                (self, IntentView::Nothing)
            },
            KeyCode::Char('r') => (
                DetailView {
                    replies: Seq::empty(),
                    next_replies_cursor: None,
                    loading_replies: true,
                    error: None,
                    ..self
                },
                IntentView::RefreshReplies,
            ),
            _ => (self, IntentView::Nothing),
        }
    }

    /// Whether a key leads from this screen to `after` with that intent: an
    /// open prompt takes every key but Ctrl+C, and a delete that waits for its
    /// confirmation takes the next.
    pub open spec fn answers(
        self,
        key: KeyEvent,
        confirm_deletes: bool,
        after: DetailView,
        intent: IntentView,
    ) -> bool {
        if key.is_quit_spec() {
            after == self && intent == IntentView::Quit
        } else if self.flag_prompt is Some {
            let p = self.flag_prompt->Some_0;
            match flag::key_outcome(key) {
                FlagPromptKey::Consumed => after == (DetailView {
                    flag_prompt: Some(p.typed(key)),
                    ..self
                }) && intent == IntentView::Nothing,
                FlagPromptKey::Cancelled => after == (DetailView { flag_prompt: None, ..self })
                    && intent == IntentView::Nothing,
                FlagPromptKey::Submitted => after == (DetailView { flag_prompt: None, ..self })
                    && intent == filed(p),
            }
        } else if self.confirming_delete {
            after == (DetailView { confirming_delete: false, ..self }) && intent == if key.code
                == KeyCode::Char('y') || key.code == KeyCode::Char('Y') {
                IntentView::DeleteEntryConfirmed
            } else {
                IntentView::Nothing
            }
        } else if key.code == KeyCode::Char('F') {
            &&& intent == IntentView::Nothing
            &&& after.flag_prompt matches Some(p)
            &&& after == (DetailView { flag_prompt: Some(p), ..self })
            &&& p == flag::FlagView::opened(p.target)
            &&& self.reports(p.target)
        } else {
            (after, intent) == self.commanded(key.code, confirm_deletes)
        }
    }

    /// The screen after a first page of replies arrived, or failed to.
    pub open spec fn after_replies(self, page: Page<Reply>) -> DetailView {
        match page {
            Ok((replies, cursor)) => DetailView {
                replies: replies@,
                next_replies_cursor: strs::opt_text(cursor),
                loading_replies: false,
                error: None,
                selected_reply: None,
                ..self
            },
            Err(msg) => DetailView { loading_replies: false, error: Some(msg@), ..self },
        }
    }

    /// The screen after a further page of replies arrived, or failed to.
    pub open spec fn after_more_replies(self, page: Page<Reply>) -> DetailView {
        match page {
            Ok((replies, cursor)) => DetailView {
                replies: self.replies + replies@,
                next_replies_cursor: strs::opt_text(cursor),
                loading_replies: false,
                error: None,
                ..self
            },
            Err(msg) => DetailView { loading_replies: false, error: Some(msg@), ..self },
        }
    }
}

impl DetailView {
    /// The screen after an edit of the reply with that id, and whether it is on
    /// this page.
    pub open spec fn with_reply_edit(self, reply_id: Seq<char>, content: String, now: Moment) -> (
        DetailView,
        bool,
    ) {
        match reply_index(self.replies, reply_id, 0) {
            Some(i) => (
                DetailView {
                    replies: self.replies.update(
                        i,
                        Reply { content, edited_at: Some(now), ..self.replies[i] },
                    ),
                    ..self
                },
                true,
            ),
            None => (self, false),
        }
    }
}

/// Where the first reply with that id stands at or after position `i`.
pub open spec fn reply_index(replies: Seq<Reply>, id: Seq<char>, i: int) -> Option<int>
    decreases replies.len() - i,
{
    if i < 0 || i >= replies.len() {
        None
    } else if replies[i].reply_id@ == id {
        Some(i)
    } else {
        reply_index(replies, id, i + 1)
    }
}

/// The first image URL of a reply.
pub open spec fn first_image(content: Seq<char>, attachments: Seq<model::Attachment>) -> Option<
    Seq<char>,
> {
    let urls = images::image_urls(content, attachments);
    if urls.len() > 0 {
        Some(urls[0])
    } else {
        None
    }
}

/// The post's own image: its first one, else the cover art of its track.
pub open spec fn post_image(s: DetailView) -> Option<Seq<char>> {
    match first_image(s.entry.content, s.entry.attachments) {
        Some(u) => Some(u),
        None => s.cover_art,
    }
}

/// The post's image and then the first image of each of the first `n` replies.
pub open spec fn image_list(s: DetailView, n: int) -> Seq<Seq<char>>
    decreases n,
{
    if n <= 0 {
        match post_image(s) {
            Some(u) => seq![u],
            None => Seq::empty(),
        }
    } else {
        let before = image_list(s, n - 1);
        match first_image(s.replies[n - 1].content@, s.replies[n - 1].attachments@) {
            Some(u) => before.push(u),
            None => before,
        }
    }
}

impl DetailView {
    /// The screen once it is known whether the thread is watched.
    pub open spec fn watched(self, watching: bool) -> DetailView {
        DetailView { watching: Some(watching), ..self }
    }

    /// The screen without its prompt, and whether there was one.
    pub open spec fn without_prompt(self) -> (DetailView, bool) {
        (DetailView { flag_prompt: None, ..self }, self.flag_prompt is Some)
    }

    /// The screen after its post was edited.
    pub open spec fn with_entry_edit(self, edit: EntryEdit, now: Moment) -> DetailView {
        DetailView { entry: self.entry.edited(edit, now), ..self }
    }

    /// The screen after the bytes of an image came in.
    pub open spec fn with_bytes(self, url: String, bytes: Vec<u8>) -> DetailView {
        DetailView { image_bytes: images::stored(self.image_bytes, url, bytes), ..self }
    }

    /// The screen after an image is to be asked for, and whether it had not been.
    pub open spec fn with_request(self, url: String) -> (DetailView, bool) {
        if images::keys(self.requested).contains(url@) {
            (self, false)
        } else {
            (DetailView { requested: images::stored(self.requested, url, true), ..self }, true)
        }
    }

    /// When what is focused was written.
    pub open spec fn focus_time(self) -> Option<Moment> {
        match self.focus() {
            Some(reply) => reply.created_at,
            None => self.entry.created_at,
        }
    }

    /// The screen after a paste.
    pub open spec fn pasted(self, text: Seq<char>) -> DetailView {
        DetailView {
            flag_prompt: match self.flag_prompt {
                Some(p) => Some(p.pasted(text)),
                None => None,
            },
            ..self
        }
    }
}

impl PostDetailScreen {
    pub open spec fn opened(entry: model::EntryView) -> DetailView {
        DetailView {
            entry,
            replies: Seq::empty(),
            next_replies_cursor: None,
            loading_replies: true,
            error: None,
            scroll: 0,
            max_scroll: 0,
            highlight_reply_id: None,
            watching: None,
            selected_reply: None,
            reply_anchors: Seq::empty(),
            confirming_delete: false,
            flag_prompt: None,
            cover_art: None,
            image_bytes: Seq::empty(),
            requested: Seq::empty(),
        }
    }

    pub fn new(entry: Entry) -> (r: PostDetailScreen)
        ensures
            r@ == PostDetailScreen::opened(entry@),
            r.entry == entry,
    {
        PostDetailScreen {
            entry,
            replies: Vec::new(),
            next_replies_cursor: None,
            loading_replies: true,
            error: None,
            scroll: 0,
            max_scroll: 0,
            highlight_reply_id: None,
            watching: None,
            selected_reply: None,
            reply_anchors: Vec::new(),
            confirming_delete: false,
            flag_prompt: None,
            cover_art: None,
            image_bytes: ImageCache::new(),
            requested: ImageCache::new(),
        }
    }

    /// Record the latest known watch state for this thread.
    pub fn set_watching(&mut self, watching: bool)
        ensures
            final(self)@ == old(self)@.watched(watching),
    {
        self.watching = Some(watching);
    }

    /// Whether a field on this screen owns the keyboard.
    pub fn is_text_input(&self) -> (r: bool)
        ensures
            r == (self@.flag_prompt is Some),
    {
        self.flag_prompt.is_some()
    }

    /// Close the flag-reason prompt without filing anything, answering `true`
    /// only when there was one to close.
    pub fn cancel_flag_prompt(&mut self) -> (r: bool)
        ensures
            (final(self)@, r) == old(self)@.without_prompt(),
    {
        self.flag_prompt.take().is_some()
    }

    /// Fold a successful entry edit, made at `now`, into the entry on screen.
    pub fn apply_entry_edit(&mut self, edit: &EntryEdit, now: Moment)
        ensures
            final(self)@ == old(self)@.with_entry_edit(*edit, now),
    {
        self.entry.apply_edit(edit, now);
    }

    /// Fold a successful reply edit, made at `now`, into the reply with that
    /// id. Answers `false` when the reply is not on this page.
    pub fn apply_reply_edit(&mut self, reply_id: &str, content: String, now: Moment) -> (r: bool)
        ensures
            (final(self)@, r) == old(self)@.with_reply_edit(reply_id@, content, now),
    {
        let mut i: usize = 0;
        while i < self.replies.len()
            invariant
                i <= self.replies@.len(),
                *self == *old(self),
                reply_index(self.replies@, reply_id@, i as int) == reply_index(
                    self.replies@,
                    reply_id@,
                    0,
                ),
            decreases self.replies@.len() - i,
        {
            if same(self.replies[i].reply_id.as_str(), reply_id) {
                let mut reply = self.replies.remove(i);
                reply.content = content;
                reply.edited_at = Some(now);
                self.replies.insert(i, reply);
                assert(self.replies@ =~= old(self).replies@.update(i as int, reply));
                return true;
            }
            i = i + 1;
        }
        false
    }

    /// Remember fetched bytes for `url`.
    pub fn cache_image_bytes(&mut self, url: String, bytes: Vec<u8>)
        ensures
            final(self)@ == old(self)@.with_bytes(url, bytes),
    {
        self.image_bytes.insert(url, bytes);
    }

    /// Whether `url`'s bytes are already cached.
    pub fn has_image_bytes(&self, url: &str) -> (r: bool)
        ensures
            r == images::keys(self@.image_bytes).contains(url@),
    {
        self.image_bytes.contains(url)
    }

    /// Record that `url` has been requested; returns `true` only the first
    /// time, so that one fetch is made for each URL.
    pub fn mark_requested(&mut self, url: String) -> (r: bool)
        ensures
            (final(self)@, r) == old(self)@.with_request(url),
    {
        if self.requested.contains(url.as_str()) {
            return false;
        }
        self.requested.insert(url, true);
        true
    }

    /// What an inline image in view needs before it is drawn over `target`
    /// columns and rows, where `built` is the size it was last prepared for.
    pub fn encoding_for(&self, url: &str, built: Option<(u16, u16)>, target: (u16, u16)) -> (r:
        Encoding)
        ensures
            r == encoding_of(self@, url@, built, target),
    {
        if let Some(b) = built {
            if b.0 == target.0 && b.1 == target.1 {
                return Encoding::Ready;
            }
        }
        if self.image_bytes.contains(url) {
            Encoding::Build
        } else {
            Encoding::Missing
        }
    }

    /// The picture behind `url`; `None` while its bytes are not there.
    pub fn decode_image(&self, url: &str) -> (r: Option<Result<image::DynamicImage, String>>)
        ensures
            match images::lookup(self@.image_bytes, url@, 0) {
                Some(bytes) => r matches Some(picture) && images::comes_out(
                    picture,
                    images::decoded(bytes@),
                ),
                None => r is None,
            },
    {
        match self.image_bytes.get(url) {
            Some(bytes) => Some(images::decode(bytes.as_slice())),
            None => None,
        }
    }

    /// The post's own inline image.
    pub fn post_image_url(&self) -> (r: Option<String>)
        ensures
            strs::opt_text(r) == post_image(self@),
    {
        let urls = images::entry_image_urls(&self.entry);
        if urls.len() > 0 {
            assert(strs::texts(urls@)[0] == urls@[0]@);
            Some(urls[0].clone())
        } else {
            clone_opt(&self.cover_art)
        }
    }

    /// Every image URL the screen can show, in body order.
    pub fn all_image_urls(&self) -> (r: Vec<String>)
        ensures
            strs::texts(r@) == image_list(self@, self@.replies.len() as int),
    {
        let mut urls: Vec<String> = Vec::new();
        if let Some(u) = self.post_image_url() {
            urls.push(u);
        }
        assert(strs::texts(urls@) =~= image_list(self@, 0));
        let mut i: usize = 0;
        while i < self.replies.len()
            invariant
                i <= self.replies@.len(),
                strs::texts(urls@) == image_list(self@, i as int),
            decreases self.replies@.len() - i,
        {
            let found = images::reply_image_urls(&self.replies[i]);
            if found.len() > 0 {
                assert(strs::texts(found@)[0] == found@[0]@);
                let ghost before = strs::texts(urls@);
                urls.push(found[0].clone());
                assert(strs::texts(urls@) =~= before.push(found@[0]@));
            }
            i = i + 1;
        }
        urls
    }

    fn focused(&self) -> (r: Option<usize>)
        ensures
            match r {
                Some(i) => i < self.replies@.len() && self@.focus() == Some(
                    self.replies@[i as int],
                ),
                None => self@.focus() is None,
            },
    {
        match self.selected_reply {
            Some(i) => if i < self.replies.len() {
                Some(i)
            } else {
                None
            },
            None => None,
        }
    }

    /// What `e` edits: the selected reply, or the post when none is selected.
    pub fn edit_intent(&self) -> (r: PostDetailIntent)
        ensures
            r@ == self@.edits(),
    {
        match self.focused() {
            Some(i) => PostDetailIntent::EditReply {
                reply_id: self.replies[i].reply_id.clone(),
                content: self.replies[i].content.clone(),
            },
            None => PostDetailIntent::EditEntry {
                post_id: self.entry.post_id.clone(),
                content: self.entry.content.clone(),
                title: clone_opt(&self.entry.title),
                topics: clone_strings(&self.entry.topics),
                is_public: self.entry.is_public,
                is_nsfw: self.entry.is_nsfw,
            },
        }
    }

    /// What `F` reports.
    pub fn flag_target(&self) -> (r: FlagTarget)
        ensures
            self@.reports(r),
    {
        match self.focused() {
            Some(i) => FlagTarget::Reply(self.replies[i].reply_id.clone()),
            None => FlagTarget::Entry(self.entry.post_id.clone()),
        }
    }

    /// The publish time of whatever `e` would edit.
    pub fn focused_created_at(&self) -> (r: Option<Moment>)
        ensures
            r == self@.focus_time(),
    {
        match self.focused() {
            Some(i) => self.replies[i].created_at,
            None => self.entry.created_at,
        }
    }

    /// The link to open with `o`.
    pub fn jukebox_url(&self) -> (r: Option<String>)
        ensures
            r == self@.focused_url(),
    {
        if let Some(i) = self.focused() {
            if let Some(url) = audio::jukebox_url(&self.replies[i].attachments) {
                return Some(url);
            }
        }
        audio::jukebox_url(&self.entry.attachments)
    }

    /// The track to play with `p`.
    pub fn focused_track(&self) -> (r: Option<JukeboxTrack>)
        ensures
            r == self@.focused_track_spec(),
    {
        if let Some(i) = self.focused() {
            if let Some(t) = audio::jukebox_track(&self.replies[i].attachments) {
                return Some(t);
            }
        }
        audio::jukebox_track(&self.entry.attachments)
    }

    /// Select reply `i` and scroll it to the top of the pane.
    fn select_reply(&mut self, i: usize)
        ensures
            final(self)@ == old(self)@.at_reply(i),
    {
        self.selected_reply = Some(i);
        if i < self.reply_anchors.len() {
            let anchor: u16 = self.reply_anchors[i];
            self.scroll = if anchor < self.max_scroll {
                anchor
            } else {
                self.max_scroll
            };
        }
    }

    fn scroll_down(&mut self, by: u16)
        requires
            by <= 10,
        ensures
            final(self)@ == old(self)@.scrolled(
                draw::least(old(self)@.scroll + by, old(self)@.max_scroll),
            ),
    {
        let to: u32 = self.scroll as u32 + by as u32;
        self.scroll = if to < self.max_scroll as u32 {
            to as u16
        } else {
            self.max_scroll
        };
    }

    fn scroll_up(&mut self, by: u16)
        ensures
            final(self)@ == old(self)@.scrolled(draw::less(old(self)@.scroll, by as int)),
    {
        self.scroll = if self.scroll >= by {
            self.scroll - by
        } else {
            0
        };
    }

    /// Keys while the flag-reason prompt is open: Enter files the report, Esc
    /// abandons it, and everything else is text or caret movement.
    fn handle_flag_prompt_key(&mut self, key: KeyEvent) -> (r: PostDetailIntent)
        requires
            old(self).flag_prompt is Some,
            !key.is_quit_spec(),
        ensures
            old(self)@.answers(key, true, final(self)@, r@),
            old(self)@.answers(key, false, final(self)@, r@),
    {
        match self.flag_prompt.take() {
            Some(prompt) => {
                let mut prompt = prompt;
                match prompt.handle_key(key) {
                    FlagPromptKey::Consumed => {
                        self.flag_prompt = Some(prompt);
                        PostDetailIntent::Nothing
                    },
                    FlagPromptKey::Cancelled => PostDetailIntent::Nothing,
                    FlagPromptKey::Submitted => flag_intent(prompt),
                }
            },
            None => PostDetailIntent::Nothing,
        }
    }

    /// Take a key and say what is asked of the shell.
    pub fn handle_key(&mut self, key: KeyEvent, confirm_deletes: bool) -> (r: PostDetailIntent)
        ensures
            old(self)@.answers(key, confirm_deletes, final(self)@, r@),
    {
        if key.is_quit() {
            return PostDetailIntent::Quit;
        }
        if self.flag_prompt.is_some() {
            return self.handle_flag_prompt_key(key);
        }
        // While a delete waits, only `y` confirms it.
        if self.confirming_delete {
            self.confirming_delete = false;
            if key.code == KeyCode::Char('y') || key.code == KeyCode::Char('Y') {
                return PostDetailIntent::DeleteEntryConfirmed;
            }
            return PostDetailIntent::Nothing;
        }
        match key.code {
            KeyCode::Backspace => PostDetailIntent::Back,
            KeyCode::Char('R') => PostDetailIntent::Reply,
            KeyCode::Char('Q') => PostDetailIntent::QuoteReply,
            KeyCode::Char('J') => {
                if self.replies.len() > 0 {
                    let last: usize = self.replies.len() - 1;
                    let next: usize = match self.selected_reply {
                        Some(i) => if i < last {
                            i + 1
                        } else {
                            last
                        },
                        None => 0,
                    };
                    self.select_reply(next);
                }
                PostDetailIntent::Nothing
            },
            KeyCode::Char('K') => {
                if let Some(i) = self.selected_reply {
                    let prev: usize = if i > 0 {
                        i - 1
                    } else {
                        0
                    };
                    self.select_reply(prev);
                }
                PostDetailIntent::Nothing
            },
            KeyCode::Char('b') => match self.focused() {
                Some(i) => PostDetailIntent::BookmarkReply {
                    reply_id: self.replies[i].reply_id.clone(),
                },
                None => PostDetailIntent::Bookmark,
            },
            KeyCode::Char('e') => self.edit_intent(),
            KeyCode::Char('F') => {
                let target = self.flag_target();
                self.flag_prompt = Some(FlagPrompt::new(target));
                PostDetailIntent::Nothing
            },
            KeyCode::Char('w') => PostDetailIntent::ToggleWatch,
            KeyCode::Char('o') => match self.jukebox_url() {
                Some(url) => PostDetailIntent::OpenUrl(url),
                None => PostDetailIntent::Nothing,
            },
            KeyCode::Char('p') => PostDetailIntent::PlayJukebox(self.focused_track()),
            KeyCode::Char('d') => {
                if confirm_deletes {
                    self.confirming_delete = true;
                    PostDetailIntent::Nothing
                } else {
                    PostDetailIntent::DeleteEntryConfirmed
                }
            },
            KeyCode::Char('j') | KeyCode::Down => {
                // At the bottom, scrolling down pulls the next page of replies.
                if self.scroll >= self.max_scroll && self.next_replies_cursor.is_some()
                    && !self.loading_replies {
                    self.loading_replies = true;
                    return PostDetailIntent::LoadMoreReplies;
                }
                self.scroll_down(1);
                PostDetailIntent::Nothing
            },
            KeyCode::Char('k') | KeyCode::Up => {
                self.scroll_up(1);
                PostDetailIntent::Nothing
            },
            KeyCode::PageDown | KeyCode::Char(' ') => {
                self.scroll_down(10);
                PostDetailIntent::Nothing
            },
            KeyCode::PageUp => {
                self.scroll_up(10);
                PostDetailIntent::Nothing
            },
            KeyCode::Char('g') | KeyCode::Home => {
                self.scroll = 0;
                PostDetailIntent::Nothing
            },
            KeyCode::Char('G') | KeyCode::End => {
                self.scroll = self.max_scroll;
                PostDetailIntent::Nothing
            },
            KeyCode::Char('n') => {
                if self.next_replies_cursor.is_some() {
                    self.loading_replies = true;
                    PostDetailIntent::LoadMoreReplies
                } else {
                    PostDetailIntent::Nothing
                }
            },
            KeyCode::Char('r') => {
                self.replies.clear();
                self.next_replies_cursor = None;
                self.loading_replies = true;
                self.error = None;
                PostDetailIntent::RefreshReplies
            },
            _ => PostDetailIntent::Nothing,
        }
    }

    /// Insert pasted text into the flag-reason prompt; without effect when
    /// none is open.
    pub fn paste_text(&mut self, text: &str)
        ensures
            final(self)@ == old(self)@.pasted(text@),
    {
        if let Some(prompt) = self.flag_prompt.take() {
            let mut prompt = prompt;
            prompt.paste(text);
            self.flag_prompt = Some(prompt);
        }
    }

    /// Apply a first page of replies.
    pub fn apply_replies_initial(&mut self, result: Page<Reply>)
        ensures
            final(self)@ == old(self)@.after_replies(result),
    {
        self.loading_replies = false;
        match result {
            Ok((replies, cursor)) => {
                self.replies = replies;
                self.next_replies_cursor = cursor;
                self.error = None;
                // The list changed out from under any selection.
                self.selected_reply = None;
            },
            Err(msg) => {
                self.error = Some(msg);
            },
        }
    }

    /// Apply a further page of replies.
    pub fn apply_replies_more(&mut self, result: Page<Reply>)
        ensures
            final(self)@ == old(self)@.after_more_replies(result),
    {
        self.loading_replies = false;
        match result {
            Ok((replies, cursor)) => {
                let mut more = replies;
                self.replies.append(&mut more);
                self.next_replies_cursor = cursor;
                self.error = None;
            },
            Err(msg) => {
                self.error = Some(msg);
            },
        }
    }
}

// ---------------------------------------------------------------------------
// The body.
// ---------------------------------------------------------------------------

/// An inline image reserved in the body: its URL and the line where its gap of
/// blank rows begins.
#[derive(Debug, Clone)]
pub struct ImageSlot {
    pub url: String,
    pub start_line: usize,
}

/// What an [`ImageSlot`] says.
#[verifier::ext_equal]
pub struct SlotView {
    pub url: Seq<char>,
    pub start_line: int,
}

pub open spec fn slot_views(v: Seq<ImageSlot>) -> Seq<SlotView> {
    Seq::new(
        v.len(),
        |i: int| SlotView { url: v[i].url@, start_line: v[i].start_line as int },
    )
}

/// The scrollable body: its lines, the line at which each reply starts, and
/// the gaps reserved for images.
#[derive(Debug)]
pub struct Body {
    pub lines: Vec<Line>,
    pub reply_starts: Vec<usize>,
    pub slots: Vec<ImageSlot>,
}

/// What a [`Body`] holds.
#[verifier::ext_equal]
pub struct BodyView {
    pub lines: Seq<Seq<draw::SpanView>>,
    pub reply_starts: Seq<usize>,
    pub slots: Seq<SlotView>,
}

impl View for Body {
    type V = BodyView;

    open spec fn view(&self) -> BodyView {
        BodyView {
            lines: draw::line_views(self.lines@),
            reply_starts: self.reply_starts@,
            slots: slot_views(self.slots@),
        }
    }
}

/// How a body is laid out.
#[derive(Debug, Clone, Copy, PartialEq, Eq)]
pub struct BodyStyle {
    pub theme: Theme,
    pub selection: SelectionStyle,
    /// Images are drawn in the body rather than named by their URL.
    pub inline_images: bool,
    /// The rows an image takes.
    pub img_rows: u16,
}

impl BodyView {
    /// Every reply start and every gap lies within the body.
    pub open spec fn wf(self) -> bool {
        &&& forall|k: int|
            0 <= k < self.reply_starts.len() ==> #[trigger] self.reply_starts[k]
                <= self.lines.len()
        &&& forall|k: int|
            0 <= k < self.slots.len() ==> 0 <= (#[trigger] self.slots[k]).start_line
                <= self.lines.len()
    }

    pub open spec fn with_line(self, l: Seq<draw::SpanView>) -> BodyView {
        BodyView { lines: self.lines.push(l), ..self }
    }

    pub open spec fn with_lines(self, l: Seq<Seq<draw::SpanView>>) -> BodyView {
        BodyView { lines: self.lines + l, ..self }
    }

    /// A gap for the image, where images are drawn in the body.
    pub open spec fn with_image(self, url: Option<Seq<char>>, style: BodyStyle) -> BodyView {
        match url {
            Some(u) => if style.inline_images {
                BodyView {
                    lines: self.lines + blanks(style.img_rows as int),
                    slots: self.slots.push(
                        SlotView { url: u, start_line: self.lines.len() as int },
                    ),
                    ..self
                }
            } else {
                self
            },
            None => self,
        }
    }
}

/// That many blank lines.
pub open spec fn blanks(n: int) -> Seq<Seq<draw::SpanView>> {
    Seq::new(n as nat, |i: int| draw::blank())
}

pub open spec fn url_mode(style: BodyStyle) -> ImageUrls {
    if style.inline_images {
        ImageUrls::Hide
    } else {
        ImageUrls::Show
    }
}

/// The title as a headline, unless it is blank.
pub open spec fn title_lines(title: Option<Seq<char>>, theme: Theme) -> Seq<Seq<draw::SpanView>> {
    match title {
        Some(t) => if strs::trimmed(t).len() > 0 {
            seq![draw::one(strs::trimmed(t), theme.accent_spec())]
        } else {
            Seq::empty()
        },
        None => Seq::empty(),
    }
}

pub open spec fn topics_text(topics: Seq<String>) -> Seq<char> {
    if topics.len() == 0 {
        Seq::empty()
    } else {
        " · #"@ + strs::joined(strs::texts(topics), " #"@)
    }
}

/// The author of an entry, when it was published, its topics, and whether it
/// was edited.
pub open spec fn author_line(e: model::EntryView, when: Seq<char>, theme: Theme) -> Seq<
    draw::SpanView,
> {
    seq![
        draw::span("@"@ + e.author_username, theme.accent_spec()),
        draw::span(
            " · "@ + when + topics_text(e.topics) + text::edited_text(e.edited_at),
            theme.muted_spec(),
        ),
    ]
}

pub open spec fn counts_line(e: model::EntryView, watching: Option<bool>, theme: Theme) -> Seq<
    draw::SpanView,
> {
    draw::one(
        strs::decimal(e.replies_count as nat) + " replies · "@ + strs::decimal(
            e.bookmarks_count as nat,
        ) + " bookmarks"@ + (if e.is_nsfw {
            " · NSFW"@
        } else {
            ""@
        }) + (if watching == Some(true) {
            " · ★ watching"@
        } else {
            ""@
        }),
        theme.muted_spec(),
    )
}

/// The body down to the separator of the replies.
pub open spec fn post_part(s: DetailView, stamps: Seq<String>, style: BodyStyle) -> BodyView {
    let t = style.theme;
    let head = BodyView {
        lines: title_lines(s.entry.title, t) + seq![
            author_line(s.entry, config::stamp(s.entry.created_at, stamps, 0), t),
            counts_line(s.entry, s.watching, t),
            draw::blank(),
        ] + markdown::MdView::rendered(
            markdown::markdown_events(s.entry.content),
            t,
            url_mode(style),
        ).out,
        reply_starts: Seq::empty(),
        slots: Seq::empty(),
    };
    let pictured = head.with_image(post_image(s), style);
    let tracks = audio::audio_rows(s.entry.attachments, s.entry.attachments.len() as int, t);
    let sounding = if tracks.len() > 0 {
        pictured.with_line(draw::blank()).with_lines(tracks)
    } else {
        pictured
    };
    if s.replies.len() > 0 || s.loading_replies {
        sounding.with_line(draw::blank()).with_line(
            draw::one("─── replies ───"@, t.muted_spec()),
        ).with_line(draw::blank())
    } else {
        sounding
    }
}

/// The header of a reply.
pub open spec fn reply_line(r: Reply, when: Seq<char>, selected: bool, style: BodyStyle) -> Seq<
    draw::SpanView,
> {
    let t = style.theme;
    let author = if selected {
        match style.selection {
            SelectionStyle::Fill => t.selection_spec(),
            SelectionStyle::Bar => Style { reversed: true, ..t.accent_spec() },
        }
    } else {
        t.accent_spec()
    };
    seq![
        draw::span("@"@ + r.author_username@, author),
        draw::span(
            " · "@ + when + (if r.parent_reply_id is Some {
                " · ↪"@
            } else {
                ""@
            }) + text::edited_text(r.edited_at),
            t.muted_spec(),
        ),
    ]
}

/// Lines with every run in one style.
pub open spec fn restyled(lines: Seq<Seq<draw::SpanView>>, style: Style) -> Seq<
    Seq<draw::SpanView>,
> {
    Seq::new(
        lines.len(),
        |i: int| Seq::new(lines[i].len(), |k: int| draw::span(lines[i][k].content, style)),
    )
}

/// The body with reply `i` behind it.
pub open spec fn with_reply(
    b: BodyView,
    s: DetailView,
    i: int,
    stamps: Seq<String>,
    style: BodyStyle,
) -> BodyView {
    let r = s.replies[i];
    let t = style.theme;
    let highlight = s.highlight_reply_id == Some(r.reply_id@);
    let started = BodyView {
        reply_starts: b.reply_starts.push(b.lines.len() as usize),
        ..b
    };
    let rendered = markdown::MdView::rendered(
        markdown::markdown_events(r.content@),
        t,
        url_mode(style),
    ).out;
    started.with_line(
        reply_line(
            r,
            config::stamp(r.created_at, stamps, i + 1),
            s.selected_reply == Some(i as usize),
            style,
        ),
    ).with_lines(
        if highlight {
            restyled(rendered, t.accent_spec())
        } else {
            rendered
        },
    ).with_image(first_image(r.content@, r.attachments@), style).with_lines(
        audio::audio_rows(r.attachments@, r.attachments@.len() as int, t),
    ).with_line(draw::blank())
}

/// The body with the first `n` replies.
pub open spec fn body_after(s: DetailView, n: int, stamps: Seq<String>, style: BodyStyle) -> BodyView
    decreases n,
{
    if n <= 0 {
        post_part(s, stamps, style)
    } else {
        with_reply(body_after(s, n - 1, stamps, style), s, n - 1, stamps, style)
    }
}

/// The whole body.
pub open spec fn body_spec(s: DetailView, stamps: Seq<String>, style: BodyStyle) -> BodyView {
    let b = body_after(s, s.replies.len() as int, stamps, style);
    if s.loading_replies && s.replies.len() > 0 {
        b.with_line(draw::one("loading more replies…"@, style.theme.accent_spec()))
    } else {
        b
    }
}

proof fn lemma_longer_body_is_wf(a: BodyView, b: BodyView)
    requires
        a.wf(),
        a.reply_starts == b.reply_starts,
        a.slots == b.slots,
        a.lines.len() <= b.lines.len(),
    ensures
        b.wf(),
{
    assert forall|k: int| 0 <= k < b.reply_starts.len() implies #[trigger] b.reply_starts[k]
        <= b.lines.len() by {
        assert(a.reply_starts[k] <= a.lines.len());
    }
    assert forall|k: int| 0 <= k < b.slots.len() implies 0 <= (#[trigger] b.slots[k]).start_line
        <= b.lines.len() by {
        assert(a.slots[k].start_line <= a.lines.len());
    }
}

impl Body {
    fn push(&mut self, l: Line)
        ensures
            final(self)@ == old(self)@.with_line(l@),
            old(self)@.wf() ==> final(self)@.wf(),
    {
        push_line(&mut self.lines, l);
        proof {
            if old(self)@.wf() {
                lemma_longer_body_is_wf(old(self)@, self@);
            }
        }
    }

    fn extend(&mut self, more: Vec<Line>)
        ensures
            final(self)@ == old(self)@.with_lines(draw::line_views(more@)),
            old(self)@.wf() ==> final(self)@.wf(),
    {
        let mut more = more;
        append_lines(&mut self.lines, &mut more);
        proof {
            if old(self)@.wf() {
                lemma_longer_body_is_wf(old(self)@, self@);
            }
        }
    }

    fn add_image(&mut self, url: Option<String>, style: BodyStyle)
        ensures
            final(self)@ == old(self)@.with_image(strs::opt_text(url), style),
            old(self)@.wf() ==> final(self)@.wf(),
    {
        if let Some(url) = url {
            if style.inline_images {
                let ghost before = slot_views(self.slots@);
                let ghost lines = draw::line_views(self.lines@);
                let slot = ImageSlot { url, start_line: self.lines.len() };
                self.slots.push(slot);
                assert(slot_views(self.slots@) =~= before.push(
                    SlotView { url: url@, start_line: lines.len() as int },
                ));
                let ghost slots = self.slots@;
                let ghost starts = self.reply_starts@;
                let mut k: u16 = 0;
                assert(draw::line_views(self.lines@) =~= lines + blanks(0));
                while k < style.img_rows
                    invariant
                        k <= style.img_rows,
                        self.slots@ == slots,
                        self.reply_starts@ == starts,
                        draw::line_views(self.lines@) == lines + blanks(k as int),
                    decreases style.img_rows - k,
                {
                    push_line(&mut self.lines, Line::empty());
                    k = k + 1;
                    assert(draw::line_views(self.lines@) =~= lines + blanks(k as int));
                }
                proof {
                    if old(self)@.wf() {
                        let with_slot = BodyView { slots: self@.slots, ..old(self)@ };
                        assert(with_slot.slots.drop_last() =~= old(self)@.slots);
                        assert forall|k: int| 0 <= k < with_slot.slots.len() implies 0 <= (
                        #[trigger] with_slot.slots[k]).start_line <= with_slot.lines.len() by {
                            if k < before.len() {
                                assert(old(self)@.slots[k].start_line <= old(self)@.lines.len());
                            }
                        }
                        assert(with_slot.wf());
                        lemma_longer_body_is_wf(with_slot, self@);
                    }
                }
            }
        }
    }
}

fn restyle(lines: Vec<Line>, style: Style) -> (r: Vec<Line>)
    ensures
        draw::line_views(r@) == restyled(draw::line_views(lines@), style),
{
    let ghost want = restyled(draw::line_views(lines@), style);
    let mut r: Vec<Line> = Vec::new();
    let mut i: usize = 0;
    assert(draw::line_views(r@) =~= want.take(0));
    while i < lines.len()
        invariant
            i <= lines@.len(),
            want == restyled(draw::line_views(lines@), style),
            draw::line_views(r@) == want.take(i as int),
        decreases lines@.len() - i,
    {
        let ghost row = lines@[i as int];
        let mut spans: Vec<Span> = Vec::new();
        let mut k: usize = 0;
        assert(draw::span_views(spans@) =~= want[i as int].take(0));
        while k < lines[i].spans.len()
            invariant
                i < lines@.len(),
                row == lines@[i as int],
                k <= row.spans@.len(),
                want == restyled(draw::line_views(lines@), style),
                want[i as int].len() == row.spans@.len(),
                draw::span_views(spans@) == want[i as int].take(k as int),
            decreases row.spans@.len() - k,
        {
            push_span(&mut spans, Span::new(lines[i].spans[k].content.clone(), style));
            assert(want[i as int][k as int] == draw::span(row.spans@[k as int].content@, style));
            assert(want[i as int].take(k + 1) =~= want[i as int].take(k as int).push(
                want[i as int][k as int],
            ));
            k = k + 1;
        }
        assert(want[i as int].take(k as int) =~= want[i as int]);
        push_line(&mut r, Line::new(spans));
        assert(want.take(i + 1) =~= want.take(i as int).push(want[i as int]));
        i = i + 1;
    }
    assert(want.take(lines@.len() as int) =~= want);
    r
}

fn first_of(urls: Vec<String>) -> (r: Option<String>)
    ensures
        strs::opt_text(r) == if strs::texts(urls@).len() > 0 {
            Some(strs::texts(urls@)[0])
        } else {
            None
        },
{
    if urls.len() > 0 {
        Some(urls[0].clone())
    } else {
        None
    }
}

impl PostDetailScreen {
    fn compose_author(&self, when: &str, theme: &Theme) -> (r: Line)
        ensures
            r@ == author_line(self@.entry, when@, *theme),
    {
        let mut name = "@".to_owned();
        name.append(self.entry.author_username.as_str());
        let mut rest = " · ".to_owned();
        rest.append(when);
        if self.entry.topics.len() > 0 {
            let mut topics = " · #".to_owned();
            topics.append(strs::join(&self.entry.topics, " #").as_str());
            rest.append(topics.as_str());
        } else {
            rest.append(String::new().as_str());
        }
        rest.append(edited_marker(self.entry.edited_at));
        let mut spans: Vec<Span> = Vec::new();
        push_span(&mut spans, Span::new(name, theme.accent_style()));
        push_span(&mut spans, Span::new(rest, theme.muted_style()));
        let r = Line::new(spans);
        assert(r@ =~= author_line(self@.entry, when@, *theme));
        r
    }

    fn compose_counts(&self, theme: &Theme) -> (r: Line)
        ensures
            r@ == counts_line(self@.entry, self@.watching, *theme),
    {
        let mut s = decimal_text(self.entry.replies_count);
        s.append(" replies · ");
        s.append(decimal_text(self.entry.bookmarks_count).as_str());
        s.append(" bookmarks");
        s.append(if self.entry.is_nsfw {
            " · NSFW"
        } else {
            ""
        });
        let watched = match self.watching {
            Some(b) => b,
            None => false,
        };
        s.append(if watched {
            " · ★ watching"
        } else {
            ""
        });
        Line::single(s, theme.muted_style())
    }

    fn compose_post(&self, stamps: &Vec<String>, style: BodyStyle) -> (b: Body)
        ensures
            b@ == post_part(self@, stamps@, style),
            b@.wf(),
    {
        let theme = style.theme;
        let mut b = Body { lines: Vec::new(), reply_starts: Vec::new(), slots: Vec::new() };
        if let Some(title) = &self.entry.title {
            let title = trim(title.as_str());
            if !title.as_str().is_empty() {
                b.push(Line::single(title, theme.accent_style()));
            }
        }
        assert(b@.lines =~= title_lines(self@.entry.title, theme));
        let when = config::stamp_of(self.entry.created_at, stamps, 0);
        b.push(self.compose_author(when.as_str(), &theme));
        b.push(self.compose_counts(&theme));
        b.push(Line::empty());
        let urls = if style.inline_images {
            ImageUrls::Hide
        } else {
            ImageUrls::Show
        };
        b.extend(render_markdown_with(self.entry.content.as_str(), &theme, urls));
        proof {
            let head = title_lines(self@.entry.title, theme) + seq![
                author_line(
                    self@.entry,
                    config::stamp(self@.entry.created_at, stamps@, 0),
                    theme,
                ),
                counts_line(self@.entry, self@.watching, theme),
                draw::blank(),
            ] + markdown::MdView::rendered(
                markdown::markdown_events(self@.entry.content),
                theme,
                url_mode(style),
            ).out;
            assert(b@.lines =~= head);
            assert(b@.reply_starts =~= Seq::empty());
            assert(b@.slots =~= Seq::empty());
        }
        b.add_image(self.post_image_url(), style);
        let tracks = audio::audio_lines(&self.entry.attachments, &theme);
        if tracks.len() > 0 {
            b.push(Line::empty());
            b.extend(tracks);
        }
        if self.replies.len() > 0 || self.loading_replies {
            b.push(Line::empty());
            b.push(Line::of("─── replies ───", theme.muted_style()));
            b.push(Line::empty());
        }
        b
    }

    fn compose_reply(&self, i: usize, stamps: &Vec<String>, style: BodyStyle) -> (r: Line)
        requires
            i < self.replies@.len(),
        ensures
            r@ == reply_line(
                self.replies@[i as int],
                config::stamp(self.replies@[i as int].created_at, stamps@, i + 1),
                self@.selected_reply == Some(i),
                style,
            ),
    {
        let theme = style.theme;
        let reply = &self.replies[i];
        let selected = match self.selected_reply {
            Some(k) => k == i,
            None => false,
        };
        let author = if selected {
            match style.selection {
                SelectionStyle::Fill => theme.selection_style(),
                SelectionStyle::Bar => {
                    let mut s = theme.accent_style();
                    s.reversed = true;
                    s
                },
            }
        } else {
            theme.accent_style()
        };
        let mut name = "@".to_owned();
        name.append(reply.author_username.as_str());
        let mut rest = " · ".to_owned();
        assert(self.replies.len() > i);
        let when = config::stamp_of(reply.created_at, stamps, i + 1);
        rest.append(when.as_str());
        rest.append(if reply.parent_reply_id.is_some() {
            " · ↪"
        } else {
            ""
        });
        rest.append(edited_marker(reply.edited_at));
        let mut spans: Vec<Span> = Vec::new();
        push_span(&mut spans, Span::new(name, author));
        push_span(&mut spans, Span::new(rest, theme.muted_style()));
        let r = Line::new(spans);
        assert(r@ =~= reply_line(
            self.replies@[i as int],
            config::stamp(self.replies@[i as int].created_at, stamps@, i + 1),
            self@.selected_reply == Some(i),
            style,
        ));
        r
    }

    fn add_reply(&self, b: &mut Body, i: usize, stamps: &Vec<String>, style: BodyStyle)
        requires
            i < self.replies@.len(),
            old(b)@.wf(),
        ensures
            final(b)@ == with_reply(old(b)@, self@, i as int, stamps@, style),
            final(b)@.wf(),
    {
        let theme = style.theme;
        let reply = &self.replies[i];
        let start: usize = b.lines.len();
        let ghost before = b@;
        b.reply_starts.push(start);
        assert forall|k: int| 0 <= k < b@.reply_starts.len() implies #[trigger] b@.reply_starts[k]
            <= b@.lines.len() by {
            if k < before.reply_starts.len() {
                assert(before.reply_starts[k] <= before.lines.len());
            }
        }
        assert(b@.slots == before.slots);
        let highlight = match &self.highlight_reply_id {
            Some(id) => same(id.as_str(), reply.reply_id.as_str()),
            None => false,
        };
        b.push(self.compose_reply(i, stamps, style));
        let urls = if style.inline_images {
            ImageUrls::Hide
        } else {
            ImageUrls::Show
        };
        let rendered = render_markdown_with(reply.content.as_str(), &theme, urls);
        if highlight {
            b.extend(restyle(rendered, theme.accent_style()));
        } else {
            b.extend(rendered);
        }
        b.add_image(first_of(images::reply_image_urls(reply)), style);
        b.extend(audio::audio_lines(&reply.attachments, &theme));
        b.push(Line::empty());
    }

    /// Build the scrollable body. `stamps` gives the time of the entry and then
    /// of each reply as text.
    ///
    /// Where images are drawn inline, their URLs are suppressed and a gap is
    /// reserved for each; otherwise the URLs are shown and no gap is reserved.
    pub fn compose_body(&self, stamps: &Vec<String>, style: BodyStyle) -> (b: Body)
        ensures
            b@ == body_spec(self@, stamps@, style),
            b@.wf(),
    {
        let mut b = self.compose_post(stamps, style);
        let mut i: usize = 0;
        while i < self.replies.len()
            invariant
                i <= self.replies@.len(),
                b@ == body_after(self@, i as int, stamps@, style),
                b@.wf(),
            decreases self.replies@.len() - i,
        {
            self.add_reply(&mut b, i, stamps, style);
            i = i + 1;
        }
        if self.loading_replies && self.replies.len() > 0 {
            b.push(Line::of("loading more replies…", style.theme.accent_style()));
        }
        b
    }
}

// ---------------------------------------------------------------------------
// The frame.
// ---------------------------------------------------------------------------

/// What an inline image in view needs before it is drawn.
#[derive(Debug, Clone, Copy, PartialEq, Eq, Structural)]
pub enum Encoding {
    /// Nothing: it was prepared for this size.
    Ready,
    /// To be prepared from its bytes.
    Build,
    /// Its bytes, so it is not drawn.
    Missing,
}

/// An image is prepared once for each size, as soon as its bytes are there.
pub open spec fn encoding_of(
    s: DetailView,
    url: Seq<char>,
    built: Option<(u16, u16)>,
    target: (u16, u16),
) -> Encoding {
    if built == Some(target) {
        Encoding::Ready
    } else if images::keys(s.image_bytes).contains(url) {
        Encoding::Build
    } else {
        Encoding::Missing
    }
}

/// An image drawn over its gap: full size, cut off at the bottom of the pane.
#[derive(Debug, Clone)]
pub struct ImageOverlay {
    pub url: String,
    pub area: Rect,
}

/// What an [`ImageOverlay`] says.
#[verifier::ext_equal]
pub struct OverlayView {
    pub url: Seq<char>,
    pub area: Rect,
}

pub open spec fn overlay_views(v: Seq<ImageOverlay>) -> Seq<OverlayView> {
    Seq::new(v.len(), |i: int| OverlayView { url: v[i].url@, area: v[i].area })
}

/// What one render shows.
#[derive(Debug)]
pub struct DetailFrame {
    pub title: Line,
    pub lines: Vec<Line>,
    pub scroll: u16,
    pub targets: Vec<LinkTarget>,
    /// The rows an image takes; none when images are not drawn.
    pub img_rows: u16,
    pub overlays: Vec<ImageOverlay>,
    /// The flag-reason field, when it is open.
    pub prompt: Option<Line>,
    pub status: Line,
}

/// Whether images are drawn in the body: they are on, the terminal can, and
/// there is room.
pub open spec fn draws_images(images_on: bool, graphics: bool, body: Rect) -> bool {
    images_on && graphics && body.height > 4
}

/// The rows an image takes: as configured, but no more than half the pane.
pub open spec fn image_rows(configured: u16, body: Rect) -> int {
    let half = draw::least(configured as int, body.height as int / 2);
    if half < 1 {
        1
    } else {
        half
    }
}

pub open spec fn style_for(
    cfg: Config,
    theme: Theme,
    images_on: bool,
    graphics: bool,
    body: Rect,
) -> BodyStyle {
    let inline = draws_images(images_on, graphics, body);
    BodyStyle {
        theme,
        selection: cfg.selection,
        inline_images: inline,
        img_rows: if inline {
            image_rows(cfg.image_height, body) as u16
        } else {
            0
        },
    }
}

/// The row at which line `i` of the body starts.
pub open spec fn body_row(b: BodyView, i: int, width: u16) -> int {
    hyperlink::line_row(b.lines, i, hyperlink::wrap_columns(width))
}

/// The largest useful scroll offset: the rows that do not fit in the pane.
pub open spec fn scroll_limit(b: BodyView, body: Rect) -> int {
    draw::least(
        draw::less(body_row(b, b.lines.len() as int, body.width), body.height as int),
        u16::MAX as int,
    )
}

/// The row at which each reply starts.
pub open spec fn anchors_of(b: BodyView, width: u16) -> Seq<u16> {
    Seq::new(
        b.reply_starts.len(),
        |k: int| draw::least(body_row(b, b.reply_starts[k] as int, width), u16::MAX as int) as u16,
    )
}

/// The images of the first `n` gaps whose top is in view.
pub open spec fn overlays_of(b: BodyView, n: int, body: Rect, scroll: int, rows: int) -> Seq<
    OverlayView,
>
    decreases n,
{
    if n <= 0 {
        Seq::empty()
    } else {
        let before = overlays_of(b, n - 1, body, scroll, rows);
        let rel = body_row(b, b.slots[n - 1].start_line, body.width) - scroll;
        if 0 <= rel < body.height {
            before.push(
                OverlayView {
                    url: b.slots[n - 1].url,
                    area: Rect {
                        x: body.x,
                        y: (body.y + rel) as u16,
                        width: body.width,
                        height: draw::least(rows, body.height - rel) as u16,
                    },
                },
            )
        } else {
            before
        }
    }
}

/// The label in front of the flag-reason field.
pub open spec fn prompt_label() -> Seq<char> {
    "reason (optional): "@
}

/// The row of the flag-reason field in a pane `width` columns wide.
pub open spec fn prompt_line(p: flag::FlagView<FlagTarget>, width: int, theme: Theme) -> Seq<
    draw::SpanView,
> {
    draw::one(prompt_label(), theme.muted_spec()) + input::windowed(
        p.reason,
        p.cursor,
        draw::less(width, prompt_label().len() as int),
        theme,
    )
}

/// The keys offered while browsing the replies.
pub open spec fn browse_text(s: DetailView, end: Seq<char>, now: Moment) -> Seq<char> {
    let created = match s.focus() {
        Some(r) => r.created_at,
        None => s.entry.created_at,
    };
    strs::decimal(s.replies.len()) + end
        + " · esc back · J/K select reply · R reply · Q quote · b bookmark"@ + (
    if s.focused_url() is Some {
        " · p play · o open"@
    } else {
        ""@
    }) + (if s.watching == Some(true) {
        " · w unwatch"@
    } else {
        " · w watch"@
    }) + (if edit_window_open(created, now) {
        " · e edit"@
    } else {
        " · e edit (5m passed)"@
    }) + " · F flag · d delete · r refresh"@
}

/// The status line: an open prompt, a delete that waits, a first load, an
/// error, and else the keys.
pub open spec fn status_text(s: DetailView, now: Moment) -> Seq<char> {
    if s.flag_prompt is Some {
        let p = s.flag_prompt->Some_0;
        "report "@ + p.target.label_spec() + " · enter send · esc cancel · reason optional · "@
            + strs::decimal(p.reason.len()) + "/500"@
    } else if s.confirming_delete {
        "really delete this post? y=yes, any other key=cancel"@
    } else if s.loading_replies && s.replies.len() == 0 {
        "loading replies… · esc back"@
    } else if s.error is Some {
        "error: "@ + s.error->Some_0 + " · esc back · r retry"@
    } else if s.next_replies_cursor is Some {
        browse_text(s, " replies · scroll down for more"@, now)
    } else {
        browse_text(s, " replies · end"@, now)
    }
}

impl PostDetailScreen {
    fn browse_status(&self, end: &str, now: Moment) -> (r: String)
        ensures
            r@ == browse_text(self@, end@, now),
    {
        let mut s = decimal_text(self.replies.len() as u64);
        s.append(end);
        s.append(" · esc back · J/K select reply · R reply · Q quote · b bookmark");
        s.append(if self.jukebox_url().is_some() {
            " · p play · o open"
        } else {
            ""
        });
        let watched = match self.watching {
            Some(b) => b,
            None => false,
        };
        s.append(if watched {
            " · w unwatch"
        } else {
            " · w watch"
        });
        s.append(if within_edit_window(self.focused_created_at(), now) {
            " · e edit"
        } else {
            " · e edit (5m passed)"
        });
        s.append(" · F flag · d delete · r refresh");
        s
    }

    /// The status line at `now`.
    pub fn status(&self, now: Moment) -> (r: String)
        ensures
            r@ == status_text(self@, now),
    {
        if let Some(prompt) = &self.flag_prompt {
            let mut s = "report ".to_owned();
            s.append(prompt.target.label());
            s.append(" · enter send · esc cancel · reason optional · ");
            s.append(
                decimal_text(strs::chars_of(prompt.reason.as_str()).len() as u64).as_str(),
            );
            s.append("/500");
            return s;
        }
        if self.confirming_delete {
            return "really delete this post? y=yes, any other key=cancel".to_owned();
        }
        if self.loading_replies && self.replies.len() == 0 {
            return "loading replies… · esc back".to_owned();
        }
        if let Some(msg) = &self.error {
            let mut s = "error: ".to_owned();
            s.append(msg.as_str());
            s.append(" · esc back · r retry");
            return s;
        }
        if self.next_replies_cursor.is_some() {
            self.browse_status(" replies · scroll down for more", now)
        } else {
            self.browse_status(" replies · end", now)
        }
    }

    fn prompt_row(&self, width: u16, theme: &Theme) -> (r: Option<Line>)
        ensures
            match (r, self@.flag_prompt) {
                (Some(l), Some(p)) => l@ == prompt_line(p, width as int, *theme),
                (None, None) => true,
                _ => false,
            },
    {
        if let Some(prompt) = &self.flag_prompt {
            let label: usize = strs::chars_of("reason (optional): ").len();
            let w: usize = if width as usize >= label {
                width as usize - label
            } else {
                0
            };
            let field = input::windowed_line(prompt.reason.as_str(), prompt.cursor, w, theme);
            let mut spans: Vec<Span> = Vec::new();
            push_span(&mut spans, Span::of("reason (optional): ", theme.muted_style()));
            let mut rest = field.spans;
            spans.append(&mut rest);
            let r = Line::new(spans);
            assert(r@ =~= prompt_line(prompt@, width as int, *theme));
            Some(r)
        } else {
            None
        }
    }

    /// What the screen shows in a body area, and what a render keeps for the
    /// keys: how far the body scrolls and where each reply starts.
    ///
    /// `graphics` says that the terminal can draw images, and `stamps` gives
    /// the times as text. The area ends where coordinates do.
    pub fn render(
        &mut self,
        body: Rect,
        prompt_width: u16,
        stamps: &Vec<String>,
        now: Moment,
        theme: &Theme,
        cfg: &Config,
        images_on: bool,
        graphics: bool,
    ) -> (f: DetailFrame)
        requires
            body.x + body.width <= u16::MAX,
            body.y + body.height <= u16::MAX,
        ensures
            ({
                let s = old(self)@;
                let style = style_for(*cfg, *theme, images_on, graphics, body);
                let b = body_spec(s, stamps@, style);
                let limit = scroll_limit(b, body);
                &&& final(self)@ == (DetailView {
                    max_scroll: limit,
                    reply_anchors: anchors_of(b, body.width),
                    ..s
                })
                &&& f.title@ == draw::one(
                    " post · @"@ + s.entry.author_username + " "@,
                    theme.heading_spec(),
                )
                &&& draw::line_views(f.lines@) == b.lines
                &&& f.scroll == draw::least(s.scroll, limit)
                &&& hyperlink::target_views(f.targets@) == (if cfg.hyperlinks {
                    hyperlink::targets_of(
                        b.lines,
                        b.lines.len() as int,
                        hyperlink::wrap_columns(body.width),
                    )
                } else {
                    Seq::empty()
                })
                &&& f.img_rows == style.img_rows
                &&& overlay_views(f.overlays@) == (if style.inline_images {
                    overlays_of(
                        b,
                        b.slots.len() as int,
                        body,
                        f.scroll as int,
                        style.img_rows as int,
                    )
                } else {
                    Seq::empty()
                })
                &&& match (f.prompt, s.flag_prompt) {
                    (Some(l), Some(p)) => l@ == prompt_line(p, prompt_width as int, *theme),
                    (None, None) => true,
                    _ => false,
                }
                &&& f.status@ == draw::one(status_text(s, now), theme.muted_spec())
            }),
    {
        let inline_images = images_on && graphics && body.height > 4;
        let img_rows: u16 = if inline_images {
            let half: u16 = body.height / 2;
            let rows: u16 = if cfg.image_height < half {
                cfg.image_height
            } else {
                half
            };
            if rows < 1 {
                1
            } else {
                rows
            }
        } else {
            0
        };
        let style = BodyStyle {
            theme: *theme,
            selection: cfg.selection,
            inline_images,
            img_rows,
        };
        let b = self.compose_body(stamps, style);
        let rows = hyperlink::line_rows(&b.lines, body.width);
        let ghost view = b@;
        let mut anchors: Vec<u16> = Vec::new();
        let mut i: usize = 0;
        while i < b.reply_starts.len()
            invariant
                i <= b.reply_starts@.len(),
                view == b@,
                view.wf(),
                rows@.len() == view.lines.len() + 1,
                forall|k: int|
                    0 <= k <= view.lines.len() ==> #[trigger] rows@[k] == body_row(
                        view,
                        k,
                        body.width,
                    ),
                anchors@ == anchors_of(view, body.width).take(i as int),
            decreases b.reply_starts@.len() - i,
        {
            let at: usize = b.reply_starts[i];
            assert(view.reply_starts[i as int] <= view.lines.len());
            let row: u32 = rows[at];
            let anchor: u16 = if row > 65535 {
                65535
            } else {
                row as u16
            };
            anchors.push(anchor);
            i = i + 1;
            assert(anchors@ =~= anchors_of(view, body.width).take(i as int));
        }
        assert(anchors@ =~= anchors_of(view, body.width));
        let total: u32 = rows[b.lines.len()];
        let over: u32 = if total >= body.height as u32 {
            total - body.height as u32
        } else {
            0
        };
        let max_scroll: u16 = if over > 65535 {
            65535
        } else {
            over as u16
        };
        let scroll: u16 = if self.scroll < max_scroll {
            self.scroll
        } else {
            max_scroll
        };
        let mut overlays: Vec<ImageOverlay> = Vec::new();
        assert(overlay_views(overlays@) =~= overlays_of(
            view,
            0,
            body,
            scroll as int,
            img_rows as int,
        ));
        if inline_images {
            let mut j: usize = 0;
            while j < b.slots.len()
                invariant
                    j <= b.slots@.len(),
                    view == b@,
                    view.wf(),
                    body.y + body.height <= u16::MAX,
                    rows@.len() == view.lines.len() + 1,
                    forall|k: int|
                        0 <= k <= view.lines.len() ==> #[trigger] rows@[k] == body_row(
                            view,
                            k,
                            body.width,
                        ),
                    overlay_views(overlays@) == overlays_of(
                        view,
                        j as int,
                        body,
                        scroll as int,
                        img_rows as int,
                    ),
                decreases b.slots@.len() - j,
            {
                let slot = &b.slots[j];
                assert(view.slots[j as int].start_line == slot.start_line);
                let rel: i64 = rows[slot.start_line] as i64 - scroll as i64;
                if rel >= 0 && rel < body.height as i64 {
                    let down: u16 = rel as u16;
                    let room: u16 = body.height - down;
                    let height: u16 = if img_rows < room {
                        img_rows
                    } else {
                        room
                    };
                    let area = Rect { x: body.x, y: body.y + down, width: body.width, height };
                    let ghost before = overlay_views(overlays@);
                    let overlay = ImageOverlay { url: slot.url.clone(), area };
                    overlays.push(overlay);
                    assert(overlay_views(overlays@) =~= before.push(
                        OverlayView { url: slot.url@, area },
                    ));
                }
                j = j + 1;
            }
        } else {
            assert(overlay_views(overlays@) =~= Seq::empty());
        }
        let targets = if cfg.hyperlinks {
            hyperlink::find_link_targets(&b.lines, body.width)
        } else {
            let t: Vec<LinkTarget> = Vec::new();
            assert(hyperlink::target_views(t@) =~= Seq::empty());
            t
        };
        let mut title = " post · @".to_owned();
        title.append(self.entry.author_username.as_str());
        title.append(" ");
        let prompt = self.prompt_row(prompt_width, theme);
        let status = Line::single(self.status(now), theme.muted_style());
        self.max_scroll = max_scroll;
        self.reply_anchors = anchors;
        DetailFrame {
            title: Line::single(title, theme.heading_style()),
            lines: b.lines,
            scroll,
            targets,
            img_rows,
            overlays,
            prompt,
            status,
        }
    }
}

// ---------------------------------------------------------------------------
// Laws.
// ---------------------------------------------------------------------------

/// Scrolling never runs past the content: a scroll offset within the limit
/// stays within it whatever key is pressed.
pub proof fn law_scroll_stays_in_bounds(
    s: DetailView,
    key: KeyEvent,
    confirm_deletes: bool,
    after: DetailView,
    intent: IntentView,
)
    requires
        0 <= s.scroll <= s.max_scroll,
        s.answers(key, confirm_deletes, after, intent),
    ensures
        0 <= after.scroll <= after.max_scroll,
        after.max_scroll == s.max_scroll,
{
}

/// An open prompt owns every key but Ctrl+C: nothing else on the screen changes,
/// and no intent leaves but the report itself.
pub proof fn law_prompt_swallows_the_bindings(
    s: DetailView,
    key: KeyEvent,
    confirm_deletes: bool,
    after: DetailView,
    intent: IntentView,
)
    requires
        s.flag_prompt is Some,
        !key.is_quit_spec(),
        s.answers(key, confirm_deletes, after, intent),
    ensures
        after == (DetailView { flag_prompt: after.flag_prompt, ..s }),
        intent != IntentView::Nothing ==> key.code is Enter && intent == filed(
            s.flag_prompt->Some_0,
        ),
{
}

/// A delete is asked for twice: unless confirmation is off, it is only ever
/// confirmed by the key right after the one that armed it.
pub proof fn law_delete_takes_two_steps(
    s: DetailView,
    key: KeyEvent,
    after: DetailView,
    intent: IntentView,
)
    requires
        s.answers(key, true, after, intent),
    ensures
        intent == IntentView::DeleteEntryConfirmed ==> s.confirming_delete && s.flag_prompt is None
            && (key.code == KeyCode::Char('y') || key.code == KeyCode::Char('Y')),
        s.confirming_delete && s.flag_prompt is None && !key.is_quit_spec()
            ==> !after.confirming_delete,
{
}

/// An entry edit never changes when the entry was published.
pub proof fn law_edit_keeps_the_publish_time(e: model::EntryView, edit: EntryEdit, now: Moment)
    ensures
        e.edited(edit, now).created_at == e.created_at,
        e.edited(edit, now).post_id == e.post_id,
        e.edited(edit, now).edited_at == Some(now),
{
}

/// The keys for bookmarking, editing, playing and reporting are for the selected
/// reply, by its own id and values, and for the post where none is selected.
pub proof fn law_keys_act_on_the_focus(
    s: DetailView,
    key: KeyEvent,
    confirm: bool,
    after: DetailView,
    intent: IntentView,
)
    requires
        s.answers(key, confirm, after, intent),
        s.flag_prompt is None,
        !s.confirming_delete,
    ensures
        s.selected_reply matches Some(i) ==> i < s.replies.len() ==> ({
            let r = s.replies[i as int];
            &&& key.code == KeyCode::Char('b') ==> after == s && intent
                == (IntentView::BookmarkReply { reply_id: r.reply_id@ })
            &&& key.code == KeyCode::Char('e') ==> after == s && intent == (IntentView::EditReply {
                reply_id: r.reply_id@,
                content: r.content@,
            })
            &&& key.code == KeyCode::Char('F') ==> (after.flag_prompt matches Some(p) && (p.target
                matches FlagTarget::Reply(id) && id@ == r.reply_id@) && p.reason.len() == 0)
            &&& key.code == KeyCode::Char('p') && audio::track_of(r.attachments@) is Some ==> intent
                == IntentView::PlayJukebox(audio::track_of(r.attachments@))
            &&& key.code == KeyCode::Char('o') ==> (audio::track_of(r.attachments@) matches Some(
                t,
            ) ==> intent == IntentView::OpenUrl(t.url@))
        }),
        s.selected_reply is None ==> {
            &&& key.code == KeyCode::Char('b') ==> after == s && intent == IntentView::Bookmark
            &&& key.code == KeyCode::Char('e') ==> after == s && intent == (IntentView::EditEntry {
                post_id: s.entry.post_id,
                content: s.entry.content,
                title: s.entry.title,
                topics: s.entry.topics,
                is_public: s.entry.is_public,
                is_nsfw: s.entry.is_nsfw,
            })
            &&& key.code == KeyCode::Char('F') ==> (after.flag_prompt matches Some(p) && (p.target
                matches FlagTarget::Entry(id) && id@ == s.entry.post_id) && p.reason.len() == 0)
            &&& key.code == KeyCode::Char('p') ==> intent == IntentView::PlayJukebox(
                audio::track_of(s.entry.attachments),
            )
            &&& key.code == KeyCode::Char('o') ==> intent == (match audio::track_of(
                s.entry.attachments,
            ) {
                Some(t) => IntentView::OpenUrl(t.url@),
                None => IntentView::Nothing,
            })
        },
{
}

/// Where the selected reply has no track, the post's is played.
pub proof fn law_the_posts_track_is_the_fallback(
    s: DetailView,
    key: KeyEvent,
    confirm: bool,
    after: DetailView,
    intent: IntentView,
    i: usize,
)
    requires
        s.answers(key, confirm, after, intent),
        s.flag_prompt is None,
        !s.confirming_delete,
        s.selected_reply == Some(i),
        i < s.replies.len(),
        audio::track_of(s.replies[i as int].attachments@) is None,
    ensures
        key.code == KeyCode::Char('p') ==> intent == IntentView::PlayJukebox(
            audio::track_of(s.entry.attachments),
        ),
        key.code == KeyCode::Char('o') ==> intent == (match audio::track_of(s.entry.attachments) {
            Some(t) => IntentView::OpenUrl(t.url@),
            None => IntentView::Nothing,
        }),
{
}

/// `J` selects the first reply and then the next, `K` the one before, and the
/// selection stays on a reply; the body scrolls to where that reply starts.
pub proof fn law_replies_are_selected_in_order(
    s: DetailView,
    key: KeyEvent,
    confirm: bool,
    after: DetailView,
    intent: IntentView,
)
    requires
        s.answers(key, confirm, after, intent),
        s.flag_prompt is None,
        !s.confirming_delete,
        s.replies.len() > 0,
        s.replies.len() <= usize::MAX,
    ensures
        key.code == KeyCode::Char('J') ==> {
            &&& intent is Nothing
            &&& s.selected_reply is None ==> after.selected_reply == Some(0usize)
            &&& s.selected_reply matches Some(i) ==> i + 1 < s.replies.len()
                ==> after.selected_reply == Some((i + 1) as usize)
            &&& s.selected_reply matches Some(i) ==> i + 1 == s.replies.len()
                ==> after.selected_reply == Some(i)
        },
        key.code == KeyCode::Char('K') ==> {
            &&& intent is Nothing
            &&& s.selected_reply is None ==> after == s
            &&& s.selected_reply matches Some(i) ==> i > 0 ==> after.selected_reply == Some(
                (i - 1) as usize,
            )
            &&& s.selected_reply == Some(0usize) ==> after.selected_reply == Some(0usize)
        },
        key.code == KeyCode::Char('J') || key.code == KeyCode::Char('K') ==> (after.selected_reply
            matches Some(i) ==> i < s.reply_anchors.len() && s.selected_reply
            != after.selected_reply ==> after.scroll == (if s.reply_anchors[i as int]
            <= s.max_scroll {
            s.reply_anchors[i as int] as int
        } else {
            s.max_scroll
        })),
{
}

/// The body scrolls by a row, by ten and to either end, never past them; at the end a
/// step asks for more replies where there are more and none are on their way.
pub proof fn law_scrolling_goes_row_by_row(
    s: DetailView,
    key: KeyEvent,
    confirm: bool,
    after: DetailView,
    intent: IntentView,
)
    requires
        s.answers(key, confirm, after, intent),
        s.flag_prompt is None,
        !s.confirming_delete,
        0 <= s.scroll <= s.max_scroll,
    ensures
        ({
            let down = key.code == KeyCode::Down || key.code == KeyCode::Char('j');
            let up = key.code == KeyCode::Up || key.code == KeyCode::Char('k');
            let more = s.next_replies_cursor is Some && !s.loading_replies;
            &&& down && s.scroll < s.max_scroll ==> intent is Nothing && after == (DetailView {
                scroll: s.scroll + 1,
                ..s
            })
            &&& down && s.scroll == s.max_scroll && more ==> intent is LoadMoreReplies && after == (
            DetailView { loading_replies: true, ..s })
            &&& down && s.scroll == s.max_scroll && !more ==> intent is Nothing && after == s
            &&& up ==> intent is Nothing && after == (DetailView {
                scroll: if s.scroll > 0 {
                    s.scroll - 1
                } else {
                    0
                },
                ..s
            })
            &&& key.code == KeyCode::PageDown || key.code == KeyCode::Char(' ') ==> after == (
            DetailView {
                scroll: if s.scroll + 10 <= s.max_scroll {
                    s.scroll + 10
                } else {
                    s.max_scroll
                },
                ..s
            })
            &&& key.code == KeyCode::PageUp ==> after == (DetailView {
                scroll: if s.scroll >= 10 {
                    s.scroll - 10
                } else {
                    0
                },
                ..s
            })
            &&& key.code == KeyCode::Home || key.code == KeyCode::Char('g') ==> after == (
            DetailView { scroll: 0, ..s })
            &&& key.code == KeyCode::End || key.code == KeyCode::Char('G') ==> after == (
            DetailView { scroll: s.max_scroll, ..s })
            &&& key.code == KeyCode::Char('n') && s.next_replies_cursor is Some
                ==> intent is LoadMoreReplies && after.loading_replies
        }),
{
}

/// The other keys ask for what they stand for: to go back, to reply, to quote, to
/// watch, to delete, and to load the replies anew.
pub proof fn law_post_keys_do_what_they_say(
    s: DetailView,
    key: KeyEvent,
    after: DetailView,
    intent: IntentView,
    confirm: bool,
)
    requires
        s.answers(key, confirm, after, intent),
        s.flag_prompt is None,
        !s.confirming_delete,
    ensures
        key.code == KeyCode::Backspace ==> after == s && intent is Back,
        key.code == KeyCode::Char('R') ==> after == s && intent is Reply,
        key.code == KeyCode::Char('Q') ==> after == s && intent is QuoteReply,
        key.code == KeyCode::Char('w') ==> after == s && intent is ToggleWatch,
        key.code == KeyCode::Char('d') && confirm ==> after == (DetailView {
            confirming_delete: true,
            ..s
        }) && intent is Nothing,
        key.code == KeyCode::Char('d') && !confirm ==> after == s && intent is DeleteEntryConfirmed,
        key.code == KeyCode::Char('r') ==> intent is RefreshReplies && after.replies.len() == 0
            && after.loading_replies && after.next_replies_cursor is None && after.error is None
            && after.entry == s.entry,
        key.code == KeyCode::Char('c') && key.control ==> after == s && intent is Quit,
        intent is DeleteEntryConfirmed ==> key.code == KeyCode::Char('d') && !confirm,
{
}

/// `y` confirms a delete that waits, and any other key takes it back.
pub proof fn law_a_waiting_delete_is_answered(
    s: DetailView,
    key: KeyEvent,
    confirm: bool,
    after: DetailView,
    intent: IntentView,
)
    requires
        s.answers(key, confirm, after, intent),
        s.flag_prompt is None,
        s.confirming_delete,
        !(key.code == KeyCode::Char('c') && key.control),
    ensures
        after == (DetailView { confirming_delete: false, ..s }),
        key.code == KeyCode::Char('y') || key.code == KeyCode::Char('Y')
            ==> intent is DeleteEntryConfirmed,
        key.code != KeyCode::Char('y') && key.code != KeyCode::Char('Y') ==> intent is Nothing,
{
}

/// A report is filed on what the prompt was opened on, with the trimmed reason or
/// none; escape drops it; everything else is typed.
pub proof fn law_a_report_is_filed_on_its_target(
    s: DetailView,
    key: KeyEvent,
    confirm: bool,
    after: DetailView,
    intent: IntentView,
    p: flag::FlagView<FlagTarget>,
)
    requires
        s.answers(key, confirm, after, intent),
        s.flag_prompt == Some(p),
        !(key.code == KeyCode::Char('c') && key.control),
    ensures
        ({
            let reason = if strs::trimmed(p.reason).len() == 0 {
                None
            } else {
                Some(strs::trimmed(p.reason))
            };
            &&& key.code == KeyCode::Enter ==> after == (DetailView { flag_prompt: None, ..s })
            &&& key.code == KeyCode::Enter ==> (p.target matches FlagTarget::Entry(id) ==> intent
                == (IntentView::FlagEntry { post_id: id@, reason }))
            &&& key.code == KeyCode::Enter ==> (p.target matches FlagTarget::Reply(id) ==> intent
                == (IntentView::FlagReply { reply_id: id@, reason }))
        }),
        key.code == KeyCode::Esc ==> after == (DetailView { flag_prompt: None, ..s })
            && intent is Nothing,
        key.code != KeyCode::Enter && key.code != KeyCode::Esc ==> after == (DetailView {
            flag_prompt: Some(p.typed(key)),
            ..s
        }) && intent is Nothing,
{
}

/// A first page of replies replaces those there are and drops the selection, a further
/// one goes behind them, and a failure keeps them and is told.
pub proof fn law_pages_bring_their_replies(
    s: DetailView,
    replies: Vec<Reply>,
    cursor: Option<String>,
    msg: String,
)
    ensures
        ({
            let first = s.after_replies(Ok((replies, cursor)));
            let more = s.after_more_replies(Ok((replies, cursor)));
            &&& first.replies == replies@ && first.selected_reply is None
            &&& first.next_replies_cursor == strs::opt_text(cursor)
            &&& !first.loading_replies && first.error is None && first.entry == s.entry
            &&& more.replies == s.replies + replies@ && more.selected_reply == s.selected_reply
            &&& more.next_replies_cursor == strs::opt_text(cursor)
            &&& !more.loading_replies && more.error is None
            &&& s.after_replies(Err(msg)) == (DetailView {
                loading_replies: false,
                error: Some(msg@),
                ..s
            })
            &&& s.after_more_replies(Err(msg)) == s.after_replies(Err(msg))
        }),
{
}

proof fn lemma_reply_index(replies: Seq<Reply>, id: Seq<char>, i: int)
    requires
        0 <= i,
    ensures
        match reply_index(replies, id, i) {
            Some(k) => i <= k < replies.len() && replies[k].reply_id@ == id && forall|j: int|
                i <= j < k ==> (#[trigger] replies[j]).reply_id@ != id,
            None => forall|j: int| i <= j < replies.len() ==> (#[trigger] replies[j]).reply_id@
                != id,
        },
    decreases replies.len() - i,
{
    if i < replies.len() && replies[i].reply_id@ != id {
        lemma_reply_index(replies, id, i + 1);
    }
}

/// An edit of a reply changes the text of the one with that id and marks it as edited,
/// and touches no other; it is said whether there is one.
pub proof fn law_a_reply_edit_touches_one_reply(
    s: DetailView,
    id: Seq<char>,
    content: String,
    now: Moment,
    i: int,
)
    requires
        0 <= i < s.replies.len(),
    ensures
        ({
            let (r, found) = s.with_reply_edit(id, content, now);
            &&& found == exists|k: int|
                0 <= k < s.replies.len() && (#[trigger] s.replies[k]).reply_id@ == id
            &&& r.replies.len() == s.replies.len()
            &&& s.replies[i].reply_id@ != id ==> r.replies[i] == s.replies[i]
            &&& s.replies[i].reply_id@ == id && (forall|k: int|
                0 <= k < i ==> (#[trigger] s.replies[k]).reply_id@ != id) ==> {
                &&& r.replies[i].content == content
                &&& r.replies[i].edited_at == Some(now)
                &&& r.replies[i].created_at == s.replies[i].created_at
                &&& r.replies[i].reply_id == s.replies[i].reply_id
                &&& r.replies[i].author_username == s.replies[i].author_username
            }
            &&& !found ==> r == s
            &&& r.entry == s.entry
        }),
{
    lemma_reply_index(s.replies, id, 0);
}

/// An edit can be made for five minutes, to the last whole second, and also when it is
/// not known when the thing was published.
pub proof fn law_the_edit_window_is_five_minutes(created: Moment, now: Moment)
    ensures
        edit_window_open(None, now),
        now.instant() - created.instant() < 301 * 1_000_000_000 ==> edit_window_open(
            Some(created),
            now,
        ),
        now.instant() - created.instant() >= 301 * 1_000_000_000 ==> !edit_window_open(
            Some(created),
            now,
        ),
{
}

proof fn lemma_reply_keeps_lines(
    b: BodyView,
    s: DetailView,
    i: int,
    stamps: Seq<String>,
    style: BodyStyle,
)
    ensures
        ({
            let r = with_reply(b, s, i, stamps, style);
            &&& b.lines.len() < r.lines.len()
            &&& r.lines.take(b.lines.len() as int) == b.lines
            &&& r.reply_starts == b.reply_starts.push(b.lines.len() as usize)
        }),
{
    let r = with_reply(b, s, i, stamps, style);
    assert(r.lines.take(b.lines.len() as int) =~= b.lines);
}

proof fn lemma_body_is_prefix(
    s: DetailView,
    m: int,
    n: int,
    stamps: Seq<String>,
    style: BodyStyle,
)
    requires
        0 <= m <= n,
    ensures
        body_after(s, m, stamps, style).lines.len() <= body_after(s, n, stamps, style).lines.len(),
        body_after(s, n, stamps, style).lines.take(
            body_after(s, m, stamps, style).lines.len() as int,
        ) == body_after(s, m, stamps, style).lines,
        body_after(s, n, stamps, style).reply_starts.len() == n,
        forall|k: int|
            0 <= k < m ==> body_after(s, m, stamps, style).reply_starts[k] == #[trigger] body_after(
                s,
                n,
                stamps,
                style,
            ).reply_starts[k],
    decreases n,
{
    let a = body_after(s, m, stamps, style);
    let z = body_after(s, n, stamps, style);
    if m < n {
        lemma_body_is_prefix(s, m, n - 1, stamps, style);
        let y = body_after(s, n - 1, stamps, style);
        lemma_reply_keeps_lines(y, s, n - 1, stamps, style);
        assert(z.lines.take(a.lines.len() as int) =~= y.lines.take(a.lines.len() as int));
    } else {
        assert(z.lines.take(z.lines.len() as int) =~= z.lines);
        if n > 0 {
            lemma_body_is_prefix(s, n - 1, n - 1, stamps, style);
        }
    }
}

/// The lines of a text as the body shows them.
pub open spec fn text_lines(content: Seq<char>, style: BodyStyle) -> Seq<Seq<draw::SpanView>> {
    markdown::MdView::rendered(
        markdown::markdown_events(content),
        style.theme,
        if style.inline_images {
            ImageUrls::Hide
        } else {
            ImageUrls::Show
        },
    ).out
}

/// Every reply is in the body, in order: where it starts stands its author, and below
/// that its text, run for run; the selected and the highlighted one are picked out.
pub proof fn law_every_reply_is_shown(
    s: DetailView,
    stamps: Seq<String>,
    style: BodyStyle,
    k: int,
)
    requires
        0 <= k < s.replies.len() <= usize::MAX,
        body_spec(s, stamps, style).lines.len() <= usize::MAX,
    ensures
        ({
            let b = body_spec(s, stamps, style);
            let r = s.replies[k];
            let at = b.reply_starts[k] as int;
            let text = text_lines(r.content@, style);
            let picked = s.highlight_reply_id == Some(r.reply_id@);
            &&& b.reply_starts.len() == s.replies.len()
            &&& at + 1 + text.len() < b.lines.len()
            &&& b.lines[at][0].content == seq!['@'] + r.author_username@
            &&& s.selected_reply != Some(k as usize) ==> b.lines[at][0].style
                == style.theme.accent_spec()
            &&& s.selected_reply == Some(k as usize) ==> b.lines[at][0].style
                != style.theme.accent_spec()
            &&& !picked ==> b.lines.subrange(at + 1, at + 1 + text.len()) == text
            &&& picked ==> forall|j: int|
                0 <= j < text.len() ==> (#[trigger] b.lines[at + 1 + j]).len() == text[j].len()
            &&& picked ==> forall|j: int, i: int|
                0 <= j < text.len() && 0 <= i < text[j].len() ==> (#[trigger] b.lines[at + 1
                    + j][i]).content == text[j][i].content && b.lines[at + 1 + j][i].style
                    == style.theme.accent_spec()
            &&& k > 0 ==> b.reply_starts[k - 1] < b.reply_starts[k]
        }),
{
    reveal_strlit("@");
    assert("@"@ =~= seq!['@']);
    let n = s.replies.len() as int;
    let b = body_spec(s, stamps, style);
    let full = body_after(s, n, stamps, style);
    let before = body_after(s, k, stamps, style);
    let with = body_after(s, k + 1, stamps, style);
    let r = s.replies[k];
    let text = text_lines(r.content@, style);
    lemma_body_is_prefix(s, k, n, stamps, style);
    lemma_body_is_prefix(s, k + 1, n, stamps, style);
    lemma_body_is_prefix(s, k, k + 1, stamps, style);
    lemma_reply_keeps_lines(before, s, k, stamps, style);
    let at = before.lines.len() as int;
    assert(with.reply_starts[k] == at as usize);
    assert(with.reply_starts[k] == full.reply_starts[k]);
    assert(b.reply_starts == full.reply_starts);
    assert(b.lines.len() >= full.lines.len());
    assert forall|j: int| 0 <= j < with.lines.len() implies b.lines[j] == with.lines[j] by {
        assert(full.lines[j] == full.lines.take(with.lines.len() as int)[j]);
    }
    let shown = if s.highlight_reply_id == Some(r.reply_id@) {
        restyled(text, style.theme.accent_spec())
    } else {
        text
    };
    assert(at + 1 + text.len() < with.lines.len());
    assert forall|j: int| 0 <= j < text.len() implies #[trigger] with.lines[at + 1 + j]
        == shown[j] by {}
    if s.highlight_reply_id != Some(r.reply_id@) {
        assert(b.lines.subrange(at + 1, at + 1 + text.len()) =~= text);
    } else {
        assert forall|j: int| 0 <= j < text.len() implies (#[trigger] b.lines[at + 1 + j]).len()
            == text[j].len() by {
            assert(with.lines[at + 1 + j] == shown[j]);
        }
        assert forall|j: int, i: int| 0 <= j < text.len() && 0 <= i < text[j].len() implies (
        #[trigger] b.lines[at + 1 + j][i]).content == text[j][i].content && b.lines[at + 1
            + j][i].style == style.theme.accent_spec() by {
            assert(with.lines[at + 1 + j] == shown[j]);
        }
    }
    if k > 0 {
        lemma_reply_keeps_lines(
            body_after(s, k - 1, stamps, style),
            s,
            k - 1,
            stamps,
            style,
        );
        lemma_body_is_prefix(s, k - 1, k, stamps, style);
        assert(before.reply_starts[k - 1] == body_after(s, k - 1, stamps, style).lines.len());
        assert(full.reply_starts[k - 1] == before.reply_starts[k - 1]);
    }
}

proof fn lemma_post_part_begins(s: DetailView, stamps: Seq<String>, style: BodyStyle)
    ensures
        ({
            let post = post_part(s, stamps, style);
            let head = title_lines(s.entry.title, style.theme) + seq![
                author_line(
                    s.entry,
                    config::stamp(s.entry.created_at, stamps, 0),
                    style.theme,
                ),
                counts_line(s.entry, s.watching, style.theme),
                draw::blank(),
            ] + text_lines(s.entry.content, style);
            &&& post.lines.len() >= head.len()
            &&& post.lines.take(head.len() as int) == head
            &&& post.reply_starts.len() == 0
        }),
{
    let post = post_part(s, stamps, style);
    let head = title_lines(s.entry.title, style.theme) + seq![
        author_line(s.entry, config::stamp(s.entry.created_at, stamps, 0), style.theme),
        counts_line(s.entry, s.watching, style.theme),
        draw::blank(),
    ] + text_lines(s.entry.content, style);
    assert(post.lines.take(head.len() as int) =~= head);
}

proof fn lemma_body_begins_with_the_post(s: DetailView, stamps: Seq<String>, style: BodyStyle)
    requires
        body_spec(s, stamps, style).lines.len() <= usize::MAX,
    ensures
        ({
            let b = body_spec(s, stamps, style);
            let post = post_part(s, stamps, style);
            &&& post.lines.len() <= b.lines.len()
            &&& b.lines.take(post.lines.len() as int) == post.lines
            &&& s.replies.len() > 0 ==> b.reply_starts[0] == post.lines.len()
        }),
{
    let n = s.replies.len() as int;
    let b = body_spec(s, stamps, style);
    let post = post_part(s, stamps, style);
    let full = body_after(s, n, stamps, style);
    lemma_body_is_prefix(s, 0, n, stamps, style);
    lemma_post_part_begins(s, stamps, style);
    assert(body_after(s, 0, stamps, style) == post);
    assert(b.lines.take(post.lines.len() as int) =~= full.lines.take(post.lines.len() as int));
    if n > 0 {
        let first = body_after(s, 1, stamps, style);
        lemma_body_is_prefix(s, 1, n, stamps, style);
        lemma_reply_keeps_lines(post, s, 0, stamps, style);
        assert(first == with_reply(post, s, 0, stamps, style));
        assert(first.reply_starts[0] == full.reply_starts[0]);
    }
}

/// The body begins with the post: its title where it has one, its author, topics and
/// counts, and then its text; the post comes before the first reply.
pub proof fn law_the_post_is_shown_first(s: DetailView, stamps: Seq<String>, style: BodyStyle)
    requires
        body_spec(s, stamps, style).lines.len() <= usize::MAX,
    ensures
        ({
            let b = body_spec(s, stamps, style);
            let titled = s.entry.title is Some && strs::trimmed(s.entry.title->Some_0).len() > 0;
            let at: int = if titled {
                1
            } else {
                0
            };
            let text = text_lines(s.entry.content, style);
            &&& b.lines.len() >= at + 3 + text.len()
            &&& titled ==> b.lines[0][0].content == strs::trimmed(s.entry.title->Some_0)
            &&& b.lines[at] == author_line(
                s.entry,
                config::stamp(s.entry.created_at, stamps, 0),
                style.theme,
            )
            &&& b.lines[at + 1] == counts_line(s.entry, s.watching, style.theme)
            &&& b.lines.subrange(at + 3, at + 3 + text.len()) == text
            &&& s.replies.len() > 0 ==> at + 3 + text.len() <= b.reply_starts[0]
        }),
{
    lemma_post_part_begins(s, stamps, style);
    lemma_body_begins_with_the_post(s, stamps, style);
    let b = body_spec(s, stamps, style);
    let post = post_part(s, stamps, style);
    let titled = s.entry.title is Some && strs::trimmed(s.entry.title->Some_0).len() > 0;
    let at: int = if titled {
        1
    } else {
        0
    };
    let text = text_lines(s.entry.content, style);
    let title = title_lines(s.entry.title, style.theme);
    let head = title + seq![
        author_line(s.entry, config::stamp(s.entry.created_at, stamps, 0), style.theme),
        counts_line(s.entry, s.watching, style.theme),
        draw::blank(),
    ] + text;
    assert(title.len() == at);
    assert forall|j: int| 0 <= j < head.len() implies #[trigger] b.lines[j] == head[j] by {
        assert(b.lines[j] == b.lines.take(post.lines.len() as int)[j]);
        assert(post.lines[j] == post.lines.take(head.len() as int)[j]);
    }
    assert(b.lines.subrange(at + 3, at + 3 + text.len()) =~= text) by {
        assert forall|j: int| 0 <= j < text.len() implies b.lines[at + 3 + j] == text[j] by {
            assert(head[at + 3 + j] == text[j]);
        }
    }
    assert(head[at] == author_line(
        s.entry,
        config::stamp(s.entry.created_at, stamps, 0),
        style.theme,
    ));
    assert(head[at + 1] == counts_line(s.entry, s.watching, style.theme));
    if titled {
        assert(head[0] == title[0]);
    }
}

/// The line of the author says who, when, on what topics, and whether it was edited;
/// the line below it has the counts, and says whether the post is safe for work and
/// watched.
pub proof fn law_the_header_says_who_and_when(
    e: model::EntryView,
    when: Seq<char>,
    watching: Option<bool>,
    theme: Theme,
)
    ensures
        ({
            let l = author_line(e, when, theme);
            &&& l[0].content == seq!['@'] + e.author_username
            &&& l[1].content == seq![' ', '·', ' '] + when + (if e.topics.len() > 0 {
                " · #"@ + strs::joined(strs::texts(e.topics), " #"@)
            } else {
                Seq::empty()
            }) + (if e.edited_at is Some {
                " · (edited)"@
            } else {
                Seq::empty()
            })
        }),
        ({
            let l = counts_line(e, watching, theme);
            l[0].content == strs::decimal(e.replies_count as nat) + " replies · "@ + strs::decimal(
                e.bookmarks_count as nat,
            ) + " bookmarks"@ + (if e.is_nsfw {
                " · NSFW"@
            } else {
                Seq::empty()
            }) + (if watching == Some(true) {
                " · ★ watching"@
            } else {
                Seq::empty()
            })
        }),
{
    reveal_strlit("@");
    reveal_strlit(" · ");
    reveal_strlit("");
    assert("@"@ =~= seq!['@']);
    assert(" · "@ =~= seq![' ', '·', ' ']);
    assert(""@ =~= Seq::<char>::empty());
}

/// The body scrolls as far as its last row, and no further: with the scroll at its
/// limit the last row is the pane's last, where the body is longer than the pane.
pub proof fn law_the_last_row_is_reached(b: BodyView, body: Rect)
    requires
        body_row(b, b.lines.len() as int, body.width) <= u16::MAX,
    ensures
        ({
            let rows = body_row(b, b.lines.len() as int, body.width);
            let limit = scroll_limit(b, body);
            &&& rows > body.height ==> limit + body.height == rows
            &&& rows <= body.height ==> limit == 0
        }),
{
}

/// An image that is drawn stands where its gap starts, as wide as the pane, as high as
/// its gap or up to the pane's edge, and only while that start is in view.
pub proof fn law_images_cover_their_gaps(
    b: BodyView,
    n: int,
    body: Rect,
    scroll: int,
    rows: int,
    k: int,
)
    requires
        0 <= n <= b.slots.len(),
        0 <= k < overlays_of(b, n, body, scroll, rows).len(),
        body.y + body.height <= u16::MAX,
        0 < rows,
    ensures
        ({
            let o = overlays_of(b, n, body, scroll, rows)[k];
            exists|j: int|
                0 <= j < n && (#[trigger] b.slots[j]).url == o.url && o.area.y - body.y == body_row(
                    b,
                    b.slots[j].start_line,
                    body.width,
                ) - scroll && body.y <= o.area.y && o.area.y + o.area.height <= body.y + body.height
                    && 0 < o.area.height <= rows && o.area.x == body.x && o.area.width == body.width
                    && (o.area.height == rows || o.area.y + o.area.height == body.y + body.height)
        }),
    decreases n,
{
    if n > 0 {
        let before = overlays_of(b, n - 1, body, scroll, rows);
        if k < before.len() {
            law_images_cover_their_gaps(b, n - 1, body, scroll, rows, k);
            let o = overlays_of(b, n, body, scroll, rows)[k];
            assert(o == before[k]);
        } else {
            assert(b.slots[n - 1].url == overlays_of(b, n, body, scroll, rows)[k].url);
        }
    }
}

/// Images are drawn in the body only where they are wanted, the terminal can and there
/// is room, and never over more than half of it.
pub proof fn law_images_leave_room_for_text(
    cfg: Config,
    theme: Theme,
    images_on: bool,
    graphics: bool,
    body: Rect,
)
    ensures
        ({
            let style = style_for(cfg, theme, images_on, graphics, body);
            &&& style.inline_images == (images_on && graphics && body.height > 4)
            &&& style.inline_images ==> 1 <= style.img_rows && 2 * style.img_rows <= body.height
            &&& style.inline_images && 1 <= cfg.image_height && 2 * cfg.image_height <= body.height
                ==> style.img_rows == cfg.image_height
            &&& !style.inline_images ==> style.img_rows == 0
        }),
{
}

/// The images of a post are its own first one, or else the cover of its track, and then
/// the first one of each reply that has any.
pub proof fn law_images_are_listed_in_order(s: DetailView, n: int)
    requires
        0 <= n < s.replies.len(),
    ensures
        ({
            let own = images::image_urls(s.entry.content, s.entry.attachments);
            let first = image_list(s, 0);
            &&& own.len() > 0 ==> first == seq![own[0]]
            &&& own.len() == 0 ==> first == (match s.cover_art {
                Some(u) => seq![u],
                None => Seq::empty(),
            })
        }),
        ({
            let r = s.replies[n];
            let urls = images::image_urls(r.content@, r.attachments@);
            &&& urls.len() > 0 ==> image_list(s, n + 1) == image_list(s, n).push(urls[0])
            &&& urls.len() == 0 ==> image_list(s, n + 1) == image_list(s, n)
        }),
{
}

/// The bytes of an image are found under its URL, and the others as before.
pub proof fn law_image_bytes_are_found(
    s: DetailView,
    url: String,
    bytes: Vec<u8>,
    other: Seq<char>,
)
    ensures
        images::lookup(s.with_bytes(url, bytes).image_bytes, url@, 0) == Some(bytes),
        other != url@ ==> images::lookup(s.with_bytes(url, bytes).image_bytes, other, 0)
            == images::lookup(s.image_bytes, other, 0),
        s.with_bytes(url, bytes).entry == s.entry,
        s.with_bytes(url, bytes).replies == s.replies,
{
    images::law_stored_images_are_found(s.image_bytes, url, bytes, other);
}

/// An image is asked for once.
pub proof fn law_images_are_asked_for_once(s: DetailView, url: String)
    ensures
        s.with_request(url).1 == !images::keys(s.requested).contains(url@),
        images::keys(s.with_request(url).0.requested).contains(url@),
        s.with_request(url).0.with_request(url) == (s.with_request(url).0, false),
        s.with_request(url).0.image_bytes == s.image_bytes,
{
    let after = images::stored(s.requested, url, true);
    assert(images::keys(after)[after.len() - 1] == url@);
}

/// The time that is told is that of the focused reply, or of the post where none is.
pub proof fn law_the_focused_time_is_told(s: DetailView)
    ensures
        s.focus() is None ==> s.focus_time() == s.entry.created_at,
        s.focus() matches Some(r) ==> s.focus_time() == r.created_at,
{
}

/// What is set is what was asked for, and nothing else of the screen changes.
pub proof fn law_settings_of_the_thread(
    s: DetailView,
    on: bool,
    edit: EntryEdit,
    now: Moment,
    text: Seq<char>,
)
    ensures
        s.watched(on).watching == Some(on),
        s.watched(on) == (DetailView { watching: Some(on), ..s }),
        s.without_prompt().0.flag_prompt is None,
        s.without_prompt().1 == (s.flag_prompt is Some),
        s.without_prompt().0.entry == s.entry,
        s.with_entry_edit(edit, now).entry == s.entry.edited(edit, now),
        s.with_entry_edit(edit, now).replies == s.replies,
        s.flag_prompt is None ==> s.pasted(text) == s,
        s.flag_prompt matches Some(p) ==> s.pasted(text).flag_prompt == Some(p.pasted(text)),
        s.pasted(text).entry == s.entry,
{
}

/// The status asks about a delete, tells an error, or else counts the replies; a prompt
/// comes before them all and counts what is typed.
pub proof fn law_the_status_tells_what_matters(s: DetailView, now: Moment)
    ensures
        s.flag_prompt is None && s.confirming_delete ==> status_text(s, now)
            == "really delete this post? y=yes, any other key=cancel"@,
        s.flag_prompt is None && !s.confirming_delete && !(s.loading_replies && s.replies.len()
            == 0) ==> (s.error matches Some(msg) ==> status_text(s, now) == "error: "@ + msg
            + " · esc back · r retry"@),
        s.flag_prompt is None && !s.confirming_delete && !s.loading_replies && s.error is None ==> {
            let d = strs::decimal(s.replies.len()) + (if s.next_replies_cursor is Some {
                " replies · scroll down for more"@
            } else {
                " replies · end"@
            });
            d.len() <= status_text(s, now).len() && status_text(s, now).take(d.len() as int) == d
        },
        s.flag_prompt matches Some(p) ==> status_text(s, now) == "report "@ + p.target.label_spec()
            + " · enter send · esc cancel · reason optional · "@ + strs::decimal(p.reason.len())
            + "/500"@,
{
    let d = strs::decimal(s.replies.len()) + (if s.next_replies_cursor is Some {
        " replies · scroll down for more"@
    } else {
        " replies · end"@
    });
    if s.flag_prompt is None && !s.confirming_delete && !s.loading_replies && s.error is None {
        assert(status_text(s, now).take(d.len() as int) =~= d);
    }
}

/// The image of a post is the first of its text and attachments, and the cover where it
/// has none.
pub proof fn law_the_post_image_is_its_first(s: DetailView)
    ensures
        ({
            let urls = images::image_urls(s.entry.content, s.entry.attachments);
            &&& urls.len() > 0 ==> post_image(s) == Some(urls[0])
            &&& urls.len() == 0 ==> post_image(s) == s.cover_art
        }),
{
}

/// A picture that was made for the size is ready, one whose bytes are here is made, and
/// another has to be fetched.
pub proof fn law_pictures_are_made_once(
    s: DetailView,
    url: Seq<char>,
    built: Option<(u16, u16)>,
    target: (u16, u16),
)
    ensures
        built == Some(target) ==> encoding_of(s, url, built, target) is Ready,
        built != Some(target) && images::keys(s.image_bytes).contains(url) ==> encoding_of(
            s,
            url,
            built,
            target,
        ) is Build,
        built != Some(target) && !images::keys(s.image_bytes).contains(url) ==> encoding_of(
            s,
            url,
            built,
            target,
        ) is Missing,
{
}

/// What can be opened and played is the focused reply's own track, or else the post's.
pub proof fn law_the_focused_track_is_played(s: DetailView)
    ensures
        s.focus() is None ==> s.focused_url() == audio::url_of(s.entry.attachments)
            && s.focused_track_spec() == audio::track_of(s.entry.attachments),
        s.focus() matches Some(r) ==> {
            &&& audio::url_of(r.attachments@) is Some ==> s.focused_url() == audio::url_of(
                r.attachments@,
            )
            &&& audio::url_of(r.attachments@) is None ==> s.focused_url() == audio::url_of(
                s.entry.attachments,
            )
            &&& audio::track_of(r.attachments@) is Some ==> s.focused_track_spec()
                == audio::track_of(r.attachments@)
            &&& audio::track_of(r.attachments@) is None ==> s.focused_track_spec()
                == audio::track_of(s.entry.attachments)
        },
{
}

/// The tracks of a post are listed behind its text, and the replies begin behind a rule
/// of their own.
pub proof fn law_tracks_are_listed(s: DetailView, stamps: Seq<String>, style: BodyStyle)
    ensures
        ({
            let lines = post_part(s, stamps, style).lines;
            let tracks = audio::audio_rows(
                s.entry.attachments,
                s.entry.attachments.len() as int,
                style.theme,
            );
            let quiet = s.replies.len() == 0 && !s.loading_replies;
            let end: int = if quiet {
                0
            } else {
                3
            };
            &&& lines.len() >= tracks.len() + end
            &&& lines.subrange(lines.len() - end - tracks.len(), lines.len() - end) == tracks
            &&& !quiet ==> lines[lines.len() - 2] == draw::one(
                "─── replies ───"@,
                style.theme.muted_spec(),
            )
        }),
{
    let lines = post_part(s, stamps, style).lines;
    let tracks = audio::audio_rows(
        s.entry.attachments,
        s.entry.attachments.len() as int,
        style.theme,
    );
    let quiet = s.replies.len() == 0 && !s.loading_replies;
    let end: int = if quiet {
        0
    } else {
        3
    };
    assert(lines.subrange(lines.len() - end - tracks.len(), lines.len() - end) =~= tracks);
}

/// The keys that are told fit the post: playing where there is a track, watching by
/// whether it is watched, editing by whether its time has passed.
pub proof fn law_the_told_keys_fit_the_post(s: DetailView, end: Seq<char>, now: Moment)
    ensures
        s.focused_url() is Some ==> strs::occurs(
            browse_text(s, end, now),
            " · p play · o open"@,
        ),
        s.watching == Some(true) ==> strs::occurs(browse_text(s, end, now), " · w unwatch"@),
        s.watching != Some(true) ==> strs::occurs(browse_text(s, end, now), " · w watch"@),
        edit_window_open(s.focus_time(), now) ==> strs::occurs(
            browse_text(s, end, now),
            " · e edit"@ + " · F flag · d delete · r refresh"@,
        ),
        !edit_window_open(s.focus_time(), now) ==> strs::occurs(
            browse_text(s, end, now),
            " · e edit (5m passed)"@,
        ),
{
    let head = strs::decimal(s.replies.len()) + end
        + " · esc back · J/K select reply · R reply · Q quote · b bookmark"@;
    let play = if s.focused_url() is Some {
        " · p play · o open"@
    } else {
        ""@
    };
    let watch = if s.watching == Some(true) {
        " · w unwatch"@
    } else {
        " · w watch"@
    };
    let edit = if edit_window_open(s.focus_time(), now) {
        " · e edit"@
    } else {
        " · e edit (5m passed)"@
    };
    let tail = " · F flag · d delete · r refresh"@;
    let b = browse_text(s, end, now);
    strs::law_occurrences_are_found(head, play, watch + edit + tail);
    assert(b =~= head + play + (watch + edit + tail));
    strs::law_occurrences_are_found(head + play, watch, edit + tail);
    assert(b =~= head + play + watch + (edit + tail));
    strs::law_occurrences_are_found(head + play + watch, edit, tail);
    assert(b =~= head + play + watch + edit + tail);
    strs::law_occurrences_are_found(head + play + watch, edit + tail, Seq::empty());
    assert(b =~= head + play + watch + (edit + tail) + Seq::<char>::empty());
}

} // verus!
