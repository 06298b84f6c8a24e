//! Notifications screen.
//!
//! The server drops muted and switched-off types *after* it has taken a page,
//! so a page can arrive short or empty while more wait behind it. "More to
//! load" is therefore the cursor being there and nothing else.
use vstd::prelude::*;

use crate::config::{self, Config};
use crate::draw::{self, push_block, push_line, push_span, Line, Span};
use crate::key::{KeyCode, KeyEvent};
use crate::list::{self, ListBody, Page, TabState, TabView};
use crate::list_nav::{self, ListNav};
use crate::model::Moment;
use crate::strs::{self, clone_opt, decimal_text, same, trim};
use crate::theme::{Style, Theme};

verus! {

/// How many pages the screen pulls on its own after a page that added nothing.
pub const MAX_AUTO_PAGES: u8 = 4;

/// What a notification is about.
#[derive(Debug, Clone, Copy, PartialEq, Eq, Structural)]
pub enum NotificationType {
    Bookmark,
    Reply,
    ThreadReply,
    ReplyMention,
    PostMention,
    ChatMention,
    GraffitiMention,
    DmMessage,
    NewFollower,
    Unfollowed,
    NewPostFollowing,
    NewPostFriend,
    Poke,
    GuildNewThread,
    SupporterGranted,
    SupporterRemoved,
    HackerGranted,
    HackerRemoved,
    ModeratorGranted,
    ModeratorRemoved,
    ApiAccessGranted,
    ApiAccessRemoved,
    ImagePermissionGranted,
    ImagePermissionRemoved,
    AttachmentPermissionGranted,
    AttachmentPermissionRemoved,
    SystemBan,
    SystemBanLifted,
    PostCooldown,
    RateLimitWarning,
    /// A type this client has never heard of.
    Unknown,
}

/// The particulars of a notification.
#[derive(Debug, Clone, PartialEq, Eq, Default)]
pub struct NotificationMetadata {
    pub reply_id: Option<String>,
    pub thread_author: Option<String>,
    pub guild_name: Option<String>,
}

/// A notification.
#[derive(Debug, Clone, PartialEq, Eq)]
pub struct Notification {
    pub notification_id: String,
    pub kind: NotificationType,
    pub read: bool,
    pub created_at: Option<Moment>,
    pub actor_id: Option<String>,
    pub actor_username: Option<String>,
    pub target_id: Option<String>,
    pub target_type: Option<String>,
    pub reason: Option<String>,
    pub metadata: NotificationMetadata,
}

impl Notification {
    /// The user behind the notification: none for the ones about the reader's
    /// own account, which carry no actor or the handle `system`.
    pub open spec fn actor(self) -> Option<String> {
        match self.actor_username {
            Some(name) => if name@ == "system"@ {
                None
            } else {
                Some(name)
            },
            None => None,
        }
    }

    /// The user behind the notification, if there is one whose profile can be
    /// opened.
    pub fn actor_profile(&self) -> (r: Option<String>)
        ensures
            r == self.actor(),
    {
        match &self.actor_username {
            Some(name) => if same(name.as_str(), "system") {
                None
            } else {
                Some(name.clone())
            },
            None => None,
        }
    }

    pub open spec fn actor_text(self) -> Seq<char> {
        match self.actor_username {
            Some(name) => name@,
            None => "system"@,
        }
    }

    /// The name the row is labelled with.
    pub fn actor_name(&self) -> (r: &str)
        ensures
            r@ == self.actor_text(),
    {
        match &self.actor_username {
            Some(name) => name.as_str(),
            None => "system",
        }
    }

    /// Whether it is about the reader's own account.
    pub fn is_from_system(&self) -> (r: bool)
        ensures
            r == (self.actor() is None),
    {
        self.actor_profile().is_none()
    }

    /// Whether it leads to a post.
    pub open spec fn navigable(self) -> bool {
        self.target_type matches Some(t) && t@.len() > 0
    }
}

/// Which notifications are listed.
#[derive(Debug, Clone, Copy, PartialEq, Eq, Structural)]
pub enum NotificationsFilter {
    All,
    Unread,
    Read,
}

/// The server's unread total. Over 100 it counts only the 100 most recent.
#[derive(Debug, Clone, Copy, PartialEq, Eq, Structural)]
pub struct UnreadCount {
    pub count: u64,
    pub exact: bool,
}

impl UnreadCount {
    pub open spec fn zero() -> UnreadCount {
        UnreadCount { count: 0, exact: true }
    }

    pub fn any(self) -> (r: bool)
        ensures
            r == (self.count > 0),
    {
        self.count > 0
    }

    pub open spec fn badge_text(self) -> Seq<char> {
        if self.exact {
            strs::decimal(self.count as nat)
        } else {
            "99+"@
        }
    }

    /// The count as it is shown.
    pub fn badge(self) -> (r: String)
        ensures
            r@ == self.badge_text(),
    {
        if self.exact {
            decimal_text(self.count)
        } else {
            "99+".to_owned()
        }
    }
}

impl Default for UnreadCount {
    fn default() -> (r: UnreadCount)
        ensures
            r == UnreadCount::zero(),
    {
        UnreadCount { count: 0, exact: true }
    }
}

/// What is asked of the shell.
#[derive(Debug, Clone, PartialEq, Eq)]
pub enum NotificationsIntent {
    /// Load the next page.
    LoadMore,
    /// Fetch from scratch.
    Refresh,
    /// A filter was cycled.
    ToggleFilter,
    /// Mark the selected notification as read.
    MarkSelectedRead { notification_id: String },
    /// Mark every notification as read.
    MarkAllRead,
    /// Open the post the selected notification refers to.
    OpenSelected { post_id: String, highlight_reply_id: Option<String> },
    /// Open the conversation with the sender.
    OpenCmail { username: String, user_id: Option<String> },
    /// Open the profile of the user behind the notification.
    OpenUser { username: String },
    Quit,
    /// Nothing is asked.
    Nothing,
}

/// Server-side type buckets, cycled with `t`.
#[derive(Debug, Clone, Copy, PartialEq, Eq, Structural)]
pub enum NotifTypeFilter {
    All,
    Mentions,
    Replies,
    Social,
    System,
}

impl NotifTypeFilter {
    pub open spec fn next_spec(self) -> NotifTypeFilter {
        match self {
            NotifTypeFilter::All => NotifTypeFilter::Mentions,
            NotifTypeFilter::Mentions => NotifTypeFilter::Replies,
            NotifTypeFilter::Replies => NotifTypeFilter::Social,
            NotifTypeFilter::Social => NotifTypeFilter::System,
            NotifTypeFilter::System => NotifTypeFilter::All,
        }
    }

    /// The bucket after this one.
    pub fn next(self) -> (r: NotifTypeFilter)
        ensures
            r == self.next_spec(),
    {
        match self {
            NotifTypeFilter::All => NotifTypeFilter::Mentions,
            NotifTypeFilter::Mentions => NotifTypeFilter::Replies,
            NotifTypeFilter::Replies => NotifTypeFilter::Social,
            NotifTypeFilter::Social => NotifTypeFilter::System,
            NotifTypeFilter::System => NotifTypeFilter::All,
        }
    }

    pub open spec fn label_spec(self) -> Seq<char> {
        match self {
            NotifTypeFilter::All => "all"@,
            NotifTypeFilter::Mentions => "mentions"@,
            NotifTypeFilter::Replies => "replies"@,
            NotifTypeFilter::Social => "social"@,
            NotifTypeFilter::System => "system"@,
        }
    }

    pub fn label(self) -> (r: &'static str)
        ensures
            r@ == self.label_spec(),
    {
        match self {
            NotifTypeFilter::All => "all",
            NotifTypeFilter::Mentions => "mentions",
            NotifTypeFilter::Replies => "replies",
            NotifTypeFilter::Social => "social",
            NotifTypeFilter::System => "system",
        }
    }

    /// The types the bucket selects; none means no filter.
    pub open spec fn types_spec(self) -> Seq<NotificationType> {
        match self {
            NotifTypeFilter::All => Seq::empty(),
            NotifTypeFilter::Mentions => seq![
                NotificationType::PostMention,
                NotificationType::ReplyMention,
                NotificationType::ChatMention,
                NotificationType::GraffitiMention,
                NotificationType::DmMessage,
            ],
            NotifTypeFilter::Replies => seq![
                NotificationType::Reply,
                NotificationType::ThreadReply,
            ],
            NotifTypeFilter::Social => seq![
                NotificationType::NewFollower,
                NotificationType::Unfollowed,
                NotificationType::Poke,
                NotificationType::NewPostFollowing,
                NotificationType::NewPostFriend,
                NotificationType::Bookmark,
                NotificationType::GuildNewThread,
            ],
            NotifTypeFilter::System => seq![
                NotificationType::SupporterGranted,
                NotificationType::SupporterRemoved,
                NotificationType::HackerGranted,
                NotificationType::HackerRemoved,
                NotificationType::ModeratorGranted,
                NotificationType::ModeratorRemoved,
                NotificationType::ApiAccessGranted,
                NotificationType::ApiAccessRemoved,
                NotificationType::ImagePermissionGranted,
                NotificationType::ImagePermissionRemoved,
                NotificationType::AttachmentPermissionGranted,
                NotificationType::AttachmentPermissionRemoved,
                NotificationType::SystemBan,
                NotificationType::SystemBanLifted,
                NotificationType::PostCooldown,
                NotificationType::RateLimitWarning,
            ],
        }
    }

    /// The notification types this bucket selects; none means no filter.
    pub fn types(self) -> (r: Vec<NotificationType>)
        ensures
            r@ == self.types_spec(),
    {
        let r = match self {
            NotifTypeFilter::All => vec![],
            NotifTypeFilter::Mentions => vec![
                NotificationType::PostMention,
                NotificationType::ReplyMention,
                NotificationType::ChatMention,
                NotificationType::GraffitiMention,
                NotificationType::DmMessage,
            ],
            NotifTypeFilter::Replies => vec![
                NotificationType::Reply,
                NotificationType::ThreadReply,
            ],
            NotifTypeFilter::Social => vec![
                NotificationType::NewFollower,
                NotificationType::Unfollowed,
                NotificationType::Poke,
                NotificationType::NewPostFollowing,
                NotificationType::NewPostFriend,
                NotificationType::Bookmark,
                NotificationType::GuildNewThread,
            ],
            NotifTypeFilter::System => vec![
                NotificationType::SupporterGranted,
                NotificationType::SupporterRemoved,
                NotificationType::HackerGranted,
                NotificationType::HackerRemoved,
                NotificationType::ModeratorGranted,
                NotificationType::ModeratorRemoved,
                NotificationType::ApiAccessGranted,
                NotificationType::ApiAccessRemoved,
                NotificationType::ImagePermissionGranted,
                NotificationType::ImagePermissionRemoved,
                NotificationType::AttachmentPermissionGranted,
                NotificationType::AttachmentPermissionRemoved,
                NotificationType::SystemBan,
                NotificationType::SystemBanLifted,
                NotificationType::PostCooldown,
                NotificationType::RateLimitWarning,
            ],
        };
        assert(r@ =~= self.types_spec());
        r
    }
}

/// The screen.
#[derive(Debug)]
pub struct NotificationsScreen {
    pub list: TabState<Notification>,
    pub filter: NotificationsFilter,
    pub type_filter: NotifTypeFilter,
    /// The server's unread total as last reported.
    pub unread: UnreadCount,
    /// Automatic follow-up pages still allowed.
    pub auto_pages_left: u8,
}

/// What a [`NotificationsScreen`] holds.
#[verifier::ext_equal]
pub struct NotifView {
    pub list: TabView<Notification>,
    pub filter: NotificationsFilter,
    pub type_filter: NotifTypeFilter,
    pub unread: UnreadCount,
    pub auto_pages_left: int,
}

impl View for NotificationsScreen {
    type V = NotifView;

    open spec fn view(&self) -> NotifView {
        NotifView {
            list: self.list@,
            filter: self.filter,
            type_filter: self.type_filter,
            unread: self.unread,
            auto_pages_left: self.auto_pages_left as int,
        }
    }
}

/// A list emptied to be fetched again.
pub open spec fn cleared(l: TabView<Notification>) -> TabView<Notification> {
    TabView {
        items: Seq::empty(),
        next_cursor: None,
        selected: 0,
        loading: true,
        error: None,
        ..l
    }
}

pub open spec fn next_filter(f: NotificationsFilter) -> NotificationsFilter {
    match f {
        NotificationsFilter::All => NotificationsFilter::Unread,
        NotificationsFilter::Unread => NotificationsFilter::Read,
        NotificationsFilter::Read => NotificationsFilter::All,
    }
}

/// What Enter opens on a notification: the conversation for a direct message,
/// else the post it leads to, else the user behind it.
pub open spec fn opens(n: Notification) -> NotificationsIntent {
    if n.kind == NotificationType::DmMessage && n.actor() is Some {
        NotificationsIntent::OpenCmail { username: n.actor()->Some_0, user_id: n.actor_id }
    } else if n.navigable() && n.target_id is Some {
        NotificationsIntent::OpenSelected {
            post_id: n.target_id->Some_0,
            highlight_reply_id: n.metadata.reply_id,
        }
    } else {
        match n.actor() {
            Some(username) => NotificationsIntent::OpenUser { username },
            None => NotificationsIntent::Nothing,
        }
    }
}

impl NotifView {
    pub open spec fn selected(self) -> Option<Notification> {
        if 0 <= self.list.selected < self.list.items.len() {
            Some(self.list.items[self.list.selected])
        } else {
            None
        }
    }

    /// The screen and the intent after a key. Movement and loading wait while a
    /// page is on its way; the rest does not.
    pub open spec fn keyed(self, key: KeyEvent) -> (NotifView, NotificationsIntent) {
        if key.is_quit_spec() {
            (self, NotificationsIntent::Quit)
        } else {
            match key.code {
                KeyCode::Char('f') => (
                    NotifView {
                        filter: next_filter(self.filter),
                        list: cleared(self.list),
                        ..self
                    },
                    NotificationsIntent::ToggleFilter,
                ),
                KeyCode::Char('t') => (
                    NotifView {
                        type_filter: self.type_filter.next_spec(),
                        list: cleared(self.list),
                        ..self
                    },
                    NotificationsIntent::ToggleFilter,
                ),
                KeyCode::Char('m') => match self.selected() {
                    Some(n) => if n.read {
                        (self, NotificationsIntent::Nothing)
                    } else {
                        (
                            self,
                            NotificationsIntent::MarkSelectedRead {
                                notification_id: n.notification_id,
                            },
                        )
                    },
                    None => (self, NotificationsIntent::Nothing),
                },
                KeyCode::Char('M') => (self, NotificationsIntent::MarkAllRead),
                KeyCode::Enter => match self.selected() {
                    Some(n) => (self, opens(n)),
                    None => (self, NotificationsIntent::Nothing),
                },
                _ => if self.list.loading {
                    (self, NotificationsIntent::Nothing)
                } else {
                    let (selected, nav) = list_nav::navigated(
                        key.code,
                        self.list.selected,
                        self.list.items.len() as int,
                        self.list.next_cursor is Some,
                        1,
                    );
                    let moved = NotifView {
                        list: TabView { selected, ..self.list },
                        ..self
                    };
                    match nav {
                        ListNav::LoadMore => (
                            NotifView {
                                list: TabView { loading: true, ..moved.list },
                                auto_pages_left: MAX_AUTO_PAGES as int,
                                ..moved
                            },
                            NotificationsIntent::LoadMore,
                        ),
                        ListNav::Moved => (moved, NotificationsIntent::Nothing),
                        ListNav::Ignored => if key.code == KeyCode::Char('r') {
                            (
                                NotifView { list: cleared(moved.list), ..moved },
                                NotificationsIntent::Refresh,
                            )
                        } else {
                            (moved, NotificationsIntent::Nothing)
                        },
                    }
                },
            }
        }
    }

    /// Whether the screen fetches the next page by itself: the page just
    /// applied added nothing to the `before` rows there were, did not fail, and
    /// left a cursor and some of the budget.
    pub open spec fn chases(self, before: int) -> bool {
        &&& self.list.error is None
        &&& self.list.items.len() <= before
        &&& self.auto_pages_left > 0
        &&& self.list.next_cursor is Some
    }

    /// The screen after a page was applied.
    pub open spec fn settled(self, before: int) -> NotifView {
        if self.chases(before) {
            NotifView {
                auto_pages_left: self.auto_pages_left - 1,
                list: TabView { loading: true, ..self.list },
                ..self
            }
        } else {
            self
        }
    }
}

impl NotifView {
    /// The screen after a first page, and the cursor of the page to fetch at
    /// once, if there is one.
    pub open spec fn after_first(self, page: Page<Notification>) -> (
        NotifView,
        Option<Seq<char>>,
    ) {
        let loaded = NotifView {
            auto_pages_left: MAX_AUTO_PAGES as int,
            list: self.list.after_initial(
                page,
                match page {
                    Ok((items, _)) => items@.len() as int,
                    Err(_) => 0,
                },
            ),
            ..self
        };
        (
            loaded.settled(0),
            if loaded.chases(0) {
                loaded.list.next_cursor
            } else {
                None
            },
        )
    }

    /// The screen after a further page, and the cursor of the page to fetch at
    /// once, if there is one.
    pub open spec fn after_page(self, page: Page<Notification>) -> (NotifView, Option<Seq<char>>) {
        let before = self.list.items.len() as int;
        let loaded = NotifView { list: self.list.after_more(page), ..self };
        (
            loaded.settled(before),
            if loaded.chases(before) {
                loaded.list.next_cursor
            } else {
                None
            },
        )
    }
}

/// Where the first notification with that id stands at or after position `i`.
pub open spec fn index_of(items: Seq<Notification>, id: Seq<char>, i: int) -> Option<int>
    decreases items.len() - i,
{
    if i < 0 || i >= items.len() {
        None
    } else if items[i].notification_id@ == id {
        Some(i)
    } else {
        index_of(items, id, i + 1)
    }
}

pub open spec fn with_read(n: Notification, read: bool) -> Notification {
    Notification { read, ..n }
}

/// The screen after one notification was marked as read.
pub open spec fn marked(s: NotifView, id: Seq<char>) -> NotifView {
    match index_of(s.list.items, id, 0) {
        Some(i) => NotifView {
            list: TabView {
                items: s.list.items.update(i, with_read(s.list.items[i], true)),
                ..s.list
            },
            unread: UnreadCount {
                count: if !s.list.items[i].read && s.unread.count > 0 {
                    (s.unread.count - 1) as u64
                } else {
                    s.unread.count
                },
                ..s.unread
            },
            ..s
        },
        None => s,
    }
}

/// The screen after a mark was taken back.
pub open spec fn unmarked(s: NotifView, id: Seq<char>) -> NotifView {
    match index_of(s.list.items, id, 0) {
        Some(i) => NotifView {
            list: TabView {
                items: s.list.items.update(i, with_read(s.list.items[i], false)),
                ..s.list
            },
            unread: UnreadCount {
                count: if s.list.items[i].read && s.unread.count < u64::MAX {
                    (s.unread.count + 1) as u64
                } else {
                    s.unread.count
                },
                ..s.unread
            },
            ..s
        },
        None => s,
    }
}

/// The screen after every notification was marked as read.
pub open spec fn all_marked(s: NotifView) -> NotifView {
    NotifView {
        list: TabView {
            items: Seq::new(s.list.items.len(), |i: int| with_read(s.list.items[i], true)),
            ..s.list
        },
        unread: UnreadCount::zero(),
        ..s
    }
}

impl NotificationsScreen {
    pub open spec fn started() -> NotifView {
        NotifView {
            list: TabView { loading: true, ..TabView::fresh() },
            filter: NotificationsFilter::All,
            type_filter: NotifTypeFilter::All,
            unread: UnreadCount::zero(),
            auto_pages_left: MAX_AUTO_PAGES as int,
        }
    }

    /// A screen that starts out loading its first page.
    pub fn new() -> (r: NotificationsScreen)
        ensures
            r@ == NotificationsScreen::started(),
    {
        NotificationsScreen {
            list: TabState::loading(),
            filter: NotificationsFilter::All,
            type_filter: NotifTypeFilter::All,
            unread: UnreadCount::default(),
            auto_pages_left: MAX_AUTO_PAGES,
        }
    }

    /// The notification types selected by the `t` filter.
    pub fn selected_types(&self) -> (r: Vec<NotificationType>)
        ensures
            r@ == self@.type_filter.types_spec(),
    {
        self.type_filter.types()
    }

    fn clear_list(&mut self)
        ensures
            final(self)@ == (NotifView { list: cleared(old(self)@.list), ..old(self)@ }),
    {
        self.list.items.clear();
        self.list.next_cursor = None;
        self.list.selected = 0;
        self.list.loading = true;
        self.list.error = None;
    }

    fn open_selected(&self) -> (r: NotificationsIntent)
        ensures
            r == match self@.selected() {
                Some(n) => opens(n),
                None => NotificationsIntent::Nothing,
            },
    {
        if self.list.selected >= self.list.items.len() {
            return NotificationsIntent::Nothing;
        }
        let n = &self.list.items[self.list.selected];
        let actor = n.actor_profile();
        if n.kind == NotificationType::DmMessage {
            if let Some(username) = n.actor_profile() {
                return NotificationsIntent::OpenCmail {
                    username,
                    user_id: clone_opt(&n.actor_id),
                };
            }
        }
        let navigable = match &n.target_type {
            Some(t) => !t.as_str().is_empty(),
            None => false,
        };
        if navigable {
            if let Some(post_id) = &n.target_id {
                return NotificationsIntent::OpenSelected {
                    post_id: post_id.clone(),
                    highlight_reply_id: clone_opt(&n.metadata.reply_id),
                };
            }
        }
        match actor {
            Some(username) => NotificationsIntent::OpenUser { username },
            None => NotificationsIntent::Nothing,
        }
    }

    /// Take a key and say what is asked of the shell.
    pub fn handle_key(&mut self, key: KeyEvent) -> (r: NotificationsIntent)
        ensures
            (final(self)@, r) == old(self)@.keyed(key),
    {
        if key.is_quit() {
            return NotificationsIntent::Quit;
        }
        match key.code {
            KeyCode::Char('f') => {
                self.filter = match self.filter {
                    NotificationsFilter::All => NotificationsFilter::Unread,
                    NotificationsFilter::Unread => NotificationsFilter::Read,
                    NotificationsFilter::Read => NotificationsFilter::All,
                };
                self.clear_list();
                return NotificationsIntent::ToggleFilter;
            },
            KeyCode::Char('t') => {
                self.type_filter = self.type_filter.next();
                self.clear_list();
                return NotificationsIntent::ToggleFilter;
            },
            KeyCode::Char('m') => {
                // Only an unread one: marking twice would count twice.
                if self.list.selected < self.list.items.len() {
                    let n = &self.list.items[self.list.selected];
                    if !n.read {
                        return NotificationsIntent::MarkSelectedRead {
                            notification_id: n.notification_id.clone(),
                        };
                    }
                }
                return NotificationsIntent::Nothing;
            },
            KeyCode::Char('M') => {
                return NotificationsIntent::MarkAllRead;
            },
            KeyCode::Enter => {
                return self.open_selected();
            },
            _ => {},
        }
        if self.list.loading {
            return NotificationsIntent::Nothing;
        }
        let len: usize = self.list.items.len();
        let has_more = self.list.next_cursor.is_some();
        match list_nav::navigate(key.code, &mut self.list.selected, len, has_more) {
            ListNav::LoadMore => {
                self.list.loading = true;
                self.auto_pages_left = MAX_AUTO_PAGES;
                return NotificationsIntent::LoadMore;
            },
            ListNav::Moved => {
                return NotificationsIntent::Nothing;
            },
            ListNav::Ignored => {},
        }
        if key.code == KeyCode::Char('r') {
            self.clear_list();
            return NotificationsIntent::Refresh;
        }
        NotificationsIntent::Nothing
    }

    /// Apply an initial load or refresh, returning the cursor of a page that
    /// has to be fetched straight away.
    pub fn apply_initial(&mut self, result: Page<Notification>) -> (r: Option<String>)
        ensures
            (final(self)@, strs::opt_text(r)) == old(self)@.after_first(result),
    {
        self.auto_pages_left = MAX_AUTO_PAGES;
        self.list.apply_initial(result);
        self.autoload_cursor(0)
    }

    /// Append a load-more page, returning the cursor of a page that has to be
    /// fetched straight away: a page that added no rows is not the end.
    pub fn apply_more(&mut self, result: Page<Notification>) -> (r: Option<String>)
        ensures
            (final(self)@, strs::opt_text(r)) == old(self)@.after_page(result),
    {
        let before: usize = self.list.items.len();
        self.list.apply_more(result);
        self.autoload_cursor(before)
    }

    fn autoload_cursor(&mut self, items_before: usize) -> (r: Option<String>)
        ensures
            final(self)@ == old(self)@.settled(items_before as int),
            strs::opt_text(r) == if old(self)@.chases(items_before as int) {
                old(self)@.list.next_cursor
            } else {
                None
            },
    {
        if self.list.error.is_some() || self.list.items.len() > items_before {
            return None;
        }
        if self.auto_pages_left == 0 {
            return None;
        }
        let cursor = clone_opt(&self.list.next_cursor);
        if cursor.is_some() {
            self.auto_pages_left = self.auto_pages_left - 1;
            self.list.loading = true;
        }
        cursor
    }

    /// Record the server's unread total.
    pub fn set_unread_count(&mut self, unread: UnreadCount)
        ensures
            final(self)@ == (NotifView { unread, ..old(self)@ }),
    {
        self.unread = unread;
    }

    fn find(&self, id: &str) -> (r: Option<usize>)
        ensures
            match r {
                Some(i) => index_of(self@.list.items, id@, 0) == Some(i as int) && i
                    < self@.list.items.len(),
                None => index_of(self@.list.items, id@, 0) is None,
            },
    {
        let mut i: usize = 0;
        while i < self.list.items.len()
            invariant
                i <= self.list.items@.len(),
                index_of(self.list.items@, id@, i as int) == index_of(
                    self.list.items@,
                    id@,
                    0,
                ),
            decreases self.list.items@.len() - i,
        {
            if same(self.list.items[i].notification_id.as_str(), id) {
                return Some(i);
            }
            i = i + 1;
        }
        None
    }

    fn set_read(&mut self, i: usize, read: bool)
        requires
            i < old(self)@.list.items.len(),
        ensures
            final(self)@ == (NotifView {
                list: TabView {
                    items: old(self)@.list.items.update(
                        i as int,
                        with_read(old(self)@.list.items[i as int], read),
                    ),
                    ..old(self)@.list
                },
                ..old(self)@
            }),
    {
        let mut n = self.list.items.remove(i);
        n.read = read;
        self.list.items.insert(i, n);
        assert(self.list.items@ =~= old(self).list.items@.update(i as int, n));
    }

    /// Mark a single notification as read before the server has answered.
    pub fn mark_local(&mut self, notification_id: &str)
        ensures
            final(self)@ == marked(old(self)@, notification_id@),
    {
        if let Some(i) = self.find(notification_id) {
            if !self.list.items[i].read && self.unread.count > 0 {
                self.unread.count = self.unread.count - 1;
            }
            self.set_read(i, true);
        }
    }

    /// Undo a [`NotificationsScreen::mark_local`] that the server rejected.
    pub fn unmark_local(&mut self, notification_id: &str)
        ensures
            final(self)@ == unmarked(old(self)@, notification_id@),
    {
        if let Some(i) = self.find(notification_id) {
            if self.list.items[i].read && self.unread.count < u64::MAX {
                self.unread.count = self.unread.count + 1;
            }
            self.set_read(i, false);
        }
    }

    /// Mark every notification as read before the server has answered.
    pub fn mark_all_local(&mut self)
        ensures
            final(self)@ == all_marked(old(self)@),
    {
        let mut i: usize = 0;
        let n: usize = self.list.items.len();
        while i < n
            invariant
                i <= n,
                n == old(self)@.list.items.len(),
                self@ == (NotifView {
                    list: TabView { items: self@.list.items, ..old(self)@.list },
                    ..old(self)@
                }),
                self@.list.items.len() == n,
                forall|k: int|
                    0 <= k < i ==> self@.list.items[k] == with_read(
                        old(self)@.list.items[k],
                        true,
                    ),
                forall|k: int| i <= k < n ==> self@.list.items[k] == old(self)@.list.items[k],
            decreases n - i,
        {
            self.set_read(i, true);
            i = i + 1;
        }
        self.unread = UnreadCount::default();
        assert(self@.list.items =~= Seq::new(
            old(self)@.list.items.len(),
            |i: int| with_read(old(self)@.list.items[i], true),
        ));
    }
}

impl Default for NotificationsScreen {
    fn default() -> (r: NotificationsScreen)
        ensures
            r@ == NotificationsScreen::started(),
    {
        NotificationsScreen::new()
    }
}

// ---------------------------------------------------------------------------
// What is shown.
// ---------------------------------------------------------------------------

pub open spec fn empty_text(s: NotifView) -> Seq<char> {
    if s.list.next_cursor is Some {
        "nothing on this page · n for the next"@
    } else {
        "no notifications"@
    }
}

/// What the body says when there is no row to draw. An empty list with a cursor
/// is not an empty inbox.
pub fn empty_label(s: &NotificationsScreen) -> (r: &'static str)
    ensures
        r@ == empty_text(s@),
{
    if s.list.next_cursor.is_some() {
        "nothing on this page · n for the next"
    } else {
        "no notifications"
    }
}

/// The explanation, unless it is blank.
pub open spec fn reason_of(n: Notification) -> Option<Seq<char>> {
    match n.reason {
        Some(r) => if strs::trimmed(r@).len() > 0 {
            Some(strs::trimmed(r@))
        } else {
            None
        },
        None => None,
    }
}

/// The notification's explanatory text, when it has one.
pub fn reason_text(n: &Notification) -> (r: Option<String>)
    ensures
        strs::opt_text(r) == reason_of(*n),
{
    match &n.reason {
        Some(r) => {
            let t = trim(r.as_str());
            if t.as_str().is_empty() {
                None
            } else {
                Some(t)
            }
        },
        None => None,
    }
}

/// Whether the platform acted against the reader's account.
pub open spec fn stands_out(kind: NotificationType) -> bool {
    ||| kind == NotificationType::SystemBan
    ||| kind == NotificationType::PostCooldown
    ||| kind == NotificationType::RateLimitWarning
    ||| kind == NotificationType::ApiAccessRemoved
}

pub open spec fn summary_style_of(n: Notification, theme: Theme) -> Style {
    if stands_out(n.kind) {
        theme.warning_spec()
    } else {
        theme.base_spec()
    }
}

/// Style of a notification's summary: those that change what the reader can do
/// next stand out.
pub fn summary_style(n: &Notification, theme: &Theme) -> (r: Style)
    ensures
        r == summary_style_of(*n, *theme),
{
    match n.kind {
        NotificationType::SystemBan
        | NotificationType::PostCooldown
        | NotificationType::RateLimitWarning
        | NotificationType::ApiAccessRemoved => theme.warning_style(),
        _ => theme.base(),
    }
}

/// Whether a notification of that type is somebody's doing.
pub open spec fn has_actor(kind: NotificationType) -> bool {
    match kind {
        NotificationType::Bookmark
        | NotificationType::Reply
        | NotificationType::ThreadReply
        | NotificationType::ReplyMention
        | NotificationType::PostMention
        | NotificationType::ChatMention
        | NotificationType::GraffitiMention
        | NotificationType::DmMessage
        | NotificationType::NewFollower
        | NotificationType::Unfollowed
        | NotificationType::NewPostFollowing
        | NotificationType::NewPostFriend
        | NotificationType::Poke
        | NotificationType::GuildNewThread => true,
        _ => false,
    }
}

/// What somebody did.
pub open spec fn deed(n: Notification, actor: Seq<char>) -> Seq<char> {
    let by = "@"@ + actor;
    match n.kind {
        NotificationType::Bookmark => by + " bookmarked your post"@,
        NotificationType::Reply => by + " replied to your post"@,
        NotificationType::ThreadReply => by + " replied in @"@ + (match n.metadata.thread_author {
            Some(t) => t@,
            None => "a thread"@,
        }) + "'s thread"@,
        NotificationType::ReplyMention => by + " mentioned you in a reply"@,
        NotificationType::PostMention => by + " mentioned you in a post"@,
        NotificationType::ChatMention => by + " mentioned you in chat"@,
        NotificationType::GraffitiMention => by + " mentioned you in graffiti"@,
        NotificationType::DmMessage => by + " sent you a DM"@,
        NotificationType::NewFollower => by + " followed you"@,
        NotificationType::Unfollowed => by + " unfollowed you"@,
        NotificationType::NewPostFollowing => by + " posted (from following)"@,
        NotificationType::NewPostFriend => by + " posted (from friends)"@,
        NotificationType::Poke => by + " poked you"@,
        _ => "new thread in "@ + (match n.metadata.guild_name {
            Some(g) => g@,
            None => "a guild"@,
        }) + " by @"@ + actor,
    }
}

/// What happened to the reader's account.
pub open spec fn notice(kind: NotificationType) -> Seq<char> {
    match kind {
        NotificationType::SupporterGranted => "supporter status granted"@,
        NotificationType::SupporterRemoved => "supporter status removed"@,
        NotificationType::HackerGranted => "hacker status granted"@,
        NotificationType::HackerRemoved => "hacker status removed"@,
        NotificationType::ModeratorGranted => "you are now a moderator"@,
        NotificationType::ModeratorRemoved => "your moderator role was removed"@,
        NotificationType::ApiAccessGranted => "API access granted"@,
        NotificationType::ApiAccessRemoved => "API access removed"@,
        NotificationType::ImagePermissionGranted => "image-upload permission granted"@,
        NotificationType::ImagePermissionRemoved => "image-upload permission removed"@,
        NotificationType::AttachmentPermissionGranted => "attachment permission granted"@,
        NotificationType::AttachmentPermissionRemoved => "attachment permission removed"@,
        NotificationType::SystemBan => "your account has been banned"@,
        NotificationType::SystemBanLifted => "the restriction on your account was lifted"@,
        NotificationType::PostCooldown => "your entry was held back and saved as a note"@,
        NotificationType::RateLimitWarning => "you're approaching a posting limit"@,
        _ => "notice about your account"@,
    }
}

/// One line describing a notification. Only what has a sender names one.
pub open spec fn summary(n: Notification, actor: Seq<char>) -> Seq<char> {
    if has_actor(n.kind) {
        deed(n, actor)
    } else if n.kind == NotificationType::Unknown && n.actor() is Some {
        "notification from @"@ + actor
    } else {
        notice(n.kind)
    }
}

fn by_actor(actor: &str, did: &str) -> (r: String)
    ensures
        r@ == "@"@ + actor@ + did@,
{
    let mut s = "@".to_owned();
    s.append(actor);
    s.append(did);
    s
}

fn describe_deed(n: &Notification, actor: &str) -> (r: String)
    ensures
        r@ == deed(*n, actor@),
{
    match n.kind {
        NotificationType::Bookmark => by_actor(actor, " bookmarked your post"),
        NotificationType::Reply => by_actor(actor, " replied to your post"),
        NotificationType::ThreadReply => {
            let thread = match &n.metadata.thread_author {
                Some(t) => t.as_str(),
                None => "a thread",
            };
            let mut s = by_actor(actor, " replied in @");
            s.append(thread);
            s.append("'s thread");
            s
        },
        NotificationType::ReplyMention => by_actor(actor, " mentioned you in a reply"),
        NotificationType::PostMention => by_actor(actor, " mentioned you in a post"),
        NotificationType::ChatMention => by_actor(actor, " mentioned you in chat"),
        NotificationType::GraffitiMention => by_actor(actor, " mentioned you in graffiti"),
        NotificationType::DmMessage => by_actor(actor, " sent you a DM"),
        NotificationType::NewFollower => by_actor(actor, " followed you"),
        NotificationType::Unfollowed => by_actor(actor, " unfollowed you"),
        NotificationType::NewPostFollowing => by_actor(actor, " posted (from following)"),
        NotificationType::NewPostFriend => by_actor(actor, " posted (from friends)"),
        NotificationType::Poke => by_actor(actor, " poked you"),
        _ => {
            let guild = match &n.metadata.guild_name {
                Some(g) => g.as_str(),
                None => "a guild",
            };
            let mut s = "new thread in ".to_owned();
            s.append(guild);
            s.append(" by @");
            s.append(actor);
            s
        },
    }
}

fn describe_notice(kind: NotificationType) -> (r: &'static str)
    ensures
        r@ == notice(kind),
{
    match kind {
        NotificationType::SupporterGranted => "supporter status granted",
        NotificationType::SupporterRemoved => "supporter status removed",
        NotificationType::HackerGranted => "hacker status granted",
        NotificationType::HackerRemoved => "hacker status removed",
        NotificationType::ModeratorGranted => "you are now a moderator",
        NotificationType::ModeratorRemoved => "your moderator role was removed",
        NotificationType::ApiAccessGranted => "API access granted",
        NotificationType::ApiAccessRemoved => "API access removed",
        NotificationType::ImagePermissionGranted => "image-upload permission granted",
        NotificationType::ImagePermissionRemoved => "image-upload permission removed",
        NotificationType::AttachmentPermissionGranted => "attachment permission granted",
        NotificationType::AttachmentPermissionRemoved => "attachment permission removed",
        NotificationType::SystemBan => "your account has been banned",
        NotificationType::SystemBanLifted => "the restriction on your account was lifted",
        NotificationType::PostCooldown => "your entry was held back and saved as a note",
        NotificationType::RateLimitWarning => "you're approaching a posting limit",
        _ => "notice about your account",
    }
}

/// One line describing a notification.
pub fn summarize(n: &Notification, actor: &str) -> (r: String)
    ensures
        r@ == summary(*n, actor@),
{
    let personal = match n.kind {
        NotificationType::Bookmark
        | NotificationType::Reply
        | NotificationType::ThreadReply
        | NotificationType::ReplyMention
        | NotificationType::PostMention
        | NotificationType::ChatMention
        | NotificationType::GraffitiMention
        | NotificationType::DmMessage
        | NotificationType::NewFollower
        | NotificationType::Unfollowed
        | NotificationType::NewPostFollowing
        | NotificationType::NewPostFriend
        | NotificationType::Poke
        | NotificationType::GuildNewThread => true,
        _ => false,
    };
    if personal {
        return describe_deed(n, actor);
    }
    if n.kind == NotificationType::Unknown && !n.is_from_system() {
        let mut s = "notification from @".to_owned();
        s.append(actor);
        return s;
    }
    describe_notice(n.kind).to_owned()
}

/// The rows of one notification.
pub open spec fn item_lines(n: Notification, when: Seq<char>, compact: bool, theme: Theme) -> Seq<
    Seq<draw::SpanView>,
> {
    let header = seq![
        if n.read {
            draw::span("  "@, theme.muted_spec())
        } else {
            draw::span("● "@, theme.accent_spec())
        },
        draw::span(summary(n, n.actor_text()), summary_style_of(n, theme)),
        draw::span(" · "@ + when, theme.muted_spec()),
    ];
    let explained = match reason_of(n) {
        Some(r) => seq![header, draw::one("  "@ + r, theme.muted_spec())],
        None => seq![header],
    };
    if compact {
        explained
    } else {
        explained.push(draw::blank())
    }
}

/// The rows of one notification: its summary and time, its reason if it has
/// one, and a blank row unless the list is compact.
pub fn notification_item(n: &Notification, when: &str, compact: bool, theme: &Theme) -> (r: Vec<
    Line,
>)
    ensures
        draw::line_views(r@) == item_lines(*n, when@, compact, *theme),
{
    let mut spans: Vec<Span> = Vec::new();
    if n.read {
        push_span(&mut spans, Span::of("  ", theme.muted_style()));
    } else {
        push_span(&mut spans, Span::of("● ", theme.accent_style()));
    }
    push_span(&mut spans, Span::new(summarize(n, n.actor_name()), summary_style(n, theme)));
    let mut time = " · ".to_owned();
    time.append(when);
    push_span(&mut spans, Span::new(time, theme.muted_style()));
    assert(draw::span_views(spans@) =~= item_lines(*n, when@, compact, *theme)[0]);
    let mut lines: Vec<Line> = Vec::new();
    push_line(&mut lines, Line::new(spans));
    if let Some(reason) = reason_text(n) {
        let mut s = "  ".to_owned();
        s.append(reason.as_str());
        push_line(&mut lines, Line::single(s, theme.muted_style()));
    }
    if !compact {
        push_line(&mut lines, Line::empty());
    }
    assert(draw::line_views(lines@) =~= item_lines(*n, when@, compact, *theme));
    lines
}

/// Whether a loaded notification is unread.
pub open spec fn any_unread(items: Seq<Notification>) -> bool {
    exists|i: int| 0 <= i < items.len() && !(#[trigger] items[i]).read
}

/// The status bar: what is loaded, what is unread, and the keys.
pub open spec fn status_of(s: NotifView) -> Seq<char> {
    let keys = "enter open · m mark · M mark-all · f read · t type · r refresh · esc menu"@;
    if s.list.loading {
        "loading… · "@ + keys
    } else {
        strs::decimal(s.list.items.len()) + " items"@ + (if s.unread.count > 0 {
            " · "@ + s.unread.badge_text() + (if any_unread(s.list.items) {
                " unread"@
            } else {
                " unread not on this page"@
            })
        } else {
            ""@
        }) + " · "@ + (if s.list.next_cursor is Some {
            "scroll down for more"@
        } else {
            "end"@
        }) + " · "@ + keys
    }
}

/// Status-bar text. The unread figure is the server's; where none of the loaded
/// rows is unread, the line says that the rest is not on this page.
pub fn status_text(s: &NotificationsScreen) -> (r: String)
    ensures
        r@ == status_of(s@),
{
    let keys = "enter open · m mark · M mark-all · f read · t type · r refresh · esc menu";
    if s.list.loading {
        let mut t = "loading… · ".to_owned();
        t.append(keys);
        return t;
    }
    let mut here = false;
    let mut i: usize = 0;
    while i < s.list.items.len()
        invariant
            i <= s.list.items@.len(),
            here == exists|k: int| 0 <= k < i && !(#[trigger] s.list.items@[k]).read,
        decreases s.list.items@.len() - i,
    {
        if !s.list.items[i].read {
            here = true;
        }
        i = i + 1;
    }
    let mut t = decimal_text(s.list.items.len() as u64);
    t.append(" items");
    let mut unread = String::new();
    if s.unread.any() {
        unread.append(" · ");
        unread.append(s.unread.badge().as_str());
        unread.append(if here {
            " unread"
        } else {
            " unread not on this page"
        });
    } else {
        unread.append("");
    }
    proof {
        reveal_strlit("");
        assert(unread@ =~= if s@.unread.count > 0 {
            " · "@ + s@.unread.badge_text() + (if any_unread(s@.list.items) {
                " unread"@
            } else {
                " unread not on this page"@
            })
        } else {
            ""@
        });
    }
    t.append(unread.as_str());
    t.append(" · ");
    t.append(if s.list.next_cursor.is_some() {
        "scroll down for more"
    } else {
        "end"
    });
    t.append(" · ");
    t.append(keys);
    t
}

/// What one render shows.
#[derive(Debug)]
pub struct NotificationsFrame {
    pub title: Line,
    pub body: ListBody,
    pub status: Line,
}

pub open spec fn title_text(s: NotifView) -> Seq<char> {
    " cs-tui • notifications"@ + (match s.filter {
        NotificationsFilter::All => ""@,
        NotificationsFilter::Unread => " · unread"@,
        NotificationsFilter::Read => " · read"@,
    }) + (if s.type_filter == NotifTypeFilter::All {
        ""@
    } else {
        " · "@ + s.type_filter.label_spec()
    }) + " "@
}

/// The rows of the first `n` notifications.
pub open spec fn rows_of(
    items: Seq<Notification>,
    n: int,
    stamps: Seq<String>,
    compact: bool,
    theme: Theme,
) -> Seq<Seq<Seq<draw::SpanView>>> {
    Seq::new(
        n as nat,
        |i: int|
            item_lines(items[i], config::stamp(items[i].created_at, stamps, i), compact, theme),
    )
}

/// The status line: a load-more failure, or else the status bar.
pub open spec fn status_shown(s: NotifView, theme: Theme) -> Seq<draw::SpanView> {
    match list::more_error_text(s.list) {
        Some(msg) => draw::one(msg, theme.error_spec()),
        None => draw::one(status_of(s), theme.muted_spec()),
    }
}

impl NotificationsScreen {
    /// What the screen shows; `stamps` gives the time of each notification as
    /// text.
    pub fn render(&self, stamps: &Vec<String>, theme: &Theme, cfg: &Config) -> (f:
        NotificationsFrame)
        ensures
            f.title@ == draw::one(title_text(self@), theme.heading_spec()),
            f.body@ == list::body_of(
                self@.list,
                rows_of(
                    self@.list.items,
                    self@.list.items.len() as int,
                    stamps@,
                    cfg.compact,
                    *theme,
                ),
                empty_text(self@),
                *theme,
                cfg.selection,
            ),
            f.status@ == status_shown(self@, *theme),
    {
        let mut title = " cs-tui • notifications".to_owned();
        title.append(match self.filter {
            NotificationsFilter::All => "",
            NotificationsFilter::Unread => " · unread",
            NotificationsFilter::Read => " · read",
        });
        let mut kind = String::new();
        if self.type_filter == NotifTypeFilter::All {
            kind.append("");
        } else {
            kind.append(" · ");
            kind.append(self.type_filter.label());
        }
        proof {
            reveal_strlit("");
            assert(kind@ =~= if self@.type_filter == NotifTypeFilter::All {
                ""@
            } else {
                " · "@ + self@.type_filter.label_spec()
            });
        }
        title.append(kind.as_str());
        title.append(" ");
        let mut rows: Vec<Vec<Line>> = Vec::new();
        let mut i: usize = 0;
        assert(draw::block_views(rows@) =~= rows_of(
            self@.list.items,
            0,
            stamps@,
            cfg.compact,
            *theme,
        ));
        while i < self.list.items.len()
            invariant
                i <= self.list.items@.len(),
                draw::block_views(rows@) == rows_of(
                    self@.list.items,
                    i as int,
                    stamps@,
                    cfg.compact,
                    *theme,
                ),
            decreases self.list.items@.len() - i,
        {
            let n = &self.list.items[i];
            let when = config::stamp_of(n.created_at, stamps, i);
            push_block(&mut rows, notification_item(n, when.as_str(), cfg.compact, theme));
            i = i + 1;
            assert(draw::block_views(rows@) =~= rows_of(
                self@.list.items,
                i as int,
                stamps@,
                cfg.compact,
                *theme,
            ));
        }
        let body = list::render_body(
            &self.list,
            rows,
            empty_label(self),
            theme,
            cfg.selection,
        );
        let status = match list::load_more_error(&self.list) {
            Some(msg) => Line::single(msg, theme.error_style()),
            None => Line::single(status_text(self), theme.muted_style()),
        };
        NotificationsFrame { title: Line::single(title, theme.heading_style()), body, status }
    }
}

// ---------------------------------------------------------------------------
// Laws.
// ---------------------------------------------------------------------------

/// Five steps through the type buckets lead back, and three through the read
/// filter.
pub proof fn law_filters_cycle(t: NotifTypeFilter, f: NotificationsFilter)
    ensures
        t.next_spec().next_spec().next_spec().next_spec().next_spec() == t,
        next_filter(next_filter(next_filter(f))) == f,
{
}

/// Every bucket fits the query, which takes twenty types at most.
pub proof fn law_buckets_fit_the_query(t: NotifTypeFilter)
    ensures
        t.types_spec().len() <= 20,
{
}

/// The screen only ever fetches by itself while its budget lasts, spends some of
/// it each time, and is then marked as loading.
pub proof fn law_automatic_chain_is_bounded(s: NotifView, before: int)
    requires
        0 <= s.auto_pages_left <= MAX_AUTO_PAGES,
    ensures
        s.chases(before) ==> 0 <= s.settled(before).auto_pages_left < s.auto_pages_left
            && s.settled(before).list.loading,
        !s.chases(before) ==> s.settled(before) == s,
        s.auto_pages_left == 0 ==> !s.chases(before),
        s.list.error is Some ==> !s.chases(before),
{
}

proof fn lemma_index_of_update(items: Seq<Notification>, id: Seq<char>, i: int, at: int, b: bool)
    requires
        0 <= at < items.len(),
        0 <= i,
    ensures
        index_of(items.update(at, with_read(items[at], b)), id, i) == index_of(items, id, i),
    decreases items.len() - i,
{
    if i < items.len() {
        lemma_index_of_update(items, id, i + 1, at, b);
    }
}

proof fn lemma_index_of_bounds(items: Seq<Notification>, id: Seq<char>, i: int)
    requires
        0 <= i,
    ensures
        match index_of(items, id, i) {
            Some(k) => i <= k < items.len() && items[k].notification_id@ == id && forall|j: int|
                i <= j < k ==> (#[trigger] items[j]).notification_id@ != id,
            None => forall|j: int|
                i <= j < items.len() ==> (#[trigger] items[j]).notification_id@ != id,
        },
    decreases items.len() - i,
{
    if i < items.len() && items[i].notification_id@ != id {
        lemma_index_of_bounds(items, id, i + 1);
    }
}

/// A mark that the server rejects is taken back without a trace: what was unread
/// is unread again, and the unread figure is what it was.
pub proof fn law_unmark_undoes_mark(s: NotifView, id: Seq<char>)
    requires
        index_of(s.list.items, id, 0) matches Some(i) ==> !s.list.items[i].read
            && s.unread.count > 0,
    ensures
        unmarked(marked(s, id), id) == s,
{
    lemma_index_of_bounds(s.list.items, id, 0);
    if let Some(i) = index_of(s.list.items, id, 0) {
        lemma_index_of_update(s.list.items, id, 0, i, true);
        let m = marked(s, id);
        assert(m.list.items[i] == with_read(s.list.items[i], true));
        assert(unmarked(m, id).list.items =~= s.list.items);
        assert(unmarked(m, id) =~= s);
    }
}

/// Marking a row twice counts it once.
pub proof fn law_marking_twice_counts_once(s: NotifView, id: Seq<char>)
    ensures
        marked(marked(s, id), id) == marked(s, id),
{
    lemma_index_of_bounds(s.list.items, id, 0);
    if let Some(i) = index_of(s.list.items, id, 0) {
        lemma_index_of_update(s.list.items, id, 0, i, true);
        let m = marked(s, id);
        assert(marked(m, id).list.items =~= m.list.items);
        assert(marked(m, id) =~= m);
    }
}

/// Enter never opens a profile or a conversation for the `system` handle.
pub proof fn law_system_is_never_opened(n: Notification)
    requires
        n.actor() is None,
    ensures
        !(opens(n) is OpenUser),
        !(opens(n) is OpenCmail),
{
}

/// A notification about the reader's own account never names an actor: its
/// summary is the same whoever is given as one.
pub proof fn law_account_notices_name_nobody(n: Notification, a: Seq<char>, b: Seq<char>)
    requires
        !has_actor(n.kind),
        n.kind != NotificationType::Unknown || n.actor() is None,
    ensures
        summary(n, a) == summary(n, b),
{
}

/// Enter leads from the selected notification to where it points: a direct message to
/// the conversation with its sender, what has a target to that post with the reply
/// picked out, and anything else to the profile of whoever is behind it.
pub proof fn law_enter_opens_what_is_selected(s: NotifView, key: KeyEvent, n: Notification)
    requires
        key.code == KeyCode::Enter,
        0 <= s.list.selected < s.list.items.len(),
        n == s.list.items[s.list.selected],
    ensures
        ({
            let r = s.keyed(key);
            let somebody = n.actor_username is Some && n.actor_username->Some_0@ != "system"@;
            let leads = n.target_type is Some && n.target_type->Some_0@.len() > 0
                && n.target_id is Some;
            &&& r.0 == s
            &&& n.kind is DmMessage && somebody ==> r.1 == (NotificationsIntent::OpenCmail {
                username: n.actor_username->Some_0,
                user_id: n.actor_id,
            })
            &&& !(n.kind is DmMessage && somebody) && leads ==> r.1
                == (NotificationsIntent::OpenSelected {
                post_id: n.target_id->Some_0,
                highlight_reply_id: n.metadata.reply_id,
            })
            &&& !(n.kind is DmMessage) && !leads && somebody ==> r.1
                == (NotificationsIntent::OpenUser { username: n.actor_username->Some_0 })
            &&& !leads && !somebody ==> r.1 is Nothing
        }),
{
}

/// Marking is asked for the selected notification while it is unread, and for all of
/// them at once.
pub proof fn law_marks_are_for_the_selected_one(s: NotifView, key: KeyEvent)
    ensures
        s.keyed(key).1 matches NotificationsIntent::MarkSelectedRead { notification_id } ==> 0
            <= s.list.selected < s.list.items.len() && notification_id
            == s.list.items[s.list.selected].notification_id
            && !s.list.items[s.list.selected].read,
        key.code == KeyCode::Char('m') && 0 <= s.list.selected < s.list.items.len()
            && !s.list.items[s.list.selected].read ==> s.keyed(key) == (
            s,
            NotificationsIntent::MarkSelectedRead {
                notification_id: s.list.items[s.list.selected].notification_id,
            },
        ),
        key.code == KeyCode::Char('M') ==> s.keyed(key) == (s, NotificationsIntent::MarkAllRead),
{
}

/// A filter goes to the next one and empties the list for what it selects; the other
/// filter stays.
pub proof fn law_filters_ask_for_another_list(s: NotifView, key: KeyEvent)
    ensures
        ({
            let r = s.keyed(key);
            &&& key.code == KeyCode::Char('f') ==> {
                &&& r.1 is ToggleFilter
                &&& s.filter is All ==> r.0.filter is Unread
                &&& s.filter is Unread ==> r.0.filter is Read
                &&& s.filter is Read ==> r.0.filter is All
                &&& r.0.type_filter == s.type_filter
            }
            &&& key.code == KeyCode::Char('t') ==> {
                &&& r.1 is ToggleFilter
                &&& s.type_filter is All ==> r.0.type_filter is Mentions
                &&& s.type_filter is Mentions ==> r.0.type_filter is Replies
                &&& s.type_filter is Replies ==> r.0.type_filter is Social
                &&& s.type_filter is Social ==> r.0.type_filter is System
                &&& s.type_filter is System ==> r.0.type_filter is All
                &&& r.0.filter == s.filter
            }
            &&& r.1 is ToggleFilter || r.1 is Refresh ==> r.0.list.items.len() == 0
                && r.0.list.selected == 0 && r.0.list.loading && r.0.list.next_cursor is None
                && r.0.list.error is None
            &&& key.code == KeyCode::Char('r') && !s.list.loading ==> r.1 is Refresh && r.0.filter
                == s.filter && r.0.type_filter == s.type_filter
        }),
{
}

/// A step goes to the neighbor; at the end it asks for more where there is more, and
/// renews the budget; while a page is on its way nothing moves.
pub proof fn law_steps_move_over_the_notifications(s: NotifView, key: KeyEvent)
    requires
        0 <= s.list.selected < s.list.items.len(),
    ensures
        ({
            let r = s.keyed(key);
            let at = s.list.selected;
            let last = s.list.items.len() - 1;
            let down = key.code == KeyCode::Down || key.code == KeyCode::Char('j');
            let up = key.code == KeyCode::Up || key.code == KeyCode::Char('k');
            &&& (down || up) && s.list.loading ==> r == (s, NotificationsIntent::Nothing)
            &&& down && at < last && !s.list.loading ==> r == (
                NotifView { list: TabView { selected: at + 1, ..s.list }, ..s },
                NotificationsIntent::Nothing,
            )
            &&& up && at > 0 && !s.list.loading ==> r == (
                NotifView { list: TabView { selected: at - 1, ..s.list }, ..s },
                NotificationsIntent::Nothing,
            )
            &&& down && at == last && !s.list.loading && s.list.next_cursor is Some ==> r == (
                NotifView {
                    list: TabView { loading: true, ..s.list },
                    auto_pages_left: 4,
                    ..s
                },
                NotificationsIntent::LoadMore,
            )
        }),
{
}

/// A page that brings something is kept and nothing more is fetched; one that brings
/// nothing has the next one fetched by its cursor while the budget lasts; one that
/// failed is told and has none fetched.
pub proof fn law_empty_pages_are_not_the_end(
    s: NotifView,
    items: Vec<Notification>,
    cursor: Option<String>,
    msg: String,
)
    requires
        0 <= s.auto_pages_left,
    ensures
        ({
            let (first, chase) = s.after_first(Ok((items, cursor)));
            &&& first.list.items == items@
            &&& first.list.next_cursor == strs::opt_text(cursor)
            &&& items@.len() > 0 ==> chase is None && !first.list.loading && first.auto_pages_left
                == 4
            &&& items@.len() == 0 ==> chase == strs::opt_text(cursor) && first.list.loading == (
            cursor is Some) && first.auto_pages_left == (if cursor is Some {
                3int
            } else {
                4
            })
        }),
        ({
            let (more, chase) = s.after_page(Ok((items, cursor)));
            &&& more.list.items == s.list.items + items@
            &&& more.list.next_cursor == strs::opt_text(cursor)
            &&& items@.len() > 0 ==> chase is None && !more.list.loading && more.auto_pages_left
                == s.auto_pages_left
            &&& items@.len() == 0 && s.auto_pages_left > 0 ==> chase == strs::opt_text(cursor)
                && more.list.loading == (cursor is Some)
            &&& s.auto_pages_left == 0 ==> chase is None
        }),
        s.after_first(Err(msg)).1 is None,
        s.after_first(Err(msg)).0.list.error == Some(msg@),
        s.after_first(Err(msg)).0.list.items == s.list.items,
        s.after_page(Err(msg)).1 is None,
        s.after_page(Err(msg)).0.list.error == Some(msg@),
        s.after_page(Err(msg)).0.list.items == s.list.items,
{
    assert(s.list.items + Seq::<Notification>::empty() =~= s.list.items);
}

/// Marking sets the one notification with that id as read and counts it off; taking
/// the mark back sets it as unread and counts it again; no other notification is
/// touched.
pub proof fn law_marks_touch_one_notification(s: NotifView, id: Seq<char>, i: int)
    requires
        0 <= i < s.list.items.len(),
    ensures
        marked(s, id).list.items.len() == s.list.items.len(),
        unmarked(s, id).list.items.len() == s.list.items.len(),
        s.list.items[i].notification_id@ != id ==> marked(s, id).list.items[i] == s.list.items[i]
            && unmarked(s, id).list.items[i] == s.list.items[i],
        s.list.items[i].notification_id@ == id && (forall|k: int|
            0 <= k < i ==> (#[trigger] s.list.items[k]).notification_id@ != id) ==> {
            &&& marked(s, id).list.items[i] == (Notification { read: true, ..s.list.items[i] })
            &&& unmarked(s, id).list.items[i] == (Notification {
                read: false,
                ..s.list.items[i]
            })
            &&& !s.list.items[i].read && s.unread.count > 0 ==> marked(s, id).unread.count
                == s.unread.count - 1
            &&& s.list.items[i].read ==> marked(s, id).unread.count == s.unread.count
            &&& s.list.items[i].read && s.unread.count < u64::MAX ==> unmarked(s, id).unread.count
                == s.unread.count + 1
            &&& !s.list.items[i].read ==> unmarked(s, id).unread.count == s.unread.count
        },
        marked(s, id).list.selected == s.list.selected,
        marked(s, id).unread.exact == s.unread.exact,
{
    lemma_index_of_bounds(s.list.items, id, 0);
}

/// After marking all, every notification is read and the figure is zero; nothing else
/// of them changes.
pub proof fn law_marking_all_leaves_none_unread(s: NotifView, i: int)
    requires
        0 <= i < s.list.items.len(),
    ensures
        all_marked(s).list.items.len() == s.list.items.len(),
        all_marked(s).list.items[i] == (Notification { read: true, ..s.list.items[i] }),
        all_marked(s).unread.count == 0,
        !any_unread(all_marked(s).list.items),
        all_marked(s).list.selected == s.list.selected,
        all_marked(s).list.next_cursor == s.list.next_cursor,
{
}

/// Every type but an unknown one belongs to one bucket: mentions and messages, replies,
/// what people do, and what the platform says of the account.
pub proof fn law_every_type_has_its_bucket(k: NotificationType)
    ensures
        NotifTypeFilter::All.types_spec().len() == 0,
        NotifTypeFilter::Mentions.types_spec().contains(k) <==> (k is PostMention || k is ReplyMention || k is ChatMention || k is GraffitiMention || k is DmMessage),
        NotifTypeFilter::Replies.types_spec().contains(k) <==> (k is Reply || k is ThreadReply),
        NotifTypeFilter::Social.types_spec().contains(k) <==> (k is NewFollower || k is Unfollowed || k is Poke || k is NewPostFollowing || k is NewPostFriend || k is Bookmark || k is GuildNewThread),
        NotifTypeFilter::System.types_spec().contains(k) <==> (k is SupporterGranted || k is SupporterRemoved || k is HackerGranted || k is HackerRemoved || k is ModeratorGranted || k is ModeratorRemoved || k is ApiAccessGranted || k is ApiAccessRemoved || k is ImagePermissionGranted || k is ImagePermissionRemoved || k is AttachmentPermissionGranted || k is AttachmentPermissionRemoved || k is SystemBan || k is SystemBanLifted || k is PostCooldown || k is RateLimitWarning),
{
    let men = NotifTypeFilter::Mentions.types_spec();
    assert(men[0] == NotificationType::PostMention);
    assert(men[1] == NotificationType::ReplyMention);
    assert(men[2] == NotificationType::ChatMention);
    assert(men[3] == NotificationType::GraffitiMention);
    assert(men[4] == NotificationType::DmMessage);
    let rep = NotifTypeFilter::Replies.types_spec();
    assert(rep[0] == NotificationType::Reply);
    assert(rep[1] == NotificationType::ThreadReply);
    let soc = NotifTypeFilter::Social.types_spec();
    assert(soc[0] == NotificationType::NewFollower);
    assert(soc[1] == NotificationType::Unfollowed);
    assert(soc[2] == NotificationType::Poke);
    assert(soc[3] == NotificationType::NewPostFollowing);
    assert(soc[4] == NotificationType::NewPostFriend);
    assert(soc[5] == NotificationType::Bookmark);
    assert(soc[6] == NotificationType::GuildNewThread);
    let sys = NotifTypeFilter::System.types_spec();
    assert(sys[0] == NotificationType::SupporterGranted);
    assert(sys[1] == NotificationType::SupporterRemoved);
    assert(sys[2] == NotificationType::HackerGranted);
    assert(sys[3] == NotificationType::HackerRemoved);
    assert(sys[4] == NotificationType::ModeratorGranted);
    assert(sys[5] == NotificationType::ModeratorRemoved);
    assert(sys[6] == NotificationType::ApiAccessGranted);
    assert(sys[7] == NotificationType::ApiAccessRemoved);
    assert(sys[8] == NotificationType::ImagePermissionGranted);
    assert(sys[9] == NotificationType::ImagePermissionRemoved);
    assert(sys[10] == NotificationType::AttachmentPermissionGranted);
    assert(sys[11] == NotificationType::AttachmentPermissionRemoved);
    assert(sys[12] == NotificationType::SystemBan);
    assert(sys[13] == NotificationType::SystemBanLifted);
    assert(sys[14] == NotificationType::PostCooldown);
    assert(sys[15] == NotificationType::RateLimitWarning);
}

/// A summary says what happened and, where somebody did it, who did.
pub proof fn law_summaries_say_what_happened(n: Notification, actor: Seq<char>)
    ensures
        n.kind is Bookmark ==> summary(n, actor) == seq!['@'] + actor + " bookmarked your post"@,
        n.kind is Reply ==> summary(n, actor) == seq!['@'] + actor + " replied to your post"@,
        n.kind is ReplyMention ==> summary(n, actor) == seq!['@'] + actor + " mentioned you in a reply"@,
        n.kind is PostMention ==> summary(n, actor) == seq!['@'] + actor + " mentioned you in a post"@,
        n.kind is ChatMention ==> summary(n, actor) == seq!['@'] + actor + " mentioned you in chat"@,
        n.kind is GraffitiMention ==> summary(n, actor) == seq!['@'] + actor + " mentioned you in graffiti"@,
        n.kind is DmMessage ==> summary(n, actor) == seq!['@'] + actor + " sent you a DM"@,
        n.kind is NewFollower ==> summary(n, actor) == seq!['@'] + actor + " followed you"@,
        n.kind is Unfollowed ==> summary(n, actor) == seq!['@'] + actor + " unfollowed you"@,
        n.kind is NewPostFollowing ==> summary(n, actor) == seq!['@'] + actor + " posted (from following)"@,
        n.kind is NewPostFriend ==> summary(n, actor) == seq!['@'] + actor + " posted (from friends)"@,
        n.kind is Poke ==> summary(n, actor) == seq!['@'] + actor + " poked you"@,
        n.kind is ThreadReply ==> summary(n, actor) == seq!['@'] + actor + " replied in @"@ + (
        match n.metadata.thread_author {
            Some(t) => t@,
            None => "a thread"@,
        }) + "'s thread"@,
        n.kind is GuildNewThread ==> summary(n, actor) == "new thread in "@ + (
        match n.metadata.guild_name {
            Some(g) => g@,
            None => "a guild"@,
        }) + " by @"@ + actor,
        n.kind is SupporterGranted ==> summary(n, actor) == "supporter status granted"@,
        n.kind is SupporterRemoved ==> summary(n, actor) == "supporter status removed"@,
        n.kind is HackerGranted ==> summary(n, actor) == "hacker status granted"@,
        n.kind is HackerRemoved ==> summary(n, actor) == "hacker status removed"@,
        n.kind is ModeratorGranted ==> summary(n, actor) == "you are now a moderator"@,
        n.kind is ModeratorRemoved ==> summary(n, actor) == "your moderator role was removed"@,
        n.kind is ApiAccessGranted ==> summary(n, actor) == "API access granted"@,
        n.kind is ApiAccessRemoved ==> summary(n, actor) == "API access removed"@,
        n.kind is ImagePermissionGranted ==> summary(n, actor) == "image-upload permission granted"@,
        n.kind is ImagePermissionRemoved ==> summary(n, actor) == "image-upload permission removed"@,
        n.kind is AttachmentPermissionGranted ==> summary(n, actor) == "attachment permission granted"@,
        n.kind is AttachmentPermissionRemoved ==> summary(n, actor) == "attachment permission removed"@,
        n.kind is SystemBan ==> summary(n, actor) == "your account has been banned"@,
        n.kind is SystemBanLifted ==> summary(n, actor) == "the restriction on your account was lifted"@,
        n.kind is PostCooldown ==> summary(n, actor) == "your entry was held back and saved as a note"@,
        n.kind is RateLimitWarning ==> summary(n, actor) == "you're approaching a posting limit"@,
        n.kind is Unknown && n.actor() is None ==> summary(n, actor)
            == "notice about your account"@,
        n.kind is Unknown && n.actor() is Some ==> summary(n, actor) == "notification from @"@
            + actor,
{
    reveal_strlit("@");
    assert("@"@ =~= seq!['@']);
}

/// The handle `system` is nobody, and every other name is somebody.
pub proof fn law_system_is_nobody(n: Notification)
    ensures
        n.actor() is Some <==> n.actor_username is Some && n.actor_username->Some_0@ != "system"@,
        n.actor() is Some ==> n.actor() == n.actor_username,
        n.actor_username matches Some(name) ==> n.actor_text() == name@,
{
}

/// The row of a notification has the mark while it is unread, its summary, its time,
/// and its explanation on a line below where it has one; there is a row for each, in
/// order.
pub proof fn law_rows_tell_of_their_notifications(
    items: Seq<Notification>,
    stamps: Seq<String>,
    compact: bool,
    theme: Theme,
    i: int,
)
    requires
        0 <= i < items.len(),
    ensures
        ({
            let n = items[i];
            let rows = rows_of(items, items.len() as int, stamps, compact, theme);
            let row = rows[i];
            let explained = n.reason is Some && strs::trimmed(n.reason->Some_0@).len() > 0;
            &&& rows.len() == items.len()
            &&& row[0].len() == 3
            &&& row[0][0].content == (if n.read {
                seq![' ', ' ']
            } else {
                seq!['●', ' ']
            })
            &&& row[0][1].content == summary(n, n.actor_text())
            &&& row[0][2].content == seq![' ', '·', ' '] + config::stamp(n.created_at, stamps, i)
            &&& explained ==> row[1][0].content == seq![' ', ' '] + strs::trimmed(
                n.reason->Some_0@,
            )
            &&& row.len() == 1 + (if explained {
                1int
            } else {
                0
            }) + (if compact {
                0int
            } else {
                1
            })
        }),
{
    reveal_strlit("  ");
    reveal_strlit("● ");
    reveal_strlit(" · ");
    assert("  "@ =~= seq![' ', ' ']);
    assert("● "@ =~= seq!['●', ' ']);
    assert(" · "@ =~= seq![' ', '·', ' ']);
}

/// A figure that is exact is shown as it is; one that is not, as more than can be
/// told.
pub proof fn law_the_badge_shows_the_figure(u: UnreadCount)
    ensures
        u.exact ==> strs::number_of(u.badge_text()) == u.count,
        !u.exact ==> u.badge_text() == seq!['9', '9', '+'],
{
    reveal_strlit("99+");
    strs::law_decimal_is_read_back(u.count as nat);
    assert("99+"@ =~= seq!['9', '9', '+']);
}

/// The screen starts loading, unfiltered, with nothing unread known.
pub proof fn law_notifications_start_unfiltered()
    ensures
        NotificationsScreen::started().list.loading,
        NotificationsScreen::started().list.items.len() == 0,
        NotificationsScreen::started().list.selected == 0,
        NotificationsScreen::started().list.error is None,
        NotificationsScreen::started().filter is All,
        NotificationsScreen::started().type_filter is All,
        NotificationsScreen::started().unread.count == 0,
        NotificationsScreen::started().unread.exact,
        NotificationsScreen::started().auto_pages_left == MAX_AUTO_PAGES,
{
}

/// The title names the filters that are on, and only those.
pub proof fn law_the_title_names_the_filters(s: NotifView)
    ensures
        s.filter is All && s.type_filter is All ==> title_text(s) == " cs-tui • notifications"@
            + " "@,
        s.filter is Unread && s.type_filter is All ==> title_text(s) == " cs-tui • notifications"@
            + " · unread"@ + " "@,
        s.filter is Read && s.type_filter is All ==> title_text(s) == " cs-tui • notifications"@
            + " · read"@ + " "@,
        s.filter is All && !(s.type_filter is All) ==> title_text(s) == " cs-tui • notifications"@
            + " · "@ + s.type_filter.label_spec() + " "@,
{
    reveal_strlit("");
    let h = " cs-tui • notifications"@;
    assert(h + ""@ + ""@ + " "@ =~= h + " "@);
    assert(h + " · unread"@ + ""@ + " "@ =~= h + " · unread"@ + " "@);
    assert(h + " · read"@ + ""@ + " "@ =~= h + " · read"@ + " "@);
    let l = " · "@ + s.type_filter.label_spec();
    assert(h + ""@ + l + " "@ =~= h + " · "@ + s.type_filter.label_spec() + " "@);
}

/// The status counts the items that are loaded, and says of unread ones whether they are
/// among them.
pub proof fn law_the_status_counts_the_items(s: NotifView)
    requires
        !s.list.loading,
    ensures
        ({
            let d = strs::decimal(s.list.items.len()) + " items"@;
            let t = status_of(s);
            &&& d.len() <= t.len() && t.take(d.len() as int) == d
            &&& s.unread.count > 0 ==> {
                let u = d + " · "@ + s.unread.badge_text() + (if any_unread(s.list.items) {
                    " unread"@
                } else {
                    " unread not on this page"@
                });
                u.len() <= t.len() && t.take(u.len() as int) == u
            }
        }),
{
    let d = strs::decimal(s.list.items.len()) + " items"@;
    let t = status_of(s);
    assert(t.take(d.len() as int) =~= d);
    let u = d + " · "@ + s.unread.badge_text() + (if any_unread(s.list.items) {
        " unread"@
    } else {
        " unread not on this page"@
    });
    if s.unread.count > 0 {
        assert(t.take(u.len() as int) =~= u);
    }
}

/// An empty page says whether there is another.
pub proof fn law_an_empty_page_tells_of_the_next(s: NotifView)
    ensures
        s.list.next_cursor is Some ==> empty_text(s) == "nothing on this page · n for the next"@,
        s.list.next_cursor is None ==> empty_text(s) == "no notifications"@,
{
}

/// What the reader is warned of stands out in the row, and nothing else does.
pub proof fn law_warnings_stand_out(n: Notification, when: Seq<char>, compact: bool, theme: Theme)
    ensures
        ({
            let style = item_lines(n, when, compact, theme)[0][1].style;
            let warned = n.kind is SystemBan || n.kind is PostCooldown || n.kind is RateLimitWarning
                || n.kind is ApiAccessRemoved;
            &&& warned ==> style == theme.warning_spec()
            &&& !warned ==> style == theme.base_spec()
        }),
{
}

} // verus!
