//! Profile screen with six tabs: info, posts, replies, followers, following and
//! guilds.
//!
//! A user holds at most six guilds, which arrive in one page, so the guilds tab
//! never asks for more.
use vstd::prelude::*;

use crate::config::{self, Config};
use crate::draw::{self, push_block, push_line, push_span, Line, Span};
use crate::hyperlink::{self, render_linked_paragraph, LinkedParagraph};
use crate::key::{KeyCode, KeyEvent};
use crate::list::{self, render_body, ListBody, Page, TabState, TabView};
use crate::list_nav::{self, navigate, ListNav};
use crate::model::{self, role_label, Entry, Follow, Moment, Reply, User, UserGuild};
use crate::strs::{self, decimal_text, join, push_text, same, trim};
use crate::text::{self, edited_marker, first_line_truncated, truncate_to_width};
use crate::theme::Theme;

verus! {

/// A tab of the screen.
#[derive(Debug, Clone, Copy, PartialEq, Eq, Structural)]
pub enum ProfileTab {
    Info,
    Posts,
    Replies,
    Followers,
    Following,
    /// Every guild this user is in, the one on the profile first.
    Guilds,
}

impl ProfileTab {
    pub const ALL: [ProfileTab; 6] = [
        ProfileTab::Info,
        ProfileTab::Posts,
        ProfileTab::Replies,
        ProfileTab::Followers,
        ProfileTab::Following,
        ProfileTab::Guilds,
    ];

    pub open spec fn label_spec(self) -> Seq<char> {
        match self {
            ProfileTab::Info => "info"@,
            ProfileTab::Posts => "posts"@,
            ProfileTab::Replies => "replies"@,
            ProfileTab::Followers => "followers"@,
            ProfileTab::Following => "following"@,
            ProfileTab::Guilds => "guilds"@,
        }
    }

    pub fn label(self) -> (r: &'static str)
        ensures
            r@ == self.label_spec(),
    {
        match self {
            ProfileTab::Info => "info",
            ProfileTab::Posts => "posts",
            ProfileTab::Replies => "replies",
            ProfileTab::Followers => "followers",
            ProfileTab::Following => "following",
            ProfileTab::Guilds => "guilds",
        }
    }

    pub open spec fn shifted(c: char) -> Option<ProfileTab> {
        match c {
            '!' => Some(ProfileTab::Info),
            '@' => Some(ProfileTab::Posts),
            '#' => Some(ProfileTab::Replies),
            '$' => Some(ProfileTab::Followers),
            '%' => Some(ProfileTab::Following),
            '^' => Some(ProfileTab::Guilds),
            _ => None,
        }
    }

    /// The tab on the shifted number row (Shift+1 is `!`, Shift+2 is `@`, …).
    pub fn from_shifted(c: char) -> (r: Option<ProfileTab>)
        ensures
            r == ProfileTab::shifted(c),
    {
        match c {
            '!' => Some(ProfileTab::Info),
            '@' => Some(ProfileTab::Posts),
            '#' => Some(ProfileTab::Replies),
            '$' => Some(ProfileTab::Followers),
            '%' => Some(ProfileTab::Following),
            '^' => Some(ProfileTab::Guilds),
            _ => None,
        }
    }

    /// Where the tab stands in the row.
    pub open spec fn at(self) -> int {
        match self {
            ProfileTab::Info => 0,
            ProfileTab::Posts => 1,
            ProfileTab::Replies => 2,
            ProfileTab::Followers => 3,
            ProfileTab::Following => 4,
            ProfileTab::Guilds => 5,
        }
    }

    fn position(self) -> (r: usize)
        ensures
            r == self.at(),
            r < 6,
    {
        match self {
            ProfileTab::Info => 0,
            ProfileTab::Posts => 1,
            ProfileTab::Replies => 2,
            ProfileTab::Followers => 3,
            ProfileTab::Following => 4,
            ProfileTab::Guilds => 5,
        }
    }

    /// The tab `step` places on, round the row.
    pub open spec fn turned(self, step: int) -> ProfileTab {
        ProfileTab::ALL@[(self.at() + step) % 6]
    }
}

/// What is asked of the shell.
#[derive(Debug, Clone, PartialEq, Eq)]
pub enum ProfileIntent {
    Back,
    Quit,
    /// Switch to the given tab, fetching its data if it is not loaded yet.
    SelectTab(ProfileTab),
    /// Load the next page of the active tab.
    LoadMoreCurrentTab,
    /// Refresh the active tab.
    RefreshCurrentTab,
    /// Follow or unfollow the viewed user.
    ToggleFollow,
    /// Open a conversation with the viewed user.
    MessageUser { username: String, user_id: Option<String> },
    /// Edit one's own profile.
    EditOwnProfile,
    /// Nudge the viewed user; never offered on one's own profile.
    PokeUser { username: String },
    /// Edit the entry under the cursor on one's own posts tab.
    EditEntry { post_id: String, content: String },
    /// Pin one of one's own posts to the profile, or unpin it.
    PinPost { post_id: String, pin: bool },
    /// Open the post under the cursor.
    OpenPost { post_id: String },
    /// Open the reply under the cursor.
    OpenReply { post_id: String, reply_id: String },
    /// Open another user's profile.
    OpenUser { username: String },
    /// Open the guild under the cursor.
    OpenGuild { slug: String },
    /// Nothing is asked.
    Nothing,
}

/// The screen.
#[derive(Debug)]
pub struct ProfileScreen {
    /// The user being viewed. `None` means oneself, until the profile loads.
    pub username: Option<String>,
    /// Whether this is the user's own profile, opened as such.
    pub is_self: bool,
    /// Whether leaving this profile ends the app.
    pub is_root: bool,
    pub tab: ProfileTab,
    pub user: Option<User>,
    pub loading_user: bool,
    pub user_error: Option<String>,
    pub posts: TabState<Entry>,
    pub replies: TabState<Reply>,
    pub followers: TabState<Follow>,
    pub following: TabState<Follow>,
    pub guilds: TabState<UserGuild>,
    pub follow_action_pending: bool,
    /// A nudge is on its way.
    pub poke_pending: bool,
    /// The signed-in account's user id, when it is known.
    pub viewer_user_id: Option<String>,
}

/// What a [`ProfileScreen`] holds.
#[verifier::ext_equal]
pub struct ProfileView {
    pub username: Option<String>,
    pub is_self: bool,
    pub is_root: bool,
    pub tab: ProfileTab,
    pub user: Option<User>,
    pub loading_user: bool,
    pub user_error: Option<String>,
    pub posts: TabView<Entry>,
    pub replies: TabView<Reply>,
    pub followers: TabView<Follow>,
    pub following: TabView<Follow>,
    pub guilds: TabView<UserGuild>,
    pub follow_action_pending: bool,
    pub poke_pending: bool,
    pub viewer_user_id: Option<String>,
}

impl View for ProfileScreen {
    type V = ProfileView;

    open spec fn view(&self) -> ProfileView {
        ProfileView {
            username: self.username,
            is_self: self.is_self,
            is_root: self.is_root,
            tab: self.tab,
            user: self.user,
            loading_user: self.loading_user,
            user_error: self.user_error,
            posts: self.posts@,
            replies: self.replies@,
            followers: self.followers@,
            following: self.following@,
            guilds: self.guilds@,
            follow_action_pending: self.follow_action_pending,
            poke_pending: self.poke_pending,
            viewer_user_id: self.viewer_user_id,
        }
    }
}

/// The highlighted item of a list, if there is one.
pub open spec fn chosen<T>(l: TabView<T>) -> Option<T> {
    if 0 <= l.selected < l.items.len() {
        Some(l.items[l.selected])
    } else {
        None
    }
}

impl ProfileView {
    pub open spec fn opened(username: Option<String>, own: bool) -> ProfileView {
        ProfileView {
            username,
            is_self: own,
            is_root: own,
            tab: ProfileTab::Info,
            user: None,
            loading_user: true,
            user_error: None,
            posts: TabView::fresh(),
            replies: TabView::fresh(),
            followers: TabView::fresh(),
            following: TabView::fresh(),
            guilds: TabView::fresh(),
            follow_action_pending: false,
            poke_pending: false,
            viewer_user_id: None,
        }
    }

    /// The screen after the profile arrived, or failed to.
    pub open spec fn with_user(self, result: Result<User, String>) -> ProfileView {
        match result {
            Ok(u) => ProfileView {
                loading_user: false,
                username: if self.username is None {
                    Some(u.username)
                } else {
                    self.username
                },
                user: Some(u),
                user_error: None,
                ..self
            },
            Err(msg) => ProfileView { loading_user: false, user_error: Some(msg), ..self },
        }
    }

    /// The screen after the guilds arrived, or failed to.
    pub open spec fn with_guilds(self, result: Result<Vec<UserGuild>, String>) -> ProfileView {
        ProfileView { guilds: guild_tab(self.guilds, result), ..self }
    }

    /// The screen with a fresh copy of a post, and whether it holds that post.
    pub open spec fn with_entry(self, entry: Entry) -> (ProfileView, bool) {
        match post_index(self.posts.items, entry.post_id@, 0) {
            Some(i) => (
                ProfileView {
                    posts: TabView { items: self.posts.items.update(i, entry), ..self.posts },
                    ..self
                },
                true,
            ),
            None => (self, false),
        }
    }

    /// Whether the profile is the signed-in user's own, however it was reached.
    pub open spec fn viewing_self(self) -> bool {
        self.is_self || (self.user is Some && self.viewer_user_id is Some
            && self.user->Some_0.id@.len() > 0 && self.user->Some_0.id@
            == self.viewer_user_id->Some_0@)
    }

    pub open spec fn pinned(self) -> Option<Seq<char>> {
        match self.user {
            Some(u) => strs::opt_text(u.pinned_post_id),
            None => None,
        }
    }

    /// What a key that acts on the account or on the selected post asks, if it
    /// is one.
    pub open spec fn account(self, code: KeyCode) -> Option<ProfileIntent> {
        let others = !self.viewing_self();
        let own_posts = self.is_self && self.tab == ProfileTab::Posts;
        match code {
            KeyCode::Char('F') => if others && self.user is Some {
                Some(ProfileIntent::ToggleFollow)
            } else {
                None
            },
            KeyCode::Char('m') => match self.user {
                Some(u) if others => Some(
                    ProfileIntent::MessageUser { username: u.username, user_id: Some(u.id) },
                ),
                _ => None,
            },
            KeyCode::Char('e') => if self.is_self {
                Some(ProfileIntent::EditOwnProfile)
            } else {
                None
            },
            KeyCode::Char('P') => if own_posts {
                match chosen(self.posts) {
                    Some(e) => Some(
                        ProfileIntent::PinPost {
                            post_id: e.post_id,
                            pin: self.pinned() != Some(e.post_id@),
                        },
                    ),
                    None => None,
                }
            } else {
                match self.user {
                    Some(u) if others => Some(ProfileIntent::PokeUser { username: u.username }),
                    _ => None,
                }
            },
            KeyCode::Char('E') => match chosen(self.posts) {
                Some(e) if own_posts => Some(
                    ProfileIntent::EditEntry { post_id: e.post_id, content: e.content },
                ),
                _ => None,
            },
            _ => None,
        }
    }

    /// What Enter opens on the active tab. A row without the name or slug that
    /// its page is found by opens nothing.
    pub open spec fn opens(self) -> ProfileIntent {
        match self.tab {
            ProfileTab::Info => ProfileIntent::Nothing,
            ProfileTab::Posts => match chosen(self.posts) {
                Some(e) => ProfileIntent::OpenPost { post_id: e.post_id },
                None => ProfileIntent::Nothing,
            },
            ProfileTab::Replies => match chosen(self.replies) {
                Some(r) => ProfileIntent::OpenReply { post_id: r.post_id, reply_id: r.reply_id },
                None => ProfileIntent::Nothing,
            },
            ProfileTab::Followers => match chosen(self.followers) {
                Some(f) => if f.follower_username@.len() > 0 {
                    ProfileIntent::OpenUser { username: f.follower_username }
                } else {
                    ProfileIntent::Nothing
                },
                None => ProfileIntent::Nothing,
            },
            ProfileTab::Following => match chosen(self.following) {
                Some(f) => if f.followed_username@.len() > 0 {
                    ProfileIntent::OpenUser { username: f.followed_username }
                } else {
                    ProfileIntent::Nothing
                },
                None => ProfileIntent::Nothing,
            },
            ProfileTab::Guilds => match chosen(self.guilds) {
                Some(g) => if g.slug@.len() > 0 {
                    ProfileIntent::OpenGuild { slug: g.slug }
                } else {
                    ProfileIntent::Nothing
                },
                None => ProfileIntent::Nothing,
            },
        }
    }

    /// How many rows the active list has, whether a page of it is on its way,
    /// whether there is another one, and which row is selected.
    pub open spec fn active(self) -> (int, bool, bool, int) {
        match self.tab {
            ProfileTab::Info => (0, false, false, 0),
            ProfileTab::Posts => (
                self.posts.items.len() as int,
                self.posts.loading,
                self.posts.next_cursor is Some,
                self.posts.selected,
            ),
            ProfileTab::Replies => (
                self.replies.items.len() as int,
                self.replies.loading,
                self.replies.next_cursor is Some,
                self.replies.selected,
            ),
            ProfileTab::Followers => (
                self.followers.items.len() as int,
                self.followers.loading,
                self.followers.next_cursor is Some,
                self.followers.selected,
            ),
            ProfileTab::Following => (
                self.following.items.len() as int,
                self.following.loading,
                self.following.next_cursor is Some,
                self.following.selected,
            ),
            ProfileTab::Guilds => (
                self.guilds.items.len() as int,
                self.guilds.loading,
                false,
                self.guilds.selected,
            ),
        }
    }

    /// The screen with another row of the active list selected.
    pub open spec fn selecting(self, selected: int) -> ProfileView {
        match self.tab {
            ProfileTab::Info => self,
            ProfileTab::Posts => ProfileView {
                posts: TabView { selected, ..self.posts },
                ..self
            },
            ProfileTab::Replies => ProfileView {
                replies: TabView { selected, ..self.replies },
                ..self
            },
            ProfileTab::Followers => ProfileView {
                followers: TabView { selected, ..self.followers },
                ..self
            },
            ProfileTab::Following => ProfileView {
                following: TabView { selected, ..self.following },
                ..self
            },
            ProfileTab::Guilds => ProfileView {
                guilds: TabView { selected, ..self.guilds },
                ..self
            },
        }
    }

    /// The screen and the intent after a key on a list tab.
    pub open spec fn listed(self, code: KeyCode) -> (ProfileView, ProfileIntent) {
        let (len, loading, more, at) = self.active();
        let (selected, nav) = list_nav::navigated(code, at, len, more && !loading, 1);
        let moved = self.selecting(selected);
        (
            moved,
            match nav {
                ListNav::LoadMore => ProfileIntent::LoadMoreCurrentTab,
                ListNav::Moved => ProfileIntent::Nothing,
                ListNav::Ignored => if code == KeyCode::Char('r') && !loading {
                    ProfileIntent::RefreshCurrentTab
                } else if code == KeyCode::Enter {
                    moved.opens()
                } else {
                    ProfileIntent::Nothing
                },
            },
        )
    }

    /// The tab a key switches to, if it is one that does.
    pub open spec fn switch(self, code: KeyCode) -> Option<ProfileTab> {
        match code {
            KeyCode::Char('h') | KeyCode::BackTab => Some(self.tab.turned(5)),
            KeyCode::Char('l') | KeyCode::Tab => Some(self.tab.turned(1)),
            KeyCode::Char(c) => ProfileTab::shifted(c),
            _ => None,
        }
    }

    /// The screen and the intent after a key.
    pub open spec fn keyed(self, key: KeyEvent) -> (ProfileView, ProfileIntent) {
        if key.is_quit_spec() {
            (self, ProfileIntent::Quit)
        } else if key.code == KeyCode::Backspace {
            (
                self,
                if self.is_root {
                    ProfileIntent::Quit
                } else {
                    ProfileIntent::Back
                },
            )
        } else if let Some(tab) = self.switch(key.code) {
            (
                ProfileView { tab, ..self },
                if tab == self.tab {
                    ProfileIntent::Nothing
                } else {
                    ProfileIntent::SelectTab(tab)
                },
            )
        } else if let Some(intent) = self.account(key.code) {
            (self, intent)
        } else if self.tab == ProfileTab::Info {
            (self, ProfileIntent::Nothing)
        } else {
            self.listed(key.code)
        }
    }
}

/// Where the first post with that id stands at or after position `i`.
pub open spec fn post_index(items: Seq<Entry>, id: Seq<char>, i: int) -> Option<int>
    decreases items.len() - i,
{
    if i < 0 || i >= items.len() {
        None
    } else if items[i].post_id@ == id {
        Some(i)
    } else {
        post_index(items, id, i + 1)
    }
}

/// A list of guilds as the one page there is.
pub open spec fn guild_tab(l: TabView<UserGuild>, guilds: Result<Vec<UserGuild>, String>) -> TabView<
    UserGuild,
> {
    match guilds {
        Ok(items) => l.after_initial(Ok((items, None)), items@.len() as int),
        Err(msg) => l.after_initial(Err(msg), 0),
    }
}

impl ProfileScreen {
    pub fn new_own() -> (r: ProfileScreen)
        ensures
            r@ == ProfileView::opened(None, true),
    {
        ProfileScreen::new_inner(None, true)
    }

    pub fn new_for(username: String) -> (r: ProfileScreen)
        ensures
            r@ == ProfileView::opened(Some(username), false),
    {
        ProfileScreen::new_inner(Some(username), false)
    }

    fn new_inner(username: Option<String>, own: bool) -> (r: ProfileScreen)
        ensures
            r@ == ProfileView::opened(username, own),
    {
        ProfileScreen {
            username,
            is_self: own,
            is_root: own,
            tab: ProfileTab::Info,
            user: None,
            loading_user: true,
            user_error: None,
            posts: TabState::default(),
            replies: TabState::default(),
            followers: TabState::default(),
            following: TabState::default(),
            guilds: TabState::default(),
            follow_action_pending: false,
            poke_pending: false,
            viewer_user_id: None,
        }
    }

    /// Whether this profile is the signed-in user's own, however it was reached.
    pub fn is_viewing_self(&self) -> (r: bool)
        ensures
            r == self@.viewing_self(),
    {
        if self.is_self {
            return true;
        }
        match &self.user {
            Some(u) => match &self.viewer_user_id {
                Some(viewer) => !u.id.as_str().is_empty() && same(
                    u.id.as_str(),
                    viewer.as_str(),
                ),
                None => false,
            },
            None => false,
        }
    }

    /// The profile arrived, or failed to.
    pub fn apply_user(&mut self, result: Result<User, String>)
        ensures
            final(self)@ == old(self)@.with_user(result),
    {
        self.loading_user = false;
        match result {
            Ok(u) => {
                if self.username.is_none() {
                    self.username = Some(u.username.clone());
                }
                self.user = Some(u);
                self.user_error = None;
            },
            Err(msg) => {
                self.user_error = Some(msg);
            },
        }
    }

    /// Hand the guilds tab this user's guilds: all of them, in one page.
    pub fn apply_guilds(&mut self, result: Result<Vec<UserGuild>, String>)
        ensures
            final(self)@ == old(self)@.with_guilds(result),
    {
        let page: Page<UserGuild> = match result {
            Ok(items) => Ok((items, None)),
            Err(msg) => Err(msg),
        };
        self.guilds.apply_initial(page);
    }

    /// Replace one entry on the posts tab with a freshly fetched copy. Says
    /// whether a row carries that post id.
    pub fn apply_edited_entry(&mut self, entry: Entry) -> (r: bool)
        ensures
            (final(self)@, r) == old(self)@.with_entry(entry),
    {
        let mut i: usize = 0;
        while i < self.posts.items.len()
            invariant
                i <= self.posts.items@.len(),
                *self == *old(self),
                post_index(self.posts.items@, entry.post_id@, i as int) == post_index(
                    self.posts.items@,
                    entry.post_id@,
                    0,
                ),
            decreases self.posts.items@.len() - i,
        {
            if same(self.posts.items[i].post_id.as_str(), entry.post_id.as_str()) {
                let _ = self.posts.items.remove(i);
                self.posts.items.insert(i, entry);
                assert(self.posts.items@ =~= old(self).posts.items@.update(i as int, entry));
                return true;
            }
            i = i + 1;
        }
        false
    }

    fn selected_post(&self) -> (r: Option<&Entry>)
        ensures
            match r {
                Some(e) => chosen(self@.posts) == Some(*e),
                None => chosen(self@.posts) is None,
            },
    {
        if self.posts.selected < self.posts.items.len() {
            Some(&self.posts.items[self.posts.selected])
        } else {
            None
        }
    }

    fn is_pinned(&self, post_id: &str) -> (r: bool)
        ensures
            r == (self@.pinned() == Some(post_id@)),
    {
        match &self.user {
            Some(u) => match &u.pinned_post_id {
                Some(id) => same(id.as_str(), post_id),
                None => false,
            },
            None => false,
        }
    }

    fn account_key(&self, code: KeyCode) -> (r: Option<ProfileIntent>)
        ensures
            r == self@.account(code),
    {
        let others = !self.is_viewing_self();
        let own_posts = self.is_self && self.tab == ProfileTab::Posts;
        match code {
            KeyCode::Char('F') => if others && self.user.is_some() {
                Some(ProfileIntent::ToggleFollow)
            } else {
                None
            },
            KeyCode::Char('m') => {
                if let Some(u) = &self.user {
                    if others {
                        return Some(
                            ProfileIntent::MessageUser {
                                username: u.username.clone(),
                                user_id: Some(u.id.clone()),
                            },
                        );
                    }
                }
                None
            },
            KeyCode::Char('e') => if self.is_self {
                Some(ProfileIntent::EditOwnProfile)
            } else {
                None
            },
            KeyCode::Char('P') => {
                if own_posts {
                    match self.selected_post() {
                        Some(e) => Some(
                            ProfileIntent::PinPost {
                                post_id: e.post_id.clone(),
                                pin: !self.is_pinned(e.post_id.as_str()),
                            },
                        ),
                        None => None,
                    }
                } else {
                    match &self.user {
                        Some(u) => if others {
                            Some(ProfileIntent::PokeUser { username: u.username.clone() })
                        } else {
                            None
                        },
                        None => None,
                    }
                }
            },
            KeyCode::Char('E') => {
                if !own_posts {
                    return None;
                }
                match self.selected_post() {
                    Some(e) => Some(
                        ProfileIntent::EditEntry {
                            post_id: e.post_id.clone(),
                            content: e.content.clone(),
                        },
                    ),
                    None => None,
                }
            },
            _ => None,
        }
    }

    fn enter_on_list(&self) -> (r: ProfileIntent)
        ensures
            r == self@.opens(),
    {
        match self.tab {
            ProfileTab::Info => ProfileIntent::Nothing,
            ProfileTab::Posts => match self.selected_post() {
                Some(e) => ProfileIntent::OpenPost { post_id: e.post_id.clone() },
                None => ProfileIntent::Nothing,
            },
            ProfileTab::Replies => {
                if self.replies.selected >= self.replies.items.len() {
                    return ProfileIntent::Nothing;
                }
                let r = &self.replies.items[self.replies.selected];
                ProfileIntent::OpenReply {
                    post_id: r.post_id.clone(),
                    reply_id: r.reply_id.clone(),
                }
            },
            ProfileTab::Followers => {
                if self.followers.selected >= self.followers.items.len() {
                    return ProfileIntent::Nothing;
                }
                let f = &self.followers.items[self.followers.selected];
                if f.follower_username.as_str().is_empty() {
                    ProfileIntent::Nothing
                } else {
                    ProfileIntent::OpenUser { username: f.follower_username.clone() }
                }
            },
            ProfileTab::Following => {
                if self.following.selected >= self.following.items.len() {
                    return ProfileIntent::Nothing;
                }
                let f = &self.following.items[self.following.selected];
                if f.followed_username.as_str().is_empty() {
                    ProfileIntent::Nothing
                } else {
                    ProfileIntent::OpenUser { username: f.followed_username.clone() }
                }
            },
            ProfileTab::Guilds => {
                if self.guilds.selected >= self.guilds.items.len() {
                    return ProfileIntent::Nothing;
                }
                let g = &self.guilds.items[self.guilds.selected];
                if g.slug.as_str().is_empty() {
                    ProfileIntent::Nothing
                } else {
                    ProfileIntent::OpenGuild { slug: g.slug.clone() }
                }
            },
        }
    }

    fn handle_list_key(&mut self, code: KeyCode) -> (r: ProfileIntent)
        requires
            old(self).tab != ProfileTab::Info,
        ensures
            (final(self)@, r) == old(self)@.listed(code),
    {
        // Another page is only asked for when none is on its way.
        let loading;
        let nav = match self.tab {
            ProfileTab::Info => {
                loading = false;
                ListNav::Ignored
            },
            ProfileTab::Posts => {
                loading = self.posts.loading;
                let len: usize = self.posts.items.len();
                let more = self.posts.next_cursor.is_some() && !loading;
                navigate(code, &mut self.posts.selected, len, more)
            },
            ProfileTab::Replies => {
                loading = self.replies.loading;
                let len: usize = self.replies.items.len();
                let more = self.replies.next_cursor.is_some() && !loading;
                navigate(code, &mut self.replies.selected, len, more)
            },
            ProfileTab::Followers => {
                loading = self.followers.loading;
                let len: usize = self.followers.items.len();
                let more = self.followers.next_cursor.is_some() && !loading;
                navigate(code, &mut self.followers.selected, len, more)
            },
            ProfileTab::Following => {
                loading = self.following.loading;
                let len: usize = self.following.items.len();
                let more = self.following.next_cursor.is_some() && !loading;
                navigate(code, &mut self.following.selected, len, more)
            },
            ProfileTab::Guilds => {
                loading = self.guilds.loading;
                let len: usize = self.guilds.items.len();
                navigate(code, &mut self.guilds.selected, len, false)
            },
        };
        match nav {
            ListNav::LoadMore => ProfileIntent::LoadMoreCurrentTab,
            ListNav::Moved => ProfileIntent::Nothing,
            ListNav::Ignored => {
                if code == KeyCode::Char('r') && !loading {
                    ProfileIntent::RefreshCurrentTab
                } else if code == KeyCode::Enter {
                    self.enter_on_list()
                } else {
                    ProfileIntent::Nothing
                }
            },
        }
    }

    /// Take a key and say what is asked of the shell.
    pub fn handle_key(&mut self, key: KeyEvent) -> (r: ProfileIntent)
        ensures
            (final(self)@, r) == old(self)@.keyed(key),
    {
        if key.is_quit() {
            return ProfileIntent::Quit;
        }
        if key.code == KeyCode::Backspace {
            return if self.is_root {
                ProfileIntent::Quit
            } else {
                ProfileIntent::Back
            };
        }
        let at: usize = self.tab.position();
        let switch = match key.code {
            KeyCode::Char('h') | KeyCode::BackTab => Some(ProfileTab::ALL[(at + 5) % 6]),
            KeyCode::Char('l') | KeyCode::Tab => Some(ProfileTab::ALL[(at + 1) % 6]),
            KeyCode::Char(c) => ProfileTab::from_shifted(c),
            _ => None,
        };
        if let Some(tab) = switch {
            if tab == self.tab {
                return ProfileIntent::Nothing;
            }
            self.tab = tab;
            return ProfileIntent::SelectTab(tab);
        }
        if let Some(intent) = self.account_key(key.code) {
            return intent;
        }
        if self.tab == ProfileTab::Info {
            return ProfileIntent::Nothing;
        }
        self.handle_list_key(key.code)
    }
}

// ---------------------------------------------------------------------------
// What is shown.
// ---------------------------------------------------------------------------

/// The rows of a post or reply: its header and the first line of its text.
pub open spec fn item_lines(header: Seq<draw::SpanView>, content: Seq<char>, theme: Theme) -> Seq<
    Seq<draw::SpanView>,
> {
    seq![
        header,
        draw::one(
            text::truncated(strs::trimmed(text::first_line(content)), 160),
            theme.base_spec(),
        ),
        draw::blank(),
    ]
}

/// `head`, and the marker of an edited item where it is one.
pub open spec fn marked_edited(
    head: Seq<draw::SpanView>,
    edited_at: Option<Moment>,
    theme: Theme,
) -> Seq<draw::SpanView> {
    if text::edited_text(edited_at).len() > 0 {
        head.push(draw::span(text::edited_text(edited_at), theme.muted_spec()))
    } else {
        head
    }
}

/// The rows of a post on the posts tab.
pub open spec fn post_lines(e: Entry, when: Seq<char>, pinned: Option<Seq<char>>, theme: Theme) -> Seq<
    Seq<draw::SpanView>,
> {
    let head = marked_edited(
        seq![
            draw::span("@"@ + e.author_username@, theme.accent_spec()),
            draw::span(" · "@ + when, theme.muted_spec()),
        ],
        e.edited_at,
        theme,
    );
    item_lines(
        if pinned == Some(e.post_id@) {
            head.push(draw::span(" · 📌 pinned"@, theme.warning_spec()))
        } else {
            head
        },
        e.content@,
        theme,
    )
}

/// The rows of a reply on the replies tab.
pub open spec fn reply_lines(r: Reply, when: Seq<char>, theme: Theme) -> Seq<Seq<draw::SpanView>> {
    item_lines(
        marked_edited(
            seq![
                draw::span("@"@ + r.author_username@, theme.accent_spec()),
                draw::span(" · "@ + when + " · on "@ + r.post_id@, theme.muted_spec()),
            ],
            r.edited_at,
            theme,
        ),
        r.content@,
        theme,
    )
}

/// A follower's row: the name, or else the id, or else that nothing is known.
pub open spec fn follow_spans(username: Seq<char>, user_id: Seq<char>, theme: Theme) -> Seq<
    draw::SpanView,
> {
    if username.len() > 0 {
        draw::one("@"@ + username, theme.accent_spec())
    } else if text::truncated(user_id, 18).len() > 0 {
        draw::one(text::truncated(user_id, 18), theme.muted_spec())
    } else {
        draw::one("(unknown user)"@, theme.muted_spec())
    }
}

/// What a guild's row says besides its name.
pub open spec fn guild_details(g: UserGuild, joined: Seq<char>) -> Seq<Seq<char>> {
    let slug = if strs::trimmed(g.name@).len() > 0 && g.slug@.len() > 0 {
        seq!["#"@ + g.slug@]
    } else {
        Seq::empty()
    };
    let role = match model::role_word(g.role) {
        Some(w) => slug.push(w),
        None => slug,
    };
    if g.joined_at is Some {
        role.push("joined "@ + joined)
    } else {
        role
    }
}

/// A guild's row: its name, the slug, role and date where they are known, and
/// that it is the one on the profile where it is.
pub open spec fn guild_spans(g: UserGuild, joined: Seq<char>, theme: Theme) -> Seq<draw::SpanView> {
    let name = strs::trimmed(g.name@);
    let head = if name.len() > 0 {
        name
    } else if g.slug@.len() > 0 {
        "#"@ + g.slug@
    } else {
        "(unknown guild)"@
    };
    let details = guild_details(g, joined);
    let named = draw::one(head, theme.accent_spec());
    let detailed = if details.len() > 0 {
        named.push(draw::span("  "@ + strs::joined(details, " · "@), theme.muted_spec()))
    } else {
        named
    };
    if g.badge() {
        detailed.push(draw::span(" · profile badge"@, theme.warning_spec()))
    } else {
        detailed
    }
}

fn header_of(author: &str, rest: String, edited_at: Option<Moment>, theme: &Theme) -> (r: Vec<Span>)
    ensures
        draw::span_views(r@) == marked_edited(
            seq![
                draw::span("@"@ + author@, theme.accent_spec()),
                draw::span(rest@, theme.muted_spec()),
            ],
            edited_at,
            *theme,
        ),
{
    let mut name = "@".to_owned();
    name.append(author);
    let mut spans: Vec<Span> = Vec::new();
    push_span(&mut spans, Span::new(name, theme.accent_style()));
    push_span(&mut spans, Span::new(rest, theme.muted_style()));
    assert(draw::span_views(spans@) =~= seq![
        draw::span("@"@ + author@, theme.accent_spec()),
        draw::span(rest@, theme.muted_spec()),
    ]);
    let edited = edited_marker(edited_at);
    if !edited.is_empty() {
        push_span(&mut spans, Span::of(edited, theme.muted_style()));
    }
    spans
}

fn item_block(header: Vec<Span>, content: &str, theme: &Theme) -> (r: Vec<Line>)
    ensures
        draw::line_views(r@) == item_lines(draw::span_views(header@), content@, *theme),
{
    let mut lines: Vec<Line> = Vec::new();
    push_line(&mut lines, Line::new(header));
    push_line(&mut lines, Line::single(first_line_truncated(content, 160), theme.base()));
    push_line(&mut lines, Line::empty());
    assert(draw::line_views(lines@) =~= item_lines(
        draw::span_views(header@),
        content@,
        *theme,
    ));
    lines
}

/// One follower's row.
pub fn follow_row(username: &str, user_id: &str, theme: &Theme) -> (r: Line)
    ensures
        r@ == follow_spans(username@, user_id@, *theme),
{
    if username.is_empty() {
        let id = truncate_to_width(user_id, 18);
        if id.as_str().is_empty() {
            Line::of("(unknown user)", theme.muted_style())
        } else {
            Line::single(id, theme.muted_style())
        }
    } else {
        let mut name = "@".to_owned();
        name.append(username);
        Line::single(name, theme.accent_style())
    }
}

/// One guild's row; `joined` is the date of the membership as text.
pub fn guild_row(g: &UserGuild, joined: &str, theme: &Theme) -> (r: Line)
    ensures
        r@ == guild_spans(*g, joined@, *theme),
{
    let name = trim(g.name.as_str());
    let named = !name.as_str().is_empty();
    let has_slug = !g.slug.as_str().is_empty();
    let mut slug = "#".to_owned();
    slug.append(g.slug.as_str());
    let mut details: Vec<String> = Vec::new();
    assert(strs::texts(details@) =~= Seq::empty());
    if named && has_slug {
        push_text(&mut details, slug.clone());
        assert(strs::texts(details@) =~= seq!["#"@ + g.slug@]);
    }
    if let Some(role) = role_label(g.role) {
        push_text(&mut details, role.to_owned());
    }
    if g.joined_at.is_some() {
        let mut s = "joined ".to_owned();
        s.append(joined);
        push_text(&mut details, s);
    }
    assert(strs::texts(details@) == guild_details(*g, joined@));
    let head = if named {
        name
    } else if has_slug {
        slug
    } else {
        "(unknown guild)".to_owned()
    };
    let mut spans: Vec<Span> = Vec::new();
    push_span(&mut spans, Span::new(head, theme.accent_style()));
    assert(draw::span_views(spans@) =~= draw::one(head@, theme.accent_spec()));
    if details.len() > 0 {
        let mut rest = "  ".to_owned();
        rest.append(join(&details, " · ").as_str());
        push_span(&mut spans, Span::new(rest, theme.muted_style()));
    }
    assert(details@.len() == strs::texts(details@).len());
    if g.is_badge() {
        push_span(&mut spans, Span::of(" · profile badge", theme.warning_style()));
    }
    Line::new(spans)
}

/// The rows of the first `n` posts.
pub open spec fn post_rows(
    items: Seq<Entry>,
    n: int,
    pinned: Option<Seq<char>>,
    stamps: Seq<String>,
    theme: Theme,
) -> Seq<Seq<Seq<draw::SpanView>>> {
    Seq::new(
        n as nat,
        |i: int|
            post_lines(items[i], config::stamp(items[i].created_at, stamps, i), pinned, theme),
    )
}

/// The rows of the first `n` replies.
pub open spec fn reply_rows(items: Seq<Reply>, n: int, stamps: Seq<String>, theme: Theme) -> Seq<
    Seq<Seq<draw::SpanView>>,
> {
    Seq::new(
        n as nat,
        |i: int| reply_lines(items[i], config::stamp(items[i].created_at, stamps, i), theme),
    )
}

/// The rows of the first `n` follows, by the one who follows or the one who is
/// followed.
pub open spec fn follow_rows(items: Seq<Follow>, n: int, followers: bool, theme: Theme) -> Seq<
    Seq<Seq<draw::SpanView>>,
> {
    Seq::new(
        n as nat,
        |i: int|
            if followers {
                seq![follow_spans(items[i].follower_username@, items[i].follower_id@, theme)]
            } else {
                seq![follow_spans(items[i].followed_username@, items[i].followed_id@, theme)]
            },
    )
}

/// The rows of the first `n` guilds.
pub open spec fn guild_rows(items: Seq<UserGuild>, n: int, stamps: Seq<String>, theme: Theme) -> Seq<
    Seq<Seq<draw::SpanView>>,
> {
    Seq::new(
        n as nat,
        |i: int| seq![guild_spans(items[i], config::stamp(items[i].joined_at, stamps, i), theme)],
    )
}

impl ProfileScreen {
    fn render_posts(&self, stamps: &Vec<String>, theme: &Theme, cfg: &Config) -> (b: ListBody)
        ensures
            b@ == list::body_of(
                self@.posts,
                post_rows(
                    self@.posts.items,
                    self@.posts.items.len() as int,
                    self@.pinned(),
                    stamps@,
                    *theme,
                ),
                "no posts"@,
                *theme,
                cfg.selection,
            ),
    {
        let mut rows: Vec<Vec<Line>> = Vec::new();
        let mut i: usize = 0;
        assert(draw::block_views(rows@) =~= post_rows(
            self@.posts.items,
            0,
            self@.pinned(),
            stamps@,
            *theme,
        ));
        while i < self.posts.items.len()
            invariant
                i <= self.posts.items@.len(),
                draw::block_views(rows@) == post_rows(
                    self@.posts.items,
                    i as int,
                    self@.pinned(),
                    stamps@,
                    *theme,
                ),
            decreases self.posts.items@.len() - i,
        {
            let e = &self.posts.items[i];
            let when = config::stamp_of(e.created_at, stamps, i);
            let mut rest = " · ".to_owned();
            rest.append(when.as_str());
            let mut header = header_of(e.author_username.as_str(), rest, e.edited_at, theme);
            if self.is_pinned(e.post_id.as_str()) {
                push_span(&mut header, Span::of(" · 📌 pinned", theme.warning_style()));
            }
            push_block(&mut rows, item_block(header, e.content.as_str(), theme));
            i = i + 1;
            assert(draw::block_views(rows@) =~= post_rows(
                self@.posts.items,
                i as int,
                self@.pinned(),
                stamps@,
                *theme,
            ));
        }
        render_body(&self.posts, rows, "no posts", theme, cfg.selection)
    }

    fn render_replies(&self, stamps: &Vec<String>, theme: &Theme, cfg: &Config) -> (b: ListBody)
        ensures
            b@ == list::body_of(
                self@.replies,
                reply_rows(
                    self@.replies.items,
                    self@.replies.items.len() as int,
                    stamps@,
                    *theme,
                ),
                "no replies"@,
                *theme,
                cfg.selection,
            ),
    {
        let mut rows: Vec<Vec<Line>> = Vec::new();
        let mut i: usize = 0;
        assert(draw::block_views(rows@) =~= reply_rows(self@.replies.items, 0, stamps@, *theme));
        while i < self.replies.items.len()
            invariant
                i <= self.replies.items@.len(),
                draw::block_views(rows@) == reply_rows(
                    self@.replies.items,
                    i as int,
                    stamps@,
                    *theme,
                ),
            decreases self.replies.items@.len() - i,
        {
            let r = &self.replies.items[i];
            let when = config::stamp_of(r.created_at, stamps, i);
            let mut rest = " · ".to_owned();
            rest.append(when.as_str());
            rest.append(" · on ");
            rest.append(r.post_id.as_str());
            let header = header_of(r.author_username.as_str(), rest, r.edited_at, theme);
            push_block(&mut rows, item_block(header, r.content.as_str(), theme));
            i = i + 1;
            assert(draw::block_views(rows@) =~= reply_rows(
                self@.replies.items,
                i as int,
                stamps@,
                *theme,
            ));
        }
        render_body(&self.replies, rows, "no replies", theme, cfg.selection)
    }

    fn render_guilds(&self, stamps: &Vec<String>, theme: &Theme, cfg: &Config) -> (b: ListBody)
        ensures
            b@ == list::body_of(
                self@.guilds,
                guild_rows(self@.guilds.items, self@.guilds.items.len() as int, stamps@, *theme),
                "no guilds"@,
                *theme,
                cfg.selection,
            ),
    {
        let mut rows: Vec<Vec<Line>> = Vec::new();
        let mut i: usize = 0;
        assert(draw::block_views(rows@) =~= guild_rows(self@.guilds.items, 0, stamps@, *theme));
        while i < self.guilds.items.len()
            invariant
                i <= self.guilds.items@.len(),
                draw::block_views(rows@) == guild_rows(
                    self@.guilds.items,
                    i as int,
                    stamps@,
                    *theme,
                ),
            decreases self.guilds.items@.len() - i,
        {
            let g = &self.guilds.items[i];
            let joined = config::stamp_of(g.joined_at, stamps, i);
            let mut row: Vec<Line> = Vec::new();
            push_line(&mut row, guild_row(g, joined.as_str(), theme));
            assert(draw::line_views(row@) =~= seq![
                guild_spans(*g, config::stamp(g.joined_at, stamps@, i as int), *theme),
            ]);
            push_block(&mut rows, row);
            i = i + 1;
            assert(draw::block_views(rows@) =~= guild_rows(
                self@.guilds.items,
                i as int,
                stamps@,
                *theme,
            ));
        }
        render_body(&self.guilds, rows, "no guilds", theme, cfg.selection)
    }
}

fn render_follows(
    state: &TabState<Follow>,
    followers: bool,
    theme: &Theme,
    cfg: &Config,
) -> (b: ListBody)
    ensures
        b@ == list::body_of(
            state@,
            follow_rows(state@.items, state@.items.len() as int, followers, *theme),
            if followers {
                "no followers"@
            } else {
                "no following"@
            },
            *theme,
            cfg.selection,
        ),
{
    let mut rows: Vec<Vec<Line>> = Vec::new();
    let mut i: usize = 0;
    assert(draw::block_views(rows@) =~= follow_rows(state@.items, 0, followers, *theme));
    while i < state.items.len()
        invariant
            i <= state.items@.len(),
            draw::block_views(rows@) == follow_rows(state@.items, i as int, followers, *theme),
        decreases state.items@.len() - i,
    {
        let f = &state.items[i];
        let line = if followers {
            follow_row(f.follower_username.as_str(), f.follower_id.as_str(), theme)
        } else {
            follow_row(f.followed_username.as_str(), f.followed_id.as_str(), theme)
        };
        let mut row: Vec<Line> = Vec::new();
        push_line(&mut row, line);
        assert(draw::line_views(row@) =~= seq![line@]);
        push_block(&mut rows, row);
        i = i + 1;
        assert(draw::block_views(rows@) =~= follow_rows(
            state@.items,
            i as int,
            followers,
            *theme,
        ));
    }
    render_body(
        state,
        rows,
        if followers {
            "no followers"
        } else {
            "no following"
        },
        theme,
        cfg.selection,
    )
}

/// The lines of a profile's description, each in the base style.
pub open spec fn bio_lines(lines: Seq<Seq<char>>, n: int, theme: Theme) -> Seq<
    Seq<draw::SpanView>,
> {
    Seq::new(n as nat, |i: int| draw::one(lines[i], theme.base_spec()))
}

pub open spec fn count_of(n: Option<u64>) -> nat {
    match n {
        Some(n) => n as nat,
        None => 0,
    }
}

/// Who the profile is of, and what they say of themselves.
pub open spec fn info_head(u: User, theme: Theme) -> Seq<Seq<draw::SpanView>> {
    let named = match u.display_name {
        Some(dn) => seq![draw::one(dn@, theme.accent_spec())],
        None => Seq::empty(),
    };
    let handle = named.push(draw::one("@"@ + u.username@, theme.muted_spec()));
    match u.bio {
        Some(bio) => {
            let lines = text::lines_from(bio@, 0);
            handle.push(draw::blank()) + bio_lines(lines, lines.len() as int, theme)
        },
        None => handle,
    }
}

/// The counts of a profile, and its guild, place, website and pinned post where
/// it has them. The guild's name counts as missing when it is blank.
pub open spec fn info_facts(u: User) -> Seq<Seq<char>> {
    let counts = seq![
        strs::decimal(count_of(u.posts_count)) + " posts · "@ + strs::decimal(
            count_of(u.followers_count),
        ) + " followers · "@ + strs::decimal(count_of(u.following_count)) + " following"@,
    ];
    let guild = match u.guild_name {
        Some(name) if strs::trimmed(name@).len() > 0 => counts.push("guild: "@ + name@),
        _ => counts,
    };
    let place = match u.location_name {
        Some(loc) => guild.push("📍 "@ + loc@),
        None => guild,
    };
    let site = match u.website_url {
        Some(url) => place.push(
            "🔗 "@ + (match u.website_name {
                Some(name) => name@,
                None => url@,
            }) + " ("@ + url@ + ")"@,
        ),
        None => place,
    };
    match u.pinned_post_id {
        Some(id) => site.push("📌 pinned: "@ + id@),
        None => site,
    }
}

/// What can be done from the info tab.
pub open spec fn info_hints(u: User, own: bool, theme: Theme) -> Seq<Seq<draw::SpanView>> {
    if own {
        seq![draw::blank(), draw::one("e to edit your profile"@, theme.accent_spec())]
    } else {
        seq![
            draw::blank(),
            draw::one(
                match u.is_following {
                    Some(true) => "F to unfollow"@,
                    Some(false) => "F to follow"@,
                    None => "F to toggle follow"@,
                },
                theme.accent_spec(),
            ),
            draw::one("P to poke (1/hour, 8/day across everyone)"@, theme.accent_spec()),
        ]
    }
}

/// Each text on a line of its own, in the muted style.
pub open spec fn muted_lines(facts: Seq<Seq<char>>, theme: Theme) -> Seq<Seq<draw::SpanView>> {
    Seq::new(facts.len(), |i: int| draw::one(facts[i], theme.muted_spec()))
}

impl ProfileView {
    /// The lines of the info tab.
    pub open spec fn info_lines(self, theme: Theme) -> Seq<Seq<draw::SpanView>> {
        if self.loading_user {
            seq![draw::one("loading profile…"@, theme.accent_spec())]
        } else if let Some(msg) = self.user_error {
            seq![draw::one(msg@, theme.error_spec())]
        } else {
            match self.user {
                Some(u) => info_head(u, theme).push(draw::blank()) + muted_lines(
                    info_facts(u),
                    theme,
                ) + info_hints(u, self.viewing_self(), theme),
                None => Seq::empty(),
            }
        }
    }

    /// Whether the info tab shows a profile, whose links are then live.
    pub open spec fn shows_profile(self) -> bool {
        !self.loading_user && self.user_error is None && self.user is Some
    }

    pub open spec fn title_text(self) -> Seq<char> {
        let who = match self.user {
            Some(u) => "@"@ + u.username@,
            None => match self.username {
                Some(name) => "@"@ + name@,
                None => "@…"@,
            },
        };
        " cs-tui • profile · "@ + who + (if self.is_self {
            " (you) "@
        } else {
            " "@
        })
    }

    /// The first `n` tabs of the row, the active one picked out.
    pub open spec fn tab_spans(self, n: int, theme: Theme) -> Seq<draw::SpanView>
        decreases n,
    {
        if n <= 0 {
            Seq::empty()
        } else {
            let before = self.tab_spans(n - 1, theme);
            let tab = ProfileTab::ALL@[n - 1];
            let style = if tab == self.tab {
                theme.accent_spec()
            } else {
                theme.muted_spec()
            };
            (if n > 1 {
                before.push(draw::span(" │ "@, theme.muted_spec()))
            } else {
                before
            }).push(draw::span(tab.label_spec(), style))
        }
    }

    pub open spec fn tab_row(self, theme: Theme) -> Seq<draw::SpanView> {
        self.tab_spans(6, theme).push(draw::span("    h/l switch tab"@, theme.muted_spec()))
    }

    /// What is on its way, and the keys that always work.
    pub open spec fn status_head(self) -> Seq<Seq<char>> {
        let follow = if self.follow_action_pending {
            seq!["follow pending…"@]
        } else {
            Seq::empty()
        };
        let poke = if self.poke_pending {
            follow.push("poke pending…"@)
        } else {
            follow
        };
        poke.push("tab/shift+tab tabs"@).push(
            if self.is_root {
                "backspace quit · esc menu"@
            } else {
                "backspace back · esc back"@
            },
        )
    }

    /// The parts of the status line: only keys that work on this profile and
    /// tab.
    pub open spec fn status_parts(self) -> Seq<Seq<char>> {
        let account = if self.is_self {
            self.status_head().push("e edit"@)
        } else if self.user is Some && !self.viewing_self() {
            self.status_head().push("F follow/unfollow"@).push("m message"@).push("P poke"@)
        } else {
            self.status_head()
        };
        if self.tab == ProfileTab::Posts && self.is_self {
            account.push("enter open · E edit · P pin · scroll for more · r refresh"@)
        } else if self.tab == ProfileTab::Guilds {
            account.push("enter open · r refresh"@)
        } else if self.tab != ProfileTab::Info {
            account.push("enter open · scroll for more · r refresh"@)
        } else {
            account
        }
    }

    /// The list of the active tab.
    pub open spec fn list_shown(self, stamps: Seq<String>, theme: Theme, cfg: Config) ->
        list::ListBodyView {
        match self.tab {
            ProfileTab::Posts => list::body_of(
                self.posts,
                post_rows(
                    self.posts.items,
                    self.posts.items.len() as int,
                    self.pinned(),
                    stamps,
                    theme,
                ),
                "no posts"@,
                theme,
                cfg.selection,
            ),
            ProfileTab::Replies => list::body_of(
                self.replies,
                reply_rows(
                    self.replies.items,
                    self.replies.items.len() as int,
                    stamps,
                    theme,
                ),
                "no replies"@,
                theme,
                cfg.selection,
            ),
            ProfileTab::Followers => list::body_of(
                self.followers,
                follow_rows(
                    self.followers.items,
                    self.followers.items.len() as int,
                    true,
                    theme,
                ),
                "no followers"@,
                theme,
                cfg.selection,
            ),
            ProfileTab::Following => list::body_of(
                self.following,
                follow_rows(
                    self.following.items,
                    self.following.items.len() as int,
                    false,
                    theme,
                ),
                "no following"@,
                theme,
                cfg.selection,
            ),
            _ => list::body_of(
                self.guilds,
                guild_rows(self.guilds.items, self.guilds.items.len() as int, stamps, theme),
                "no guilds"@,
                theme,
                cfg.selection,
            ),
        }
    }
}

/// What the pane under the tabs shows.
#[derive(Debug)]
pub enum ProfilePane {
    Info(LinkedParagraph),
    Items(ListBody),
}

/// What one render shows.
#[derive(Debug)]
pub struct ProfileFrame {
    pub title: Line,
    pub tabs: Line,
    pub pane: ProfilePane,
    pub status: Line,
}

fn push_muted(lines: &mut Vec<Line>, Ghost(facts): Ghost<Seq<Seq<char>>>, s: String, theme: &Theme)
    requires
        draw::line_views(old(lines)@) == muted_lines(facts, *theme),
    ensures
        draw::line_views(final(lines)@) == muted_lines(facts.push(s@), *theme),
{
    push_line(lines, Line::single(s, theme.muted_style()));
    assert(draw::line_views(lines@) =~= muted_lines(facts.push(s@), *theme));
}

fn info_head_lines(u: &User, theme: &Theme) -> (lines: Vec<Line>)
    ensures
        draw::line_views(lines@) == info_head(*u, *theme),
{
    let mut lines: Vec<Line> = Vec::new();
    if let Some(dn) = &u.display_name {
        push_line(&mut lines, Line::of(dn.as_str(), theme.accent_style()));
    }
    let mut handle = "@".to_owned();
    handle.append(u.username.as_str());
    push_line(&mut lines, Line::single(handle, theme.muted_style()));
    if let Some(bio) = &u.bio {
        push_line(&mut lines, Line::empty());
        let ghost before = draw::line_views(lines@);
        let parts = text::lines(bio.as_str());
        let ghost all = text::lines_from(bio@, 0);
        let mut i: usize = 0;
        assert(draw::line_views(lines@) =~= before + bio_lines(all, 0, *theme));
        while i < parts.len()
            invariant
                i <= parts@.len(),
                strs::texts(parts@) == all,
                draw::line_views(lines@) == before + bio_lines(all, i as int, *theme),
            decreases parts@.len() - i,
        {
            push_line(&mut lines, Line::of(parts[i].as_str(), theme.base()));
            assert(all[i as int] == parts@[i as int]@);
            i = i + 1;
            assert(draw::line_views(lines@) =~= before + bio_lines(all, i as int, *theme));
        }
        assert(all.len() == parts@.len());
        assert(before =~= (match u.display_name {
            Some(dn) => seq![draw::one(dn@, theme.accent_spec())],
            None => Seq::empty(),
        }).push(draw::one("@"@ + u.username@, theme.muted_spec())).push(draw::blank()));
    }
    assert(draw::line_views(lines@) =~= info_head(*u, *theme));
    lines
}

fn number(n: Option<u64>) -> (r: String)
    ensures
        r@ == strs::decimal(count_of(n)),
{
    match n {
        Some(n) => decimal_text(n),
        None => decimal_text(0),
    }
}

fn info_fact_lines(u: &User, theme: &Theme) -> (lines: Vec<Line>)
    ensures
        draw::line_views(lines@) == muted_lines(info_facts(*u), *theme),
{
    let mut lines: Vec<Line> = Vec::new();
    let ghost mut facts: Seq<Seq<char>> = Seq::empty();
    assert(draw::line_views(lines@) =~= muted_lines(facts, *theme));
    let mut counts = number(u.posts_count);
    counts.append(" posts · ");
    counts.append(number(u.followers_count).as_str());
    counts.append(" followers · ");
    counts.append(number(u.following_count).as_str());
    counts.append(" following");
    push_muted(&mut lines, Ghost(facts), counts, theme);
    proof {
        facts = facts.push(counts@);
        assert(facts =~= seq![counts@]);
    }
    if let Some(name) = &u.guild_name {
        if !trim(name.as_str()).as_str().is_empty() {
            let mut s = "guild: ".to_owned();
            s.append(name.as_str());
            push_muted(&mut lines, Ghost(facts), s, theme);
            proof {
                facts = facts.push("guild: "@ + name@);
            }
        }
    }
    if let Some(loc) = &u.location_name {
        let mut s = "📍 ".to_owned();
        s.append(loc.as_str());
        push_muted(&mut lines, Ghost(facts), s, theme);
        proof {
            facts = facts.push("📍 "@ + loc@);
        }
    }
    if let Some(url) = &u.website_url {
        let mut s = "🔗 ".to_owned();
        s.append(match &u.website_name {
            Some(name) => name.as_str(),
            None => url.as_str(),
        });
        s.append(" (");
        s.append(url.as_str());
        s.append(")");
        push_muted(&mut lines, Ghost(facts), s, theme);
        proof {
            facts = facts.push(s@);
        }
    }
    if let Some(id) = &u.pinned_post_id {
        let mut s = "📌 pinned: ".to_owned();
        s.append(id.as_str());
        push_muted(&mut lines, Ghost(facts), s, theme);
        proof {
            facts = facts.push("📌 pinned: "@ + id@);
        }
    }
    assert(facts =~= info_facts(*u));
    lines
}

impl ProfileScreen {
    /// The lines of the info tab, with the links of a profile's URLs.
    pub fn render_info(&self, width: u16, theme: &Theme, cfg: &Config) -> (p: LinkedParagraph)
        ensures
            draw::line_views(p.lines@) == self@.info_lines(*theme),
            p.scroll == 0,
            hyperlink::target_views(p.targets@) == if cfg.hyperlinks && self@.shows_profile() {
                hyperlink::targets_of(
                    self@.info_lines(*theme),
                    self@.info_lines(*theme).len() as int,
                    hyperlink::wrap_columns(width),
                )
            } else {
                Seq::<hyperlink::TargetView>::empty()
            },
    {
        let mut lines: Vec<Line> = Vec::new();
        if self.loading_user {
            push_line(&mut lines, Line::of("loading profile…", theme.accent_style()));
            assert(draw::line_views(lines@) =~= self@.info_lines(*theme));
            return render_linked_paragraph(lines, width, 0, false);
        }
        if let Some(msg) = &self.user_error {
            push_line(&mut lines, Line::of(msg.as_str(), theme.error_style()));
            assert(draw::line_views(lines@) =~= self@.info_lines(*theme));
            return render_linked_paragraph(lines, width, 0, false);
        }
        match &self.user {
            None => {
                assert(draw::line_views(lines@) =~= self@.info_lines(*theme));
                render_linked_paragraph(lines, width, 0, false)
            },
            Some(u) => {
                let mut lines = info_head_lines(u, theme);
                push_line(&mut lines, Line::empty());
                let mut facts = info_fact_lines(u, theme);
                draw::append_lines(&mut lines, &mut facts);
                push_line(&mut lines, Line::empty());
                if self.is_viewing_self() {
                    push_line(&mut lines, Line::of("e to edit your profile", theme.accent_style()));
                } else {
                    let hint = match u.is_following {
                        Some(true) => "F to unfollow",
                        Some(false) => "F to follow",
                        None => "F to toggle follow",
                    };
                    push_line(&mut lines, Line::of(hint, theme.accent_style()));
                    push_line(
                        &mut lines,
                        Line::of("P to poke (1/hour, 8/day across everyone)", theme.accent_style()),
                    );
                }
                assert(draw::line_views(lines@) =~= self@.info_lines(*theme));
                render_linked_paragraph(lines, width, 0, cfg.hyperlinks)
            },
        }
    }

    fn render_tab_row(&self, theme: &Theme) -> (r: Line)
        ensures
            r@ == self@.tab_row(*theme),
    {
        let mut spans: Vec<Span> = Vec::new();
        let mut i: usize = 0;
        assert(draw::span_views(spans@) =~= self@.tab_spans(0, *theme));
        while i < 6
            invariant
                i <= 6,
                draw::span_views(spans@) == self@.tab_spans(i as int, *theme),
            decreases 6 - i,
        {
            if i > 0 {
                push_span(&mut spans, Span::of(" │ ", theme.muted_style()));
            }
            let tab = ProfileTab::ALL[i];
            let style = if tab == self.tab {
                theme.accent_style()
            } else {
                theme.muted_style()
            };
            push_span(&mut spans, Span::of(tab.label(), style));
            i = i + 1;
        }
        push_span(&mut spans, Span::of("    h/l switch tab", theme.muted_style()));
        Line::new(spans)
    }

    fn render_status(&self, theme: &Theme) -> (r: Line)
        ensures
            r@ == draw::one(strs::joined(self@.status_parts(), " · "@), theme.muted_spec()),
    {
        let mut parts: Vec<String> = Vec::new();
        assert(strs::texts(parts@) =~= Seq::empty());
        if self.follow_action_pending {
            push_text(&mut parts, "follow pending…".to_owned());
            assert(strs::texts(parts@) =~= seq!["follow pending…"@]);
        }
        if self.poke_pending {
            push_text(&mut parts, "poke pending…".to_owned());
        }
        push_text(&mut parts, "tab/shift+tab tabs".to_owned());
        push_text(
            &mut parts,
            (if self.is_root {
                "backspace quit · esc menu"
            } else {
                "backspace back · esc back"
            }).to_owned(),
        );
        assert(strs::texts(parts@) == self@.status_head());
        if self.is_self {
            push_text(&mut parts, "e edit".to_owned());
        } else if self.user.is_some() && !self.is_viewing_self() {
            push_text(&mut parts, "F follow/unfollow".to_owned());
            push_text(&mut parts, "m message".to_owned());
            push_text(&mut parts, "P poke".to_owned());
        }
        if self.tab == ProfileTab::Posts && self.is_self {
            push_text(
                &mut parts,
                "enter open · E edit · P pin · scroll for more · r refresh".to_owned(),
            );
        } else if self.tab == ProfileTab::Guilds {
            push_text(&mut parts, "enter open · r refresh".to_owned());
        } else if self.tab != ProfileTab::Info {
            push_text(&mut parts, "enter open · scroll for more · r refresh".to_owned());
        }
        assert(strs::texts(parts@) == self@.status_parts());
        Line::single(join(&parts, " · "), theme.muted_style())
    }

    /// What the screen shows; `stamps` gives the time of each item of the active
    /// tab as text and `width` the columns of the pane.
    pub fn render(&self, width: u16, stamps: &Vec<String>, theme: &Theme, cfg: &Config) -> (f:
        ProfileFrame)
        ensures
            f.title@ == draw::one(self@.title_text(), theme.heading_spec()),
            f.tabs@ == self@.tab_row(*theme),
            f.status@ == draw::one(strs::joined(self@.status_parts(), " · "@), theme.muted_spec()),
            match f.pane {
                ProfilePane::Info(p) => {
                    &&& self@.tab == ProfileTab::Info
                    &&& draw::line_views(p.lines@) == self@.info_lines(*theme)
                    &&& p.scroll == 0
                    &&& hyperlink::target_views(p.targets@) == if cfg.hyperlinks
                        && self@.shows_profile() {
                        hyperlink::targets_of(
                            self@.info_lines(*theme),
                            self@.info_lines(*theme).len() as int,
                            hyperlink::wrap_columns(width),
                        )
                    } else {
                        Seq::<hyperlink::TargetView>::empty()
                    }
                },
                ProfilePane::Items(b) => {
                    &&& self@.tab != ProfileTab::Info
                    &&& b@ == self@.list_shown(stamps@, *theme, *cfg)
                },
            },
    {
        let mut title = " cs-tui • profile · ".to_owned();
        let mut who = "@".to_owned();
        match &self.user {
            Some(u) => who.append(u.username.as_str()),
            None => match &self.username {
                Some(name) => who.append(name.as_str()),
                None => {
                    who = "@…".to_owned();
                },
            },
        }
        title.append(who.as_str());
        title.append(if self.is_self {
            " (you) "
        } else {
            " "
        });
        let pane = match self.tab {
            ProfileTab::Info => ProfilePane::Info(self.render_info(width, theme, cfg)),
            ProfileTab::Posts => ProfilePane::Items(self.render_posts(stamps, theme, cfg)),
            ProfileTab::Replies => ProfilePane::Items(self.render_replies(stamps, theme, cfg)),
            ProfileTab::Followers => ProfilePane::Items(
                render_follows(&self.followers, true, theme, cfg),
            ),
            ProfileTab::Following => ProfilePane::Items(
                render_follows(&self.following, false, theme, cfg),
            ),
            ProfileTab::Guilds => ProfilePane::Items(self.render_guilds(stamps, theme, cfg)),
        };
        ProfileFrame {
            title: Line::single(title, theme.heading_style()),
            tabs: self.render_tab_row(theme),
            pane,
            status: self.render_status(theme),
        }
    }
}

// ---------------------------------------------------------------------------
// Laws.
// ---------------------------------------------------------------------------

/// One step on and one step back lead to the same tab, and six steps go round.
pub proof fn law_tabs_turn_both_ways(t: ProfileTab)
    ensures
        t.turned(1).turned(5) == t,
        t.turned(5).turned(1) == t,
        t.turned(1).turned(1).turned(1).turned(1).turned(1).turned(1) == t,
{
}

/// Every tab is on one shifted number, in the order of the row.
pub proof fn law_shifted_numbers_follow_the_row()
    ensures
        forall|i: int|
            0 <= i < 6 ==> ProfileTab::shifted("!@#$%^"@[i]) == Some(
                #[trigger] ProfileTab::ALL@[i],
            ),
{
    reveal_strlit("!@#$%^");
    assert forall|i: int| 0 <= i < 6 implies ProfileTab::shifted("!@#$%^"@[i]) == Some(
        #[trigger] ProfileTab::ALL@[i],
    ) by {
        if i == 0 {
        } else if i == 1 {
        } else if i == 2 {
        } else if i == 3 {
        } else if i == 4 {
        } else {
        }
    }
}

/// No key on one's own profile, however it was reached, follows, messages or
/// pokes oneself.
pub proof fn law_nothing_is_done_to_oneself(s: ProfileView, key: KeyEvent)
    requires
        s.viewing_self(),
    ensures
        !(s.keyed(key).1 is ToggleFollow),
        !(s.keyed(key).1 is MessageUser),
        !(s.keyed(key).1 is PokeUser),
{
}

/// Editing and pinning an entry are only offered on one's own posts.
pub proof fn law_only_own_posts_are_edited(s: ProfileView, key: KeyEvent)
    requires
        !s.is_self || s.tab != ProfileTab::Posts,
    ensures
        !(s.keyed(key).1 is EditEntry),
        !(s.keyed(key).1 is PinPost),
{
}

/// The guilds tab never asks for another page.
pub proof fn law_guilds_have_one_page(s: ProfileView, key: KeyEvent)
    requires
        s.tab == ProfileTab::Guilds,
    ensures
        !(s.keyed(key).1 is LoadMoreCurrentTab),
{
}

/// No list asks for a page while one is on its way.
pub proof fn law_one_page_at_a_time(s: ProfileView, key: KeyEvent)
    requires
        s.active().1,
    ensures
        !(s.keyed(key).1 is LoadMoreCurrentTab),
        !(s.keyed(key).1 is RefreshCurrentTab),
{
}

/// Enter opens the selected row of the tab that is shown: a post by its id, a reply
/// by the ids of its post and of itself, a follower or somebody followed by name,
/// and a guild by its slug.
pub proof fn law_enter_opens_the_selected_row(s: ProfileView, key: KeyEvent)
    requires
        key.code == KeyCode::Enter,
    ensures
        s.keyed(key).0 == s,
        s.tab == ProfileTab::Posts && 0 <= s.posts.selected < s.posts.items.len() ==> s.keyed(key).1
            == (ProfileIntent::OpenPost { post_id: s.posts.items[s.posts.selected].post_id }),
        s.tab == ProfileTab::Replies && 0 <= s.replies.selected < s.replies.items.len() ==> s.keyed(
            key,
        ).1 == (ProfileIntent::OpenReply {
            post_id: s.replies.items[s.replies.selected].post_id,
            reply_id: s.replies.items[s.replies.selected].reply_id,
        }),
        s.tab == ProfileTab::Followers && 0 <= s.followers.selected < s.followers.items.len()
            && s.followers.items[s.followers.selected].follower_username@.len() > 0 ==> s.keyed(
            key,
        ).1 == (ProfileIntent::OpenUser {
            username: s.followers.items[s.followers.selected].follower_username,
        }),
        s.tab == ProfileTab::Following && 0 <= s.following.selected < s.following.items.len()
            && s.following.items[s.following.selected].followed_username@.len() > 0 ==> s.keyed(
            key,
        ).1 == (ProfileIntent::OpenUser {
            username: s.following.items[s.following.selected].followed_username,
        }),
        s.tab == ProfileTab::Guilds && 0 <= s.guilds.selected < s.guilds.items.len()
            && s.guilds.items[s.guilds.selected].slug@.len() > 0 ==> s.keyed(key).1
            == (ProfileIntent::OpenGuild { slug: s.guilds.items[s.guilds.selected].slug }),
        s.tab == ProfileTab::Info ==> s.keyed(key).1 is Nothing,
{
    assert(s.keyed(key).0 =~= s);
}

/// Whatever is opened, by whatever key, is what stands on the selected row of the
/// tab that is shown, and has what its page is found by.
pub proof fn law_only_the_selected_row_is_opened(s: ProfileView, key: KeyEvent)
    ensures
        s.keyed(key).1 matches ProfileIntent::OpenPost { post_id } ==> s.tab == ProfileTab::Posts
            && 0 <= s.posts.selected < s.posts.items.len() && post_id
            == s.posts.items[s.posts.selected].post_id,
        s.keyed(key).1 matches ProfileIntent::OpenReply { post_id, reply_id } ==> s.tab
            == ProfileTab::Replies && 0 <= s.replies.selected < s.replies.items.len() && post_id
            == s.replies.items[s.replies.selected].post_id && reply_id
            == s.replies.items[s.replies.selected].reply_id,
        s.keyed(key).1 matches ProfileIntent::OpenUser { username } ==> username@.len() > 0 && ((
        s.tab == ProfileTab::Followers && 0 <= s.followers.selected < s.followers.items.len()
            && username == s.followers.items[s.followers.selected].follower_username) || (s.tab
            == ProfileTab::Following && 0 <= s.following.selected < s.following.items.len()
            && username == s.following.items[s.following.selected].followed_username)),
        s.keyed(key).1 matches ProfileIntent::OpenGuild { slug } ==> s.tab == ProfileTab::Guilds
            && 0 <= s.guilds.selected < s.guilds.items.len() && slug
            == s.guilds.items[s.guilds.selected].slug && slug@.len() > 0,
{
}

/// Following, messaging and poking are for the user that is viewed, and are asked
/// for by their keys once the profile is there and is somebody else's.
pub proof fn law_actions_name_the_viewed_user(s: ProfileView, key: KeyEvent, u: User)
    requires
        s.user == Some(u),
        !s.is_self,
        s.viewer_user_id is None || u.id@.len() == 0 || s.viewer_user_id->Some_0@ != u.id@,
    ensures
        key.code == KeyCode::Char('F') ==> s.keyed(key) == (s, ProfileIntent::ToggleFollow),
        key.code == KeyCode::Char('m') ==> s.keyed(key) == (
            s,
            ProfileIntent::MessageUser { username: u.username, user_id: Some(u.id) },
        ),
        key.code == KeyCode::Char('P') ==> s.keyed(key) == (
            s,
            ProfileIntent::PokeUser { username: u.username },
        ),
{
}

/// A profile is one's own when it was opened as such, or when its id is that of
/// the account that is signed in, and in no other case.
pub proof fn law_own_profiles_are_known_by_id(s: ProfileView)
    ensures
        s.is_self ==> s.viewing_self(),
        !s.is_self && s.viewing_self() ==> s.user is Some && s.viewer_user_id is Some
            && s.user->Some_0.id@ == s.viewer_user_id->Some_0@ && s.user->Some_0.id@.len() > 0,
        s.user is Some && s.viewer_user_id is Some && s.user->Some_0.id@
            == s.viewer_user_id->Some_0@ && s.user->Some_0.id@.len() > 0 ==> s.viewing_self(),
{
}

/// On one's own posts, the selected one is edited, and pinned or unpinned by
/// whether it is the pinned one.
pub proof fn law_own_posts_are_edited_and_pinned(s: ProfileView, key: KeyEvent)
    requires
        s.is_self,
    ensures
        key.code == KeyCode::Char('e') ==> s.keyed(key) == (s, ProfileIntent::EditOwnProfile),
        s.tab == ProfileTab::Posts && 0 <= s.posts.selected < s.posts.items.len() ==> ({
            let e = s.posts.items[s.posts.selected];
            let pinned = s.user is Some && s.user->Some_0.pinned_post_id is Some
                && s.user->Some_0.pinned_post_id->Some_0@ == e.post_id@;
            &&& key.code == KeyCode::Char('E') ==> s.keyed(key) == (
                s,
                ProfileIntent::EditEntry { post_id: e.post_id, content: e.content },
            )
            &&& key.code == KeyCode::Char('P') ==> s.keyed(key) == (
                s,
                ProfileIntent::PinPost { post_id: e.post_id, pin: !pinned },
            )
        }),
{
}

/// The tab keys go to the neighbor, round the row, and the shifted numbers to their
/// own tab; the tab that is gone to is asked for, and no list is touched.
pub proof fn law_tab_keys_switch_tabs(s: ProfileView, key: KeyEvent)
    ensures
        ({
            let r = s.keyed(key);
            let on = key.code == KeyCode::Tab || key.code == KeyCode::Char('l');
            let back = key.code == KeyCode::BackTab || key.code == KeyCode::Char('h');
            &&& on && s.tab == ProfileTab::Info ==> r.0.tab == ProfileTab::Posts
            &&& on && s.tab == ProfileTab::Posts ==> r.0.tab == ProfileTab::Replies
            &&& on && s.tab == ProfileTab::Replies ==> r.0.tab == ProfileTab::Followers
            &&& on && s.tab == ProfileTab::Followers ==> r.0.tab == ProfileTab::Following
            &&& on && s.tab == ProfileTab::Following ==> r.0.tab == ProfileTab::Guilds
            &&& on && s.tab == ProfileTab::Guilds ==> r.0.tab == ProfileTab::Info
            &&& back && s.tab == ProfileTab::Info ==> r.0.tab == ProfileTab::Guilds
            &&& back && s.tab == ProfileTab::Posts ==> r.0.tab == ProfileTab::Info
            &&& back && s.tab == ProfileTab::Replies ==> r.0.tab == ProfileTab::Posts
            &&& back && s.tab == ProfileTab::Followers ==> r.0.tab == ProfileTab::Replies
            &&& back && s.tab == ProfileTab::Following ==> r.0.tab == ProfileTab::Followers
            &&& back && s.tab == ProfileTab::Guilds ==> r.0.tab == ProfileTab::Following
            &&& key.code == KeyCode::Char('!') ==> r.0.tab == ProfileTab::Info
            &&& key.code == KeyCode::Char('@') ==> r.0.tab == ProfileTab::Posts
            &&& key.code == KeyCode::Char('#') ==> r.0.tab == ProfileTab::Replies
            &&& key.code == KeyCode::Char('$') ==> r.0.tab == ProfileTab::Followers
            &&& key.code == KeyCode::Char('%') ==> r.0.tab == ProfileTab::Following
            &&& key.code == KeyCode::Char('^') ==> r.0.tab == ProfileTab::Guilds
            &&& r.0.tab != s.tab ==> r == (
                ProfileView { tab: r.0.tab, ..s },
                ProfileIntent::SelectTab(r.0.tab),
            )
            &&& r.1 matches ProfileIntent::SelectTab(t) ==> t == r.0.tab && t != s.tab
        }),
{
}

/// Leaving goes back, or ends the app where this profile is its root.
pub proof fn law_leaving_goes_back(s: ProfileView, key: KeyEvent)
    ensures
        key.code == KeyCode::Backspace ==> s.keyed(key) == (
            s,
            if s.is_root {
                ProfileIntent::Quit
            } else {
                ProfileIntent::Back
            },
        ),
        s.keyed(key).1 is Back ==> key.code == KeyCode::Backspace && !s.is_root,
{
}

/// On the posts tab, a step goes to the neighbor, at the end asks for more where there is
/// more and none is on its way, and `r` asks for the list anew.
pub proof fn law_steps_on_the_posts_tab(s: ProfileView, key: KeyEvent)
    requires
        s.tab == ProfileTab::Posts,
        0 <= s.posts.selected < s.posts.items.len(),
    ensures
        ({
            let r = s.keyed(key);
            let at = s.posts.selected;
            let last = s.posts.items.len() - 1;
            let down = key.code == KeyCode::Down || key.code == KeyCode::Char('j');
            let up = key.code == KeyCode::Up || key.code == KeyCode::Char('k');
            let to = if down && at < last {
                at + 1
            } else if up && at > 0 {
                at - 1
            } else {
                at
            };
            &&& down || up ==> r.0 == (ProfileView {
                posts: TabView { selected: to, ..s.posts },
                ..s
            })
            &&& up || (down && at < last) ==> r.1 is Nothing
            &&& down && at == last ==> r.1 == (if s.posts.next_cursor is Some && !s.posts.loading {
                ProfileIntent::LoadMoreCurrentTab
            } else {
                ProfileIntent::Nothing
            })
            &&& key.code == KeyCode::Char('r') && !s.posts.loading ==> r == (
                s,
                ProfileIntent::RefreshCurrentTab,
            )
        }),
{
    assert(TabView { selected: s.posts.selected, ..s.posts } =~= s.posts);
}

/// On the replies tab, a step goes to the neighbor, at the end asks for more where there is
/// more and none is on its way, and `r` asks for the list anew.
pub proof fn law_steps_on_the_replies_tab(s: ProfileView, key: KeyEvent)
    requires
        s.tab == ProfileTab::Replies,
        0 <= s.replies.selected < s.replies.items.len(),
    ensures
        ({
            let r = s.keyed(key);
            let at = s.replies.selected;
            let last = s.replies.items.len() - 1;
            let down = key.code == KeyCode::Down || key.code == KeyCode::Char('j');
            let up = key.code == KeyCode::Up || key.code == KeyCode::Char('k');
            let to = if down && at < last {
                at + 1
            } else if up && at > 0 {
                at - 1
            } else {
                at
            };
            &&& down || up ==> r.0 == (ProfileView {
                replies: TabView { selected: to, ..s.replies },
                ..s
            })
            &&& up || (down && at < last) ==> r.1 is Nothing
            &&& down && at == last ==> r.1 == (if s.replies.next_cursor is Some && !s.replies.loading {
                ProfileIntent::LoadMoreCurrentTab
            } else {
                ProfileIntent::Nothing
            })
            &&& key.code == KeyCode::Char('r') && !s.replies.loading ==> r == (
                s,
                ProfileIntent::RefreshCurrentTab,
            )
        }),
{
    assert(TabView { selected: s.replies.selected, ..s.replies } =~= s.replies);
}

/// On the followers tab, a step goes to the neighbor, at the end asks for more where there is
/// more and none is on its way, and `r` asks for the list anew.
pub proof fn law_steps_on_the_followers_tab(s: ProfileView, key: KeyEvent)
    requires
        s.tab == ProfileTab::Followers,
        0 <= s.followers.selected < s.followers.items.len(),
    ensures
        ({
            let r = s.keyed(key);
            let at = s.followers.selected;
            let last = s.followers.items.len() - 1;
            let down = key.code == KeyCode::Down || key.code == KeyCode::Char('j');
            let up = key.code == KeyCode::Up || key.code == KeyCode::Char('k');
            let to = if down && at < last {
                at + 1
            } else if up && at > 0 {
                at - 1
            } else {
                at
            };
            &&& down || up ==> r.0 == (ProfileView {
                followers: TabView { selected: to, ..s.followers },
                ..s
            })
            &&& up || (down && at < last) ==> r.1 is Nothing
            &&& down && at == last ==> r.1 == (if s.followers.next_cursor is Some && !s.followers.loading {
                ProfileIntent::LoadMoreCurrentTab
            } else {
                ProfileIntent::Nothing
            })
            &&& key.code == KeyCode::Char('r') && !s.followers.loading ==> r == (
                s,
                ProfileIntent::RefreshCurrentTab,
            )
        }),
{
    assert(TabView { selected: s.followers.selected, ..s.followers } =~= s.followers);
}

/// On the following tab, a step goes to the neighbor, at the end asks for more where there is
/// more and none is on its way, and `r` asks for the list anew.
pub proof fn law_steps_on_the_following_tab(s: ProfileView, key: KeyEvent)
    requires
        s.tab == ProfileTab::Following,
        0 <= s.following.selected < s.following.items.len(),
    ensures
        ({
            let r = s.keyed(key);
            let at = s.following.selected;
            let last = s.following.items.len() - 1;
            let down = key.code == KeyCode::Down || key.code == KeyCode::Char('j');
            let up = key.code == KeyCode::Up || key.code == KeyCode::Char('k');
            let to = if down && at < last {
                at + 1
            } else if up && at > 0 {
                at - 1
            } else {
                at
            };
            &&& down || up ==> r.0 == (ProfileView {
                following: TabView { selected: to, ..s.following },
                ..s
            })
            &&& up || (down && at < last) ==> r.1 is Nothing
            &&& down && at == last ==> r.1 == (if s.following.next_cursor is Some && !s.following.loading {
                ProfileIntent::LoadMoreCurrentTab
            } else {
                ProfileIntent::Nothing
            })
            &&& key.code == KeyCode::Char('r') && !s.following.loading ==> r == (
                s,
                ProfileIntent::RefreshCurrentTab,
            )
        }),
{
    assert(TabView { selected: s.following.selected, ..s.following } =~= s.following);
}

/// On the guilds tab, a step goes to the neighbor, at the end nothing is
/// asked for, and `r` asks for the list anew.
pub proof fn law_steps_on_the_guilds_tab(s: ProfileView, key: KeyEvent)
    requires
        s.tab == ProfileTab::Guilds,
        0 <= s.guilds.selected < s.guilds.items.len(),
    ensures
        ({
            let r = s.keyed(key);
            let at = s.guilds.selected;
            let last = s.guilds.items.len() - 1;
            let down = key.code == KeyCode::Down || key.code == KeyCode::Char('j');
            let up = key.code == KeyCode::Up || key.code == KeyCode::Char('k');
            let to = if down && at < last {
                at + 1
            } else if up && at > 0 {
                at - 1
            } else {
                at
            };
            &&& down || up ==> r.0 == (ProfileView {
                guilds: TabView { selected: to, ..s.guilds },
                ..s
            })
            &&& up || (down && at < last) ==> r.1 is Nothing
            &&& down && at == last ==> r.1 == (ProfileIntent::Nothing)
            &&& key.code == KeyCode::Char('r') && !s.guilds.loading ==> r == (
                s,
                ProfileIntent::RefreshCurrentTab,
            )
        }),
{
    assert(TabView { selected: s.guilds.selected, ..s.guilds } =~= s.guilds);
}

/// A profile that arrives is the one that is shown, and gives the name where none
/// was known; one that fails to leaves what is there and is told.
pub proof fn law_arriving_profiles_are_kept(s: ProfileView, u: User, msg: String)
    ensures
        ({
            let r = s.with_user(Ok(u));
            &&& r.user == Some(u)
            &&& r.user_error is None && !r.loading_user
            &&& s.username is Some ==> r.username == s.username
            &&& s.username is None ==> r.username == Some(u.username)
            &&& r.tab == s.tab && r.posts == s.posts && r.is_self == s.is_self
        }),
        s.with_user(Err(msg)) == (ProfileView {
            loading_user: false,
            user_error: Some(msg),
            ..s
        }),
{
}

/// The guilds that arrive are all there are: in their order, and with no further
/// page.
pub proof fn law_arriving_guilds_are_listed(
    s: ProfileView,
    guilds: Vec<UserGuild>,
    msg: String,
)
    ensures
        ({
            let r = s.with_guilds(Ok(guilds));
            &&& r.guilds.items == guilds@
            &&& r.guilds.next_cursor is None
            &&& r.guilds.error is None && !r.guilds.loading && r.guilds.loaded
            &&& r.posts == s.posts && r.replies == s.replies && r.user == s.user
        }),
        s.with_guilds(Err(msg)).guilds.items == s.guilds.items,
        s.with_guilds(Err(msg)).guilds.error == Some(msg@),
{
}

proof fn lemma_post_index(items: Seq<Entry>, id: Seq<char>, i: int)
    requires
        0 <= i,
    ensures
        match post_index(items, id, i) {
            Some(k) => i <= k < items.len() && items[k].post_id@ == id && forall|j: int|
                i <= j < k ==> (#[trigger] items[j]).post_id@ != id,
            None => forall|j: int| i <= j < items.len() ==> (#[trigger] items[j]).post_id@ != id,
        },
    decreases items.len() - i,
{
    if i < items.len() && items[i].post_id@ != id {
        lemma_post_index(items, id, i + 1);
    }
}

/// A fresh copy takes the place of the post with its id and of no other, and it is
/// said whether there was one.
pub proof fn law_fresh_copies_take_their_place(s: ProfileView, e: Entry, i: int)
    requires
        0 <= i < s.posts.items.len(),
    ensures
        ({
            let (r, found) = s.with_entry(e);
            &&& found == exists|k: int|
                0 <= k < s.posts.items.len() && (#[trigger] s.posts.items[k]).post_id@ == e.post_id@
            &&& r.posts.items.len() == s.posts.items.len()
            &&& s.posts.items[i].post_id@ != e.post_id@ ==> r.posts.items[i] == s.posts.items[i]
            &&& s.posts.items[i].post_id@ == e.post_id@ && (forall|k: int|
                0 <= k < i ==> (#[trigger] s.posts.items[k]).post_id@ != e.post_id@)
                ==> r.posts.items[i] == e
            &&& !found ==> r == s
            &&& r.posts.selected == s.posts.selected && r.posts.next_cursor == s.posts.next_cursor
        }),
{
    lemma_post_index(s.posts.items, e.post_id@, 0);
}

/// The rows of posts and replies begin with the author, show the first line, and
/// say when it was edited or pinned; a reply says which post it is on.
pub proof fn law_rows_show_their_items(
    e: Entry,
    r: Reply,
    when: Seq<char>,
    pinned: Option<Seq<char>>,
    theme: Theme,
)
    ensures
        ({
            let p = post_lines(e, when, pinned, theme);
            let n = p[0].len() as int;
            &&& p.len() == 3
            &&& p[0][0].content == seq!['@'] + e.author_username@
            &&& p[0][1].content.skip(3) == when
            &&& p[1][0].content == text::truncated(
                strs::trimmed(text::first_line(e.content@)),
                160,
            )
            &&& n == 2 + (if e.edited_at is Some {
                1int
            } else {
                0
            }) + (if pinned == Some(e.post_id@) {
                1int
            } else {
                0
            })
            &&& e.edited_at is Some ==> p[0][2].content == " · (edited)"@
            &&& pinned == Some(e.post_id@) ==> p[0][n - 1].content == " · 📌 pinned"@
        }),
        ({
            let q = reply_lines(r, when, theme);
            &&& q.len() == 3
            &&& q[0][0].content == seq!['@'] + r.author_username@
            &&& q[0][1].content == seq![' ', '·', ' '] + when + " · on "@ + r.post_id@
            &&& q[1][0].content == text::truncated(
                strs::trimmed(text::first_line(r.content@)),
                160,
            )
            &&& (q[0].len() == 3) == (r.edited_at is Some)
        }),
{
    reveal_strlit("@");
    reveal_strlit(" · ");
    reveal_strlit(" · (edited)");
    reveal_strlit("");
    assert("@"@ =~= seq!['@']);
    assert(" · "@ =~= seq![' ', '·', ' ']);
    let p = post_lines(e, when, pinned, theme);
    assert(p[0][1].content =~= " · "@ + when);
    assert(p[0][1].content.skip(3) =~= when);
}

/// A row of followers or guilds says who or what it is by the best that is known.
pub proof fn law_rows_name_people_and_guilds(
    username: Seq<char>,
    user_id: Seq<char>,
    g: UserGuild,
    joined: Seq<char>,
    theme: Theme,
)
    ensures
        username.len() > 0 ==> draw::line_text(follow_spans(username, user_id, theme)) == seq!['@']
            + username,
        username.len() == 0 && text::str_width(user_id) <= 18 && user_id.len() > 0
            ==> draw::line_text(follow_spans(username, user_id, theme)) == user_id,
        ({
            let row = guild_spans(g, joined, theme);
            let name = strs::trimmed(g.name@);
            &&& row.len() > 0
            &&& name.len() > 0 ==> row[0].content == name
            &&& name.len() == 0 && g.slug@.len() > 0 ==> row[0].content == seq!['#'] + g.slug@
            &&& g.badge() ==> row.last().content == " · profile badge"@
            &&& name.len() > 0 && g.slug@.len() > 0 ==> guild_details(g, joined)[0] == seq!['#']
                + g.slug@
            &&& g.joined_at is Some ==> guild_details(g, joined).last() == "joined "@ + joined
            &&& guild_details(g, joined).len() > 0 ==> row[1].content == seq![' ', ' ']
                + strs::joined(guild_details(g, joined), seq![' ', '·', ' '])
        }),
{
    reveal_strlit("@");
    reveal_strlit("#");
    reveal_strlit("  ");
    reveal_strlit(" · ");
    reveal_with_fuel(draw::line_text, 2);
    assert("@"@ =~= seq!['@']);
    assert("#"@ =~= seq!['#']);
    assert("  "@ =~= seq![' ', ' ']);
    assert(" · "@ =~= seq![' ', '·', ' ']);
    let f = follow_spans(username, user_id, theme);
    assert(f.drop_last() =~= Seq::empty());
    assert(draw::line_text(f) =~= f.last().content);
}

/// What is known of the user is told on the info tab: the handle, the counts, and
/// the guild, place, website and pinned post where they are known.
pub proof fn law_the_profile_is_told(u: User, theme: Theme)
    ensures
        ({
            let head = info_head(u, theme);
            let facts = info_facts(u);
            let at = if u.display_name is Some {
                1int
            } else {
                0
            };
            &&& u.display_name matches Some(n) ==> head[0][0].content == n@
            &&& head[at][0].content == seq!['@'] + u.username@
            &&& u.bio matches Some(b) ==> head.len() == at + 2 + text::lines_from(b@, 0).len()
                && forall|j: int|
                at + 2 <= j < head.len() ==> (#[trigger] head[j])[0].content == text::lines_from(
                    b@,
                    0,
                )[j - at - 2]
            &&& facts[0] == strs::decimal(count_of(u.posts_count)) + " posts · "@ + strs::decimal(
                count_of(u.followers_count),
            ) + " followers · "@ + strs::decimal(count_of(u.following_count)) + " following"@
            &&& u.guild_name matches Some(g) ==> strs::trimmed(g@).len() > 0 ==> facts.contains(
                "guild: "@ + g@,
            )
            &&& u.location_name matches Some(l) ==> facts.contains("📍 "@ + l@)
            &&& u.pinned_post_id matches Some(p) ==> facts.contains("📌 pinned: "@ + p@)
            &&& u.website_url matches Some(w) ==> facts.contains(
                "🔗 "@ + (match u.website_name {
                    Some(name) => name@,
                    None => w@,
                }) + " ("@ + w@ + ")"@,
            )
        }),
{
    reveal_strlit("@");
    assert("@"@ =~= seq!['@']);
    let facts = info_facts(u);
    let g: int = match u.guild_name {
        Some(name) if strs::trimmed(name@).len() > 0 => 1,
        _ => 0,
    };
    let l: int = if u.location_name is Some {
        1
    } else {
        0
    };
    let w: int = if u.website_url is Some {
        1
    } else {
        0
    };
    if let Some(name) = u.guild_name {
        if strs::trimmed(name@).len() > 0 {
            assert(facts[1] == "guild: "@ + name@);
        }
    }
    if let Some(loc) = u.location_name {
        assert(facts[1 + g] == "📍 "@ + loc@);
    }
    if let Some(url) = u.website_url {
        assert(facts[1 + g + l] == "🔗 "@ + (match u.website_name {
            Some(name) => name@,
            None => url@,
        }) + " ("@ + url@ + ")"@);
    }
    if let Some(id) = u.pinned_post_id {
        assert(facts[1 + g + l + w] == "📌 pinned: "@ + id@);
    }
}

/// The row of tabs names all six in order, and picks out the one that is shown.
pub proof fn law_the_tab_row_shows_the_active_tab(s: ProfileView, theme: Theme)
    ensures
        ({
            let row = s.tab_row(theme);
            &&& row.len() == 12
            &&& row[0].content == "info"@ && row[2].content == "posts"@ && row[4].content
                == "replies"@ && row[6].content == "followers"@ && row[8].content == "following"@
                && row[10].content == "guilds"@
            &&& row[0].style == (if s.tab == ProfileTab::Info {
                theme.accent_spec()
            } else {
                theme.muted_spec()
            })
            &&& row[2].style == (if s.tab == ProfileTab::Posts {
                theme.accent_spec()
            } else {
                theme.muted_spec()
            })
            &&& row[4].style == (if s.tab == ProfileTab::Replies {
                theme.accent_spec()
            } else {
                theme.muted_spec()
            })
            &&& row[6].style == (if s.tab == ProfileTab::Followers {
                theme.accent_spec()
            } else {
                theme.muted_spec()
            })
            &&& row[8].style == (if s.tab == ProfileTab::Following {
                theme.accent_spec()
            } else {
                theme.muted_spec()
            })
            &&& row[10].style == (if s.tab == ProfileTab::Guilds {
                theme.accent_spec()
            } else {
                theme.muted_spec()
            })
        }),
{
    reveal_with_fuel(ProfileView::tab_spans, 7);
}

/// The list that is shown is that of the active tab: a row for each of its items, in
/// order, with the selected one marked.
pub proof fn law_the_active_list_is_shown(
    s: ProfileView,
    stamps: Seq<String>,
    theme: Theme,
    cfg: Config,
    i: int,
)
    ensures
        ({
            let b = s.list_shown(stamps, theme, cfg);
            &&& s.tab == ProfileTab::Posts && 0 <= i < s.posts.items.len() && 0 <= s.posts.selected
                < s.posts.items.len() ==> (b matches list::ListBodyView::Rows { rows, selected, .. }
                && rows.len() == s.posts.items.len() && selected == s.posts.selected
                && rows[i][0][0].content == seq!['@'] + s.posts.items[i].author_username@)
            &&& s.tab == ProfileTab::Replies && 0 <= i < s.replies.items.len() && 0
                <= s.replies.selected < s.replies.items.len() ==> (b
                matches list::ListBodyView::Rows { rows, selected, .. } && rows.len()
                == s.replies.items.len() && selected == s.replies.selected
                && rows[i][0][0].content == seq!['@'] + s.replies.items[i].author_username@)
            &&& s.tab == ProfileTab::Followers && 0 <= i < s.followers.items.len() && 0
                <= s.followers.selected < s.followers.items.len() ==> (b
                matches list::ListBodyView::Rows { rows, selected, .. } && rows.len()
                == s.followers.items.len() && selected == s.followers.selected && (
            s.followers.items[i].follower_username@.len() > 0 ==> rows[i][0][0].content == seq!['@']
                + s.followers.items[i].follower_username@))
            &&& s.tab == ProfileTab::Following && 0 <= i < s.following.items.len() && 0
                <= s.following.selected < s.following.items.len() ==> (b
                matches list::ListBodyView::Rows { rows, selected, .. } && rows.len()
                == s.following.items.len() && selected == s.following.selected && (
            s.following.items[i].followed_username@.len() > 0 ==> rows[i][0][0].content == seq!['@']
                + s.following.items[i].followed_username@))
            &&& s.tab == ProfileTab::Guilds && 0 <= i < s.guilds.items.len() && 0
                <= s.guilds.selected < s.guilds.items.len() ==> (b
                matches list::ListBodyView::Rows { rows, selected, .. } && rows.len()
                == s.guilds.items.len() && selected == s.guilds.selected && (strs::trimmed(
                s.guilds.items[i].name@,
            ).len() > 0 ==> rows[i][0][0].content == strs::trimmed(s.guilds.items[i].name@)))
        }),
{
    reveal_strlit("@");
    assert("@"@ =~= seq!['@']);
}

/// The title names whose profile it is, as soon as that is known, and says whether it is
/// one's own.
pub proof fn law_the_title_names_the_user(s: ProfileView)
    ensures
        s.user matches Some(u) ==> s.title_text() == " cs-tui • profile · "@ + ("@"@ + u.username@)
            + (if s.is_self {
            " (you) "@
        } else {
            " "@
        }),
        s.user is None ==> (s.username matches Some(n) ==> s.title_text()
            == " cs-tui • profile · "@ + ("@"@ + n@) + (if s.is_self {
            " (you) "@
        } else {
            " "@
        })),
{
}

/// The keys that are told are those that do something: one's own profile is edited,
/// another's can be followed, written to and poked.
pub proof fn law_the_told_keys_are_for_the_account(s: ProfileView)
    ensures
        s.is_self ==> s.status_parts().contains("e edit"@),
        !s.is_self && s.user is Some && !s.viewing_self() ==> s.status_parts().contains(
            "F follow/unfollow"@,
        ) && s.status_parts().contains("m message"@) && s.status_parts().contains("P poke"@),
{
    let h = s.status_head();
    let n = h.len() as int;
    if s.is_self {
        assert(s.status_parts()[n] == "e edit"@);
    } else if s.user is Some && !s.viewing_self() {
        assert(s.status_parts()[n] == "F follow/unfollow"@);
        assert(s.status_parts()[n + 1] == "m message"@);
        assert(s.status_parts()[n + 2] == "P poke"@);
    }
}

/// Until a profile is here that is said, then why it is not, and else who it is: the
/// name that is shown, then the one it goes by.
pub proof fn law_the_info_tells_its_state(s: ProfileView, theme: Theme)
    ensures
        s.loading_user ==> s.info_lines(theme) == seq![
            draw::one("loading profile…"@, theme.accent_spec()),
        ],
        !s.loading_user ==> (s.user_error matches Some(msg) ==> s.info_lines(theme) == seq![
            draw::one(msg@, theme.error_spec()),
        ]),
        !s.loading_user && s.user_error is None ==> (s.user matches Some(u) ==> {
            let lines = s.info_lines(theme);
            &&& u.display_name matches Some(dn) ==> lines[0] == draw::one(
                dn@,
                theme.accent_spec(),
            ) && lines[1] == draw::one("@"@ + u.username@, theme.muted_spec())
            &&& u.display_name is None ==> lines[0] == draw::one(
                "@"@ + u.username@,
                theme.muted_spec(),
            )
        }),
        s.shows_profile() == (!s.loading_user && s.user_error is None && s.user is Some),
{
}

/// A row of people names the user, by the id where the name is missing.
pub proof fn law_people_without_a_name_have_an_id(
    username: Seq<char>,
    user_id: Seq<char>,
    theme: Theme,
)
    ensures
        username.len() > 0 ==> follow_spans(username, user_id, theme) == draw::one(
            "@"@ + username,
            theme.accent_spec(),
        ),
        username.len() == 0 && 0 < user_id.len() && text::str_width(user_id) <= 18
            ==> follow_spans(username, user_id, theme) == draw::one(user_id, theme.muted_spec()),
        username.len() == 0 && user_id.len() == 0 ==> follow_spans(username, user_id, theme)
            == draw::one("(unknown user)"@, theme.muted_spec()),
{
    if user_id.len() == 0 {
        assert(text::plain(user_id));
    }
}

} // verus!
