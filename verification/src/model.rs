//! What the server sends, as plain values. Times are seconds since the Unix
//! epoch.
use vstd::prelude::*;

use crate::list::TabView;
use crate::strs;

verus! {

/// Something a post carries besides its text.
#[derive(Debug, Clone, PartialEq, Eq)]
pub enum Attachment {
    Image { src: String, width: u32, height: u32 },
    Audio { src: String, origin: String, artist: String, title: String, genre: String },
}

impl Attachment {
    pub fn copy(&self) -> (r: Attachment)
        ensures
            r == *self,
    {
        match self {
            Attachment::Image { src, width, height } => Attachment::Image {
                src: src.clone(),
                width: *width,
                height: *height,
            },
            Attachment::Audio { src, origin, artist, title, genre } => Attachment::Audio {
                src: src.clone(),
                origin: origin.clone(),
                artist: artist.clone(),
                title: title.clone(),
                genre: genre.clone(),
            },
        }
    }
}

/// A copy of a list of attachments.
pub fn copy_attachments(v: &Vec<Attachment>) -> (r: Vec<Attachment>)
    ensures
        r@ == v@,
{
    let mut r: Vec<Attachment> = Vec::new();
    let mut i: usize = 0;
    while i < v.len()
        invariant
            i <= v@.len(),
            r@ == v@.take(i as int),
        decreases v@.len() - i,
    {
        r.push(v[i].copy());
        i = i + 1;
        assert(r@ =~= v@.take(i as int));
    }
    assert(v@.take(v@.len() as int) =~= v@);
    r
}

/// How many nanoseconds a second has.
pub const NANOS_PER_SEC: i128 = 1_000_000_000;

/// A moment, and the clock it is told by.
#[derive(Debug, Clone, Copy, PartialEq, Eq, Structural, Default)]
pub struct Moment {
    /// Seconds since the Unix epoch.
    pub secs: i64,
    /// Nanoseconds past that second.
    pub nanos: u32,
    /// How many seconds the clock is ahead of UTC.
    pub offset: i32,
}

impl Moment {
    /// Nanoseconds since the Unix epoch, whatever the clock.
    pub open spec fn instant(self) -> int {
        self.secs * NANOS_PER_SEC + self.nanos
    }

    /// The seconds since the Unix epoch that the clock shows.
    pub open spec fn local(self) -> int {
        self.secs + self.offset
    }

    /// The whole seconds from `earlier` to this moment, without the fraction.
    pub open spec fn since(self, earlier: Moment) -> int {
        let d = self.instant() - earlier.instant();
        if d >= 0 {
            d / (NANOS_PER_SEC as int)
        } else {
            -((-d) / (NANOS_PER_SEC as int))
        }
    }

    /// The whole seconds from `earlier` to this moment, without the fraction.
    pub fn seconds_since(self, earlier: Moment) -> (r: i128)
        ensures
            r == self.since(earlier),
            -0x2_0000_0000_0000_0000 < r < 0x2_0000_0000_0000_0000,
    {
        let a: i128 = self.secs as i128 * NANOS_PER_SEC + self.nanos as i128;
        let b: i128 = earlier.secs as i128 * NANOS_PER_SEC + earlier.nanos as i128;
        let d: i128 = a - b;
        if d >= 0 {
            d / NANOS_PER_SEC
        } else {
            0 - (0 - d) / NANOS_PER_SEC
        }
    }
}

/// A post.
#[derive(Debug, Clone, PartialEq, Eq, Default)]
pub struct Entry {
    pub post_id: String,
    pub author_id: String,
    pub author_username: String,
    pub content: String,
    pub title: Option<String>,
    pub slug: Option<String>,
    pub topics: Vec<String>,
    pub replies_count: u64,
    pub bookmarks_count: u64,
    pub is_public: bool,
    pub is_nsfw: bool,
    pub attachments: Vec<Attachment>,
    pub created_at: Option<Moment>,
    pub edited_at: Option<Moment>,
    pub deleted: bool,
}

/// What an [`Entry`] says.
#[verifier::ext_equal]
pub struct EntryView {
    pub post_id: Seq<char>,
    pub author_id: Seq<char>,
    pub author_username: Seq<char>,
    pub content: Seq<char>,
    pub title: Option<Seq<char>>,
    pub slug: Option<Seq<char>>,
    pub topics: Seq<String>,
    pub replies_count: u64,
    pub bookmarks_count: u64,
    pub is_public: bool,
    pub is_nsfw: bool,
    pub attachments: Seq<Attachment>,
    pub created_at: Option<Moment>,
    pub edited_at: Option<Moment>,
    pub deleted: bool,
}

impl View for Entry {
    type V = EntryView;

    open spec fn view(&self) -> EntryView {
        EntryView {
            post_id: self.post_id@,
            author_id: self.author_id@,
            author_username: self.author_username@,
            content: self.content@,
            title: strs::opt_text(self.title),
            slug: strs::opt_text(self.slug),
            topics: self.topics@,
            replies_count: self.replies_count,
            bookmarks_count: self.bookmarks_count,
            is_public: self.is_public,
            is_nsfw: self.is_nsfw,
            attachments: self.attachments@,
            created_at: self.created_at,
            edited_at: self.edited_at,
            deleted: self.deleted,
        }
    }
}

/// What a list of entries says.
pub open spec fn entry_views(v: Seq<Entry>) -> Seq<EntryView> {
    Seq::new(v.len(), |i: int| v[i]@)
}

/// A list of entries, by what the entries say.
pub open spec fn entry_tab(t: TabView<Entry>) -> TabView<EntryView> {
    TabView {
        items: entry_views(t.items),
        selected: t.selected,
        next_cursor: t.next_cursor,
        loading: t.loading,
        error: t.error,
        loaded: t.loaded,
        list_offset: t.list_offset,
        top_clip: t.top_clip,
        page_items: t.page_items,
    }
}

/// The positions of the entries among the first `n` that are shown: those not
/// safe for work only where they are asked for.
pub open spec fn visible_of(items: Seq<EntryView>, nsfw: bool, n: int) -> Seq<usize>
    decreases n,
{
    if n <= 0 {
        Seq::empty()
    } else if nsfw || !items[n - 1].is_nsfw {
        visible_of(items, nsfw, n - 1).push((n - 1) as usize)
    } else {
        visible_of(items, nsfw, n - 1)
    }
}

/// The positions of the entries that are shown.
pub open spec fn visible(items: Seq<EntryView>, nsfw: bool) -> Seq<usize> {
    visible_of(items, nsfw, items.len() as int)
}

/// Every position among the visible ones is that of an entry that may be shown,
/// and they ascend.
pub proof fn lemma_visible(items: Seq<EntryView>, nsfw: bool, n: int)
    requires
        0 <= n <= items.len() <= usize::MAX,
    ensures
        visible_of(items, nsfw, n).len() <= n,
        forall|k: int|
            #![trigger visible_of(items, nsfw, n)[k]]
            0 <= k < visible_of(items, nsfw, n).len() ==> visible_of(items, nsfw, n)[k] < n && (
            nsfw || !items[visible_of(items, nsfw, n)[k] as int].is_nsfw),
        forall|j: int, k: int|
            0 <= j < k < visible_of(items, nsfw, n).len() ==> visible_of(items, nsfw, n)[j]
                < visible_of(items, nsfw, n)[k],
    decreases n,
{
    if n > 0 {
        lemma_visible(items, nsfw, n - 1);
    }
}

/// The positions of the entries that are shown.
pub fn visible_entries(items: &Vec<Entry>, nsfw: bool) -> (r: Vec<usize>)
    ensures
        r@ == visible(entry_views(items@), nsfw),
        r@.len() <= items@.len(),
        forall|k: int| 0 <= k < r@.len() ==> #[trigger] r@[k] < items@.len(),
{
    let mut r: Vec<usize> = Vec::new();
    let mut i: usize = 0;
    while i < items.len()
        invariant
            i <= items@.len(),
            r@ == visible_of(entry_views(items@), nsfw, i as int),
        decreases items@.len() - i,
    {
        if nsfw || !items[i].is_nsfw {
            r.push(i);
        }
        i = i + 1;
    }
    assert(i == items.len());
    proof {
        lemma_visible(entry_views(items@), nsfw, items@.len() as int);
    }
    r
}

/// A reply to a post.
#[derive(Debug, Clone, PartialEq, Eq, Default)]
pub struct Reply {
    pub reply_id: String,
    pub post_id: String,
    pub author_id: String,
    pub author_username: String,
    pub content: String,
    pub parent_reply_id: Option<String>,
    pub attachments: Vec<Attachment>,
    pub created_at: Option<Moment>,
    pub edited_at: Option<Moment>,
    pub deleted: bool,
}

/// A change of a title.
#[derive(Debug, Clone, PartialEq, Eq)]
pub enum TitleEdit {
    Replace(String),
    Remove,
}

/// A change of a post: each field is changed only where it is given.
#[derive(Debug, Clone, PartialEq, Eq, Default)]
pub struct EntryEdit {
    pub content: Option<String>,
    pub title: Option<TitleEdit>,
    pub topics: Option<Vec<String>>,
    pub is_public: Option<bool>,
    pub is_nsfw: Option<bool>,
    pub attachments: Option<Vec<Attachment>>,
}

impl EntryView {
    /// The entry after an edit that was made at `now`.
    pub open spec fn edited(self, edit: EntryEdit, now: Moment) -> EntryView {
        EntryView {
            content: match edit.content {
                Some(c) => c@,
                None => self.content,
            },
            title: match edit.title {
                Some(TitleEdit::Replace(t)) => Some(t@),
                Some(TitleEdit::Remove) => None,
                None => self.title,
            },
            topics: match edit.topics {
                Some(t) => t@,
                None => self.topics,
            },
            is_public: match edit.is_public {
                Some(b) => b,
                None => self.is_public,
            },
            is_nsfw: match edit.is_nsfw {
                Some(b) => b,
                None => self.is_nsfw,
            },
            attachments: match edit.attachments {
                Some(a) => a@,
                None => self.attachments,
            },
            edited_at: Some(now),
            ..self
        }
    }
}

impl Entry {
    /// Fold an edit into the entry: exactly the fields it carries, and the time
    /// it was made.
    pub fn apply_edit(&mut self, edit: &EntryEdit, now: Moment)
        ensures
            final(self)@ == old(self)@.edited(*edit, now),
    {
        if let Some(content) = &edit.content {
            self.content = content.clone();
        }
        match &edit.title {
            Some(TitleEdit::Replace(t)) => {
                self.title = Some(t.clone());
            },
            Some(TitleEdit::Remove) => {
                self.title = None;
            },
            None => {},
        }
        if let Some(topics) = &edit.topics {
            self.topics = strs::clone_strings(topics);
        }
        if let Some(is_public) = edit.is_public {
            self.is_public = is_public;
        }
        if let Some(is_nsfw) = edit.is_nsfw {
            self.is_nsfw = is_nsfw;
        }
        if let Some(attachments) = &edit.attachments {
            self.attachments = copy_attachments(attachments);
        }
        self.edited_at = Some(now);
    }
}

/// A user's profile.
#[derive(Debug, Clone, PartialEq, Eq, Default)]
pub struct User {
    pub id: String,
    pub username: String,
    pub guild_id: Option<String>,
    pub guild_slug: Option<String>,
    pub guild_icon: Option<String>,
    pub guild_name: Option<String>,
    pub display_name: Option<String>,
    pub email: Option<String>,
    pub bio: Option<String>,
    pub pinned_post_id: Option<String>,
    pub website_url: Option<String>,
    pub website_name: Option<String>,
    pub website_image_url: Option<String>,
    pub location_name: Option<String>,
    pub followers_count: Option<u64>,
    pub following_count: Option<u64>,
    pub posts_count: Option<u64>,
    pub is_following: Option<bool>,
    pub follow_id: Option<String>,
    pub created_at: Option<Moment>,
}

/// That one user follows another. The names may be missing.
#[derive(Debug, Clone, PartialEq, Eq, Default)]
pub struct Follow {
    pub follow_id: String,
    pub follower_id: String,
    pub followed_id: String,
    pub follower_username: String,
    pub followed_username: String,
    pub created_at: Option<Moment>,
}

/// The part a user has in a guild.
#[derive(Debug, Clone, Copy, PartialEq, Eq, Structural)]
pub enum GuildRole {
    Founder,
    Member,
    Apprentice,
    /// A role this client has never heard of.
    Unknown,
}

/// The word for a role; a role the client does not know has none.
pub open spec fn role_word(role: Option<GuildRole>) -> Option<Seq<char>> {
    match role {
        Some(GuildRole::Founder) => Some("founder"@),
        Some(GuildRole::Member) => Some("member"@),
        Some(GuildRole::Apprentice) => Some("apprentice"@),
        _ => None,
    }
}

/// The word for a role, if it is known.
pub fn role_label(role: Option<GuildRole>) -> (r: Option<&'static str>)
    ensures
        match r {
            Some(w) => role_word(role) == Some(w@),
            None => role_word(role) is None,
        },
{
    match role {
        Some(GuildRole::Founder) => Some("founder"),
        Some(GuildRole::Member) => Some("member"),
        Some(GuildRole::Apprentice) => Some("apprentice"),
        _ => None,
    }
}

/// A guild a user is in.
#[derive(Debug, Clone, PartialEq, Eq, Default)]
pub struct UserGuild {
    pub guild_id: String,
    pub slug: String,
    pub name: String,
    pub icon: Option<String>,
    pub role: Option<GuildRole>,
    pub joined_at: Option<Moment>,
}

impl UserGuild {
    /// Whether the guild is the one on the user's profile: the one held as
    /// founder or member.
    pub open spec fn badge(self) -> bool {
        self.role == Some(GuildRole::Founder) || self.role == Some(GuildRole::Member)
    }

    /// Whether the guild is the one on the user's profile.
    pub fn is_badge(&self) -> (r: bool)
        ensures
            r == self.badge(),
    {
        match self.role {
            Some(GuildRole::Founder) | Some(GuildRole::Member) => true,
            _ => false,
        }
    }
}

proof fn lemma_visible_is_complete(items: Seq<EntryView>, nsfw: bool, n: int, i: int)
    requires
        0 <= i < n <= items.len() <= usize::MAX,
        nsfw || !items[i].is_nsfw,
    ensures
        visible_of(items, nsfw, n).contains(i as usize),
    decreases n,
{
    let all = visible_of(items, nsfw, n);
    if i == n - 1 {
        assert(all[all.len() - 1] == i as usize);
    } else {
        lemma_visible_is_complete(items, nsfw, n - 1, i);
        let less = visible_of(items, nsfw, n - 1);
        let k = choose|k: int| 0 <= k < less.len() && less[k] == i as usize;
        assert(all[k] == i as usize);
    }
}

/// Exactly the entries that may be shown are shown, each once and in their order:
/// all of them where everything is asked for, and else those that are safe for
/// work.
pub proof fn law_all_that_may_be_shown_is_shown(items: Seq<EntryView>, nsfw: bool)
    requires
        items.len() <= usize::MAX,
    ensures
        forall|i: int|
            0 <= i < items.len() ==> ((nsfw || !(#[trigger] items[i]).is_nsfw) <==> visible(
                items,
                nsfw,
            ).contains(i as usize)),
        forall|k: int|
            0 <= k < visible(items, nsfw).len() ==> (#[trigger] visible(items, nsfw)[k])
                < items.len(),
        forall|j: int, k: int|
            0 <= j < k < visible(items, nsfw).len() ==> visible(items, nsfw)[j] < visible(
                items,
                nsfw,
            )[k],
{
    let v = visible(items, nsfw);
    let n = items.len() as int;
    lemma_visible(items, nsfw, n);
    assert forall|i: int| 0 <= i < n implies ((nsfw || !(#[trigger] items[i]).is_nsfw)
        <==> v.contains(i as usize)) by {
        if nsfw || !items[i].is_nsfw {
            lemma_visible_is_complete(items, nsfw, n, i);
        }
        if v.contains(i as usize) {
            let k = choose|k: int| 0 <= k < v.len() && v[k] == i as usize;
            assert(v[k] < n && (nsfw || !items[v[k] as int].is_nsfw));
        }
    }
}

/// Where everything is asked for, the rows are the entries themselves.
pub proof fn law_unfiltered_rows_are_the_entries(items: Seq<EntryView>, k: int)
    requires
        0 <= k < items.len() <= usize::MAX,
    ensures
        visible(items, true).len() == items.len(),
        visible(items, true)[k] == k,
{
    lemma_unfiltered(items, items.len() as int);
}

proof fn lemma_unfiltered(items: Seq<EntryView>, n: int)
    requires
        0 <= n <= items.len() <= usize::MAX,
    ensures
        visible_of(items, true, n).len() == n,
        forall|k: int| 0 <= k < n ==> #[trigger] visible_of(items, true, n)[k] == k,
    decreases n,
{
    if n > 0 {
        lemma_unfiltered(items, n - 1);
    }
}

/// An edit changes each field that it carries to what it carries, and leaves every
/// other as it was; that it was made is marked, and when it was published is not
/// touched.
pub proof fn law_an_edit_changes_what_it_carries(e: EntryView, edit: EntryEdit, now: Moment)
    ensures
        ({
            let r = e.edited(edit, now);
            &&& edit.content is None ==> r.content == e.content
            &&& edit.content matches Some(c) ==> r.content == c@
            &&& edit.title is None ==> r.title == e.title
            &&& edit.title == Some(TitleEdit::Remove) ==> r.title is None
            &&& edit.title matches Some(TitleEdit::Replace(t)) ==> r.title == Some(t@)
            &&& edit.topics is None ==> r.topics == e.topics
            &&& edit.topics matches Some(t) ==> r.topics == t@
            &&& edit.is_public is None ==> r.is_public == e.is_public
            &&& edit.is_public matches Some(b) ==> r.is_public == b
            &&& edit.is_nsfw is None ==> r.is_nsfw == e.is_nsfw
            &&& edit.is_nsfw matches Some(b) ==> r.is_nsfw == b
            &&& edit.attachments is None ==> r.attachments == e.attachments
            &&& edit.attachments matches Some(a) ==> r.attachments == a@
            &&& r.edited_at == Some(now)
            &&& r.created_at == e.created_at && r.post_id == e.post_id && r.author_id
                == e.author_id && r.author_username == e.author_username && r.slug == e.slug
            &&& r.replies_count == e.replies_count && r.bookmarks_count == e.bookmarks_count
        }),
{
}

/// The whole seconds between two moments are what passes between them without the
/// fraction, the other way round with the sign turned, and none from a moment to
/// itself; the clocks they are told by do not matter.
pub proof fn law_elapsed_seconds_drop_the_fraction(a: Moment, b: Moment, offset: i32)
    ensures
        a.since(a) == 0,
        a.since(b) == -b.since(a),
        a.instant() >= b.instant() ==> 0 <= a.instant() - b.instant() - a.since(b) * 1_000_000_000
            < 1_000_000_000,
        (Moment { offset, ..a }).since(b) == a.since(b),
        a.instant() == a.secs * 1_000_000_000 + a.nanos,
        a.local() == a.secs + a.offset,
{
}

/// The guild on a profile is the one held as founder or as member.
pub proof fn law_apprentices_wear_no_badge(g: UserGuild)
    ensures
        g.badge() == (g.role is Some && (g.role->Some_0 is Founder || g.role->Some_0 is Member)),
        g.role == Some(GuildRole::Founder) ==> role_word(g.role) == Some("founder"@),
        g.role == Some(GuildRole::Member) ==> role_word(g.role) == Some("member"@),
        g.role == Some(GuildRole::Apprentice) ==> role_word(g.role) == Some("apprentice"@),
        g.role is None || g.role == Some(GuildRole::Unknown) ==> role_word(g.role) is None,
{
}

} // verus!
