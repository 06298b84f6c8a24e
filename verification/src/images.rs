//! Image discovery for posts, and the bounds on what is held and decoded.
use vstd::prelude::*;

use crate::config::{Config, ImageSharpness};
use crate::markdown::{self, parse, MdEvent};
use crate::model::{Attachment, Entry, Reply};
use crate::strs::{self, decimal_text, same, trim};

verus! {

/// A resampling filter.
#[derive(Debug, Clone, Copy, PartialEq, Eq, Structural)]
pub enum FilterType {
    Triangle,
    CatmullRom,
    Lanczos3,
}

pub open spec fn filter_spec(sharpness: ImageSharpness) -> Option<FilterType> {
    match sharpness {
        ImageSharpness::Crisp => None,
        ImageSharpness::Smooth => Some(FilterType::Triangle),
        ImageSharpness::Medium => Some(FilterType::CatmullRom),
        ImageSharpness::Sharp => Some(FilterType::Lanczos3),
    }
}

/// The resampling filter a given sharpness asks for; `None` is nearest
/// neighbor, the default.
pub fn filter_for(sharpness: ImageSharpness) -> (r: Option<FilterType>)
    ensures
        r == filter_spec(sharpness),
{
    match sharpness {
        ImageSharpness::Crisp => None,
        ImageSharpness::Smooth => Some(FilterType::Triangle),
        ImageSharpness::Medium => Some(FilterType::CatmullRom),
        ImageSharpness::Sharp => Some(FilterType::Lanczos3),
    }
}

/// The resampling filter that the preferences ask for.
pub fn filter(cfg: &Config) -> (r: Option<FilterType>)
    ensures
        r == filter_spec(cfg.image_sharpness),
{
    filter_for(cfg.image_sharpness)
}

// ---------------------------------------------------------------------------
// Discovery.
// ---------------------------------------------------------------------------

/// The list with `url` at its end, unless the URL is blank or already there.
pub open spec fn added(urls: Seq<Seq<char>>, url: Seq<char>) -> Seq<Seq<char>> {
    let u = strs::trimmed(url);
    if u.len() == 0 || urls.contains(u) {
        urls
    } else {
        urls.push(u)
    }
}

/// The image URLs of the first `n` events of a document.
pub open spec fn event_urls(events: Seq<markdown::EventView>, n: int) -> Seq<Seq<char>>
    decreases n,
{
    if n <= 0 {
        Seq::empty()
    } else {
        match events[n - 1] {
            markdown::EventView::Image(url) => added(event_urls(events, n - 1), url),
            _ => event_urls(events, n - 1),
        }
    }
}

/// Those URLs and then the ones of the first `n` attachments.
pub open spec fn all_urls(
    events: Seq<markdown::EventView>,
    attachments: Seq<Attachment>,
    n: int,
) -> Seq<Seq<char>>
    decreases n,
{
    if n <= 0 {
        event_urls(events, events.len() as int)
    } else {
        match attachments[n - 1] {
            Attachment::Image { src, .. } => added(all_urls(events, attachments, n - 1), src@),
            _ => all_urls(events, attachments, n - 1),
        }
    }
}

/// Every image URL a post references: those of its text, then those of its
/// attachments, each once, in order of appearance.
pub open spec fn image_urls(content: Seq<char>, attachments: Seq<Attachment>) -> Seq<Seq<char>> {
    all_urls(markdown::markdown_events(content), attachments, attachments.len() as int)
}

fn add_url(urls: &mut Vec<String>, url: &str)
    ensures
        strs::texts(final(urls)@) == added(strs::texts(old(urls)@), url@),
{
    let u = trim(url);
    let ghost before = strs::texts(urls@);
    if u.as_str().is_empty() {
        return ;
    }
    let mut i: usize = 0;
    while i < urls.len()
        invariant
            i <= urls@.len(),
            urls@ == old(urls)@,
            before == strs::texts(urls@),
            u@ == strs::trimmed(url@),
            forall|k: int| 0 <= k < i ==> before[k] != u@,
        decreases urls@.len() - i,
    {
        if same(urls[i].as_str(), u.as_str()) {
            assert(before[i as int] == u@);
            assert(before.contains(u@));
            return ;
        }
        i = i + 1;
    }
    assert(!before.contains(u@));
    urls.push(u);
    assert(strs::texts(urls@) =~= before.push(u@));
}

/// The image URLs of a document with these events and attachments.
pub fn urls_of_events(events: &Vec<MdEvent>, attachments: &Vec<Attachment>) -> (r: Vec<String>)
    ensures
        strs::texts(r@) == all_urls(
            markdown::event_views(events@),
            attachments@,
            attachments@.len() as int,
        ),
{
    let ghost views = markdown::event_views(events@);
    let mut urls: Vec<String> = Vec::new();
    let mut i: usize = 0;
    assert(strs::texts(urls@) =~= event_urls(views, 0));
    while i < events.len()
        invariant
            i <= events@.len(),
            views == markdown::event_views(events@),
            strs::texts(urls@) == event_urls(views, i as int),
        decreases events@.len() - i,
    {
        if let MdEvent::Image(url) = &events[i] {
            add_url(&mut urls, url.as_str());
        }
        i = i + 1;
    }
    let mut k: usize = 0;
    while k < attachments.len()
        invariant
            k <= attachments@.len(),
            views == markdown::event_views(events@),
            strs::texts(urls@) == all_urls(views, attachments@, k as int),
        decreases attachments@.len() - k,
    {
        if let Attachment::Image { src, .. } = &attachments[k] {
            add_url(&mut urls, src.as_str());
        }
        k = k + 1;
    }
    urls
}

/// Every image URL referenced by `content` followed by `attachments`, each
/// once, in order of appearance.
pub fn collect_image_urls(content: &str, attachments: &Vec<Attachment>) -> (r: Vec<String>)
    ensures
        strs::texts(r@) == image_urls(content@, attachments@),
{
    urls_of_events(&parse(content), attachments)
}

/// Every image URL an entry references.
pub fn entry_image_urls(entry: &Entry) -> (r: Vec<String>)
    ensures
        strs::texts(r@) == image_urls(entry.content@, entry.attachments@),
{
    collect_image_urls(entry.content.as_str(), &entry.attachments)
}

/// Every image URL a reply references.
pub fn reply_image_urls(reply: &Reply) -> (r: Vec<String>)
    ensures
        strs::texts(r@) == image_urls(reply.content@, reply.attachments@),
{
    collect_image_urls(reply.content.as_str(), &reply.attachments)
}

/// Whether a document shows an image.
pub open spec fn shows_image(events: Seq<markdown::EventView>) -> bool {
    exists|i: int| 0 <= i < events.len() && #[trigger] events[i] is Image
}

/// Whether a post carries an image.
pub open spec fn attaches_image(attachments: Seq<Attachment>) -> bool {
    exists|i: int| 0 <= i < attachments.len() && #[trigger] attachments[i] is Image
}

/// Whether anything of a post is an image.
pub open spec fn pictured(events: Seq<markdown::EventView>, attachments: Seq<Attachment>) -> bool {
    attaches_image(attachments) || shows_image(events)
}

/// Whether a document with these events or these attachments has an image.
pub fn any_image(events: &Vec<MdEvent>, attachments: &Vec<Attachment>) -> (r: bool)
    ensures
        r == pictured(markdown::event_views(events@), attachments@),
{
    let mut k: usize = 0;
    while k < attachments.len()
        invariant
            k <= attachments@.len(),
            forall|j: int| 0 <= j < k ==> !(#[trigger] attachments@[j] is Image),
        decreases attachments@.len() - k,
    {
        if let Attachment::Image { .. } = &attachments[k] {
            assert(attachments@[k as int] is Image);
            return true;
        }
        k = k + 1;
    }
    let ghost views = markdown::event_views(events@);
    let mut i: usize = 0;
    while i < events.len()
        invariant
            i <= events@.len(),
            views == markdown::event_views(events@),
            forall|j: int| 0 <= j < i ==> !(#[trigger] views[j] is Image),
        decreases events@.len() - i,
    {
        if let MdEvent::Image(_) = &events[i] {
            assert(views[i as int] is Image);
            return true;
        }
        i = i + 1;
    }
    false
}

/// Whether an entry references any image, in its text or as an attachment.
pub fn has_image(entry: &Entry) -> (r: bool)
    ensures
        r == pictured(markdown::markdown_events(entry.content@), entry.attachments@),
{
    any_image(&parse(entry.content.as_str()), &entry.attachments)
}

// ---------------------------------------------------------------------------
// The cache.
// ---------------------------------------------------------------------------

/// Largest number of images one screen keeps.
pub const MAX_CACHED_IMAGES: usize = 24;

/// Values by URL, each URL once, the newest last.
#[derive(Debug)]
pub struct ImageCache<V> {
    entries: Vec<(String, V)>,
}

pub open spec fn keys<V>(entries: Seq<(String, V)>) -> Seq<Seq<char>> {
    Seq::new(entries.len(), |i: int| entries[i].0@)
}

impl<V> View for ImageCache<V> {
    type V = Seq<(String, V)>;

    closed spec fn view(&self) -> Seq<(String, V)> {
        self.entries@
    }
}

/// The value remembered for `url` from entry `i` on.
pub open spec fn lookup<V>(entries: Seq<(String, V)>, url: Seq<char>, i: int) -> Option<V>
    decreases entries.len() - i,
{
    if i < 0 || i >= entries.len() {
        None
    } else if entries[i].0@ == url {
        Some(entries[i].1)
    } else {
        lookup(entries, url, i + 1)
    }
}

/// The entries without the one at `url`.
pub open spec fn without<V>(entries: Seq<(String, V)>, url: Seq<char>) -> Seq<(String, V)>
    decreases entries.len(),
{
    if entries.len() == 0 {
        entries
    } else if entries.last().0@ == url {
        without(entries.drop_last(), url)
    } else {
        without(entries.drop_last(), url).push(entries.last())
    }
}

/// The entries after an image is stored: it is the newest, and the only one under its
/// URL.
pub open spec fn stored<V>(entries: Seq<(String, V)>, url: String, value: V) -> Seq<(String, V)> {
    without(entries, url@).push((url, value))
}

/// The newest entries whose URL is kept, `room` of them at most.
pub open spec fn survivors<V>(entries: Seq<(String, V)>, keep: Seq<Seq<char>>, room: int) -> Seq<
    (String, V),
>
    decreases entries.len(),
{
    if entries.len() == 0 || room <= 0 {
        Seq::empty()
    } else if keep.contains(entries.last().0@) {
        survivors(entries.drop_last(), keep, room - 1).push(entries.last())
    } else {
        survivors(entries.drop_last(), keep, room)
    }
}

/// The cache after eviction: unchanged under the cap, else the newest of the
/// entries to keep.
pub open spec fn evicted<V>(entries: Seq<(String, V)>, keep: Seq<Seq<char>>) -> Seq<(String, V)> {
    if entries.len() <= MAX_CACHED_IMAGES {
        entries
    } else {
        survivors(entries, keep, MAX_CACHED_IMAGES as int)
    }
}

/// Whether `url` is one of `keep`.
fn listed(keep: &Vec<String>, url: &str) -> (r: bool)
    ensures
        r == strs::texts(keep@).contains(url@),
{
    let ghost all = strs::texts(keep@);
    let mut i: usize = 0;
    while i < keep.len()
        invariant
            i <= keep@.len(),
            all == strs::texts(keep@),
            forall|k: int| 0 <= k < i ==> all[k] != url@,
        decreases keep@.len() - i,
    {
        if same(keep[i].as_str(), url) {
            assert(all[i as int] == url@);
            return true;
        }
        i = i + 1;
    }
    false
}

fn keep_newest<V>(entries: &mut Vec<(String, V)>, keep: &Vec<String>, room: usize) -> (r: Vec<
    (String, V),
>)
    ensures
        r@ == survivors(old(entries)@, strs::texts(keep@), room as int),
    decreases old(entries)@.len(),
{
    if room == 0 {
        return Vec::new();
    }
    match entries.pop() {
        None => Vec::new(),
        Some(e) => {
            if listed(keep, e.0.as_str()) {
                let mut r = keep_newest(entries, keep, room - 1);
                r.push(e);
                r
            } else {
                keep_newest(entries, keep, room)
            }
        },
    }
}

fn take_out<V>(entries: &mut Vec<(String, V)>, url: &str) -> (r: Vec<(String, V)>)
    ensures
        r@ == without(old(entries)@, url@),
    decreases old(entries)@.len(),
{
    match entries.pop() {
        None => Vec::new(),
        Some(e) => {
            let mut r = take_out(entries, url);
            if !same(e.0.as_str(), url) {
                r.push(e);
            }
            r
        },
    }
}

impl<V> ImageCache<V> {
    pub fn new() -> (r: ImageCache<V>)
        ensures
            r@ == Seq::<(String, V)>::empty(),
    {
        ImageCache { entries: Vec::new() }
    }

    pub fn len(&self) -> (r: usize)
        ensures
            r == self@.len(),
    {
        self.entries.len()
    }

    /// Remember a value, in the place of any earlier one for the URL.
    pub fn insert(&mut self, url: String, value: V)
        ensures
            final(self)@ == stored(old(self)@, url, value),
    {
        let mut rest = take_out(&mut self.entries, url.as_str());
        rest.push((url, value));
        self.entries = rest;
    }

    pub fn contains(&self, url: &str) -> (r: bool)
        ensures
            r == keys(self@).contains(url@),
    {
        let ghost all = keys(self@);
        let mut i: usize = 0;
        while i < self.entries.len()
            invariant
                i <= self.entries@.len(),
                all == keys(self.entries@),
                forall|k: int| 0 <= k < i ==> all[k] != url@,
            decreases self.entries@.len() - i,
        {
            if same(self.entries[i].0.as_str(), url) {
                assert(all[i as int] == url@);
                return true;
            }
            i = i + 1;
        }
        false
    }

    /// The value remembered for `url`.
    pub fn get(&self, url: &str) -> (r: Option<&V>)
        ensures
            match r {
                Some(v) => lookup(self@, url@, 0) == Some(*v),
                None => lookup(self@, url@, 0) is None,
            },
            r is Some <==> keys(self@).contains(url@),
    {
        let ghost all = keys(self@);
        let mut i: usize = 0;
        while i < self.entries.len()
            invariant
                i <= self.entries@.len(),
                self@ == self.entries@,
                all == keys(self.entries@),
                forall|k: int| 0 <= k < i ==> all[k] != url@,
                lookup(self@, url@, 0) == lookup(self@, url@, i as int),
            decreases self.entries@.len() - i,
        {
            if same(self.entries[i].0.as_str(), url) {
                assert(all[i as int] == url@);
                return Some(&self.entries[i].1);
            }
            i = i + 1;
        }
        None
    }
}

/// Drop entries from an image cache until it is back under the cap: those not
/// in `keep`, the URLs reachable on screen, and of the rest the oldest.
pub fn evict_to_cap<V>(cache: &mut ImageCache<V>, keep: &Vec<String>)
    ensures
        final(cache)@ == evicted(old(cache)@, strs::texts(keep@)),
{
    if cache.entries.len() <= MAX_CACHED_IMAGES {
        return ;
    }
    let kept = keep_newest(&mut cache.entries, keep, MAX_CACHED_IMAGES);
    cache.entries = kept;
}

// ---------------------------------------------------------------------------
// Decoding.
// ---------------------------------------------------------------------------

/// Largest image to hold or decode, in bytes of the encoded file.
pub const MAX_IMAGE_BYTES: usize = 8388608;

/// Largest decoded pixel count to allocate for.
pub const MAX_IMAGE_PIXELS: u64 = 40_000_000;

/// The pixel dimensions an image file's header gives.
pub uninterp spec fn header_dimensions(bytes: Seq<u8>) -> Option<(u32, u32)>;

/// `image::ImageReader` reading an image's dimensions from its header: they
/// depend on the bytes alone and are named [`header_dimensions`]. `None` when
/// the bytes are not a recognizable image.
#[verifier::external_body]
pub fn probe_dimensions(bytes: &[u8]) -> (r: Option<(u32, u32)>)
    ensures
        r == header_dimensions(bytes@),
{
    image::ImageReader::new(std::io::Cursor::new(bytes))
        .with_guessed_format()
        .ok()?
        .into_dimensions()
        .ok()
}

/// A decoded image.
#[verifier::external_type_specification]
#[verifier::external_body]
pub struct ExDynamicImage(image::DynamicImage);

/// What an image file decodes to, or the message of the failure.
pub uninterp spec fn decoded(bytes: Seq<u8>) -> Result<image::DynamicImage, Seq<char>>;

/// Whether a decoding came out as `expected` says.
pub open spec fn comes_out(
    r: Result<image::DynamicImage, String>,
    expected: Result<image::DynamicImage, Seq<char>>,
) -> bool {
    match r {
        Ok(picture) => expected == Ok::<image::DynamicImage, Seq<char>>(picture),
        Err(e) => expected == Err::<image::DynamicImage, Seq<char>>(e@),
    }
}

/// `image::load_from_memory`: the picture, or the message of the failure,
/// depends on the bytes alone and is named [`decoded`].
#[verifier::external_body]
pub(crate) fn decode(bytes: &[u8]) -> (r: Result<image::DynamicImage, String>)
    ensures
        comes_out(r, decoded(bytes@)),
{
    image::load_from_memory(bytes).map_err(|e| e.to_string())
}

/// Why an image of that many bytes and of those dimensions is refused before
/// anything allocates room for its pixels.
pub open spec fn refusal(len: nat, dimensions: Option<(u32, u32)>) -> Option<Seq<char>> {
    if len > MAX_IMAGE_BYTES {
        Some("image is "@ + strs::decimal(len) + " bytes, over the cap"@)
    } else {
        match dimensions {
            Some((w, h)) => if w * h > MAX_IMAGE_PIXELS {
                Some(
                    "image is "@ + strs::decimal(w as nat) + "x"@ + strs::decimal(h as nat)
                        + ", over the pixel cap"@,
                )
            } else {
                None
            },
            None => None,
        }
    }
}

/// Refuse an image that is too large, by its file size or its dimensions.
pub fn check_bounds(len: usize, dimensions: Option<(u32, u32)>) -> (r: Option<String>)
    ensures
        strs::opt_text(r) == refusal(len as nat, dimensions),
{
    if len > MAX_IMAGE_BYTES {
        let mut s = "image is ".to_owned();
        s.append(decimal_text(len as u64).as_str());
        s.append(" bytes, over the cap");
        return Some(s);
    }
    if let Some((w, h)) = dimensions {
        assert(w * h <= u32::MAX * u32::MAX) by (nonlinear_arith)
            requires
                0 <= w <= u32::MAX,
                0 <= h <= u32::MAX,
        ;
        let pixels: u64 = w as u64 * h as u64;
        if pixels > MAX_IMAGE_PIXELS {
            let mut s = "image is ".to_owned();
            s.append(decimal_text(w as u64).as_str());
            s.append("x");
            s.append(decimal_text(h as u64).as_str());
            s.append(", over the pixel cap");
            return Some(s);
        }
    }
    None
}

/// What an image of `len` bytes comes to, by the dimensions that its header gives and
/// by what it decodes to.
pub open spec fn bounded(
    len: nat,
    dimensions: Option<(u32, u32)>,
    picture: Result<image::DynamicImage, Seq<char>>,
) -> Result<image::DynamicImage, Seq<char>> {
    match refusal(len, dimensions) {
        Some(msg) => Err(msg),
        None => picture,
    }
}

/// Decode `bytes` into an image, refusing anything oversized.
pub fn decode_bounded(bytes: &[u8]) -> (r: Result<image::DynamicImage, String>)
    ensures
        comes_out(r, bounded(bytes@.len(), header_dimensions(bytes@), decoded(bytes@))),
{
    if bytes.len() > MAX_IMAGE_BYTES {
        return match check_bounds(bytes.len(), None) {
            Some(e) => Err(e),
            None => decode(bytes),
        };
    }
    match check_bounds(bytes.len(), probe_dimensions(bytes)) {
        Some(e) => Err(e),
        None => decode(bytes),
    }
}

// ---------------------------------------------------------------------------
// Laws.
// ---------------------------------------------------------------------------

/// No URL is listed twice or blank.
pub proof fn law_image_urls_are_distinct(
    events: Seq<markdown::EventView>,
    attachments: Seq<Attachment>,
    n: int,
)
    requires
        0 <= n <= attachments.len(),
    ensures
        all_urls(events, attachments, n).no_duplicates(),
        forall|k: int|
            0 <= k < all_urls(events, attachments, n).len() ==> (#[trigger] all_urls(
                events,
                attachments,
                n,
            )[k]).len() > 0,
    decreases n,
{
    if n > 0 {
        law_image_urls_are_distinct(events, attachments, n - 1);
    } else {
        lemma_event_urls_distinct(events, events.len() as int);
    }
}

proof fn lemma_event_urls_distinct(events: Seq<markdown::EventView>, n: int)
    requires
        0 <= n <= events.len(),
    ensures
        event_urls(events, n).no_duplicates(),
        forall|k: int|
            0 <= k < event_urls(events, n).len() ==> (#[trigger] event_urls(events, n)[k]).len()
                > 0,
    decreases n,
{
    if n > 0 {
        lemma_event_urls_distinct(events, n - 1);
    }
}

proof fn lemma_survivors_bounded<V>(
    entries: Seq<(String, V)>,
    keep: Seq<Seq<char>>,
    room: int,
)
    requires
        0 <= room,
    ensures
        survivors(entries, keep, room).len() <= room,
        forall|k: int|
            0 <= k < survivors(entries, keep, room).len() ==> keep.contains(
                (#[trigger] survivors(entries, keep, room)[k]).0@,
            ),
    decreases entries.len(),
{
    if entries.len() > 0 && room > 0 {
        if keep.contains(entries.last().0@) {
            lemma_survivors_bounded(entries.drop_last(), keep, room - 1);
        } else {
            lemma_survivors_bounded(entries.drop_last(), keep, room);
        }
    }
}

/// Eviction brings a cache back under the cap, and a cache that was over it
/// keeps only what is reachable on screen.
pub proof fn law_eviction_keeps_the_cap<V>(entries: Seq<(String, V)>, keep: Seq<Seq<char>>)
    ensures
        evicted(entries, keep).len() <= MAX_CACHED_IMAGES,
        entries.len() > MAX_CACHED_IMAGES ==> forall|k: int|
            0 <= k < evicted(entries, keep).len() ==> keep.contains(
                (#[trigger] evicted(entries, keep)[k]).0@,
            ),
{
    lemma_survivors_bounded(entries, keep, MAX_CACHED_IMAGES as int);
}

proof fn lemma_without<V>(entries: Seq<(String, V)>, url: Seq<char>)
    ensures
        !keys(without(entries, url)).contains(url),
    decreases entries.len(),
{
    if entries.len() > 0 {
        lemma_without(entries.drop_last(), url);
        let rest = without(entries.drop_last(), url);
        if entries.last().0@ != url {
            assert forall|k: int| 0 <= k < without(entries, url).len() implies keys(
                without(entries, url),
            )[k] != url by {
                if k < rest.len() {
                    assert(keys(rest)[k] != url);
                }
            }
        }
    }
}

/// A value is found again under its URL after it was inserted, and there is
/// only one for the URL.
pub proof fn law_cache_gives_back_what_was_inserted<V>(
    entries: Seq<(String, V)>,
    url: String,
    value: V,
)
    ensures
        ({
            let after = without(entries, url@).push((url, value));
            &&& keys(after).contains(url@)
            &&& forall|k: int|
                0 <= k < after.len() && (#[trigger] after[k]).0@ == url@ ==> after[k].1 == value
        }),
{
    lemma_without(entries, url@);
    let rest = without(entries, url@);
    let after = rest.push((url, value));
    assert(keys(after)[after.len() - 1] == url@);
    assert forall|k: int| 0 <= k < after.len() && (#[trigger] after[k]).0@ == url@ implies after[k].1
        == value by {
        if k < rest.len() {
            assert(keys(rest)[k] == url@);
        }
    }
}

/// Every image of the text, and every attached one, is listed under its trimmed URL, and
/// nothing else is; what the text shows comes before what is only attached.
pub proof fn law_every_image_is_listed(
    events: Seq<markdown::EventView>,
    attachments: Seq<Attachment>,
    u: Seq<char>,
    i: int,
)
    ensures
        ({
            let urls = all_urls(events, attachments, attachments.len() as int);
            &&& 0 <= i < events.len() ==> (events[i] matches markdown::EventView::Image(url)
                ==> strs::trimmed(url).len() > 0 ==> urls.contains(strs::trimmed(url)))
            &&& 0 <= i < attachments.len() ==> (attachments[i] matches Attachment::Image { src, .. }
                ==> strs::trimmed(src@).len() > 0 ==> urls.contains(strs::trimmed(src@)))
            &&& urls.contains(u) ==> (exists|k: int|
                0 <= k < events.len() && is_image_at(events, k, u)) || (exists|k: int|
                0 <= k < attachments.len() && is_attached_at(attachments, k, u))
            &&& urls.take(event_urls(events, events.len() as int).len() as int) == event_urls(
                events,
                events.len() as int,
            )
        }),
{
    lemma_shown_urls(events, events.len() as int, u, i);
    lemma_listed_urls(events, attachments, attachments.len() as int, u, i);
}

/// Whether the event at `k` is an image at the trimmed URL `u`.
pub open spec fn is_image_at(events: Seq<markdown::EventView>, k: int, u: Seq<char>) -> bool {
    events[k] matches markdown::EventView::Image(url) && strs::trimmed(url) == u
}

/// Whether the attachment at `k` is an image at the trimmed URL `u`.
pub open spec fn is_attached_at(attachments: Seq<Attachment>, k: int, u: Seq<char>) -> bool {
    attachments[k] matches Attachment::Image { src, .. } && strs::trimmed(src@) == u
}

proof fn lemma_added(urls: Seq<Seq<char>>, url: Seq<char>, u: Seq<char>)
    ensures
        strs::trimmed(url).len() > 0 ==> added(urls, url).contains(strs::trimmed(url)),
        urls.contains(u) ==> added(urls, url).contains(u),
        added(urls, url).contains(u) ==> urls.contains(u) || u == strs::trimmed(url),
        urls.len() <= added(urls, url).len(),
        added(urls, url).take(urls.len() as int) == urls,
{
    let t = strs::trimmed(url);
    assert(added(urls, url).take(urls.len() as int) =~= urls);
    if t.len() > 0 && !urls.contains(t) {
        assert(urls.push(t)[urls.len() as int] == t);
        if urls.contains(u) {
            let k = choose|k: int| 0 <= k < urls.len() && urls[k] == u;
            assert(urls.push(t)[k] == u);
        }
    }
}

proof fn lemma_shown_urls(events: Seq<markdown::EventView>, n: int, u: Seq<char>, i: int)
    requires
        0 <= n <= events.len(),
    ensures
        0 <= i < n ==> (events[i] matches markdown::EventView::Image(url) ==> strs::trimmed(
            url,
        ).len() > 0 ==> event_urls(events, n).contains(strs::trimmed(url))),
        event_urls(events, n).contains(u) ==> exists|k: int|
            0 <= k < events.len() && is_image_at(events, k, u),
    decreases n,
{
    if n > 0 {
        let before = event_urls(events, n - 1);
        lemma_shown_urls(events, n - 1, u, i);
        if let markdown::EventView::Image(url) = events[n - 1] {
            lemma_added(before, url, u);
            if 0 <= i < n - 1 {
                if let markdown::EventView::Image(o) = events[i] {
                    lemma_added(before, url, strs::trimmed(o));
                }
            }
            if event_urls(events, n).contains(u) && !before.contains(u) {
                assert(is_image_at(events, n - 1, u));
            }
        }
    }
}

proof fn lemma_listed_urls(
    events: Seq<markdown::EventView>,
    attachments: Seq<Attachment>,
    n: int,
    u: Seq<char>,
    i: int,
)
    requires
        0 <= n <= attachments.len(),
    ensures
        ({
            let shown = event_urls(events, events.len() as int);
            let urls = all_urls(events, attachments, n);
            &&& shown.len() <= urls.len() && urls.take(shown.len() as int) == shown
            &&& shown.contains(u) ==> urls.contains(u)
            &&& 0 <= i < events.len() ==> (events[i] matches markdown::EventView::Image(url)
                ==> shown.contains(strs::trimmed(url)) ==> urls.contains(strs::trimmed(url)))
            &&& 0 <= i < n ==> (attachments[i] matches Attachment::Image { src, .. }
                ==> strs::trimmed(src@).len() > 0 ==> urls.contains(strs::trimmed(src@)))
            &&& urls.contains(u) ==> shown.contains(u) || (exists|k: int|
                0 <= k < attachments.len() && is_attached_at(attachments, k, u))
        }),
    decreases n,
{
    let shown = event_urls(events, events.len() as int);
    if n > 0 {
        let before = all_urls(events, attachments, n - 1);
        lemma_listed_urls(events, attachments, n - 1, u, i);
        if let Attachment::Image { src, .. } = attachments[n - 1] {
            lemma_added(before, src@, u);
            let urls = all_urls(events, attachments, n);
            assert(urls.take(shown.len() as int) =~= urls.take(before.len() as int).take(
                shown.len() as int,
            ));
            if 0 <= i < n - 1 {
                if let Attachment::Image { src: o, .. } = attachments[i] {
                    lemma_added(before, src@, strs::trimmed(o@));
                }
            }
            if 0 <= i < events.len() {
                if let markdown::EventView::Image(o) = events[i] {
                    lemma_added(before, src@, strs::trimmed(o));
                }
            }
            if urls.contains(u) && !before.contains(u) {
                assert(is_attached_at(attachments, n - 1, u));
            }
        }
    } else {
        assert(shown.take(shown.len() as int) =~= shown);
    }
}

/// A post with an image URL has an image, and one whose images all have a URL has one
/// listed exactly when it has an image.
pub proof fn law_listed_images_are_images(
    events: Seq<markdown::EventView>,
    attachments: Seq<Attachment>,
)
    ensures
        all_urls(events, attachments, attachments.len() as int).len() > 0 ==> pictured(
            events,
            attachments,
        ),
        pictured(events, attachments) == ((exists|i: int|
            0 <= i < events.len() && #[trigger] events[i] is Image) || (exists|i: int|
            0 <= i < attachments.len() && #[trigger] attachments[i] is Image)),
{
    let urls = all_urls(events, attachments, attachments.len() as int);
    if urls.len() > 0 {
        let u = urls[0];
        law_every_image_is_listed(events, attachments, u, 0);
        assert(urls.contains(u));
        if exists|k: int| 0 <= k < events.len() && is_image_at(events, k, u) {
            let k = choose|k: int| 0 <= k < events.len() && is_image_at(events, k, u);
            assert(events[k] is Image);
        } else {
            let k = choose|k: int|
                0 <= k < attachments.len() && is_attached_at(attachments, k, u);
            assert(attachments[k] is Image);
        }
    }
}

/// An image that is stored is found under its URL, the others are found as before, and
/// it is the newest.
pub proof fn law_stored_images_are_found<V>(
    entries: Seq<(String, V)>,
    url: String,
    value: V,
    other: Seq<char>,
)
    ensures
        lookup(stored(entries, url, value), url@, 0) == Some(value),
        other != url@ ==> lookup(stored(entries, url, value), other, 0) == lookup(
            entries,
            other,
            0,
        ),
        stored(entries, url, value).last() == (url, value),
{
    let rest = without(entries, url@);
    let after = stored(entries, url, value);
    assert(after.drop_last() =~= rest);
    lemma_without(entries, url@);
    lemma_lookup_last(after, url@, 0);
    if lookup(rest, url@, 0) is Some {
        lemma_lookup_key(rest, url@, 0);
    }
    if other != url@ {
        lemma_lookup_last(after, other, 0);
        lemma_lookup_without(entries, url@, other);
    }
}

proof fn lemma_lookup_key<V>(entries: Seq<(String, V)>, url: Seq<char>, i: int)
    requires
        0 <= i,
    ensures
        lookup(entries, url, i) is Some ==> keys(entries).contains(url),
    decreases entries.len() - i,
{
    if i < entries.len() {
        if entries[i].0@ == url {
            assert(keys(entries)[i] == url);
        } else {
            lemma_lookup_key(entries, url, i + 1);
        }
    }
}

/// What is found among the entries is found before the last, or is the last.
proof fn lemma_lookup_last<V>(entries: Seq<(String, V)>, url: Seq<char>, i: int)
    requires
        0 <= i < entries.len(),
    ensures
        lookup(entries, url, i) == (if lookup(entries.drop_last(), url, i) is Some {
            lookup(entries.drop_last(), url, i)
        } else if entries.last().0@ == url {
            Some(entries.last().1)
        } else {
            None
        }),
    decreases entries.len() - i,
{
    reveal_with_fuel(lookup, 2);
    if i < entries.len() - 1 {
        lemma_lookup_last(entries, url, i + 1);
    }
}

proof fn lemma_lookup_without<V>(entries: Seq<(String, V)>, url: Seq<char>, other: Seq<char>)
    requires
        other != url,
    ensures
        lookup(without(entries, url), other, 0) == lookup(entries, other, 0),
    decreases entries.len(),
{
    if entries.len() > 0 {
        lemma_lookup_without(entries.drop_last(), url, other);
        lemma_lookup_last(entries, other, 0);
        let rest = without(entries.drop_last(), url);
        if entries.last().0@ != url {
            let all = rest.push(entries.last());
            assert(all.drop_last() =~= rest);
            lemma_lookup_last(all, other, 0);
        }
    }
}

/// How many of the entries from `i` on are to be kept.
pub open spec fn wanted_from<V>(entries: Seq<(String, V)>, keep: Seq<Seq<char>>, i: int) -> int
    decreases entries.len() - i,
{
    if i < 0 || i >= entries.len() {
        0
    } else {
        wanted_from(entries, keep, i + 1) + (if keep.contains(entries[i].0@) {
            1int
        } else {
            0
        })
    }
}

proof fn lemma_wanted_last<V>(entries: Seq<(String, V)>, keep: Seq<Seq<char>>, i: int)
    requires
        0 <= i < entries.len(),
    ensures
        wanted_from(entries, keep, i) == wanted_from(entries.drop_last(), keep, i) + (
        if keep.contains(entries.last().0@) {
            1int
        } else {
            0
        }),
    decreases entries.len() - i,
{
    reveal_with_fuel(wanted_from, 2);
    if i < entries.len() - 1 {
        lemma_wanted_last(entries, keep, i + 1);
    }
}

proof fn lemma_survivor<V>(entries: Seq<(String, V)>, keep: Seq<Seq<char>>, room: int, i: int)
    requires
        0 <= i < entries.len(),
        keep.contains(entries[i].0@),
        wanted_from(entries, keep, i) <= room,
    ensures
        survivors(entries, keep, room).contains(entries[i]),
    decreases entries.len(),
{
    let front = entries.drop_last();
    lemma_wanted_last(entries, keep, i);
    lemma_wanted_nonneg(front, keep, i);
    let all = survivors(entries, keep, room);
    if i == entries.len() - 1 {
        assert(all.last() == entries[i]);
    } else {
        if keep.contains(entries.last().0@) {
            lemma_survivor(front, keep, room - 1, i);
            let rest = survivors(front, keep, room - 1);
            let k = choose|k: int| 0 <= k < rest.len() && rest[k] == entries[i];
            assert(all[k] == entries[i]);
        } else {
            lemma_survivor(front, keep, room, i);
        }
    }
}

proof fn lemma_wanted_nonneg<V>(entries: Seq<(String, V)>, keep: Seq<Seq<char>>, i: int)
    ensures
        wanted_from(entries, keep, i) >= 0,
        0 <= i < entries.len() && keep.contains(entries[i].0@) ==> wanted_from(entries, keep, i)
            >= 1,
    decreases entries.len() - i,
{
    if 0 <= i < entries.len() {
        lemma_wanted_nonneg(entries, keep, i + 1);
    }
}

/// A cache of at most 24 images loses none; a larger one keeps, of those that are still
/// wanted, the 24 newest.
pub proof fn law_eviction_keeps_the_newest_wanted<V>(
    entries: Seq<(String, V)>,
    keep: Seq<Seq<char>>,
    i: int,
)
    ensures
        entries.len() <= 24 ==> evicted(entries, keep) == entries,
        0 <= i < entries.len() && keep.contains(entries[i].0@) && wanted_from(entries, keep, i)
            <= 24 ==> evicted(entries, keep).contains(entries[i]),
{
    if 0 <= i < entries.len() && keep.contains(entries[i].0@) && wanted_from(entries, keep, i)
        <= 24 {
        if entries.len() > 24 {
            lemma_survivor(entries, keep, 24, i);
        } else {
            assert(entries[i] == evicted(entries, keep)[i]);
        }
    }
}

/// An image of more than 8 MiB, or of more than 40 million pixels, is refused unread;
/// any other is what it decodes to.
pub proof fn law_large_images_are_refused(
    len: nat,
    dimensions: Option<(u32, u32)>,
    picture: Result<image::DynamicImage, Seq<char>>,
)
    ensures
        len > 8_388_608 ==> bounded(len, dimensions, picture) is Err,
        dimensions matches Some((w, h)) ==> w * h > 40_000_000 ==> bounded(
            len,
            dimensions,
            picture,
        ) is Err,
        len <= 8_388_608 && dimensions is None ==> bounded(len, dimensions, picture) == picture,
        dimensions matches Some((w, h)) ==> len <= 8_388_608 ==> w * h <= 40_000_000 ==> bounded(
            len,
            dimensions,
            picture,
        ) == picture,
{
}

/// Only a crisp image is not resampled, and no two of the others are resampled alike.
pub proof fn law_sharpness_chooses_the_filter(a: ImageSharpness, b: ImageSharpness)
    ensures
        (filter_spec(a) is None) == (a is Crisp),
        filter_spec(a) == filter_spec(b) ==> a == b,
        a is Smooth ==> filter_spec(a) == Some(FilterType::Triangle),
        a is Sharp ==> filter_spec(a) == Some(FilterType::Lanczos3),
{
}

} // verus!
