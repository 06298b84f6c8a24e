//! Shuffle mode: continuous random jukebox playback.
//!
//! The pool of candidates fills from the pages that are browsed anyway and from
//! background walks of the global feed. A walk that finds nothing new marks the
//! pool dry, so that the same pages are not walked again and again.
use vstd::prelude::*;

use std::collections::hash_map::{DefaultHasher, RandomState};
use std::hash::{BuildHasher, Hasher};

use crate::audio::{self, jukebox_track, JukeboxTrack};
use crate::model::Entry;
use crate::strs::{self, push_text, same};

verus! {

/// How many recently played tracks are avoided.
pub const RECENT_CAP: usize = 8;

/// How many tracks the pool holds at most.
pub const POOL_CAP: usize = 500;

/// The pool is refilled when it holds fewer tracks than this.
pub const REFILL_BELOW: usize = 10;

/// How many pages of the global feed one walk may fetch.
pub const REFILL_MAX_PAGES: usize = 4;

/// A walk stops once it has found this many tracks.
pub const REFILL_TARGET: usize = 20;

/// The tracks to pick from, and the bookkeeping around the refills.
#[derive(Debug)]
pub struct ShufflePool {
    /// The candidates, no two with one URL.
    pub tracks: Vec<JukeboxTrack>,
    /// Every URL that was ever admitted, also of tracks that were evicted.
    pub seen: Vec<String>,
    /// The URLs played most recently, the newest last.
    pub recent: Vec<String>,
    /// Where the next walk resumes in the global feed.
    pub cursor: Option<String>,
    /// A walk is on its way.
    pub fetch_inflight: bool,
    /// Playback starts as soon as the walk delivers.
    pub pending_play: bool,
    /// The last walk added nothing new.
    pub refill_dry: bool,
}

/// What a [`ShufflePool`] holds.
#[verifier::ext_equal]
pub struct PoolView {
    pub tracks: Seq<JukeboxTrack>,
    pub seen: Seq<Seq<char>>,
    pub recent: Seq<Seq<char>>,
    pub cursor: Option<Seq<char>>,
    pub fetch_inflight: bool,
    pub pending_play: bool,
    pub refill_dry: bool,
}

impl View for ShufflePool {
    type V = PoolView;

    open spec fn view(&self) -> PoolView {
        PoolView {
            tracks: self.tracks@,
            seen: strs::texts(self.seen@),
            recent: strs::texts(self.recent@),
            cursor: strs::opt_text(self.cursor),
            fetch_inflight: self.fetch_inflight,
            pending_play: self.pending_play,
            refill_dry: self.refill_dry,
        }
    }
}

impl PoolView {
    pub open spec fn empty() -> PoolView {
        PoolView {
            tracks: Seq::empty(),
            seen: Seq::empty(),
            recent: Seq::empty(),
            cursor: None,
            fetch_inflight: false,
            pending_play: false,
            refill_dry: false,
        }
    }

    /// What every pool keeps: no more tracks than fit, each of them seen, no two
    /// of them with one URL, and no more recent ones than are avoided.
    pub open spec fn wf(self) -> bool {
        &&& self.tracks.len() <= POOL_CAP
        &&& self.recent.len() <= RECENT_CAP
        &&& forall|i: int|
            0 <= i < self.tracks.len() ==> self.seen.contains(#[trigger] self.tracks[i].url@)
        &&& forall|i: int, j: int|
            0 <= i < j < self.tracks.len() ==> #[trigger] self.tracks[i].url@
                != #[trigger] self.tracks[j].url@
    }

    /// The pool after one track was offered: taken when there is room and its
    /// URL was never seen.
    pub open spec fn offered(self, t: JukeboxTrack) -> PoolView {
        if self.tracks.len() >= POOL_CAP || self.seen.contains(t.url@) {
            self
        } else {
            PoolView { tracks: self.tracks.push(t), seen: self.seen.push(t.url@), ..self }
        }
    }

    /// The pool after the first `n` tracks were offered.
    pub open spec fn offered_all(self, tracks: Seq<JukeboxTrack>, n: int) -> PoolView
        decreases n,
    {
        if n <= 0 {
            self
        } else {
            self.offered_all(tracks, n - 1).offered(tracks[n - 1])
        }
    }

    /// The pool after tracks were added: a new one means it is not dry.
    pub open spec fn with_tracks(self, tracks: Seq<JukeboxTrack>) -> PoolView {
        let after = self.offered_all(tracks, tracks.len() as int);
        if after.tracks.len() > self.tracks.len() {
            PoolView { refill_dry: false, ..after }
        } else {
            after
        }
    }

    /// How many of the tracks were new.
    pub open spec fn new_among(self, tracks: Seq<JukeboxTrack>) -> int {
        self.offered_all(tracks, tracks.len() as int).tracks.len() - self.tracks.len()
    }

    pub open spec fn refillable(self) -> bool {
        self.tracks.len() < REFILL_BELOW && !self.fetch_inflight && !self.refill_dry
    }

    /// Whether the track at `i` may be picked: it is not the current one, and,
    /// where only fresh ones may be, was not played recently.
    pub open spec fn may_pick(self, i: int, current: Option<Seq<char>>, fresh: bool) -> bool {
        current != Some(self.tracks[i].url@) && (!fresh || !self.recent.contains(
            self.tracks[i].url@,
        ))
    }

    /// The tracks among the first `n` that may be picked, in order.
    pub open spec fn pickable(self, current: Option<Seq<char>>, fresh: bool, n: int) -> Seq<usize>
        decreases n,
    {
        if n <= 0 {
            Seq::empty()
        } else if self.may_pick(n - 1, current, fresh) {
            self.pickable(current, fresh, n - 1).push((n - 1) as usize)
        } else {
            self.pickable(current, fresh, n - 1)
        }
    }

    /// The candidates of a pick: the fresh ones, or else all but the current
    /// one, or else all.
    pub open spec fn candidates(self, current: Option<Seq<char>>) -> Seq<usize> {
        let n = self.tracks.len() as int;
        let fresh = self.pickable(current, true, n);
        let others = self.pickable(current, false, n);
        if fresh.len() > 0 {
            fresh
        } else if others.len() > 0 {
            others
        } else {
            Seq::new(self.tracks.len(), |i: int| i as usize)
        }
    }

    /// The track that a seed picks.
    pub open spec fn choice(self, current: Option<Seq<char>>, seed: u64) -> int {
        let c = self.candidates(current);
        c[seed as int % c.len() as int] as int
    }

    /// The pool after a URL was played.
    pub open spec fn played(self, url: Seq<char>) -> PoolView {
        let all = self.recent.push(url);
        PoolView {
            recent: if all.len() > RECENT_CAP {
                all.skip(all.len() - RECENT_CAP)
            } else {
                all
            },
            ..self
        }
    }

    /// The pool and the track after a pick.
    pub open spec fn picked(self, current: Option<Seq<char>>, seed: u64) -> (
        PoolView,
        Option<JukeboxTrack>,
    ) {
        if self.tracks.len() == 0 {
            (self, None)
        } else {
            let t = self.tracks[self.choice(current, seed)];
            (self.played(t.url@), Some(t))
        }
    }

    /// The pool after `n` picks in a row, each with its current track and seed.
    pub open spec fn after_picks(
        self,
        currents: Seq<Option<Seq<char>>>,
        seeds: Seq<u64>,
        n: int,
    ) -> PoolView
        decreases n,
    {
        if n <= 0 {
            self
        } else {
            self.after_picks(currents, seeds, n - 1).picked(currents[n - 1], seeds[n - 1]).0
        }
    }

    /// What the pick number `k` of a row gives.
    pub open spec fn pick_at(
        self,
        currents: Seq<Option<Seq<char>>>,
        seeds: Seq<u64>,
        k: int,
    ) -> Option<JukeboxTrack> {
        self.after_picks(currents, seeds, k).picked(currents[k], seeds[k]).1
    }

    /// The first `n` tracks without those of that URL.
    pub open spec fn kept(self, url: Seq<char>, n: int) -> Seq<JukeboxTrack>
        decreases n,
    {
        if n <= 0 {
            Seq::empty()
        } else if self.tracks[n - 1].url@ == url {
            self.kept(url, n - 1)
        } else {
            self.kept(url, n - 1).push(self.tracks[n - 1])
        }
    }

    /// The pool without a track.
    pub open spec fn removed(self, url: Seq<char>) -> PoolView {
        PoolView { tracks: self.kept(url, self.tracks.len() as int), ..self }
    }

    /// The pool after a walk that added that many, and where the next one goes on.
    pub open spec fn refilled(self, added: int, next: Option<Seq<char>>) -> PoolView {
        PoolView {
            fetch_inflight: false,
            cursor: next,
            refill_dry: self.refill_dry || added == 0,
            ..self
        }
    }
}

/// The tracks of the first `n` entries that have one.
pub open spec fn tracks_among(entries: Seq<Entry>, n: int) -> Seq<JukeboxTrack>
    decreases n,
{
    if n <= 0 {
        Seq::empty()
    } else {
        match audio::track_of(entries[n - 1].attachments@) {
            Some(t) => tracks_among(entries, n - 1).push(t),
            None => tracks_among(entries, n - 1),
        }
    }
}

fn holds(v: &Vec<String>, url: &str) -> (r: bool)
    ensures
        r == strs::texts(v@).contains(url@),
{
    let mut i: usize = 0;
    let ghost all = strs::texts(v@);
    while i < v.len()
        invariant
            i <= v@.len(),
            all == strs::texts(v@),
            forall|k: int| 0 <= k < i ==> #[trigger] all[k] != url@,
        decreases v@.len() - i,
    {
        if same(v[i].as_str(), url) {
            assert(all[i as int] == url@);
            return true;
        }
        i = i + 1;
    }
    assert(!all.contains(url@)) by {
        if all.contains(url@) {
            let k = choose|k: int| 0 <= k < all.len() && all[k] == url@;
            assert(all[k] != url@);
        }
    }
    false
}

impl ShufflePool {
    pub fn new() -> (r: ShufflePool)
        ensures
            r@ == PoolView::empty(),
            r@.wf(),
    {
        let r = ShufflePool {
            tracks: Vec::new(),
            seen: Vec::new(),
            recent: Vec::new(),
            cursor: None,
            fetch_inflight: false,
            pending_play: false,
            refill_dry: false,
        };
        assert(r@ =~= PoolView::empty());
        r
    }

    /// How many tracks there are.
    pub fn len(&self) -> (r: usize)
        ensures
            r == self@.tracks.len(),
    {
        self.tracks.len()
    }

    pub fn is_empty(&self) -> (r: bool)
        ensures
            r == (self@.tracks.len() == 0),
    {
        self.tracks.len() == 0
    }

    /// Admit the tracks of browsed entries. Says how many were new.
    pub fn harvest(&mut self, entries: &[Entry]) -> (r: usize)
        ensures
            final(self)@ == old(self)@.with_tracks(
                tracks_among(entries@, entries@.len() as int),
            ),
            r == old(self)@.new_among(tracks_among(entries@, entries@.len() as int)),
    {
        let mut tracks: Vec<JukeboxTrack> = Vec::new();
        let mut i: usize = 0;
        while i < entries.len()
            invariant
                i <= entries@.len(),
                *self == *old(self),
                tracks@ == tracks_among(entries@, i as int),
            decreases entries@.len() - i,
        {
            if let Some(t) = jukebox_track(&entries[i].attachments) {
                tracks.push(t);
            }
            i = i + 1;
        }
        self.add_tracks(tracks)
    }

    /// Admit the tracks that were never seen, as long as there is room. Says how
    /// many there were.
    pub fn add_tracks(&mut self, tracks: Vec<JukeboxTrack>) -> (r: usize)
        ensures
            final(self)@ == old(self)@.with_tracks(tracks@),
            r == old(self)@.new_among(tracks@),
    {
        let before: usize = self.tracks.len();
        let mut i: usize = 0;
        while i < tracks.len()
            invariant
                i <= tracks@.len(),
                self@ == old(self)@.offered_all(tracks@, i as int),
                before == old(self)@.tracks.len(),
                before <= self@.tracks.len(),
            decreases tracks@.len() - i,
        {
            let t = &tracks[i];
            if self.tracks.len() < POOL_CAP && !holds(&self.seen, t.url.as_str()) {
                push_text(&mut self.seen, t.url.clone());
                self.tracks.push(t.copy());
            }
            i = i + 1;
            assert(self@ =~= old(self)@.offered_all(tracks@, i as int));
        }
        let added: usize = self.tracks.len() - before;
        if added > 0 {
            self.refill_dry = false;
        }
        added
    }

    /// Whether a walk should be started: the pool runs low, none is on its way,
    /// and the last one was not dry.
    pub fn needs_refill(&self) -> (r: bool)
        ensures
            r == self@.refillable(),
    {
        self.tracks.len() < REFILL_BELOW && !self.fetch_inflight && !self.refill_dry
    }

    /// A walk is finished: where to resume, and whether it found anything.
    pub fn finish_refill(&mut self, added: usize, next_cursor: Option<String>)
        ensures
            final(self)@ == old(self)@.refilled(added as int, strs::opt_text(next_cursor)),
    {
        self.fetch_inflight = false;
        self.cursor = next_cursor;
        if added == 0 {
            self.refill_dry = true;
        }
    }

    /// Try again even though the last walk found nothing.
    pub fn retry_refills(&mut self)
        ensures
            final(self)@ == (PoolView { refill_dry: false, ..old(self)@ }),
    {
        self.refill_dry = false;
    }

    /// Evict a track that cannot be played. Its URL stays seen.
    pub fn remove(&mut self, url: &str)
        ensures
            final(self)@ == old(self)@.removed(url@),
    {
        let mut kept: Vec<JukeboxTrack> = Vec::new();
        let mut i: usize = 0;
        while i < self.tracks.len()
            invariant
                i <= self.tracks@.len(),
                *self == *old(self),
                kept@ == self@.kept(url@, i as int),
            decreases self.tracks@.len() - i,
        {
            if !same(self.tracks[i].url.as_str(), url) {
                kept.push(self.tracks[i].copy());
            }
            i = i + 1;
        }
        self.tracks = kept;
    }

    /// Pick a random track: one that some seed picks.
    pub fn pick(&mut self, current_url: Option<&str>) -> (r: Option<JukeboxTrack>)
        ensures
            exists|seed: u64|
                (final(self)@, r) == #[trigger] old(self)@.picked(strs::opt_str(current_url), seed),
    {
        let seed: u64 = entropy();
        self.pick_seeded(current_url, seed)
    }

    fn pickable(&self, current_url: Option<&str>, fresh: bool) -> (r: Vec<usize>)
        ensures
            r@ == self@.pickable(strs::opt_str(current_url), fresh, self@.tracks.len() as int),
            forall|k: int| 0 <= k < r@.len() ==> #[trigger] r@[k] < self.tracks@.len(),
    {
        let mut r: Vec<usize> = Vec::new();
        let mut i: usize = 0;
        while i < self.tracks.len()
            invariant
                i <= self.tracks@.len(),
                r@ == self@.pickable(strs::opt_str(current_url), fresh, i as int),
                forall|k: int| 0 <= k < r@.len() ==> #[trigger] r@[k] < self.tracks@.len(),
            decreases self.tracks@.len() - i,
        {
            let url = self.tracks[i].url.as_str();
            let current = match current_url {
                Some(c) => same(c, url),
                None => false,
            };
            if !current && (!fresh || !holds(&self.recent, url)) {
                r.push(i);
            }
            i = i + 1;
        }
        r
    }

    fn candidate_list(&self, current_url: Option<&str>) -> (r: Vec<usize>)
        requires
            self.tracks@.len() > 0,
        ensures
            r@ == self@.candidates(strs::opt_str(current_url)),
            r@.len() > 0,
            forall|k: int| 0 <= k < r@.len() ==> #[trigger] r@[k] < self.tracks@.len(),
    {
        let fresh = self.pickable(current_url, true);
        if fresh.len() > 0 {
            return fresh;
        }
        let others = self.pickable(current_url, false);
        if others.len() > 0 {
            return others;
        }
        // A pool of one that is playing: repeat it rather than go silent.
        let mut all: Vec<usize> = Vec::new();
        let mut i: usize = 0;
        while i < self.tracks.len()
            invariant
                i <= self.tracks@.len(),
                all@ == Seq::new(i as nat, |k: int| k as usize),
            decreases self.tracks@.len() - i,
        {
            all.push(i);
            i = i + 1;
            assert(all@ =~= Seq::new(i as nat, |k: int| k as usize));
        }
        all
    }

    /// Pick the track at `seed` among the candidates, and note that it was
    /// played.
    pub fn pick_seeded(&mut self, current_url: Option<&str>, seed: u64) -> (r: Option<
        JukeboxTrack,
    >)
        ensures
            (final(self)@, r) == old(self)@.picked(strs::opt_str(current_url), seed),
    {
        if self.tracks.len() == 0 {
            return None;
        }
        let candidates = self.candidate_list(current_url);
        let n: u64 = candidates.len() as u64;
        let at: usize = (seed % n) as usize;
        let track = self.tracks[candidates[at]].copy();
        let ghost pool = self@;
        push_text(&mut self.recent, track.url.clone());
        let ghost all = pool.recent.push(track.url@);
        let ghost mut dropped: int = 0;
        assert(all.skip(0) =~= all);
        while self.recent.len() > RECENT_CAP
            invariant
                0 <= dropped <= all.len(),
                strs::texts(self.recent@) == all.skip(dropped),
                self@ == (PoolView { recent: all.skip(dropped), ..pool }),
                dropped > 0 ==> all.len() - dropped >= RECENT_CAP,
            decreases self.recent@.len(),
        {
            let ghost before = self.recent@;
            assert(strs::texts(before).len() == before.len());
            let _ = self.recent.remove(0);
            proof {
                dropped = dropped + 1;
            }
            assert(self.recent@ =~= before.skip(1));
            assert(strs::texts(self.recent@) =~= strs::texts(before).skip(1));
            assert(strs::texts(before).skip(1) =~= all.skip(dropped));
        }
        assert(strs::texts(self.recent@).len() == self.recent@.len());
        assert(self@ == pool.played(track.url@));
        Some(track)
    }

    /// Drop everything.
    pub fn clear(&mut self)
        ensures
            final(self)@ == PoolView::empty(),
    {
        self.tracks = Vec::new();
        self.seen = Vec::new();
        self.recent = Vec::new();
        self.cursor = None;
        self.fetch_inflight = false;
        self.pending_play = false;
        self.refill_dry = false;
        assert(self@ =~= PoolView::empty());
    }
}

/// `RandomState::new`: a state that the operating system seeded. Any may come
/// back, so nothing is claimed of it.
pub assume_specification[ RandomState::new ]() -> (r: RandomState)
;

/// `RandomState::build_hasher`: a hasher with the state's seed. Nothing is
/// claimed of it.
#[verifier::external_body]
fn hasher_of(state: &RandomState) -> DefaultHasher {
    state.build_hasher()
}

/// A random number: what a freshly seeded hasher gives that was fed nothing.
fn entropy() -> u64 {
    let state = RandomState::new();
    hasher_of(&state).finish()
}

// ---------------------------------------------------------------------------
// Laws.
// ---------------------------------------------------------------------------

proof fn lemma_offered_keeps_wf(s: PoolView, t: JukeboxTrack)
    requires
        s.wf(),
    ensures
        s.offered(t).wf(),
        s.tracks.len() <= s.offered(t).tracks.len(),
{
    let n = s.offered(t);
    if s.tracks.len() < POOL_CAP && !s.seen.contains(t.url@) {
        assert forall|i: int| 0 <= i < n.tracks.len() implies n.seen.contains(
            #[trigger] n.tracks[i].url@,
        ) by {
            if i < s.tracks.len() {
                assert(s.seen.contains(s.tracks[i].url@));
                let k = choose|k: int| 0 <= k < s.seen.len() && s.seen[k] == s.tracks[i].url@;
                assert(n.seen[k] == n.tracks[i].url@);
            } else {
                assert(n.seen[n.seen.len() - 1] == t.url@);
            }
        }
        assert forall|i: int, j: int| 0 <= i < j < n.tracks.len() implies #[trigger] n.tracks[i].url@
            != #[trigger] n.tracks[j].url@ by {
            if j == s.tracks.len() {
                assert(s.seen.contains(s.tracks[i].url@));
            } else {
                assert(s.tracks[i].url@ != s.tracks[j].url@);
            }
        }
    }
}

proof fn lemma_offered_all(s: PoolView, tracks: Seq<JukeboxTrack>, n: int)
    requires
        s.wf(),
        0 <= n <= tracks.len(),
    ensures
        s.offered_all(tracks, n).wf(),
        s.tracks.len() <= s.offered_all(tracks, n).tracks.len(),
        s.offered_all(tracks, n).recent == s.recent,
    decreases n,
{
    if n > 0 {
        lemma_offered_all(s, tracks, n - 1);
        lemma_offered_keeps_wf(s.offered_all(tracks, n - 1), tracks[n - 1]);
    }
}

/// Adding tracks keeps the pool: within its cap, without a second track of one
/// URL, and with every track seen.
pub proof fn law_adding_keeps_the_pool(s: PoolView, tracks: Seq<JukeboxTrack>)
    requires
        s.wf(),
    ensures
        s.with_tracks(tracks).wf(),
        s.with_tracks(tracks).tracks.len() <= POOL_CAP,
{
    lemma_offered_all(s, tracks, tracks.len() as int);
    let after = s.offered_all(tracks, tracks.len() as int);
    let w = s.with_tracks(tracks);
    assert(w.tracks == after.tracks && w.seen == after.seen && w.recent == after.recent);
}

proof fn lemma_seen_only_grows(s: PoolView, tracks: Seq<JukeboxTrack>, n: int, url: Seq<char>)
    requires
        0 <= n <= tracks.len(),
        s.seen.contains(url),
    ensures
        s.offered_all(tracks, n).seen.contains(url),
    decreases n,
{
    if n > 0 {
        lemma_seen_only_grows(s, tracks, n - 1, url);
        let p = s.offered_all(tracks, n - 1);
        let q = p.offered(tracks[n - 1]);
        let k = choose|k: int| 0 <= k < p.seen.len() && p.seen[k] == url;
        assert(q.seen[k] == url);
    }
}

/// What was seen stays seen, whatever is added.
pub proof fn law_seen_stays_seen(s: PoolView, tracks: Seq<JukeboxTrack>, url: Seq<char>)
    requires
        s.seen.contains(url),
    ensures
        s.with_tracks(tracks).seen.contains(url),
{
    lemma_seen_only_grows(s, tracks, tracks.len() as int, url);
}

proof fn lemma_seen_are_refused(s: PoolView, tracks: Seq<JukeboxTrack>, n: int)
    requires
        0 <= n <= tracks.len(),
        forall|i: int| 0 <= i < tracks.len() ==> s.seen.contains(#[trigger] tracks[i].url@),
    ensures
        s.offered_all(tracks, n) == s,
    decreases n,
{
    if n > 0 {
        lemma_seen_are_refused(s, tracks, n - 1);
        assert(s.seen.contains(tracks[n - 1].url@));
    }
}

/// A track whose URL was ever seen is never admitted again, evicted or not.
pub proof fn law_seen_tracks_are_never_readmitted(s: PoolView, tracks: Seq<JukeboxTrack>)
    requires
        forall|i: int| 0 <= i < tracks.len() ==> s.seen.contains(#[trigger] tracks[i].url@),
    ensures
        s.new_among(tracks) == 0,
        s.with_tracks(tracks) == s,
{
    lemma_seen_are_refused(s, tracks, tracks.len() as int);
}

proof fn lemma_offered_are_seen(s: PoolView, tracks: Seq<JukeboxTrack>, n: int)
    requires
        0 <= n <= tracks.len(),
        s.offered_all(tracks, n).tracks.len() < POOL_CAP,
    ensures
        forall|i: int|
            0 <= i < n ==> s.offered_all(tracks, n).seen.contains(#[trigger] tracks[i].url@),
    decreases n,
{
    if n > 0 {
        lemma_offered_are_seen(s, tracks, n - 1);
        let p = s.offered_all(tracks, n - 1);
        let q = s.offered_all(tracks, n);
        assert forall|i: int| 0 <= i < n implies q.seen.contains(#[trigger] tracks[i].url@) by {
            if i < n - 1 {
                assert(p.seen.contains(tracks[i].url@));
                let k = choose|k: int| 0 <= k < p.seen.len() && p.seen[k] == tracks[i].url@;
                assert(q.seen[k] == tracks[i].url@);
            } else if !p.seen.contains(tracks[i].url@) {
                assert(q.seen[p.seen.len() as int] == tracks[i].url@);
            }
        }
    }
}

proof fn lemma_full_pools_refuse(s: PoolView, tracks: Seq<JukeboxTrack>, n: int)
    requires
        0 <= n <= tracks.len(),
        s.tracks.len() >= POOL_CAP,
    ensures
        s.offered_all(tracks, n) == s,
    decreases n,
{
    if n > 0 {
        lemma_full_pools_refuse(s, tracks, n - 1);
    }
}

/// Adding the same tracks again adds none, and leaves the pool as it was.
pub proof fn law_adding_twice_adds_once(s: PoolView, tracks: Seq<JukeboxTrack>)
    ensures
        s.with_tracks(tracks).new_among(tracks) == 0,
        s.with_tracks(tracks).with_tracks(tracks) == s.with_tracks(tracks),
{
    let n = tracks.len() as int;
    let w = s.with_tracks(tracks);
    if w.tracks.len() >= POOL_CAP {
        lemma_full_pools_refuse(w, tracks, n);
    } else {
        lemma_offered_are_seen(s, tracks, n);
        lemma_seen_are_refused(w, tracks, n);
    }
}

proof fn lemma_kept(s: PoolView, url: Seq<char>, n: int)
    requires
        0 <= n <= s.tracks.len(),
    ensures
        s.kept(url, n).len() <= n,
        forall|k: int| 0 <= k < s.kept(url, n).len() ==> #[trigger] s.kept(url, n)[k].url@ != url,
        forall|k: int|
            0 <= k < s.kept(url, n).len() ==> exists|i: int|
                0 <= i < n && s.tracks[i] == #[trigger] s.kept(url, n)[k],
    decreases n,
{
    if n > 0 {
        lemma_kept(s, url, n - 1);
        let p = s.kept(url, n - 1);
        let q = s.kept(url, n);
        assert forall|k: int| 0 <= k < q.len() implies exists|i: int|
            0 <= i < n && s.tracks[i] == #[trigger] q[k] by {
            if k < p.len() {
                let i = choose|i: int| 0 <= i < n - 1 && s.tracks[i] == p[k];
                assert(s.tracks[i] == q[k]);
            } else {
                assert(s.tracks[n - 1] == q[k]);
            }
        }
    }
}

proof fn lemma_kept_distinct(s: PoolView, url: Seq<char>, n: int)
    requires
        s.wf(),
        0 <= n <= s.tracks.len(),
    ensures
        forall|i: int, j: int|
            0 <= i < j < s.kept(url, n).len() ==> #[trigger] s.kept(url, n)[i].url@
                != #[trigger] s.kept(url, n)[j].url@,
    decreases n,
{
    if n > 0 {
        lemma_kept_distinct(s, url, n - 1);
        lemma_kept(s, url, n - 1);
        let p = s.kept(url, n - 1);
        let q = s.kept(url, n);
        assert forall|i: int, j: int| 0 <= i < j < q.len() implies #[trigger] q[i].url@
            != #[trigger] q[j].url@ by {
            assert(q[i] == p[i]);
            if j < p.len() {
                assert(q[j] == p[j]);
            } else {
                let at = choose|at: int| 0 <= at < n - 1 && s.tracks[at] == p[i];
                assert(s.tracks[at].url@ != s.tracks[n - 1].url@);
            }
        }
    }
}

/// Evicting and picking keep the pool, too.
pub proof fn law_evicting_and_picking_keep_the_pool(
    s: PoolView,
    url: Seq<char>,
    current: Option<Seq<char>>,
    seed: u64,
)
    requires
        s.wf(),
    ensures
        (PoolView { tracks: s.kept(url, s.tracks.len() as int), ..s }).wf(),
        s.picked(current, seed).0.wf(),
        s.picked(current, seed).0.tracks == s.tracks,
{
    let n = s.tracks.len() as int;
    lemma_kept(s, url, n);
    lemma_kept_distinct(s, url, n);
    let kept = s.kept(url, n);
    let e = PoolView { tracks: kept, ..s };
    assert forall|k: int| 0 <= k < e.tracks.len() implies e.seen.contains(
        #[trigger] e.tracks[k].url@,
    ) by {
        let i = choose|i: int| 0 <= i < n && s.tracks[i] == kept[k];
        assert(s.seen.contains(s.tracks[i].url@));
    }
    let p = s.picked(current, seed).0;
    assert(p.seen == s.seen && p.tracks == s.tracks);
}

/// An evicted track is gone, and only tracks of the pool are left.
pub proof fn law_evicted_tracks_are_gone(s: PoolView, url: Seq<char>)
    ensures
        ({
            let kept = s.kept(url, s.tracks.len() as int);
            &&& forall|k: int| 0 <= k < kept.len() ==> #[trigger] kept[k].url@ != url
            &&& forall|k: int|
                0 <= k < kept.len() ==> exists|i: int|
                    0 <= i < s.tracks.len() && s.tracks[i] == #[trigger] kept[k]
        }),
{
    lemma_kept(s, url, s.tracks.len() as int);
}

proof fn lemma_pickable(s: PoolView, current: Option<Seq<char>>, fresh: bool, n: int)
    requires
        0 <= n <= s.tracks.len() <= usize::MAX,
    ensures
        forall|k: int|
            0 <= k < s.pickable(current, fresh, n).len() ==> (#[trigger] s.pickable(
                current,
                fresh,
                n,
            )[k]) < n && s.may_pick(s.pickable(current, fresh, n)[k] as int, current, fresh),
        forall|i: int|
            0 <= i < n && #[trigger] s.may_pick(i, current, fresh) ==> s.pickable(
                current,
                fresh,
                n,
            ).len() > 0,
    decreases n,
{
    if n > 0 {
        lemma_pickable(s, current, fresh, n - 1);
        let p = s.pickable(current, fresh, n - 1);
        let q = s.pickable(current, fresh, n);
        assert forall|k: int| 0 <= k < q.len() implies (#[trigger] q[k]) < n && s.may_pick(
            q[k] as int,
            current,
            fresh,
        ) by {
            if k < p.len() {
                assert(q[k] == p[k]);
            }
        }
    }
}

/// Whatever the seed, the current track is not picked while there is another,
/// and no recent one while there is a fresh one.
pub proof fn law_picks_avoid_current_and_recent(
    s: PoolView,
    current: Option<Seq<char>>,
    seed: u64,
    other: int,
)
    requires
        s.tracks.len() <= usize::MAX,
        0 <= other < s.tracks.len(),
    ensures
        s.picked(current, seed).1 matches Some(t) && (s.may_pick(other, current, false)
            ==> current != Some(t.url@)) && (s.may_pick(other, current, true)
            ==> !s.recent.contains(t.url@)),
{
    let n = s.tracks.len() as int;
    lemma_pickable(s, current, true, n);
    lemma_pickable(s, current, false, n);
    let c = s.candidates(current);
    if c.len() > 0 {
        let at = seed as int % c.len() as int;
        let _ = c[at];
    }
}

/// Every candidate can come up: some seed picks it.
pub proof fn law_every_candidate_can_be_picked(s: PoolView, current: Option<Seq<char>>, k: int)
    requires
        0 <= k < s.candidates(current).len() <= u64::MAX,
    ensures
        s.choice(current, k as u64) == s.candidates(current)[k],
{
    vstd::arithmetic::div_mod::lemma_small_mod(k as nat, s.candidates(current).len());
}

/// The list of recent tracks stays short, and ends with the one just played.
pub proof fn law_recent_list_is_bounded(s: PoolView, url: Seq<char>)
    requires
        s.recent.len() <= RECENT_CAP,
    ensures
        s.played(url).recent.len() <= RECENT_CAP,
        s.played(url).recent.last() == url,
{
}

proof fn lemma_a_fresh_track_is_left(s: PoolView, current: Option<Seq<char>>) -> (i: int)
    requires
        s.wf(),
        s.tracks.len() >= RECENT_CAP + 2,
    ensures
        0 <= i < s.tracks.len(),
        s.may_pick(i, current, true),
{
    if forall|i: int| 0 <= i < s.tracks.len() ==> !#[trigger] s.may_pick(i, current, true) {
        let urls = s.tracks.map_values(|t: JukeboxTrack| t.url@);
        let avoided = match current {
            Some(c) => s.recent.push(c),
            None => s.recent,
        };
        assert(urls.no_duplicates()) by {
            assert forall|i: int, j: int|
                0 <= i < urls.len() && 0 <= j < urls.len() && i != j implies urls[i] != urls[j] by {
                if i < j {
                    assert(s.tracks[i].url@ != s.tracks[j].url@);
                } else {
                    assert(s.tracks[j].url@ != s.tracks[i].url@);
                }
            }
        }
        urls.unique_seq_to_set();
        avoided.lemma_cardinality_of_set();
        vstd::seq_lib::seq_to_set_is_finite(avoided);
        assert(urls.to_set().subset_of(avoided.to_set())) by {
            assert forall|u: Seq<char>| urls.to_set().contains(u) implies avoided.to_set().contains(
                u,
            ) by {
                let i = choose|i: int| 0 <= i < urls.len() && urls[i] == u;
                assert(!s.may_pick(i, current, true));
                if current == Some(u) {
                    assert(avoided[s.recent.len() as int] == u);
                } else {
                    let k = choose|k: int| 0 <= k < s.recent.len() && s.recent[k] == u;
                    assert(avoided[k] == u);
                }
            }
        }
        vstd::set_lib::lemma_len_subset(urls.to_set(), avoided.to_set());
        assert(false);
    }
    choose|i: int| 0 <= i < s.tracks.len() && #[trigger] s.may_pick(i, current, true)
}

proof fn lemma_after_picks(
    s: PoolView,
    currents: Seq<Option<Seq<char>>>,
    seeds: Seq<u64>,
    n: int,
)
    requires
        s.wf(),
        0 <= n,
    ensures
        s.after_picks(currents, seeds, n).wf(),
        s.after_picks(currents, seeds, n).tracks == s.tracks,
    decreases n,
{
    if n > 0 {
        lemma_after_picks(s, currents, seeds, n - 1);
        law_evicting_and_picking_keep_the_pool(
            s.after_picks(currents, seeds, n - 1),
            Seq::empty(),
            currents[n - 1],
            seeds[n - 1],
        );
    }
}

proof fn lemma_picks_are_remembered(
    s: PoolView,
    currents: Seq<Option<Seq<char>>>,
    seeds: Seq<u64>,
    i: int,
    j: int,
)
    requires
        s.wf(),
        s.tracks.len() > 0,
        0 <= i < j,
        j - i <= RECENT_CAP,
    ensures
        ({
            let recent = s.after_picks(currents, seeds, j).recent;
            &&& s.pick_at(currents, seeds, i) is Some
            &&& recent.len() >= j - i
            &&& recent[recent.len() - (j - i)] == s.pick_at(currents, seeds, i)->0.url@
        }),
    decreases j - i,
{
    lemma_after_picks(s, currents, seeds, j - 1);
    if i < j - 1 {
        lemma_picks_are_remembered(s, currents, seeds, i, j - 1);
    }
}

/// In a pool with more tracks than are avoided, no pick repeats one of the picks
/// just before it: as many in a row as are avoided, and one more, all differ.
pub proof fn law_picks_in_a_row_differ(
    s: PoolView,
    currents: Seq<Option<Seq<char>>>,
    seeds: Seq<u64>,
    i: int,
    j: int,
)
    requires
        s.wf(),
        s.tracks.len() >= RECENT_CAP + 2,
        0 <= i < j < currents.len(),
        currents.len() == seeds.len(),
        j - i <= RECENT_CAP,
    ensures
        s.pick_at(currents, seeds, i) matches Some(a) && s.pick_at(currents, seeds, j) matches Some(
            b,
        ) && a.url@ != b.url@,
{
    let p = s.after_picks(currents, seeds, j);
    lemma_after_picks(s, currents, seeds, j);
    lemma_picks_are_remembered(s, currents, seeds, i, j);
    let other = lemma_a_fresh_track_is_left(p, currents[j]);
    law_picks_avoid_current_and_recent(p, currents[j], seeds[j], other);
    assert(p.recent.contains(s.pick_at(currents, seeds, i)->0.url@));
}

/// A dry pool asks for no walk until a new track arrives or it is told to try
/// again.
pub proof fn law_dry_pools_wait(s: PoolView, tracks: Seq<JukeboxTrack>)
    requires
        s.refill_dry,
        s.wf(),
    ensures
        !s.refillable(),
        s.new_among(tracks) == 0 ==> !s.with_tracks(tracks).refillable(),
        s.new_among(tracks) > 0 ==> !s.with_tracks(tracks).refill_dry,
{
    lemma_offered_all(s, tracks, tracks.len() as int);
    lemma_offered_keeps_dry(s, tracks, tracks.len() as int);
}

proof fn lemma_offered_keeps_dry(s: PoolView, tracks: Seq<JukeboxTrack>, n: int)
    requires
        0 <= n <= tracks.len(),
    ensures
        s.offered_all(tracks, n).refill_dry == s.refill_dry,
    decreases n,
{
    if n > 0 {
        lemma_offered_keeps_dry(s, tracks, n - 1);
    }
}

/// Adding keeps the tracks that were there, in their places, and while the pool has room
/// every track that was not seen before is in it afterwards.
pub proof fn law_new_tracks_are_added(s: PoolView, tracks: Seq<JukeboxTrack>, i: int)
    ensures
        ({
            let w = s.with_tracks(tracks);
            &&& s.tracks.len() <= w.tracks.len()
            &&& w.tracks.take(s.tracks.len() as int) == s.tracks
            &&& w.tracks.len() == s.tracks.len() + s.new_among(tracks)
            &&& w.recent == s.recent && w.cursor == s.cursor && w.fetch_inflight
                == s.fetch_inflight
            &&& s.new_among(tracks) > 0 ==> !w.refill_dry
            &&& 0 <= i < tracks.len() && !s.seen.contains(tracks[i].url@) && w.tracks.len()
                < POOL_CAP ==> exists|k: int|
                0 <= k < w.tracks.len() && #[trigger] w.tracks[k].url@ == tracks[i].url@
        }),
{
    lemma_added(s, tracks, tracks.len() as int, i);
    let w = s.with_tracks(tracks);
    let after = s.offered_all(tracks, tracks.len() as int);
    if 0 <= i < tracks.len() && !s.seen.contains(tracks[i].url@) && w.tracks.len() < POOL_CAP {
        let k = choose|k: int|
            0 <= k < after.tracks.len() && #[trigger] after.tracks[k].url@ == tracks[i].url@;
        assert(w.tracks[k].url@ == tracks[i].url@);
    }
}

/// Whether every URL that was seen since `s` is that of a track.
spec fn seen_since(s: PoolView, p: PoolView) -> bool {
    forall|u: Seq<char>| #[trigger]
        p.seen.contains(u) && !s.seen.contains(u) ==> exists|k: int|
            0 <= k < p.tracks.len() && #[trigger] p.tracks[k].url@ == u
}

proof fn lemma_added(s: PoolView, tracks: Seq<JukeboxTrack>, n: int, i: int)
    requires
        0 <= n <= tracks.len(),
    ensures
        ({
            let p = s.offered_all(tracks, n);
            &&& s.tracks.len() <= p.tracks.len()
            &&& p.tracks.take(s.tracks.len() as int) == s.tracks
            &&& p.recent == s.recent && p.cursor == s.cursor && p.fetch_inflight
                == s.fetch_inflight && p.refill_dry == s.refill_dry
            &&& seen_since(s, p)
            &&& 0 <= i < n && !s.seen.contains(tracks[i].url@) && p.tracks.len() < POOL_CAP
                ==> exists|k: int|
                0 <= k < p.tracks.len() && #[trigger] p.tracks[k].url@ == tracks[i].url@
        }),
    decreases n,
{
    if n > 0 {
        lemma_added(s, tracks, n - 1, i);
        let p = s.offered_all(tracks, n - 1);
        let t = tracks[n - 1];
        let q = p.offered(t);
        assert(q.tracks.take(s.tracks.len() as int) =~= p.tracks.take(s.tracks.len() as int));
        if p.tracks.len() < POOL_CAP && !p.seen.contains(t.url@) {
            let last = p.tracks.len() as int;
            assert(q.tracks[last].url@ == t.url@);
            assert forall|u: Seq<char>| #[trigger]
                q.seen.contains(u) && !s.seen.contains(u) implies exists|k: int|
                0 <= k < q.tracks.len() && #[trigger] q.tracks[k].url@ == u by {
                let at = choose|at: int| 0 <= at < q.seen.len() && q.seen[at] == u;
                if at < p.seen.len() {
                    assert(p.seen[at] == u);
                    assert(p.seen.contains(u));
                    let k = choose|k: int|
                        0 <= k < p.tracks.len() && #[trigger] p.tracks[k].url@ == u;
                    assert(q.tracks[k].url@ == u);
                } else {
                    assert(q.tracks[last].url@ == u);
                }
            }
        }
        if 0 <= i < n && !s.seen.contains(tracks[i].url@) && q.tracks.len() < POOL_CAP {
            let u = tracks[i].url@;
            if i < n - 1 {
                let k = choose|k: int|
                    0 <= k < p.tracks.len() && #[trigger] p.tracks[k].url@ == u;
                assert(q.tracks[k].url@ == u);
            } else if p.seen.contains(u) {
                let k = choose|k: int|
                    0 <= k < p.tracks.len() && #[trigger] p.tracks[k].url@ == u;
                assert(q.tracks[k].url@ == u);
            }
        }
    } else {
        assert(s.tracks.take(s.tracks.len() as int) =~= s.tracks);
    }
}

/// Of each entry with a track that one is harvested, in the order of the entries, and
/// nothing else.
pub proof fn law_every_entry_gives_its_track(entries: Seq<Entry>, n: int, i: int)
    requires
        0 <= i < n <= entries.len(),
    ensures
        tracks_among(entries, 0).len() == 0,
        tracks_among(entries, n).len() <= n,
        audio::track_of(entries[i].attachments@) matches Some(t) ==> {
            let at = tracks_among(entries, i).len() as int;
            at < tracks_among(entries, n).len() && tracks_among(entries, n)[at] == t
        },
        audio::track_of(entries[i].attachments@) is None ==> tracks_among(entries, i + 1)
            == tracks_among(entries, i),
    decreases n,
{
    if i < n - 1 {
        law_every_entry_gives_its_track(entries, n - 1, i);
    } else if n > 1 {
        law_every_entry_gives_its_track(entries, n - 1, 0);
    }
}

/// Removing a track takes out exactly the tracks at its URL, forgets nothing that was
/// seen or played, and keeps the others in order.
pub proof fn law_only_the_named_track_is_removed(s: PoolView, url: Seq<char>, i: int)
    requires
        0 <= i < s.tracks.len(),
    ensures
        s.tracks[i].url@ != url ==> s.removed(url).tracks.contains(s.tracks[i]),
        s.tracks[i].url@ == url && s.wf() ==> !s.removed(url).tracks.contains(s.tracks[i]),
        s.removed(url).seen == s.seen,
        s.removed(url).recent == s.recent,
        s.removed(url).cursor == s.cursor,
{
    let n = s.tracks.len() as int;
    lemma_kept(s, url, n);
    lemma_others_are_kept(s, url, n, i);
    if s.tracks[i].url@ == url && s.removed(url).tracks.contains(s.tracks[i]) {
        let k = choose|k: int|
            0 <= k < s.kept(url, n).len() && s.kept(url, n)[k] == s.tracks[i];
        assert(s.kept(url, n)[k].url@ != url);
    }
}

proof fn lemma_others_are_kept(s: PoolView, url: Seq<char>, n: int, i: int)
    requires
        0 <= n <= s.tracks.len(),
    ensures
        0 <= i < n && s.tracks[i].url@ != url ==> s.kept(url, n).contains(s.tracks[i]),
    decreases n,
{
    if 0 <= i < n && s.tracks[i].url@ != url {
        let all = s.kept(url, n);
        if i < n - 1 {
            lemma_others_are_kept(s, url, n - 1, i);
            let before = s.kept(url, n - 1);
            let k = choose|k: int| 0 <= k < before.len() && before[k] == s.tracks[i];
            assert(all[k] == s.tracks[i]);
        } else {
            assert(all[all.len() - 1] == s.tracks[i]);
        }
    }
}

/// A pick is remembered last among the eight latest, and takes no track out.
pub proof fn law_picks_are_remembered(s: PoolView, current: Option<Seq<char>>, seed: u64)
    requires
        s.tracks.len() > 0,
        s.recent.len() <= 8,
    ensures
        ({
            let (p, t) = s.picked(current, seed);
            &&& t is Some
            &&& p.tracks == s.tracks && p.seen == s.seen
            &&& p.recent.last() == t->Some_0.url@
            &&& s.recent.len() < 8 ==> p.recent == s.recent.push(t->Some_0.url@)
            &&& s.recent.len() == 8 ==> p.recent == s.recent.skip(1).push(t->Some_0.url@)
        }),
{
    let (p, t) = s.picked(current, seed);
    let u = t->Some_0.url@;
    if s.recent.len() == 8 {
        assert(s.recent.push(u).skip(1) =~= s.recent.skip(1).push(u));
    }
}

/// A pool with fewer than ten tracks is refilled, unless a walk is on its way or the
/// last one brought nothing; a walk leaves the tracks alone and says where the next one
/// goes on.
pub proof fn law_small_pools_are_refilled(s: PoolView, added: int, next: Option<Seq<char>>)
    ensures
        s.refillable() == (s.tracks.len() < 10 && !s.fetch_inflight && !s.refill_dry),
        s.refilled(added, next).cursor == next,
        s.refilled(added, next).tracks == s.tracks,
        s.refilled(added, next).seen == s.seen,
        !s.refilled(added, next).fetch_inflight,
        added == 0 ==> !s.refilled(added, next).refillable(),
        added > 0 && !s.refill_dry && s.tracks.len() < 10 ==> s.refilled(added, next).refillable(),
{
}

} // verus!
