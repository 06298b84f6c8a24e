//! The shuffle pool.
use cs_tui::audio::JukeboxTrack;
use cs_tui::model::{Attachment, Entry};
use cs_tui::shuffle::{ShufflePool, POOL_CAP, RECENT_CAP};
use std::collections::HashSet;

fn track(url: &str) -> JukeboxTrack {
    JukeboxTrack {
        url: url.into(),
        artist: "a".into(),
        title: "t".into(),
    }
}

fn audio_entry(url: &str) -> Entry {
    Entry {
        attachments: vec![Attachment::Audio {
            src: url.into(),
            origin: "youtube".into(),
            artist: "a".into(),
            title: "t".into(),
            genre: String::new(),
        }],
        ..Default::default()
    }
}

#[test]
fn harvest_admits_audio_entries_and_dedups() {
    let mut pool = ShufflePool::new();
    let entries = vec![
        audio_entry("https://youtu.be/one"),
        Entry::default(), // no attachment
        audio_entry("https://youtu.be/two"),
        audio_entry("https://youtu.be/one"), // dup within the page
    ];
    assert_eq!(pool.harvest(&entries), 2);
    // A second pass over the same page adds nothing.
    assert_eq!(pool.harvest(&entries), 0);
    assert_eq!(pool.len(), 2);
}

#[test]
fn add_tracks_caps_the_pool_but_remembers_evictions() {
    let mut pool = ShufflePool::new();
    let many: Vec<_> = (0..POOL_CAP + 50)
        .map(|i| track(&format!("https://youtu.be/v{i}")))
        .collect();
    assert_eq!(pool.add_tracks(many.clone()), POOL_CAP);
    assert_eq!(pool.len(), POOL_CAP);
    // Everything under the cap was seen; re-adding stays a no-op.
    assert_eq!(pool.add_tracks(many[..10].to_vec()), 0);
}

#[test]
fn pick_avoids_current_and_recent_tracks() {
    let mut pool = ShufflePool::new();
    pool.add_tracks(vec![track("u1"), track("u2"), track("u3")]);
    // Whatever the seed, the current track must not be picked while
    // alternatives exist.
    for seed in 0..20 {
        let mut p = ShufflePool::new();
        p.add_tracks(vec![track("u1"), track("u2"), track("u3")]);
        let got = p.pick_seeded(Some("u2"), seed).expect("non-empty pool");
        assert_ne!(got.url, "u2", "seed {seed} picked the current track");
    }
    // Recent tracks are skipped while fresh ones remain: after playing u1
    // and u2, every pick must be u3.
    let first = pool.pick_seeded(Some("zzz"), 0).unwrap();
    let second = pool
        .pick_seeded(Some(first.url.as_str()), 0)
        .map(|t| t.url)
        .unwrap();
    let third = pool.pick_seeded(Some(second.as_str()), 7).unwrap();
    assert_ne!(third.url, first.url);
    assert_ne!(third.url, second);
}

#[test]
fn pick_falls_back_when_everything_is_recent_or_current() {
    // Pool of one, and it's the current track: repeat rather than go silent.
    let mut pool = ShufflePool::new();
    pool.add_tracks(vec![track("only")]);
    let got = pool
        .pick_seeded(Some("only"), 3)
        .expect("repeats the track");
    assert_eq!(got.url, "only");

    // Two tracks, both recent: recency is waived, current still avoided.
    let mut pool = ShufflePool::new();
    pool.add_tracks(vec![track("a"), track("b")]);
    for seed in 0..4 {
        let _ = pool.pick_seeded(None, seed);
    }
    let got = pool.pick_seeded(Some("a"), 1).unwrap();
    assert_eq!(got.url, "b");
}

#[test]
fn pick_returns_none_on_an_empty_pool() {
    let mut pool = ShufflePool::new();
    assert!(pool.pick_seeded(None, 42).is_none());
    assert!(pool.pick(None).is_none());
}

#[test]
fn dry_refills_suppress_until_new_material_arrives() {
    let mut pool = ShufflePool::new();
    assert!(pool.needs_refill(), "empty pool wants a refill");
    pool.fetch_inflight = true;
    assert!(!pool.needs_refill(), "not while one is in flight");
    pool.finish_refill(0, None);
    assert!(!pool.fetch_inflight);
    assert!(!pool.needs_refill(), "dry walk suppresses re-walking");
    // Harvesting something new clears the dry marker.
    pool.harvest(&[audio_entry("https://youtu.be/new")]);
    assert!(pool.needs_refill(), "fresh material re-arms refills");
    // As does an explicit retry (shuffle re-toggled).
    pool.finish_refill(0, None);
    pool.retry_refills();
    assert!(pool.needs_refill());
}

#[test]
fn finish_refill_threads_the_cursor() {
    let mut pool = ShufflePool::new();
    pool.fetch_inflight = true;
    pool.finish_refill(3, Some("c123".into()));
    assert_eq!(pool.cursor.as_deref(), Some("c123"));
    assert!(pool.needs_refill());
}

#[test]
fn remove_evicts_the_track_but_keeps_it_seen() {
    let mut pool = ShufflePool::new();
    pool.add_tracks(vec![track("dead"), track("ok")]);
    pool.remove("dead");
    assert_eq!(pool.len(), 1);
    // The dead link must never be picked again…
    for seed in 0..6 {
        assert_eq!(pool.pick_seeded(None, seed).unwrap().url, "ok");
    }
    // …and a refill can't re-admit it either.
    assert_eq!(pool.add_tracks(vec![track("dead")]), 0);
}

#[test]
fn clear_resets_everything() {
    let mut pool = ShufflePool::new();
    pool.add_tracks(vec![track("x")]);
    pool.pending_play = true;
    pool.fetch_inflight = true;
    pool.cursor = Some("c".into());
    pool.clear();
    assert!(pool.is_empty());
    assert!(!pool.pending_play);
    assert!(!pool.fetch_inflight);
    assert!(pool.cursor.is_none());
    // The seen-set is gone too: the same track can be admitted again.
    assert_eq!(pool.add_tracks(vec![track("x")]), 1);
}

#[test]
fn entropy_varies_between_calls() {
    // Fresh pools of many tracks: picking the same one every time would mean
    // that chance plays no part.
    let many: Vec<_> = (0..POOL_CAP).map(|i| track(&format!("v{i}"))).collect();
    let vals: HashSet<String> = (0..8)
        .map(|_| {
            let mut pool = ShufflePool::new();
            pool.add_tracks(many.clone());
            pool.pick(None).unwrap().url
        })
        .collect();
    assert!(vals.len() > 1, "every pick was the same");
}

#[test]
fn every_candidate_comes_up() {
    for seed in 0..3 {
        let mut pool = ShufflePool::new();
        pool.add_tracks(vec![track("a"), track("b"), track("c"), track("d")]);
        let got = pool.pick_seeded(Some("b"), seed).unwrap();
        assert_eq!(got.url, ["a", "c", "d"][seed as usize]);
    }
}

#[test]
fn the_recent_list_is_bounded() {
    let mut pool = ShufflePool::new();
    pool.add_tracks((0..20).map(|i| track(&format!("v{i}"))).collect());
    let picks: Vec<String> = (0..12).map(|s| pool.pick_seeded(None, s).unwrap().url).collect();
    assert_eq!(pool.recent.len(), RECENT_CAP);
    assert_eq!(pool.recent, picks[picks.len() - RECENT_CAP..].to_vec());
}

#[test]
fn adding_the_same_tracks_again_adds_none() {
    let mut pool = ShufflePool::new();
    let many: Vec<_> = (0..POOL_CAP + 5).map(|i| track(&format!("v{i}"))).collect();
    assert_eq!(pool.add_tracks(many.clone()), POOL_CAP);
    assert_eq!(pool.add_tracks(many), 0);
    assert_eq!(pool.len(), POOL_CAP);
    let mut small = ShufflePool::new();
    assert_eq!(small.add_tracks(vec![track("a"), track("a"), track("b")]), 2);
    assert_eq!(small.add_tracks(vec![track("b"), track("a")]), 0);
    assert_eq!(small.len(), 2);
}

#[test]
fn picks_in_a_row_differ() {
    let mut pool = ShufflePool::new();
    pool.add_tracks((0..RECENT_CAP + 2).map(|i| track(&format!("v{i}"))).collect());
    let mut picks: Vec<String> = Vec::new();
    for seed in 0..40u64 {
        let current = picks.last().cloned();
        picks.push(pool.pick_seeded(current.as_deref(), seed * 7 + 3).unwrap().url);
    }
    for row in picks.windows(RECENT_CAP + 1) {
        let distinct: HashSet<&String> = row.iter().collect();
        assert_eq!(distinct.len(), RECENT_CAP + 1, "{row:?}");
    }
}
