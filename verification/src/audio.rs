//! Jukebox tracks: the audio attachments of posts.
use vstd::prelude::*;

use crate::draw::{self, push_line, push_span, Line, Span};
use crate::model::{Attachment, Entry};
use crate::theme::{self, Style, Theme};

verus! {

/// A track that can be played.
#[derive(Debug, Clone, PartialEq, Eq)]
pub struct JukeboxTrack {
    pub url: String,
    pub artist: String,
    pub title: String,
}

impl JukeboxTrack {
    pub fn copy(&self) -> (r: JukeboxTrack)
        ensures
            r == *self,
    {
        JukeboxTrack {
            url: self.url.clone(),
            artist: self.artist.clone(),
            title: self.title.clone(),
        }
    }
}

/// The track of the first audio attachment at or after position `i`.
pub open spec fn track_from(attachments: Seq<Attachment>, i: int) -> Option<JukeboxTrack>
    decreases attachments.len() - i,
{
    if i < 0 || i >= attachments.len() {
        None
    } else {
        match attachments[i] {
            Attachment::Audio { src, artist, title, .. } => Some(
                JukeboxTrack { url: src, artist, title },
            ),
            _ => track_from(attachments, i + 1),
        }
    }
}

/// The track a post carries: that of its first audio attachment.
pub open spec fn track_of(attachments: Seq<Attachment>) -> Option<JukeboxTrack> {
    track_from(attachments, 0)
}

/// The link of the track a post carries.
pub open spec fn url_of(attachments: Seq<Attachment>) -> Option<String> {
    match track_of(attachments) {
        Some(t) => Some(t.url),
        None => None,
    }
}

/// The track a post carries, if any.
pub fn jukebox_track(attachments: &Vec<Attachment>) -> (r: Option<JukeboxTrack>)
    ensures
        r == track_of(attachments@),
{
    let mut i: usize = 0;
    while i < attachments.len()
        invariant
            i <= attachments@.len(),
            track_from(attachments@, i as int) == track_of(attachments@),
        decreases attachments@.len() - i,
    {
        if let Attachment::Audio { src, artist, title, .. } = &attachments[i] {
            return Some(
                JukeboxTrack { url: src.clone(), artist: artist.clone(), title: title.clone() },
            );
        }
        i = i + 1;
    }
    None
}

/// The link of the track a post carries, if any.
pub fn jukebox_url(attachments: &Vec<Attachment>) -> (r: Option<String>)
    ensures
        r == url_of(attachments@),
{
    match jukebox_track(attachments) {
        Some(t) => Some(t.url),
        None => None,
    }
}

/// Whether a post carries a track.
pub fn has_audio(entry: &Entry) -> (r: bool)
    ensures
        r == (track_of(entry.attachments@) is Some),
{
    jukebox_track(&entry.attachments).is_some()
}

/// The lines of one track: its title, artist and genre, then its link.
pub open spec fn track_lines(a: Attachment, theme: Theme) -> Seq<Seq<draw::SpanView>> {
    match a {
        Attachment::Audio { src, artist, title, genre, .. } => seq![
            seq![
                draw::span("♪ "@ + title@, theme.accent_spec()),
                draw::span(" · "@ + artist@ + " · "@ + genre@, theme.muted_spec()),
            ],
            draw::one("  "@ + src@, theme::colored(theme.accent)),
        ],
        _ => Seq::empty(),
    }
}

/// The lines of the first `n` attachments' tracks.
pub open spec fn audio_rows(attachments: Seq<Attachment>, n: int, theme: Theme) -> Seq<
    Seq<draw::SpanView>,
>
    decreases n,
{
    if n <= 0 {
        Seq::empty()
    } else {
        audio_rows(attachments, n - 1, theme) + track_lines(attachments[n - 1], theme)
    }
}

/// The track cards of a post.
pub fn audio_lines(attachments: &Vec<Attachment>, theme: &Theme) -> (r: Vec<Line>)
    ensures
        draw::line_views(r@) == audio_rows(attachments@, attachments@.len() as int, *theme),
{
    let mut r: Vec<Line> = Vec::new();
    let mut i: usize = 0;
    assert(draw::line_views(r@) =~= audio_rows(attachments@, 0, *theme));
    while i < attachments.len()
        invariant
            i <= attachments@.len(),
            draw::line_views(r@) == audio_rows(attachments@, i as int, *theme),
        decreases attachments@.len() - i,
    {
        let ghost before = draw::line_views(r@);
        if let Attachment::Audio { src, artist, title, genre, .. } = &attachments[i] {
            let mut head = "♪ ".to_owned();
            head.append(title.as_str());
            let mut rest = " · ".to_owned();
            rest.append(artist.as_str());
            rest.append(" · ");
            rest.append(genre.as_str());
            let mut link = "  ".to_owned();
            link.append(src.as_str());
            let mut spans: Vec<Span> = Vec::new();
            push_span(&mut spans, Span::new(head, theme.accent_style()));
            push_span(&mut spans, Span::new(rest, theme.muted_style()));
            assert(draw::span_views(spans@) =~= track_lines(attachments@[i as int], *theme)[0]);
            push_line(&mut r, Line::new(spans));
            push_line(&mut r, Line::single(link, Style::color(theme.accent)));
        }
        assert(draw::line_views(r@) =~= before + track_lines(attachments@[i as int], *theme));
        i = i + 1;
    }
    r
}

// ---------------------------------------------------------------------------
// Laws.
// ---------------------------------------------------------------------------

proof fn lemma_track_from(attachments: Seq<Attachment>, i: int, at: int)
    requires
        0 <= i <= at <= attachments.len(),
        forall|k: int| i <= k < at ==> !(#[trigger] attachments[k] is Audio),
    ensures
        track_from(attachments, i) == track_from(attachments, at),
    decreases at - i,
{
    if i < at {
        assert(!(attachments[i] is Audio));
        lemma_track_from(attachments, i + 1, at);
    }
}

/// The track of a post is the first audio attachment's: its link, artist and
/// title.
pub proof fn law_the_first_audio_is_the_track(attachments: Seq<Attachment>, at: int)
    requires
        0 <= at < attachments.len(),
        forall|k: int| 0 <= k < at ==> !(#[trigger] attachments[k] is Audio),
    ensures
        attachments[at] matches Attachment::Audio { src, artist, title, .. } ==> track_of(
            attachments,
        ) == Some(JukeboxTrack { url: src, artist, title }) && url_of(attachments) == Some(src),
{
    lemma_track_from(attachments, 0, at);
}

/// A post without audio has no track, and none of its lines is a track's.
pub proof fn law_silent_posts_have_no_track(attachments: Seq<Attachment>, theme: Theme)
    requires
        forall|k: int| 0 <= k < attachments.len() ==> !(#[trigger] attachments[k] is Audio),
    ensures
        track_of(attachments) is None,
        url_of(attachments) is None,
        audio_rows(attachments, attachments.len() as int, theme).len() == 0,
{
    lemma_track_from(attachments, 0, attachments.len() as int);
    lemma_no_rows(attachments, attachments.len() as int, theme);
}

proof fn lemma_no_rows(attachments: Seq<Attachment>, n: int, theme: Theme)
    requires
        0 <= n <= attachments.len(),
        forall|k: int| 0 <= k < attachments.len() ==> !(#[trigger] attachments[k] is Audio),
    ensures
        audio_rows(attachments, n, theme).len() == 0,
    decreases n,
{
    if n > 0 {
        lemma_no_rows(attachments, n - 1, theme);
        assert(!(attachments[n - 1] is Audio));
    }
}

/// Each audio attachment has two lines: what it is, and its link alone on the
/// second; the cards stand in the order of the attachments.
pub proof fn law_each_track_has_its_card(attachments: Seq<Attachment>, a: Attachment, theme: Theme)
    ensures
        ({
            let before = audio_rows(attachments, attachments.len() as int, theme);
            let after = audio_rows(attachments.push(a), attachments.len() as int + 1, theme);
            &&& a matches Attachment::Audio { src, artist, title, genre, .. } ==> {
                &&& after.len() == before.len() + 2
                &&& after.take(before.len() as int) == before
                &&& draw::line_text(after[before.len() as int]) == "♪ "@ + title@ + (" · "@
                    + artist@ + " · "@ + genre@)
                &&& draw::line_text(after.last()) == seq![' ', ' '] + src@
            }
            &&& !(a is Audio) ==> after == before
        }),
{
    let n = attachments.len() as int;
    lemma_rows_of_prefix(attachments, a, n, theme);
    let before = audio_rows(attachments, n, theme);
    let after = audio_rows(attachments.push(a), n + 1, theme);
    assert(attachments.push(a)[n] == a);
    assert(after == before + track_lines(a, theme));
    reveal_strlit("  ");
    assert("  "@ =~= seq![' ', ' ']);
    reveal_with_fuel(draw::line_text, 3);
    if a is Audio {
        let l = track_lines(a, theme);
        assert(after.take(before.len() as int) =~= before);
        assert(after[before.len() as int] == l[0]);
        assert(after.last() == l[1]);
        assert(l[1].drop_last() =~= Seq::empty());
        assert(draw::line_text(l[1]) =~= l[1].last().content);
        assert(l[0].drop_last().drop_last() =~= Seq::empty());
        assert(l[0].drop_last().last() == l[0][0]);
        assert(draw::line_text(l[0]) =~= l[0][0].content + l[0][1].content);
    } else {
        assert(after =~= before);
    }
}

proof fn lemma_rows_of_prefix(attachments: Seq<Attachment>, a: Attachment, n: int, theme: Theme)
    requires
        0 <= n <= attachments.len(),
    ensures
        audio_rows(attachments.push(a), n, theme) == audio_rows(attachments, n, theme),
    decreases n,
{
    if n > 0 {
        lemma_rows_of_prefix(attachments, a, n - 1, theme);
        assert(attachments.push(a)[n - 1] == attachments[n - 1]);
    }
}

} // verus!
