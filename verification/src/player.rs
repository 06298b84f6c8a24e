//! Background music by an external `mpv` process: what it is started and
//! controlled with, and what the now-playing bar shows.
//!
//! The caller runs the process and the socket. It hands each event to
//! [`after_event`] and performs the action that comes back.
use vstd::prelude::*;

use crate::draw::{self, push_span, Line, Span};
use crate::strs::{self, decimal_text, push_text, signed_decimal_text};
use crate::theme::{Style, Theme};

verus! {

/// The range of volumes; above 100 is amplification.
pub const VOLUME_MIN: i64 = 0;

pub const VOLUME_MAX: i64 = 130;

/// The volume of a fresh session.
pub const DEFAULT_VOLUME: i64 = 50;

/// How often the socket is tried before playback goes on without controls.
pub const CONNECT_ATTEMPTS: u32 = 50;

/// What the player is told.
#[derive(Debug, Clone, Copy, PartialEq, Eq, Structural)]
pub enum Cmd {
    TogglePause,
    /// Change the volume by so much.
    Volume(i64),
    Stop,
}

/// A track that is loaded, as the bar shows it.
#[derive(Debug, Clone, PartialEq, Eq)]
pub struct Handle {
    pub artist: String,
    pub title: String,
    pub url: String,
    /// Which playback this is, so that a late notice of an earlier one's end is
    /// not taken for this one's.
    pub token: u64,
    pub paused: bool,
    pub volume: i64,
}

pub open spec fn clamped(n: int) -> int {
    if n < VOLUME_MIN {
        VOLUME_MIN as int
    } else if n > VOLUME_MAX {
        VOLUME_MAX as int
    } else {
        n
    }
}

impl Handle {
    /// Playback after its pause was turned over, and what the player is told.
    pub open spec fn toggled(self) -> (Handle, Cmd) {
        (Handle { paused: !self.paused, ..self }, Cmd::TogglePause)
    }

    /// Playback after a step of the volume, and what the player is told, if there is
    /// anything to tell.
    pub open spec fn louder(self, delta: int) -> (Handle, Option<Cmd>) {
        let volume = clamped(self.volume + delta);
        (
            Handle { volume: volume as i64, ..self },
            if volume == self.volume {
                None
            } else {
                Some(Cmd::Volume((volume - self.volume) as i64))
            },
        )
    }

    /// A track that has just been started.
    pub fn started(url: String, artist: String, title: String, token: u64, volume: i64) -> (r:
        Handle)
        ensures
            r == (Handle { artist, title, url, token, paused: false, volume }),
            !r.paused,
            r.url == url,
            r.title == title,
            r.artist == artist,
            r.volume == volume,
            r.token == token,
    {
        Handle { artist, title, url, token, paused: false, volume }
    }

    /// Toggle pause; says what to tell the player.
    pub fn toggle_pause(&mut self) -> (r: Cmd)
        ensures
            (*final(self), r) == old(self).toggled(),
    {
        self.paused = !self.paused;
        Cmd::TogglePause
    }

    /// Step the volume within its range; says what to tell the player, if
    /// anything changed.
    pub fn step_volume(&mut self, delta: i64) -> (r: Option<Cmd>)
        requires
            i64::MIN <= old(self).volume + delta <= i64::MAX,
            i64::MIN <= clamped(old(self).volume + delta) - old(self).volume <= i64::MAX,
        ensures
            (*final(self), r) == old(self).louder(delta as int),
    {
        let wanted: i64 = self.volume + delta;
        let next: i64 = if wanted < VOLUME_MIN {
            VOLUME_MIN
        } else if wanted > VOLUME_MAX {
            VOLUME_MAX
        } else {
            wanted
        };
        let applied: i64 = next - self.volume;
        self.volume = next;
        if applied != 0 {
            Some(Cmd::Volume(applied))
        } else {
            None
        }
    }

    /// Stop playback.
    pub fn stop(&self) -> (r: Cmd)
        ensures
            r == Cmd::Stop,
    {
        Cmd::Stop
    }
}

/// The line that tells the player a command.
pub open spec fn command_line(cmd: Cmd) -> Seq<char> {
    match cmd {
        Cmd::TogglePause => "{\"command\":[\"cycle\",\"pause\"]}"@,
        Cmd::Volume(delta) => "{\"command\":[\"add\",\"volume\","@ + strs::signed_decimal(
            delta as int,
        ) + "]}"@,
        Cmd::Stop => "{\"command\":[\"quit\"]}"@,
    }
}

/// The line that tells the player a command.
pub fn command_json(cmd: Cmd) -> (r: String)
    ensures
        r@ == command_line(cmd),
{
    match cmd {
        Cmd::TogglePause => "{\"command\":[\"cycle\",\"pause\"]}".to_owned(),
        Cmd::Volume(delta) => {
            let mut s = "{\"command\":[\"add\",\"volume\",".to_owned();
            s.append(signed_decimal_text(delta).as_str());
            s.append("]}");
            s
        },
        Cmd::Stop => "{\"command\":[\"quit\"]}".to_owned(),
    }
}

/// What the arguments of the player are.
pub open spec fn arguments(url: Seq<char>, volume: i64, socket: Seq<char>) -> Seq<Seq<char>> {
    seq![
        "--no-video"@,
        "--no-terminal"@,
        "--really-quiet"@,
        "--idle=no"@,
        "--volume="@ + strs::signed_decimal(volume as int),
        "--input-ipc-server="@ + socket,
        url,
    ]
}

/// The arguments that the player plays `url` with, listening on `socket`.
pub fn mpv_args(url: &str, volume: i64, socket: &str) -> (r: Vec<String>)
    ensures
        strs::texts(r@) == arguments(url@, volume, socket@),
{
    let mut args: Vec<String> = Vec::new();
    push_text(&mut args, "--no-video".to_owned());
    push_text(&mut args, "--no-terminal".to_owned());
    push_text(&mut args, "--really-quiet".to_owned());
    push_text(&mut args, "--idle=no".to_owned());
    let mut loud = "--volume=".to_owned();
    loud.append(signed_decimal_text(volume).as_str());
    push_text(&mut args, loud);
    let mut server = "--input-ipc-server=".to_owned();
    server.append(socket);
    push_text(&mut args, server);
    push_text(&mut args, url.to_owned());
    assert(strs::texts(args@) =~= arguments(url@, volume, socket@));
    args
}

/// The name of a playback's socket: on Windows a pipe, elsewhere a file in the
/// directory for temporary files.
pub open spec fn socket_text(pid: u32, token: u64, windows: bool) -> Seq<char> {
    let name = "cs-tui-mpv-"@ + strs::decimal(pid as nat) + "-"@ + strs::decimal(token as nat);
    if windows {
        "\\\\.\\pipe\\"@ + name
    } else {
        name + ".sock"@
    }
}

/// The name of a playback's socket.
pub fn socket_name(pid: u32, token: u64, windows: bool) -> (r: String)
    ensures
        r@ == socket_text(pid, token, windows),
{
    let mut name = "cs-tui-mpv-".to_owned();
    name.append(decimal_text(pid as u64).as_str());
    name.append("-");
    name.append(decimal_text(token).as_str());
    if windows {
        let mut r = "\\\\.\\pipe\\".to_owned();
        r.append(name.as_str());
        r
    } else {
        name.append(".sock");
        name
    }
}

/// What happened to a playback.
#[derive(Debug, Clone, Copy, PartialEq, Eq, Structural)]
pub enum Event {
    /// The user asked for something.
    Command(Cmd),
    /// The handle is gone.
    Dropped,
    /// The player has ended by itself.
    Exited,
    /// It still runs.
    Running,
}

/// What is to be done.
#[derive(Debug, Clone, PartialEq, Eq)]
pub enum Action {
    /// Tell the player a line and go on.
    Tell(String),
    /// Tell the player a line, make sure it is gone, and finish.
    TellAndKill(String),
    /// The playback is over.
    Finish,
    /// Go on.
    Wait,
}

/// What an [`Action`] says.
#[verifier::ext_equal]
pub enum ActionView {
    Tell(Seq<char>),
    TellAndKill(Seq<char>),
    Finish,
    Wait,
}

impl View for Action {
    type V = ActionView;

    open spec fn view(&self) -> ActionView {
        match self {
            Action::Tell(s) => ActionView::Tell(s@),
            Action::TellAndKill(s) => ActionView::TellAndKill(s@),
            Action::Finish => ActionView::Finish,
            Action::Wait => ActionView::Wait,
        }
    }
}

/// What an event asks for: a stop and a handle that is gone both end the player.
pub open spec fn action_for(event: Event) -> ActionView {
    match event {
        Event::Command(Cmd::Stop) | Event::Dropped => ActionView::TellAndKill(
            command_line(Cmd::Stop),
        ),
        Event::Command(cmd) => ActionView::Tell(command_line(cmd)),
        Event::Exited => ActionView::Finish,
        Event::Running => ActionView::Wait,
    }
}

/// What is to be done after an event.
pub fn after_event(event: Event) -> (r: Action)
    ensures
        r@ == action_for(event),
{
    match event {
        Event::Command(Cmd::Stop) | Event::Dropped => Action::TellAndKill(
            command_json(Cmd::Stop),
        ),
        Event::Command(cmd) => Action::Tell(command_json(cmd)),
        Event::Exited => Action::Finish,
        Event::Running => Action::Wait,
    }
}

/// Whether the socket is tried again after `attempts` failures.
pub fn keeps_trying(attempts: u32) -> (r: bool)
    ensures
        r == (attempts < CONNECT_ATTEMPTS),
{
    attempts < CONNECT_ATTEMPTS
}

/// What the bar calls the track.
pub open spec fn track_text(title: Seq<char>, artist: Seq<char>) -> Seq<char> {
    if title.len() > 0 && artist.len() > 0 {
        title + " · "@ + artist
    } else if title.len() > 0 {
        title
    } else if artist.len() > 0 {
        artist
    } else {
        "jukebox"@
    }
}

pub open spec fn bold(s: Style) -> Style {
    Style { bold: true, ..s }
}

/// The now-playing bar: whether it plays, the track, the volume and the keys.
pub open spec fn bar(h: Handle, theme: Theme) -> Seq<draw::SpanView> {
    seq![
        draw::span(
            if h.paused {
                "♪ ⏸ "@
            } else {
                "♪ ▶ "@
            },
            bold(theme.accent_spec()),
        ),
        draw::span(track_text(h.title@, h.artist@), theme.base_spec()),
        draw::span(
            (if h.paused {
                "  ·  p resume · s stop · [ ] vol "@
            } else {
                "  ·  p pause · s stop · [ ] vol "@
            }) + strs::signed_decimal(h.volume as int) + "%"@,
            theme.muted_spec(),
        ),
    ]
}

/// The now-playing bar.
pub fn render_bar(handle: &Handle, theme: &Theme) -> (r: Line)
    ensures
        r@ == bar(*handle, *theme),
{
    let accent = theme.accent_style();
    let lead = Style { bold: true, ..accent };
    let title = handle.title.as_str();
    let artist = handle.artist.as_str();
    let mut track = String::new();
    if !title.is_empty() && !artist.is_empty() {
        track.append(title);
        track.append(" · ");
        track.append(artist);
    } else if !title.is_empty() {
        track.append(title);
    } else if !artist.is_empty() {
        track.append(artist);
    } else {
        track.append("jukebox");
    }
    assert(track@ =~= track_text(title@, artist@));
    let mut rest = (if handle.paused {
        "  ·  p resume · s stop · [ ] vol "
    } else {
        "  ·  p pause · s stop · [ ] vol "
    }).to_owned();
    rest.append(signed_decimal_text(handle.volume).as_str());
    rest.append("%");
    let mut spans: Vec<Span> = Vec::new();
    push_span(
        &mut spans,
        Span::of(
            if handle.paused {
                "♪ ⏸ "
            } else {
                "♪ ▶ "
            },
            lead,
        ),
    );
    push_span(&mut spans, Span::new(track, theme.base()));
    push_span(&mut spans, Span::new(rest, theme.muted_style()));
    assert(draw::span_views(spans@) =~= bar(*handle, *theme));
    Line::new(spans)
}

// ---------------------------------------------------------------------------
// Laws.
// ---------------------------------------------------------------------------

/// The volume never leaves its range, and a step within it is made in full.
pub proof fn law_volume_stays_in_range(volume: int, delta: int)
    ensures
        VOLUME_MIN <= clamped(volume + delta) <= VOLUME_MAX,
        VOLUME_MIN <= volume + delta <= VOLUME_MAX ==> clamped(volume + delta) == volume + delta,
{
}

/// A playback ends by a stop, by the loss of its handle or by itself, and by
/// nothing else.
pub proof fn law_playback_ends_only_when_asked(event: Event)
    ensures
        (action_for(event) is Finish || action_for(event) is TellAndKill) == (event
            == Event::Command(Cmd::Stop) || event == Event::Dropped || event == Event::Exited),
{
}

/// Within one process, two playbacks never share a socket.
pub proof fn law_sockets_differ(pid: u32, a: u64, b: u64, windows: bool)
    requires
        a != b,
    ensures
        socket_text(pid, a, windows) != socket_text(pid, b, windows),
{
    let head = "cs-tui-mpv-"@ + strs::decimal(pid as nat) + "-"@;
    let x = strs::decimal(a as nat);
    let y = strs::decimal(b as nat);
    lemma_decimal_is_injective(a as nat, b as nat);
    if socket_text(pid, a, windows) == socket_text(pid, b, windows) {
        let s = socket_text(pid, a, windows);
        if windows {
            let pre = "\\\\.\\pipe\\"@;
            assert(s =~= (pre + head) + x);
            assert(s =~= (pre + head) + y);
            assert(x.len() == y.len());
            assert(x =~= s.skip((pre + head).len() as int));
            assert(y =~= s.skip((pre + head).len() as int));
        } else {
            let post = ".sock"@;
            assert(s =~= head + x + post);
            assert(s =~= head + y + post);
            assert(x.len() == y.len());
            assert(x =~= s.subrange(head.len() as int, (head.len() + x.len()) as int));
            assert(y =~= s.subrange(head.len() as int, (head.len() + x.len()) as int));
        }
    }
}

proof fn lemma_decimal_is_injective(a: nat, b: nat)
    requires
        a != b,
    ensures
        strs::decimal(a) != strs::decimal(b),
    decreases a,
{
    let x = strs::decimal(a);
    let y = strs::decimal(b);
    if x == y {
        if a < 10 && b < 10 {
            assert(x[0] == strs::digit_char(a));
            assert(y[0] == strs::digit_char(b));
        } else if a >= 10 && b >= 10 {
            assert(x.last() == strs::digit_char(a % 10));
            assert(y.last() == strs::digit_char(b % 10));
            assert(x.drop_last() =~= strs::decimal(a / 10));
            assert(y.drop_last() =~= strs::decimal(b / 10));
            if a / 10 != b / 10 {
                lemma_decimal_is_injective(a / 10, b / 10);
            }
        } else {
            lemma_decimal_len(a);
            lemma_decimal_len(b);
        }
    }
}

proof fn lemma_decimal_len(n: nat)
    ensures
        n < 10 ==> strs::decimal(n).len() == 1,
        n >= 10 ==> strs::decimal(n).len() >= 2,
    decreases n,
{
    if n >= 10 {
        lemma_decimal_len(n / 10);
    }
}

/// Turning the pause over turns it over, tells the player so, and twice is not at all.
pub proof fn law_pausing_is_undone(h: Handle)
    ensures
        h.toggled().0.paused != h.paused,
        h.toggled().1 is TogglePause,
        h.toggled().0.toggled().0 == h,
        h.toggled().0.volume == h.volume,
        h.toggled().0.url == h.url,
{
}

/// A step within 0 and 130 is made in full, one beyond stops at the end, and the player
/// is told exactly the difference, and nothing where there is none.
pub proof fn law_the_player_is_told_the_difference(h: Handle, delta: int)
    requires
        0 <= h.volume <= 130,
    ensures
        ({
            let (a, told) = h.louder(delta);
            &&& 0 <= h.volume + delta <= 130 ==> a.volume == h.volume + delta
            &&& h.volume + delta > 130 ==> a.volume == 130
            &&& h.volume + delta < 0 ==> a.volume == 0
            &&& told matches Some(c) ==> (c matches Cmd::Volume(d) && d != 0 && h.volume + d
                == a.volume)
            &&& told is None ==> a.volume == h.volume
            &&& a.paused == h.paused && a.url == h.url && a.title == h.title && a.artist
                == h.artist && a.token == h.token
        }),
{
}

/// The player is told each command in one line: a pause to be turned over, a volume to be
/// added to, by the number that reads back as the step, and to quit.
pub proof fn law_commands_say_what_to_do(delta: i64)
    ensures
        command_line(Cmd::TogglePause) == "{\"command\":[\"cycle\",\"pause\"]}"@,
        command_line(Cmd::Stop) == "{\"command\":[\"quit\"]}"@,
        command_line(Cmd::Volume(delta)) == "{\"command\":[\"add\",\"volume\","@
            + strs::signed_decimal(delta as int) + "]}"@,
{
}

/// What a listener asks for is passed on, a stop and a dropped listener make the player
/// quit, and one that runs is waited for.
pub proof fn law_events_are_acted_on(cmd: Cmd)
    ensures
        !(cmd is Stop) ==> action_for(Event::Command(cmd)) == ActionView::Tell(command_line(cmd)),
        action_for(Event::Command(Cmd::Stop)) == ActionView::TellAndKill(
            "{\"command\":[\"quit\"]}"@,
        ),
        action_for(Event::Dropped) == ActionView::TellAndKill("{\"command\":[\"quit\"]}"@),
        action_for(Event::Exited) is Finish,
        action_for(Event::Running) is Wait,
{
}

/// The player is started on the URL, which comes last, at the volume and with the socket
/// it was given, without a picture.
pub proof fn law_the_player_is_started_on_the_url(
    url: Seq<char>,
    volume: i64,
    socket: Seq<char>,
)
    ensures
        ({
            let a = arguments(url, volume, socket);
            &&& a.last() == url
            &&& a.contains("--no-video"@)
            &&& a.contains("--volume="@ + strs::signed_decimal(volume as int))
            &&& a.contains("--input-ipc-server="@ + socket)
        }),
{
    let a = arguments(url, volume, socket);
    assert(a[0] == "--no-video"@);
    assert(a[4] == "--volume="@ + strs::signed_decimal(volume as int));
    assert(a[5] == "--input-ipc-server="@ + socket);
}

/// The bar names the track and its artist where they are known, and says what `p` would
/// do.
pub proof fn law_the_bar_names_the_track(h: Handle, theme: Theme)
    ensures
        ({
            let b = bar(h, theme);
            &&& b.len() == 3
            &&& h.title@.len() > 0 && h.artist@.len() > 0 ==> b[1].content == h.title@ + " · "@
                + h.artist@
            &&& h.title@.len() > 0 && h.artist@.len() == 0 ==> b[1].content == h.title@
            &&& h.title@.len() == 0 && h.artist@.len() > 0 ==> b[1].content == h.artist@
            &&& h.title@.len() == 0 && h.artist@.len() == 0 ==> b[1].content == "jukebox"@
            &&& h.paused ==> b[0].content == "♪ ⏸ "@ && b[2].content
                == "  ·  p resume · s stop · [ ] vol "@ + strs::signed_decimal(h.volume as int)
                + "%"@
            &&& !h.paused ==> b[0].content == "♪ ▶ "@ && b[2].content
                == "  ·  p pause · s stop · [ ] vol "@ + strs::signed_decimal(h.volume as int)
                + "%"@
        }),
{
}

} // verus!
