//! A transient message drawn over any screen, which goes away by itself.
//!
//! Moments are nanoseconds on the caller's clock.
use vstd::prelude::*;

use crate::draw::{self, Line, Rect};
use crate::strs::{self, chars_of, decimal_text};
use crate::theme::{Style, Theme};

verus! {

pub const NANOS: u64 = 1_000_000_000;

/// What a message is.
#[derive(Debug, Clone, Copy, PartialEq, Eq, Structural)]
pub enum ToastKind {
    /// Something was done.
    Success,
    /// Something went wrong, or soon would.
    Warning,
}

/// A message and when it goes away.
#[derive(Debug)]
pub struct Toast {
    pub text: String,
    pub expires_at: u64,
    pub countdown: bool,
    pub kind: ToastKind,
}

/// What a [`Toast`] holds.
#[verifier::ext_equal]
pub struct ToastView {
    pub text: Seq<char>,
    pub expires_at: int,
    pub countdown: bool,
    pub kind: ToastKind,
}

impl View for Toast {
    type V = ToastView;

    open spec fn view(&self) -> ToastView {
        ToastView {
            text: self.text@,
            expires_at: self.expires_at as int,
            countdown: self.countdown,
            kind: self.kind,
        }
    }
}

/// The moment `secs` seconds after `now`, as far as the clock goes.
pub open spec fn after(now: int, secs: int) -> int {
    draw::least(now + secs * NANOS, u64::MAX as int)
}

pub open spec fn clamped(n: int, low: int, high: int) -> int {
    if n < low {
        low
    } else if n > high {
        high
    } else {
        n
    }
}

fn moment_after(now: u64, secs: u64) -> (r: u64)
    requires
        secs <= 1000,
    ensures
        r == after(now as int, secs as int),
{
    let wait: u64 = secs * NANOS;
    if wait > u64::MAX - now {
        u64::MAX
    } else {
        now + wait
    }
}

fn clamp(n: u64, low: u64, high: u64) -> (r: u64)
    requires
        low <= high,
    ensures
        r == clamped(n as int, low as int, high as int),
        low <= r <= high,
{
    if n < low {
        low
    } else if n > high {
        high
    } else {
        n
    }
}

impl ToastView {
    pub open spec fn expired(self, now: int) -> bool {
        now >= self.expires_at
    }

    /// The seconds shown: what is left, rounded up, and at least one.
    pub open spec fn seconds(self, now: int) -> int {
        let left = if self.expires_at > now {
            self.expires_at - now
        } else {
            0
        };
        let up = (left + NANOS - 1) / NANOS as int;
        if up < 1 {
            1
        } else {
            up
        }
    }

    pub open spec fn glyph_spec(self) -> Seq<char> {
        match self.kind {
            ToastKind::Success => "✓"@,
            ToastKind::Warning => "⚠"@,
        }
    }

    pub open spec fn label_spec(self, now: int) -> Seq<char> {
        " "@ + self.glyph_spec() + " "@ + self.text + (if self.countdown {
            " ("@ + strs::decimal(self.seconds(now) as nat) + "s) "@
        } else {
            " "@
        })
    }

    pub open spec fn style_spec(self, theme: Theme) -> Style {
        match self.kind {
            ToastKind::Success => theme.success_spec(),
            ToastKind::Warning => theme.warning_spec(),
        }
    }
}

impl ToastView {
    /// What a rate limit shows: it counts down for as long as the server asked, within a
    /// minute.
    pub open spec fn slowed(secs: int, now: int) -> ToastView {
        ToastView {
            text: "rate limited — slow down"@,
            expires_at: after(now, clamped(secs, 1, 60)),
            countdown: true,
            kind: ToastKind::Warning,
        }
    }

    /// A warning that counts down, within two minutes.
    pub open spec fn counting(text: Seq<char>, secs: int, now: int) -> ToastView {
        ToastView {
            text,
            expires_at: after(now, clamped(secs, 1, 120)),
            countdown: true,
            kind: ToastKind::Warning,
        }
    }

    /// A short word that something worked.
    pub open spec fn confirming(text: Seq<char>, now: int) -> ToastView {
        ToastView { text, expires_at: after(now, 2), countdown: false, kind: ToastKind::Success }
    }

    /// A short word that something did not.
    pub open spec fn warned(text: Seq<char>, now: int) -> ToastView {
        ToastView { text, expires_at: after(now, 3), countdown: false, kind: ToastKind::Warning }
    }
}

impl Toast {
    /// A warning that counts down the time the server asked to wait, at least
    /// one second and at most sixty.
    pub fn rate_limited(retry_after_secs: u64, now: u64) -> (r: Toast)
        ensures
            r@ == ToastView::slowed(retry_after_secs as int, now as int),
    {
        Toast {
            text: "rate limited — slow down".to_owned(),
            expires_at: moment_after(now, clamp(retry_after_secs, 1, 60)),
            countdown: true,
            kind: ToastKind::Warning,
        }
    }

    /// A countdown under a text of its own, at least one second and at most two
    /// minutes.
    pub fn countdown(text: String, secs: u64, now: u64) -> (r: Toast)
        ensures
            r@ == ToastView::counting(text@, secs as int, now as int),
    {
        Toast {
            text,
            expires_at: moment_after(now, clamp(secs, 1, 120)),
            countdown: true,
            kind: ToastKind::Warning,
        }
    }

    /// A brief confirmation.
    pub fn confirmation(text: String, now: u64) -> (r: Toast)
        ensures
            r@ == ToastView::confirming(text@, now as int),
    {
        Toast {
            text,
            expires_at: moment_after(now, 2),
            countdown: false,
            kind: ToastKind::Success,
        }
    }

    /// A brief warning.
    pub fn warning(text: String, now: u64) -> (r: Toast)
        ensures
            r@ == ToastView::warned(text@, now as int),
    {
        Toast {
            text,
            expires_at: moment_after(now, 3),
            countdown: false,
            kind: ToastKind::Warning,
        }
    }

    /// Whether it is time for the message to go.
    pub fn is_expired(&self, now: u64) -> (r: bool)
        ensures
            r == self@.expired(now as int),
    {
        now >= self.expires_at
    }

    /// The seconds shown.
    pub fn display_secs(&self, now: u64) -> (r: u64)
        ensures
            r == self@.seconds(now as int),
    {
        let left: u64 = if self.expires_at > now {
            self.expires_at - now
        } else {
            0
        };
        let whole: u64 = left / NANOS;
        let up: u64 = if left % NANOS > 0 {
            whole + 1
        } else {
            whole
        };
        if up < 1 {
            1
        } else {
            up
        }
    }

    pub fn glyph(&self) -> (r: &'static str)
        ensures
            r@ == self@.glyph_spec(),
    {
        match self.kind {
            ToastKind::Success => "✓",
            ToastKind::Warning => "⚠",
        }
    }

    pub fn label(&self, now: u64) -> (r: String)
        ensures
            r@ == self@.label_spec(now as int),
    {
        let mut s = " ".to_owned();
        s.append(self.glyph());
        s.append(" ");
        s.append(self.text.as_str());
        let mut end = String::new();
        if self.countdown {
            end.append(" (");
            end.append(decimal_text(self.display_secs(now)).as_str());
            end.append("s) ");
        } else {
            end.append(" ");
        }
        assert(end@ =~= if self@.countdown {
            " ("@ + strs::decimal(self@.seconds(now as int) as nat) + "s) "@
        } else {
            " "@
        });
        s.append(end.as_str());
        s
    }

    pub fn style(&self, theme: &Theme) -> (r: Style)
        ensures
            r == self@.style_spec(*theme),
    {
        match self.kind {
            ToastKind::Success => theme.success_style(),
            ToastKind::Warning => theme.warning_style(),
        }
    }
}

/// The box of a label of `n` characters: at the bottom right of an area, a cell
/// from its edges where there is room. None in an area without cells.
pub open spec fn placed(area: Rect, n: int) -> Option<Rect> {
    let w = draw::least(n + 2, area.width as int);
    let h = draw::least(3, area.height as int);
    if w == 0 || h == 0 {
        None
    } else {
        Some(
            Rect {
                x: (area.x + (if area.width - w > 0 {
                    area.width - w - 1
                } else {
                    0
                })) as u16,
                y: (area.y + (if area.height - h > 0 {
                    area.height - h - 1
                } else {
                    0
                })) as u16,
                width: w as u16,
                height: h as u16,
            },
        )
    }
}

fn place(area: Rect, n: usize) -> (r: Option<Rect>)
    requires
        area.x + area.width <= u16::MAX,
        area.y + area.height <= u16::MAX,
    ensures
        r == placed(area, n as int),
{
    let w: u16 = if n >= area.width as usize || n + 2 > area.width as usize {
        area.width
    } else {
        (n + 2) as u16
    };
    let h: u16 = if area.height < 3 {
        area.height
    } else {
        3
    };
    if w == 0 || h == 0 {
        return None;
    }
    let dx: u16 = if area.width > w {
        area.width - w - 1
    } else {
        0
    };
    let dy: u16 = if area.height > h {
        area.height - h - 1
    } else {
        0
    };
    Some(Rect { x: area.x + dx, y: area.y + dy, width: w, height: h })
}

/// What is drawn: a box with a border in the label's style.
#[derive(Debug)]
pub struct ToastFrame {
    pub rect: Rect,
    pub line: Line,
    pub border: Style,
    pub base: Style,
}

/// The message as it is drawn in an area, if there is room for it.
pub fn render(area: Rect, toast: &Toast, now: u64, theme: &Theme) -> (r: Option<ToastFrame>)
    requires
        area.x + area.width <= u16::MAX,
        area.y + area.height <= u16::MAX,
    ensures
        match r {
            Some(f) => {
                &&& placed(area, toast@.label_spec(now as int).len() as int) == Some(f.rect)
                &&& f.line@ == draw::one(
                    toast@.label_spec(now as int),
                    toast@.style_spec(*theme),
                )
                &&& f.border == toast@.style_spec(*theme)
                &&& f.base == theme.base_spec()
            },
            None => placed(area, toast@.label_spec(now as int).len() as int) is None,
        },
{
    let label = toast.label(now);
    let n: usize = chars_of(label.as_str()).len();
    let style = toast.style(theme);
    match place(area, n) {
        Some(rect) => Some(
            ToastFrame {
                rect,
                line: Line::single(label, style),
                border: style,
                base: theme.base(),
            },
        ),
        None => None,
    }
}

// ---------------------------------------------------------------------------
// Laws.
// ---------------------------------------------------------------------------

/// A countdown never shows zero, and one that has just begun shows the whole
/// wait.
pub proof fn law_countdown_starts_whole_and_never_shows_zero(t: ToastView, now: int, secs: int)
    requires
        1 <= secs,
    ensures
        t.seconds(now) >= 1,
        t.expires_at == now + secs * NANOS ==> t.seconds(now) == secs,
{
    if t.expires_at == now + secs * NANOS {
        let n = NANOS as int;
        assert(secs * n + n - 1 == n * secs + (n - 1));
        vstd::arithmetic::div_mod::lemma_fundamental_div_mod_converse(
            secs * n + n - 1,
            n,
            secs,
            n - 1,
        );
    }
}

/// The seconds shown never grow while the clock goes on.
pub proof fn law_countdown_only_falls(t: ToastView, now: int, later: int)
    requires
        now <= later,
    ensures
        t.seconds(later) <= t.seconds(now),
        t.expired(now) ==> t.expired(later),
{
    let a = if t.expires_at > now {
        t.expires_at - now
    } else {
        0
    };
    let b = if t.expires_at > later {
        t.expires_at - later
    } else {
        0
    };
    vstd::arithmetic::div_mod::lemma_div_is_ordered(b + NANOS - 1, a + NANOS - 1, NANOS as int);
}

/// The box lies within the area.
pub proof fn law_toast_fits_the_area(area: Rect, n: int)
    requires
        area.x + area.width <= u16::MAX,
        area.y + area.height <= u16::MAX,
        0 <= n,
    ensures
        placed(area, n) matches Some(r) ==> area.x <= r.x && r.x + r.width <= area.x + area.width
            && area.y <= r.y && r.y + r.height <= area.y + area.height,
{
}

/// A toast that counts down is shown for the seconds it was given, where these are
/// within its bounds, first showing their number, and is gone after them and not
/// before.
pub proof fn law_countdowns_last_as_long_as_asked(
    text: Seq<char>,
    secs: int,
    now: int,
    later: int,
)
    requires
        0 <= now <= later,
        now + 120_000_000_000 <= u64::MAX,
    ensures
        ({
            let t = ToastView::slowed(secs, now);
            &&& t.countdown && t.kind is Warning
            &&& 1 <= secs <= 60 ==> t.seconds(now) == secs && t.expired(later) == (later - now
                >= secs * 1_000_000_000)
            &&& secs > 60 ==> t.seconds(now) == 60 && t.expired(later) == (later - now
                >= 60_000_000_000)
            &&& secs < 1 ==> t.expired(later) == (later - now >= 1_000_000_000)
        }),
        ({
            let t = ToastView::counting(text, secs, now);
            &&& t.countdown && t.kind is Warning && t.text == text
            &&& 1 <= secs <= 120 ==> t.seconds(now) == secs && t.expired(later) == (later - now
                >= secs * 1_000_000_000)
            &&& secs > 120 ==> t.seconds(now) == 120 && t.expired(later) == (later - now
                >= 120_000_000_000)
            &&& secs < 1 ==> t.expired(later) == (later - now >= 1_000_000_000)
        }),
{
    let a = clamped(secs, 1, 60);
    law_countdown_starts_whole_and_never_shows_zero(ToastView::slowed(secs, now), now, a);
    let b = clamped(secs, 1, 120);
    law_countdown_starts_whole_and_never_shows_zero(
        ToastView::counting(text, secs, now),
        now,
        b,
    );
}

/// A confirmation is a success and is shown for two seconds, a warning for three; both
/// say their text and count nothing.
pub proof fn law_short_toasts_go_by_themselves(text: Seq<char>, now: int, later: int)
    requires
        0 <= now <= later,
        now + 3_000_000_000 <= u64::MAX,
    ensures
        ({
            let t = ToastView::confirming(text, now);
            &&& t.text == text && !t.countdown && t.kind is Success
            &&& t.expired(later) == (later - now >= 2_000_000_000)
        }),
        ({
            let t = ToastView::warned(text, now);
            &&& t.text == text && !t.countdown && t.kind is Warning
            &&& t.expired(later) == (later - now >= 3_000_000_000)
        }),
{
}

/// The label holds the sign of the toast's kind, its text, and the seconds left only
/// where it counts; and the seconds are those left, rounded up.
pub proof fn law_labels_say_what_is_left(t: ToastView, now: int)
    ensures
        ({
            let front: Seq<char> = if t.kind is Success {
                seq![' ', '✓', ' ']
            } else {
                seq![' ', '⚠', ' ']
            };
            &&& !t.countdown ==> t.label_spec(now) == front + t.text + seq![' ']
            &&& t.countdown ==> t.label_spec(now) == front + t.text + " ("@ + strs::decimal(
                t.seconds(now) as nat,
            ) + "s) "@
        }),
        t.expires_at > now ==> (t.seconds(now) - 1) * 1_000_000_000 < t.expires_at - now
            <= t.seconds(now) * 1_000_000_000,
{
    reveal_strlit(" ");
    reveal_strlit("✓");
    reveal_strlit("⚠");
    let front: Seq<char> = if t.kind is Success {
        seq![' ', '✓', ' ']
    } else {
        seq![' ', '⚠', ' ']
    };
    assert(" "@ + t.glyph_spec() + " "@ =~= front);
    if t.countdown {
        assert(t.label_spec(now) =~= front + t.text + " ("@ + strs::decimal(
            t.seconds(now) as nat,
        ) + "s) "@);
    } else {
        assert(t.label_spec(now) =~= front + t.text + seq![' ']);
    }
}

/// A toast stands in the lower right corner, one cell in where there is room, wide
/// enough for its label and frame.
pub proof fn law_toasts_stand_in_the_corner(area: Rect, n: int)
    requires
        area.x + area.width <= u16::MAX,
        area.y + area.height <= u16::MAX,
        0 <= n,
    ensures
        (placed(area, n) is None) == (area.width == 0 || area.height == 0),
        placed(area, n) matches Some(r) ==> {
            &&& n + 2 < area.width ==> r.width == n + 2 && r.x + r.width + 1 == area.x + area.width
            &&& n + 2 >= area.width ==> r.width == area.width && r.x == area.x
            &&& 3 < area.height ==> r.height == 3 && r.y + r.height + 1 == area.y + area.height
            &&& 3 >= area.height ==> r.height == area.height && r.y == area.y
        },
{
}

/// A success and a warning look different wherever the theme's colors for them do.
pub proof fn law_toasts_take_the_color_of_their_kind(t: ToastView, theme: Theme)
    ensures
        t.kind is Success ==> t.style_spec(theme) == theme.success_spec(),
        t.kind is Warning ==> t.style_spec(theme) == theme.warning_spec(),
{
}

} // verus!
