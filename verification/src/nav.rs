//! Top-level navigation: the tab bar and the number keys of the root screens.
use vstd::prelude::*;

use crate::draw::{self, push_span, Line, Span};
use crate::strs::{self, decimal_text};
use crate::theme::Theme;

verus! {

/// A root screen.
#[derive(Debug, Clone, Copy, PartialEq, Eq, Hash, Structural)]
pub enum RootKind {
    Feed,
    Notifications,
    Bookmarks,
    Topics,
    Profile,
    Journal,
    Settings,
}

/// The root screens, in the order of the tab bar.
pub const ROOTS: [RootKind; 7] = [
    RootKind::Feed,
    RootKind::Notifications,
    RootKind::Bookmarks,
    RootKind::Topics,
    RootKind::Profile,
    RootKind::Journal,
    RootKind::Settings,
];

impl RootKind {
    /// The root screens, in the order of the tab bar.
    pub fn all() -> (r: &'static [RootKind])
        ensures
            r@ == ROOTS@,
    {
        let roots: &'static [RootKind; 7] = &ROOTS;
        roots.as_slice()
    }

    pub open spec fn label_spec(self) -> Seq<char> {
        match self {
            RootKind::Feed => "feed"@,
            RootKind::Notifications => "notif"@,
            RootKind::Bookmarks => "bookm"@,
            RootKind::Topics => "topic"@,
            RootKind::Profile => "me"@,
            RootKind::Journal => "journ"@,
            RootKind::Settings => "sett"@,
        }
    }

    pub fn label(self) -> (r: &'static str)
        ensures
            r@ == self.label_spec(),
    {
        match self {
            RootKind::Feed => "feed",
            RootKind::Notifications => "notif",
            RootKind::Bookmarks => "bookm",
            RootKind::Topics => "topic",
            RootKind::Profile => "me",
            RootKind::Journal => "journ",
            RootKind::Settings => "sett",
        }
    }

    pub open spec fn shortcut_spec(self) -> char {
        match self {
            RootKind::Feed => '1',
            RootKind::Notifications => '2',
            RootKind::Bookmarks => '3',
            RootKind::Topics => '4',
            RootKind::Profile => '5',
            RootKind::Journal => '6',
            RootKind::Settings => '7',
        }
    }

    /// The number key of the screen.
    pub fn shortcut(self) -> (r: char)
        ensures
            r == self.shortcut_spec(),
    {
        match self {
            RootKind::Feed => '1',
            RootKind::Notifications => '2',
            RootKind::Bookmarks => '3',
            RootKind::Topics => '4',
            RootKind::Profile => '5',
            RootKind::Journal => '6',
            RootKind::Settings => '7',
        }
    }

    pub open spec fn at_shortcut(c: char) -> Option<RootKind> {
        match c {
            '1' => Some(RootKind::Feed),
            '2' => Some(RootKind::Notifications),
            '3' => Some(RootKind::Bookmarks),
            '4' => Some(RootKind::Topics),
            '5' => Some(RootKind::Profile),
            '6' => Some(RootKind::Journal),
            '7' => Some(RootKind::Settings),
            _ => None,
        }
    }

    /// The screen of a number key, if it has one.
    pub fn from_shortcut(c: char) -> (r: Option<RootKind>)
        ensures
            r == RootKind::at_shortcut(c),
    {
        match c {
            '1' => Some(RootKind::Feed),
            '2' => Some(RootKind::Notifications),
            '3' => Some(RootKind::Bookmarks),
            '4' => Some(RootKind::Topics),
            '5' => Some(RootKind::Profile),
            '6' => Some(RootKind::Journal),
            '7' => Some(RootKind::Settings),
            _ => None,
        }
    }
}

/// The text of a tab: its key and label, and the unread count on the
/// notifications where there is one.
pub open spec fn tab_text(kind: RootKind, unread: u32) -> Seq<char> {
    seq![kind.shortcut_spec()] + "·"@ + kind.label_spec() + (if kind == RootKind::Notifications
        && unread > 0 {
        " ("@ + strs::decimal(unread as nat) + ")"@
    } else {
        Seq::empty()
    })
}

/// The first `n` tabs of the bar, the current one picked out.
pub open spec fn tabs(current: RootKind, unread: u32, n: int, theme: Theme) -> Seq<draw::SpanView>
    decreases n,
{
    if n <= 0 {
        Seq::empty()
    } else {
        let before = tabs(current, unread, n - 1, theme);
        let kind = ROOTS@[n - 1];
        (if n > 1 {
            before.push(draw::span(" │ "@, theme.muted_spec()))
        } else {
            before
        }).push(
            draw::span(
                tab_text(kind, unread),
                if kind == current {
                    theme.accent_spec()
                } else {
                    theme.muted_spec()
                },
            ),
        )
    }
}

pub open spec fn tab_bar(current: RootKind, unread: u32, theme: Theme) -> Seq<draw::SpanView> {
    tabs(current, unread, 7, theme).push(draw::span("    "@, theme.muted_spec())).push(
        draw::span("esc menu"@, theme.muted_spec()),
    )
}

/// The tab bar. `current` is picked out; a count above zero shows next to the
/// notifications.
pub fn render_tab_bar(current: RootKind, unread_count: u32, theme: &Theme) -> (r: Line)
    ensures
        r@ == tab_bar(current, unread_count, *theme),
{
    let mut spans: Vec<Span> = Vec::new();
    let mut i: usize = 0;
    assert(draw::span_views(spans@) =~= tabs(current, unread_count, 0, *theme));
    while i < 7
        invariant
            i <= 7,
            draw::span_views(spans@) == tabs(current, unread_count, i as int, *theme),
        decreases 7 - i,
    {
        if i > 0 {
            push_span(&mut spans, Span::of(" │ ", theme.muted_style()));
        }
        let kind = ROOTS[i];
        let mut text = String::new();
        text.push(kind.shortcut());
        text.append("·");
        text.append(kind.label());
        let mut badge = String::new();
        if kind == RootKind::Notifications && unread_count > 0 {
            badge.append(" (");
            badge.append(decimal_text(unread_count as u64).as_str());
            badge.append(")");
        }
        text.append(badge.as_str());
        assert(text@ =~= tab_text(kind, unread_count));
        let style = if kind == current {
            theme.accent_style()
        } else {
            theme.muted_style()
        };
        push_span(&mut spans, Span::new(text, style));
        i = i + 1;
    }
    push_span(&mut spans, Span::of("    ", theme.muted_style()));
    push_span(&mut spans, Span::of("esc menu", theme.muted_style()));
    Line::new(spans)
}

/// Every screen is found by its own key, and by no other.
pub proof fn law_shortcuts_round_trip(kind: RootKind, c: char)
    ensures
        RootKind::at_shortcut(kind.shortcut_spec()) == Some(kind),
        RootKind::at_shortcut(c) == Some(kind) ==> c == kind.shortcut_spec(),
{
}

/// Every label is short enough for the bar.
pub proof fn law_labels_are_short(kind: RootKind)
    ensures
        kind.label_spec().len() <= 6,
{
    reveal_strlit("feed");
    reveal_strlit("notif");
    reveal_strlit("bookm");
    reveal_strlit("topic");
    reveal_strlit("me");
    reveal_strlit("journ");
    reveal_strlit("sett");
}

/// The roots stand in the order of their digits, and the digit of a root is one more
/// than its place.
pub proof fn law_roots_stand_in_order_of_their_digits(i: int)
    requires
        0 <= i < 7,
    ensures
        ROOTS@.len() == 7,
        ROOTS@[i].shortcut_spec() as int == i + 49,
        RootKind::at_shortcut(ROOTS@[i].shortcut_spec()) == Some(ROOTS@[i]),
{
}

/// The bar has a tab for each root, in order, with a bar between two; the current one
/// alone is picked out, and only the notifications carry a count, of what is unread.
pub proof fn law_every_root_has_a_tab(current: RootKind, unread: u32, theme: Theme, i: int)
    requires
        0 <= i < 7,
    ensures
        ({
            let bar = tab_bar(current, unread, theme);
            let tab = bar[2 * i];
            let kind = ROOTS@[i];
            let plain = seq![kind.shortcut_spec(), '·'] + kind.label_spec();
            &&& bar.len() == 15
            &&& kind == current ==> tab.style == theme.accent_spec()
            &&& kind != current ==> tab.style == theme.muted_spec()
            &&& !(kind is Notifications) || unread == 0 ==> tab.content == plain
            &&& kind is Notifications && unread > 0 ==> tab.content == plain + " ("@
                + strs::decimal(unread as nat) + ")"@
            &&& i > 0 ==> bar[2 * i - 1].content == " │ "@
        }),
{
    lemma_tab_at(current, unread, 7, theme, i);
    let kind = ROOTS@[i];
    reveal_strlit("·");
    let plain = seq![kind.shortcut_spec(), '·'] + kind.label_spec();
    assert(seq![kind.shortcut_spec()] + "·"@ + kind.label_spec() =~= plain);
    if !(kind is Notifications) || unread == 0 {
        assert(tab_text(kind, unread) =~= plain);
    } else {
        assert(tab_text(kind, unread) =~= plain + " ("@ + strs::decimal(unread as nat) + ")"@);
    }
}

proof fn lemma_tab_at(current: RootKind, unread: u32, n: int, theme: Theme, i: int)
    requires
        0 <= i < n <= 7,
    ensures
        ({
            let t = tabs(current, unread, n, theme);
            &&& t.len() == 2 * n - 1
            &&& t[2 * i] == draw::span(
                tab_text(ROOTS@[i], unread),
                if ROOTS@[i] == current {
                    theme.accent_spec()
                } else {
                    theme.muted_spec()
                },
            )
            &&& i > 0 ==> t[2 * i - 1] == draw::span(" │ "@, theme.muted_spec())
        }),
    decreases n,
{
    reveal_with_fuel(tabs, 2);
    if n > 1 {
        lemma_tab_at(
            current,
            unread,
            n - 1,
            theme,
            if i < n - 1 {
                i
            } else {
                0
            },
        );
    }
}

/// Labels tell the roots apart.
pub proof fn law_labels_tell_roots_apart(a: RootKind, b: RootKind)
    ensures
        a.label_spec() == b.label_spec() ==> a == b,
        a.shortcut_spec() == b.shortcut_spec() ==> a == b,
{
    reveal_strlit("feed");
    reveal_strlit("notif");
    reveal_strlit("bookm");
    reveal_strlit("topic");
    reveal_strlit("me");
    reveal_strlit("journ");
    reveal_strlit("sett");
    if a != b {
        assert(a.label_spec()[0] != b.label_spec()[0]);
    }
}

} // verus!
