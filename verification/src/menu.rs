//! The overlay menu on Esc: back, log out, quit or cancel.
use vstd::prelude::*;

use crate::draw::{self, push_line, push_span, Line, Rect, Span};
use crate::key::{KeyCode, KeyEvent};
use crate::login::{self, center};
use crate::strs::{self, decimal_text};
use crate::theme::Theme;

verus! {

/// A choice of the menu.
#[derive(Debug, Clone, Copy, PartialEq, Eq, Structural)]
pub enum MenuItem {
    Back,
    Logout,
    Quit,
    Cancel,
}

impl MenuItem {
    pub open spec fn label_spec(self) -> Seq<char> {
        match self {
            MenuItem::Back => "Back  (close this screen)"@,
            MenuItem::Logout => "Logout  (clear session, return to login)"@,
            MenuItem::Quit => "Quit  (exit cs-tui)"@,
            MenuItem::Cancel => "Cancel  (close menu, stay here)"@,
        }
    }

    pub fn label(self) -> (r: &'static str)
        ensures
            r@ == self.label_spec(),
    {
        match self {
            MenuItem::Back => "Back  (close this screen)",
            MenuItem::Logout => "Logout  (clear session, return to login)",
            MenuItem::Quit => "Quit  (exit cs-tui)",
            MenuItem::Cancel => "Cancel  (close menu, stay here)",
        }
    }

    pub open spec fn asks(self) -> MenuIntent {
        match self {
            MenuItem::Back => MenuIntent::Back,
            MenuItem::Logout => MenuIntent::Logout,
            MenuItem::Quit => MenuIntent::Quit,
            MenuItem::Cancel => MenuIntent::Cancel,
        }
    }

    fn intent(self) -> (r: MenuIntent)
        ensures
            r == self.asks(),
    {
        match self {
            MenuItem::Back => MenuIntent::Back,
            MenuItem::Logout => MenuIntent::Logout,
            MenuItem::Quit => MenuIntent::Quit,
            MenuItem::Cancel => MenuIntent::Cancel,
        }
    }
}

/// What is asked of the shell.
#[derive(Debug, Clone, Copy, PartialEq, Eq, Structural)]
pub enum MenuIntent {
    Cancel,
    Back,
    Logout,
    Quit,
    /// Nothing is asked.
    Nothing,
}

/// The menu.
#[derive(Debug)]
pub struct MenuOverlay {
    pub items: Vec<MenuItem>,
    pub selected: usize,
}

/// What a [`MenuOverlay`] holds.
#[verifier::ext_equal]
pub struct MenuView {
    pub items: Seq<MenuItem>,
    pub selected: int,
}

impl View for MenuOverlay {
    type V = MenuView;

    open spec fn view(&self) -> MenuView {
        MenuView { items: self.items@, selected: self.selected as int }
    }
}

/// The choices that mean something: going back only where there is somewhere to
/// go back to, and logging out only when logged in.
pub open spec fn choices(authenticated: bool, has_back: bool) -> Seq<MenuItem> {
    (if has_back {
        seq![MenuItem::Back]
    } else {
        Seq::empty()
    }) + (if authenticated {
        seq![MenuItem::Logout]
    } else {
        Seq::empty()
    }) + seq![MenuItem::Quit, MenuItem::Cancel]
}

impl MenuView {
    /// The place a digit picks: `1` is the first.
    pub open spec fn numbered(c: char) -> int {
        c as int - '1' as int
    }

    /// The menu and the intent after a key.
    pub open spec fn keyed(self, key: KeyEvent) -> (MenuView, MenuIntent) {
        if key.code == KeyCode::Esc {
            (self, MenuIntent::Cancel)
        } else if key.is_quit_spec() {
            (self, MenuIntent::Quit)
        } else {
            match key.code {
                KeyCode::Char('j') | KeyCode::Down => (
                    MenuView {
                        selected: if self.selected < self.items.len() - 1 {
                            self.selected + 1
                        } else {
                            self.selected
                        },
                        ..self
                    },
                    MenuIntent::Nothing,
                ),
                KeyCode::Char('k') | KeyCode::Up => (
                    MenuView {
                        selected: if self.selected > 0 {
                            self.selected - 1
                        } else {
                            0
                        },
                        ..self
                    },
                    MenuIntent::Nothing,
                ),
                KeyCode::Char('g') | KeyCode::Home => (
                    MenuView { selected: 0, ..self },
                    MenuIntent::Nothing,
                ),
                KeyCode::Char('G') | KeyCode::End => (
                    MenuView {
                        selected: if self.items.len() > 0 {
                            self.items.len() - 1
                        } else {
                            self.selected
                        },
                        ..self
                    },
                    MenuIntent::Nothing,
                ),
                KeyCode::Enter => (
                    self,
                    if 0 <= self.selected < self.items.len() {
                        self.items[self.selected].asks()
                    } else {
                        MenuIntent::Nothing
                    },
                ),
                KeyCode::Char(c) => if '1' <= c <= '9' && MenuView::numbered(c)
                    < self.items.len() {
                    (
                        MenuView { selected: MenuView::numbered(c), ..self },
                        self.items[MenuView::numbered(c)].asks(),
                    )
                } else {
                    (self, MenuIntent::Nothing)
                },
                _ => (self, MenuIntent::Nothing),
            }
        }
    }
}

impl MenuOverlay {
    /// The menu for the place the user is at.
    pub fn build(authenticated: bool, has_back: bool) -> (r: MenuOverlay)
        ensures
            r@ == (MenuView { items: choices(authenticated, has_back), selected: 0 }),
    {
        let mut items: Vec<MenuItem> = Vec::new();
        if has_back {
            items.push(MenuItem::Back);
        }
        if authenticated {
            items.push(MenuItem::Logout);
        }
        items.push(MenuItem::Quit);
        items.push(MenuItem::Cancel);
        assert(items@ =~= choices(authenticated, has_back));
        MenuOverlay { items, selected: 0 }
    }

    /// Take a key and say what is asked of the shell.
    pub fn handle_key(&mut self, key: KeyEvent) -> (r: MenuIntent)
        ensures
            (final(self)@, r) == old(self)@.keyed(key),
    {
        if key.code == KeyCode::Esc {
            return MenuIntent::Cancel;
        }
        if key.is_quit() {
            return MenuIntent::Quit;
        }
        let len: usize = self.items.len();
        match key.code {
            KeyCode::Char('j') | KeyCode::Down => {
                if len > 0 && self.selected < len - 1 {
                    self.selected = self.selected + 1;
                }
            },
            KeyCode::Char('k') | KeyCode::Up => {
                if self.selected > 0 {
                    self.selected = self.selected - 1;
                }
            },
            KeyCode::Char('g') | KeyCode::Home => {
                self.selected = 0;
            },
            KeyCode::Char('G') | KeyCode::End => {
                if len > 0 {
                    self.selected = len - 1;
                }
            },
            KeyCode::Enter => {
                if self.selected < len {
                    return self.items[self.selected].intent();
                }
            },
            KeyCode::Char(c) => {
                if '1' <= c && c <= '9' {
                    let i: usize = (c as u32 - '1' as u32) as usize;
                    if i < len {
                        self.selected = i;
                        return self.items[i].intent();
                    }
                }
            },
            _ => {},
        }
        MenuIntent::Nothing
    }
}

// ---------------------------------------------------------------------------
// What is shown.
// ---------------------------------------------------------------------------

/// The rows of the first `n` choices, each with its number.
pub open spec fn menu_rows(items: Seq<MenuItem>, n: int, theme: Theme) -> Seq<
    Seq<draw::SpanView>,
> {
    Seq::new(
        n as nat,
        |i: int|
            seq![
                draw::span(strs::decimal((i + 1) as nat) + ". "@, theme.muted_spec()),
                draw::span(items[i].label_spec(), theme.base_spec()),
            ],
    )
}

/// The rows of the card: one for each choice, the borders and two more.
pub open spec fn card_rows(items: int) -> int {
    if items + 4 > u16::MAX {
        u16::MAX as int
    } else {
        items + 4
    }
}

/// The columns of the card: at most 48, leaving a margin.
pub open spec fn card_columns(width: int) -> int {
    draw::least(
        48,
        if width >= 2 {
            width - 2
        } else {
            0
        },
    )
}

/// What one render shows.
#[derive(Debug)]
pub struct MenuFrame {
    pub card: Rect,
    pub title: Line,
    pub rows: Vec<Line>,
    pub selected: usize,
    pub hint: Line,
}

impl MenuOverlay {
    /// What the menu shows in an area: a card in its middle.
    pub fn render(&self, area: Rect, theme: &Theme) -> (f: MenuFrame)
        requires
            area.x + area.width <= u16::MAX,
            area.y + area.height <= u16::MAX,
            self@.items.len() < usize::MAX,
        ensures
            f.card == login::centered(
                area,
                card_columns(area.width as int),
                card_rows(self@.items.len() as int),
            ),
            f.title@ == draw::one(" menu "@, theme.accent_spec()),
            draw::line_views(f.rows@) == menu_rows(
                self@.items,
                self@.items.len() as int,
                *theme,
            ),
            f.selected == draw::least(
                self@.selected,
                if self@.items.len() > 0 {
                    self@.items.len() - 1
                } else {
                    0
                },
            ),
            f.hint@ == draw::one("j/k or 1-4 · enter select · esc dismiss"@, theme.muted_spec()),
    {
        let len: usize = self.items.len();
        let h: u16 = if len > (u16::MAX - 4) as usize {
            u16::MAX
        } else {
            len as u16 + 4
        };
        let inside: u16 = if area.width >= 2 {
            area.width - 2
        } else {
            0
        };
        let w: u16 = if inside < 48 {
            inside
        } else {
            48
        };
        let mut rows: Vec<Line> = Vec::new();
        let mut i: usize = 0;
        assert(draw::line_views(rows@) =~= menu_rows(self@.items, 0, *theme));
        while i < self.items.len()
            invariant
                i <= self.items@.len(),
                self.items@.len() < usize::MAX,
                draw::line_views(rows@) == menu_rows(self@.items, i as int, *theme),
            decreases self.items@.len() - i,
        {
            let mut number = decimal_text((i + 1) as u64);
            number.append(". ");
            let mut spans: Vec<Span> = Vec::new();
            push_span(&mut spans, Span::new(number, theme.muted_style()));
            push_span(&mut spans, Span::of(self.items[i].label(), theme.base()));
            assert(draw::span_views(spans@) =~= menu_rows(self@.items, i + 1, *theme)[i as int]);
            push_line(&mut rows, Line::new(spans));
            i = i + 1;
            assert(draw::line_views(rows@) =~= menu_rows(self@.items, i as int, *theme));
        }
        let last: usize = if len > 0 {
            len - 1
        } else {
            0
        };
        MenuFrame {
            card: center(area, w, h),
            title: Line::of(" menu ", theme.accent_style()),
            rows,
            selected: if self.selected <= last {
                self.selected
            } else {
                last
            },
            hint: Line::of("j/k or 1-4 · enter select · esc dismiss", theme.muted_style()),
        }
    }
}

// ---------------------------------------------------------------------------
// Laws.
// ---------------------------------------------------------------------------

/// The menu only asks for what it offers: Esc and Ctrl+C aside, it goes back or
/// logs out only where that is one of its choices.
pub proof fn law_menu_asks_only_what_it_offers(s: MenuView, key: KeyEvent)
    ensures
        s.keyed(key).1 == MenuIntent::Back ==> s.items.contains(MenuItem::Back),
        s.keyed(key).1 == MenuIntent::Logout ==> s.items.contains(MenuItem::Logout),
{
    if 0 <= s.selected < s.items.len() {
        assert(s.items.contains(s.items[s.selected]));
    }
    if let KeyCode::Char(c) = key.code {
        let i = MenuView::numbered(c);
        if 0 <= i < s.items.len() {
            assert(s.items.contains(s.items[i]));
        }
    }
}

/// Quitting and cancelling are always on offer.
pub proof fn law_quit_and_cancel_are_always_offered(authenticated: bool, has_back: bool)
    ensures
        choices(authenticated, has_back).contains(MenuItem::Quit),
        choices(authenticated, has_back).contains(MenuItem::Cancel),
        choices(authenticated, has_back).contains(MenuItem::Back) == has_back,
        choices(authenticated, has_back).contains(MenuItem::Logout) == authenticated,
{
    let c = choices(authenticated, has_back);
    let n = c.len();
    assert(c[n - 2] == MenuItem::Quit);
    assert(c[n - 1] == MenuItem::Cancel);
    if has_back {
        assert(c[0] == MenuItem::Back);
    }
    if authenticated {
        assert(c[n - 3] == MenuItem::Logout);
    }
}

/// The selection stays on a choice.
pub proof fn law_menu_selection_stays_inside(s: MenuView, key: KeyEvent)
    requires
        0 <= s.selected < s.items.len(),
    ensures
        0 <= s.keyed(key).0.selected < s.items.len(),
        s.keyed(key).0.items == s.items,
{
}

/// Enter asks for what is selected, and a digit for the entry with that number.
pub proof fn law_the_chosen_entry_is_asked_for(s: MenuView, c: char)
    ensures
        ({
            let (a, intent) = s.keyed(KeyEvent { code: KeyCode::Enter, control: false });
            &&& a == s
            &&& 0 <= s.selected < s.items.len() ==> {
                let item = s.items[s.selected];
                &&& item is Back ==> intent is Back
                &&& item is Logout ==> intent is Logout
                &&& item is Quit ==> intent is Quit
                &&& item is Cancel ==> intent is Cancel
            }
        }),
        ({
            let (a, intent) = s.keyed(KeyEvent { code: KeyCode::Char(c), control: false });
            let i = c as int - 49;
            &&& '1' <= c <= '9' && i < s.items.len() ==> {
                let item = s.items[i];
                &&& item is Back ==> intent is Back
                &&& item is Logout ==> intent is Logout
                &&& item is Quit ==> intent is Quit
                &&& item is Cancel ==> intent is Cancel
                &&& a.selected == i
            }
            &&& '1' <= c <= '9' && i >= s.items.len() ==> a == s && intent is Nothing
        }),
        s.keyed(KeyEvent { code: KeyCode::Esc, control: false }) == (s, MenuIntent::Cancel),
        s.keyed(KeyEvent { code: KeyCode::Char('c'), control: true }) == (s, MenuIntent::Quit),
{
}

/// A step goes to the neighbor within the menu, and the end keys to its ends, asking for
/// nothing.
pub proof fn law_steps_move_over_the_menu(s: MenuView, key: KeyEvent)
    requires
        0 <= s.selected < s.items.len(),
    ensures
        ({
            let (a, intent) = s.keyed(key);
            let last = s.items.len() - 1;
            let down = key.code == KeyCode::Down || key.code == KeyCode::Char('j');
            let up = key.code == KeyCode::Up || key.code == KeyCode::Char('k');
            let home = key.code == KeyCode::Home || key.code == KeyCode::Char('g');
            let end = key.code == KeyCode::End || key.code == KeyCode::Char('G');
            &&& down && s.selected < last ==> a.selected == s.selected + 1
            &&& down && s.selected == last ==> a.selected == last
            &&& up && s.selected > 0 ==> a.selected == s.selected - 1
            &&& up && s.selected == 0 ==> a.selected == 0
            &&& home ==> a.selected == 0
            &&& end ==> a.selected == last
            &&& down || up || home || end ==> intent is Nothing && a.items == s.items
        }),
{
}

/// The entries stand in one order: going back, logging out, quitting, staying; and each
/// is shown under its number with its label.
pub proof fn law_entries_are_shown_in_order(
    authenticated: bool,
    has_back: bool,
    theme: Theme,
    i: int,
)
    ensures
        ({
            let c = choices(authenticated, has_back);
            let rows = menu_rows(c, c.len() as int, theme);
            let front: int = if has_back {
                1
            } else {
                0
            };
            let mid: int = if authenticated {
                1
            } else {
                0
            };
            &&& c.len() == front + mid + 2
            &&& has_back ==> c[0] is Back
            &&& authenticated ==> c[front] is Logout
            &&& c[front + mid] is Quit
            &&& c[front + mid + 1] is Cancel
            &&& rows.len() == c.len()
            &&& 0 <= i < c.len() ==> rows[i].len() == 2 && rows[i][0].content == strs::decimal(
                (i + 1) as nat,
            ) + ". "@ && rows[i][1].content == c[i].label_spec()
        }),
{
}

/// A label begins with the word for what its entry does.
pub proof fn law_labels_name_their_entries(item: MenuItem)
    ensures
        item is Back ==> item.label_spec().take(4) == "Back"@,
        item is Logout ==> item.label_spec().take(6) == "Logout"@,
        item is Quit ==> item.label_spec().take(4) == "Quit"@,
        item is Cancel ==> item.label_spec().take(6) == "Cancel"@,
{
    reveal_strlit("Back");
    reveal_strlit("Logout");
    reveal_strlit("Quit");
    reveal_strlit("Cancel");
    reveal_strlit("Back  (close this screen)");
    reveal_strlit("Logout  (clear session, return to login)");
    reveal_strlit("Quit  (exit cs-tui)");
    reveal_strlit("Cancel  (close menu, stay here)");
    assert(MenuItem::Back.label_spec().take(4) =~= "Back"@);
    assert(MenuItem::Logout.label_spec().take(6) =~= "Logout"@);
    assert(MenuItem::Quit.label_spec().take(4) =~= "Quit"@);
    assert(MenuItem::Cancel.label_spec().take(6) =~= "Cancel"@);
}

/// The card holds every entry and its frame where the area does.
pub proof fn law_the_card_holds_the_menu(area: Rect, items: int)
    requires
        area.x + area.width <= u16::MAX,
        area.y + area.height <= u16::MAX,
        0 <= items,
        items + 4 <= area.height,
        50 <= area.width,
    ensures
        ({
            let card = login::centered(area, card_columns(area.width as int), card_rows(items));
            &&& card.height == items + 4
            &&& card.width == 48
        }),
{
}

} // verus!
