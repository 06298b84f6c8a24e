//! Settings screen: toggles and text preferences. An update carries only what
//! was changed.
use vstd::prelude::*;

use crate::draw::{self, push_line, push_span, Line, Span};
use crate::key::{KeyCode, KeyEvent};
use crate::strs::{self, chars_of, decimal_text, repeat};
use crate::theme::Theme;

verus! {

/// How many preferences there are: ten toggles, then four texts.
pub const FIELD_COUNT: usize = 14;

/// Where the texts start.
pub const FIRST_TEXT: usize = 10;

/// Which notifications are wanted.
#[derive(Debug, Clone, Copy, PartialEq, Eq, Structural, Default)]
pub struct NotificationPrefs {
    pub bookmark: Option<bool>,
    pub reply: Option<bool>,
    pub poke: Option<bool>,
}

/// The preferences as the server holds them.
#[derive(Debug, Clone, PartialEq, Eq, Default)]
pub struct Settings {
    pub filter_nsfw: Option<bool>,
    pub show_follower_count: Option<bool>,
    pub hide_images_in_feed: Option<bool>,
    pub hide_audio_in_feed: Option<bool>,
    pub auto_watch_on_reply: Option<bool>,
    pub use_legacy_menu_order: Option<bool>,
    pub default_public_post: Option<bool>,
    pub notifications: NotificationPrefs,
    pub icon_theme: Option<String>,
    pub image_pixel_size: Option<String>,
    pub time_display_format: Option<String>,
    pub keyboard_preset: Option<String>,
}

/// A change of the preferences: only what is given changes.
#[derive(Debug, Clone, PartialEq, Eq, Default)]
pub struct SettingsUpdate {
    pub filter_nsfw: Option<bool>,
    pub show_follower_count: Option<bool>,
    pub hide_images_in_feed: Option<bool>,
    pub hide_audio_in_feed: Option<bool>,
    pub auto_watch_on_reply: Option<bool>,
    pub use_legacy_menu_order: Option<bool>,
    pub default_public_post: Option<bool>,
    pub notifications: Option<NotificationPrefs>,
    pub icon_theme: Option<String>,
    pub image_pixel_size: Option<String>,
    pub time_display_format: Option<String>,
    pub keyboard_preset: Option<String>,
}

/// What a [`SettingsUpdate`] changes.
#[verifier::ext_equal]
pub struct UpdateView {
    pub filter_nsfw: Option<bool>,
    pub show_follower_count: Option<bool>,
    pub hide_images_in_feed: Option<bool>,
    pub hide_audio_in_feed: Option<bool>,
    pub auto_watch_on_reply: Option<bool>,
    pub use_legacy_menu_order: Option<bool>,
    pub default_public_post: Option<bool>,
    pub notifications: Option<NotificationPrefs>,
    pub icon_theme: Option<Seq<char>>,
    pub image_pixel_size: Option<Seq<char>>,
    pub time_display_format: Option<Seq<char>>,
    pub keyboard_preset: Option<Seq<char>>,
}

impl View for SettingsUpdate {
    type V = UpdateView;

    open spec fn view(&self) -> UpdateView {
        UpdateView {
            filter_nsfw: self.filter_nsfw,
            show_follower_count: self.show_follower_count,
            hide_images_in_feed: self.hide_images_in_feed,
            hide_audio_in_feed: self.hide_audio_in_feed,
            auto_watch_on_reply: self.auto_watch_on_reply,
            use_legacy_menu_order: self.use_legacy_menu_order,
            default_public_post: self.default_public_post,
            notifications: self.notifications,
            icon_theme: strs::opt_text(self.icon_theme),
            image_pixel_size: strs::opt_text(self.image_pixel_size),
            time_display_format: strs::opt_text(self.time_display_format),
            keyboard_preset: strs::opt_text(self.keyboard_preset),
        }
    }
}

impl UpdateView {
    /// The change that changes nothing.
    pub open spec fn nothing() -> UpdateView {
        UpdateView {
            filter_nsfw: None,
            show_follower_count: None,
            hide_images_in_feed: None,
            hide_audio_in_feed: None,
            auto_watch_on_reply: None,
            use_legacy_menu_order: None,
            default_public_post: None,
            notifications: None,
            icon_theme: None,
            image_pixel_size: None,
            time_display_format: None,
            keyboard_preset: None,
        }
    }
}

impl SettingsUpdate {
    /// Whether it changes nothing.
    pub fn is_empty(&self) -> (r: bool)
        ensures
            r == (self@ == UpdateView::nothing()),
    {
        self.filter_nsfw.is_none() && self.show_follower_count.is_none()
            && self.hide_images_in_feed.is_none() && self.hide_audio_in_feed.is_none()
            && self.auto_watch_on_reply.is_none() && self.use_legacy_menu_order.is_none()
            && self.default_public_post.is_none() && self.notifications.is_none()
            && self.icon_theme.is_none() && self.image_pixel_size.is_none()
            && self.time_display_format.is_none() && self.keyboard_preset.is_none()
    }
}

/// What is asked of the shell.
#[derive(Debug, Clone, PartialEq, Eq)]
pub enum SettingsIntent {
    Cancel,
    Quit,
    Submit { update: Box<SettingsUpdate> },
    /// Nothing is asked.
    Nothing,
}

/// What a [`SettingsIntent`] says.
#[verifier::ext_equal]
pub enum SettingsIntentView {
    Cancel,
    Quit,
    Submit { update: UpdateView },
    Nothing,
}

impl View for SettingsIntent {
    type V = SettingsIntentView;

    open spec fn view(&self) -> SettingsIntentView {
        match self {
            SettingsIntent::Cancel => SettingsIntentView::Cancel,
            SettingsIntent::Quit => SettingsIntentView::Quit,
            SettingsIntent::Submit { update } => SettingsIntentView::Submit { update: (**update)@ },
            SettingsIntent::Nothing => SettingsIntentView::Nothing,
        }
    }
}

pub open spec fn label_text(i: int) -> Seq<char> {
    if i == 0 {
        "filter NSFW posts"@
    } else if i == 1 {
        "show follower count on profile"@
    } else if i == 2 {
        "hide images in feed"@
    } else if i == 3 {
        "hide audio in feed"@
    } else if i == 4 {
        "auto-watch threads I reply to"@
    } else if i == 5 {
        "use legacy menu order"@
    } else if i == 6 {
        "default new posts to public"@
    } else if i == 7 {
        "notify on bookmark"@
    } else if i == 8 {
        "notify on reply"@
    } else if i == 9 {
        "notify on poke"@
    } else if i == 10 {
        "icon theme"@
    } else if i == 11 {
        "image pixel size"@
    } else if i == 12 {
        "time display format"@
    } else {
        "keyboard preset"@
    }
}

fn label_of(i: usize) -> (r: &'static str)
    ensures
        r@ == label_text(i as int),
{
    if i == 0 {
        "filter NSFW posts"
    } else if i == 1 {
        "show follower count on profile"
    } else if i == 2 {
        "hide images in feed"
    } else if i == 3 {
        "hide audio in feed"
    } else if i == 4 {
        "auto-watch threads I reply to"
    } else if i == 5 {
        "use legacy menu order"
    } else if i == 6 {
        "default new posts to public"
    } else if i == 7 {
        "notify on bookmark"
    } else if i == 8 {
        "notify on reply"
    } else if i == 9 {
        "notify on poke"
    } else if i == 10 {
        "icon theme"
    } else if i == 11 {
        "image pixel size"
    } else if i == 12 {
        "time display format"
    } else {
        "keyboard preset"
    }
}

/// The screen. The arrays are indexed by preference: `bools` counts for the
/// toggles and `texts` for the others.
#[derive(Debug)]
pub struct SettingsScreen {
    pub loaded: bool,
    pub loading: bool,
    pub error: Option<String>,
    pub submitting: bool,
    pub focused: usize,
    pub bools: [Option<bool>; 14],
    pub texts: [String; 14],
    pub dirty: [bool; 14],
}

/// What a [`SettingsScreen`] holds.
#[verifier::ext_equal]
pub struct SettingsView {
    pub loaded: bool,
    pub loading: bool,
    pub error: Option<Seq<char>>,
    pub submitting: bool,
    pub focused: int,
    pub bools: Seq<Option<bool>>,
    pub texts: Seq<Seq<char>>,
    pub dirty: Seq<bool>,
}

impl View for SettingsScreen {
    type V = SettingsView;

    open spec fn view(&self) -> SettingsView {
        SettingsView {
            loaded: self.loaded,
            loading: self.loading,
            error: strs::opt_text(self.error),
            submitting: self.submitting,
            focused: self.focused as int,
            bools: self.bools@,
            texts: strs::texts(self.texts@),
            dirty: self.dirty@,
        }
    }
}

pub open spec fn none_dirty() -> Seq<bool> {
    Seq::new(14, |i: int| false)
}

pub open spec fn or_empty(s: Option<String>) -> Seq<char> {
    match s {
        Some(s) => s@,
        None => Seq::empty(),
    }
}

/// The toggles of the preferences, in order.
pub open spec fn toggles(s: Settings) -> Seq<Option<bool>> {
    seq![
        s.filter_nsfw,
        s.show_follower_count,
        s.hide_images_in_feed,
        s.hide_audio_in_feed,
        s.auto_watch_on_reply,
        s.use_legacy_menu_order,
        s.default_public_post,
        s.notifications.bookmark,
        s.notifications.reply,
        s.notifications.poke,
    ]
}

/// The texts of the preferences, in order.
pub open spec fn wordings(s: Settings) -> Seq<Seq<char>> {
    seq![
        or_empty(s.icon_theme),
        or_empty(s.image_pixel_size),
        or_empty(s.time_display_format),
        or_empty(s.keyboard_preset),
    ]
}

impl SettingsView {
    pub open spec fn started() -> SettingsView {
        SettingsView {
            loaded: false,
            loading: true,
            error: None,
            submitting: false,
            focused: 0,
            bools: Seq::new(14, |i: int| None),
            texts: Seq::new(14, |i: int| Seq::empty()),
            dirty: none_dirty(),
        }
    }

    pub open spec fn with_settings(self, s: Settings) -> SettingsView {
        SettingsView {
            loading: false,
            loaded: true,
            error: None,
            bools: toggles(s) + self.bools.skip(10),
            texts: self.texts.take(10) + wordings(s),
            dirty: none_dirty(),
            ..self
        }
    }

    /// The toggle at `i`, if it was changed.
    pub open spec fn changed(self, i: int) -> Option<bool> {
        if self.dirty[i] {
            self.bools[i]
        } else {
            None
        }
    }

    /// The text at `i`, if it was changed.
    pub open spec fn reworded(self, i: int) -> Option<Seq<char>> {
        if self.dirty[i] {
            Some(self.texts[i])
        } else {
            None
        }
    }

    /// What is to be sent: exactly what was changed.
    pub open spec fn update(self) -> UpdateView {
        UpdateView {
            filter_nsfw: self.changed(0),
            show_follower_count: self.changed(1),
            hide_images_in_feed: self.changed(2),
            hide_audio_in_feed: self.changed(3),
            auto_watch_on_reply: self.changed(4),
            use_legacy_menu_order: self.changed(5),
            default_public_post: self.changed(6),
            notifications: if self.dirty[7] || self.dirty[8] || self.dirty[9] {
                Some(
                    NotificationPrefs {
                        bookmark: self.changed(7),
                        reply: self.changed(8),
                        poke: self.changed(9),
                    },
                )
            } else {
                None
            },
            icon_theme: self.reworded(10),
            image_pixel_size: self.reworded(11),
            time_display_format: self.reworded(12),
            keyboard_preset: self.reworded(13),
        }
    }

    /// The screen and the intent after a submit: with nothing to send it is a
    /// cancel.
    pub open spec fn submitted(self) -> (SettingsView, SettingsIntentView) {
        if self.update() == UpdateView::nothing() {
            (self, SettingsIntentView::Cancel)
        } else {
            (
                SettingsView { submitting: true, ..self },
                SettingsIntentView::Submit { update: self.update() },
            )
        }
    }

    pub open spec fn on_toggle(self) -> bool {
        0 <= self.focused < 10
    }

    pub open spec fn on_text(self) -> bool {
        10 <= self.focused < 14
    }

    pub open spec fn typed(self, text: Seq<char>) -> SettingsView {
        SettingsView {
            texts: self.texts.update(self.focused, text),
            dirty: self.dirty.update(self.focused, true),
            ..self
        }
    }

    pub open spec fn flipped(self) -> SettingsView {
        SettingsView {
            bools: self.bools.update(
                self.focused,
                Some(self.bools[self.focused] != Some(true)),
            ),
            dirty: self.dirty.update(self.focused, true),
            ..self
        }
    }

    /// The focus on the next field.
    pub open spec fn onward(self) -> SettingsView {
        SettingsView { focused: (self.focused + 1) % 14, error: None, ..self }
    }

    /// The focus on the field before.
    pub open spec fn backward(self) -> SettingsView {
        SettingsView { focused: (self.focused + 13) % 14, error: None, ..self }
    }

    /// The screen and the intent after a key. Nothing is taken while a save is
    /// on its way, and nothing but Ctrl+C before the preferences arrived. A
    /// focused text takes every character, also those that move the focus
    /// elsewhere.
    pub open spec fn keyed(self, key: KeyEvent) -> (SettingsView, SettingsIntentView) {
        if self.submitting {
            (self, SettingsIntentView::Nothing)
        } else if key.is_quit_spec() {
            (self, SettingsIntentView::Quit)
        } else if !self.loaded {
            (self, SettingsIntentView::Nothing)
        } else if key.control && key.code == KeyCode::Char('s') {
            self.submitted()
        } else {
            match key.code {
                KeyCode::Tab | KeyCode::Down => (self.onward(), SettingsIntentView::Nothing),
                KeyCode::BackTab | KeyCode::Up => (self.backward(), SettingsIntentView::Nothing),
                KeyCode::Enter => self.submitted(),
                KeyCode::Backspace => if self.on_text() {
                    let t = self.texts[self.focused];
                    (
                        self.typed(
                            if t.len() > 0 {
                                t.drop_last()
                            } else {
                                t
                            },
                        ),
                        SettingsIntentView::Nothing,
                    )
                } else {
                    (self, SettingsIntentView::Nothing)
                },
                KeyCode::Char(c) => if self.on_text() {
                    (
                        self.typed(self.texts[self.focused].push(c)),
                        SettingsIntentView::Nothing,
                    )
                } else if c == 'j' {
                    (self.onward(), SettingsIntentView::Nothing)
                } else if c == 'k' {
                    (self.backward(), SettingsIntentView::Nothing)
                } else if c == ' ' && self.on_toggle() {
                    (self.flipped(), SettingsIntentView::Nothing)
                } else {
                    (self, SettingsIntentView::Nothing)
                },
                _ => (self, SettingsIntentView::Nothing),
            }
        }
    }
}

impl SettingsView {
    /// The screen after the preferences arrived, or failed to.
    pub open spec fn answered(self, result: Result<Settings, String>) -> SettingsView {
        match result {
            Ok(s) => self.with_settings(s),
            Err(msg) => SettingsView {
                loading: false,
                loaded: true,
                error: Some(msg@),
                ..self
            },
        }
    }

    /// The screen after a save went through, or failed.
    pub open spec fn settled(self, result: Result<(), String>) -> SettingsView {
        match result {
            Ok(_) => SettingsView { submitting: false, dirty: none_dirty(), ..self },
            Err(msg) => SettingsView { submitting: false, error: Some(msg@), ..self },
        }
    }
}

fn taken(s: Option<String>) -> (r: String)
    ensures
        r@ == or_empty(s),
{
    match s {
        Some(s) => s,
        None => String::new(),
    }
}

impl SettingsScreen {
    pub fn new() -> (r: SettingsScreen)
        ensures
            r@ == SettingsView::started(),
    {
        let r = SettingsScreen {
            loaded: false,
            loading: true,
            error: None,
            submitting: false,
            focused: 0,
            bools: [
                None,
                None,
                None,
                None,
                None,
                None,
                None,
                None,
                None,
                None,
                None,
                None,
                None,
                None,
            ],
            texts: [
                String::new(),
                String::new(),
                String::new(),
                String::new(),
                String::new(),
                String::new(),
                String::new(),
                String::new(),
                String::new(),
                String::new(),
                String::new(),
                String::new(),
                String::new(),
                String::new(),
            ],
            dirty: clean(),
        };
        assert(r@.bools =~= SettingsView::started().bools);
        assert(r@.texts =~= SettingsView::started().texts);
        r
    }

    /// The preferences arrived, or failed to.
    pub fn apply_loaded(&mut self, result: Result<Settings, String>)
        ensures
            final(self)@ == old(self)@.answered(result),
    {
        self.loading = false;
        self.loaded = true;
        match result {
            Ok(s) => {
                self.bools[0] = s.filter_nsfw;
                self.bools[1] = s.show_follower_count;
                self.bools[2] = s.hide_images_in_feed;
                self.bools[3] = s.hide_audio_in_feed;
                self.bools[4] = s.auto_watch_on_reply;
                self.bools[5] = s.use_legacy_menu_order;
                self.bools[6] = s.default_public_post;
                self.bools[7] = s.notifications.bookmark;
                self.bools[8] = s.notifications.reply;
                self.bools[9] = s.notifications.poke;
                self.texts[10] = taken(s.icon_theme);
                self.texts[11] = taken(s.image_pixel_size);
                self.texts[12] = taken(s.time_display_format);
                self.texts[13] = taken(s.keyboard_preset);
                self.dirty = clean();
                self.error = None;
                assert(self@.bools =~= old(self)@.with_settings(s).bools);
                assert(self@.texts =~= old(self)@.with_settings(s).texts);
            },
            Err(msg) => {
                self.error = Some(msg);
            },
        }
    }

    /// Whether a text preference is focused, so that typing belongs to it.
    pub fn is_editing_text(&self) -> (r: bool)
        ensures
            r == (self@.loaded && self@.on_text()),
    {
        self.loaded && FIRST_TEXT <= self.focused && self.focused < FIELD_COUNT
    }

    /// Take a key and say what is asked of the shell.
    pub fn handle_key(&mut self, key: KeyEvent) -> (r: SettingsIntent)
        ensures
            (final(self)@, r@) == old(self)@.keyed(key),
    {
        if self.submitting {
            return SettingsIntent::Nothing;
        }
        if key.is_quit() {
            return SettingsIntent::Quit;
        }
        if !self.loaded {
            return SettingsIntent::Nothing;
        }
        if key.control && key.code == KeyCode::Char('s') {
            return self.try_submit();
        }
        let at: usize = self.focused;
        match key.code {
            KeyCode::Tab | KeyCode::Down => self.focus_next(),
            KeyCode::BackTab | KeyCode::Up => self.focus_previous(),
            KeyCode::Enter => {
                return self.try_submit();
            },
            KeyCode::Backspace => {
                if FIRST_TEXT <= at && at < FIELD_COUNT {
                    let _ = self.texts[at].pop();
                    self.dirty[at] = true;
                    assert(self@ =~= old(self)@.keyed(key).0);
                }
            },
            KeyCode::Char(c) => {
                if FIRST_TEXT <= at && at < FIELD_COUNT {
                    self.texts[at].push(c);
                    self.dirty[at] = true;
                    assert(self@ =~= old(self)@.keyed(key).0);
                } else if c == 'j' {
                    self.focus_next();
                } else if c == 'k' {
                    self.focus_previous();
                } else if c == ' ' && at < FIRST_TEXT {
                    let on = match self.bools[at] {
                        Some(b) => b,
                        None => false,
                    };
                    self.bools[at] = Some(!on);
                    self.dirty[at] = true;
                }
            },
            _ => {},
        }
        SettingsIntent::Nothing
    }

    fn focus_next(&mut self)
        ensures
            final(self)@ == old(self)@.onward(),
    {
        self.focused = (self.focused % FIELD_COUNT + 1) % FIELD_COUNT;
        self.error = None;
    }

    fn focus_previous(&mut self)
        ensures
            final(self)@ == old(self)@.backward(),
    {
        self.focused = (self.focused % FIELD_COUNT + 13) % FIELD_COUNT;
        self.error = None;
    }

    fn try_submit(&mut self) -> (r: SettingsIntent)
        ensures
            (final(self)@, r@) == old(self)@.submitted(),
    {
        let update = self.build_update();
        if update.is_empty() {
            return SettingsIntent::Cancel;
        }
        self.submitting = true;
        SettingsIntent::Submit { update: Box::new(update) }
    }

    /// The save settled: it failed, or nothing is unsaved any more.
    pub fn finish_submit(&mut self, result: Result<(), String>)
        ensures
            final(self)@ == old(self)@.settled(result),
    {
        self.submitting = false;
        match result {
            Ok(_) => {
                self.dirty = clean();
            },
            Err(msg) => {
                self.error = Some(msg);
            },
        }
    }

    fn changed_bool(&self, i: usize) -> (r: Option<bool>)
        requires
            i < 14,
        ensures
            r == self@.changed(i as int),
    {
        if self.dirty[i] {
            self.bools[i]
        } else {
            None
        }
    }

    fn changed_text(&self, i: usize) -> (r: Option<String>)
        requires
            i < 14,
        ensures
            strs::opt_text(r) == self@.reworded(i as int),
    {
        if self.dirty[i] {
            Some(self.texts[i].clone())
        } else {
            None
        }
    }

    /// What is to be sent: exactly what was changed.
    pub fn build_update(&self) -> (r: SettingsUpdate)
        ensures
            r@ == self@.update(),
    {
        SettingsUpdate {
            filter_nsfw: self.changed_bool(0),
            show_follower_count: self.changed_bool(1),
            hide_images_in_feed: self.changed_bool(2),
            hide_audio_in_feed: self.changed_bool(3),
            auto_watch_on_reply: self.changed_bool(4),
            use_legacy_menu_order: self.changed_bool(5),
            default_public_post: self.changed_bool(6),
            notifications: if self.dirty[7] || self.dirty[8] || self.dirty[9] {
                Some(
                    NotificationPrefs {
                        bookmark: self.changed_bool(7),
                        reply: self.changed_bool(8),
                        poke: self.changed_bool(9),
                    },
                )
            } else {
                None
            },
            icon_theme: self.changed_text(10),
            image_pixel_size: self.changed_text(11),
            time_display_format: self.changed_text(12),
            keyboard_preset: self.changed_text(13),
        }
    }
}

fn clean() -> (r: [bool; 14])
    ensures
        r@ == none_dirty(),
{
    let r = [
        false,
        false,
        false,
        false,
        false,
        false,
        false,
        false,
        false,
        false,
        false,
        false,
        false,
        false,
    ];
    assert(r@ =~= none_dirty());
    r
}

impl Default for SettingsScreen {
    fn default() -> (r: SettingsScreen)
        ensures
            r@ == SettingsView::started(),
    {
        SettingsScreen::new()
    }
}

// ---------------------------------------------------------------------------
// What is shown.
// ---------------------------------------------------------------------------

/// A text filled up with spaces to `width` characters.
pub open spec fn padded(s: Seq<char>, width: int) -> Seq<char> {
    if s.len() < width {
        s + strs::repeated(" "@, (width - s.len()) as nat)
    } else {
        s
    }
}

fn pad(s: &str, width: usize) -> (r: String)
    ensures
        r@ == padded(s@, width as int),
{
    let n: usize = chars_of(s).len();
    let mut r = s.to_owned();
    if n < width {
        r.append(repeat(" ", width - n).as_str());
    }
    r
}

/// How many of the first `n` are unsaved.
pub open spec fn dirty_among(dirty: Seq<bool>, n: int) -> nat
    decreases n,
{
    if n <= 0 {
        0
    } else {
        dirty_among(dirty, n - 1) + (if dirty[n - 1] {
            1nat
        } else {
            0nat
        })
    }
}

/// What is shown for a preference's value.
pub open spec fn value_text(s: SettingsView, i: int) -> Seq<char> {
    if i < 10 {
        if s.bools[i] == Some(true) {
            "[x]"@
        } else {
            "[ ]"@
        }
    } else {
        "\""@ + s.texts[i] + "\""@
    }
}

/// A preference's row: whether it is unsaved, its label and its value.
pub open spec fn row_spans(s: SettingsView, i: int, theme: Theme) -> Seq<draw::SpanView> {
    let style = if i == s.focused {
        theme.accent_spec()
    } else {
        theme.muted_spec()
    };
    seq![
        draw::span(
            if s.dirty[i] {
                "* "@
            } else {
                "  "@
            },
            style,
        ),
        draw::span(padded(label_text(i), 32), style),
        draw::span(value_text(s, i), theme.base_spec()),
    ]
}

/// The rows of the first `n` preferences.
pub open spec fn setting_rows(s: SettingsView, n: int, theme: Theme) -> Seq<Seq<draw::SpanView>> {
    Seq::new(n as nat, |i: int| row_spans(s, i, theme))
}

pub open spec fn status_text(s: SettingsView) -> Seq<char> {
    if s.submitting {
        "saving…"@
    } else {
        match s.error {
            Some(msg) => "error: "@ + msg + " · esc to cancel"@,
            None => strs::decimal(dirty_among(s.dirty, 14))
                + " unsaved · space toggle · type to edit text · 1-8/←→ switch section · ctrl+s save · esc menu"@,
        }
    }
}

/// What is shown until the preferences arrive.
pub open spec fn waiting_line(s: SettingsView, theme: Theme) -> Seq<draw::SpanView> {
    match s.error {
        Some(msg) => draw::one(msg, theme.error_spec()),
        None => draw::one("loading settings…"@, theme.accent_spec()),
    }
}

/// What the pane shows.
#[derive(Debug)]
pub enum SettingsPane {
    /// The preferences have not arrived; no status line is shown.
    Waiting(Line),
    Rows { rows: Vec<Line>, selected: usize, status: Line },
}

/// What one render shows.
#[derive(Debug)]
pub struct SettingsFrame {
    pub title: Line,
    pub pane: SettingsPane,
}

impl SettingsScreen {
    fn row(&self, i: usize, theme: &Theme) -> (r: Line)
        requires
            i < 14,
        ensures
            r@ == row_spans(self@, i as int, *theme),
    {
        let style = if i == self.focused {
            theme.accent_style()
        } else {
            theme.muted_style()
        };
        let value = if i < FIRST_TEXT {
            let on = match self.bools[i] {
                Some(b) => b,
                None => false,
            };
            (if on {
                "[x]"
            } else {
                "[ ]"
            }).to_owned()
        } else {
            let mut v = "\"".to_owned();
            v.append(self.texts[i].as_str());
            v.append("\"");
            v
        };
        let marker = if self.dirty[i] {
            "* "
        } else {
            "  "
        };
        let mut spans: Vec<Span> = Vec::new();
        push_span(&mut spans, Span::of(marker, style));
        push_span(&mut spans, Span::new(pad(label_of(i), 32), style));
        push_span(&mut spans, Span::new(value, theme.base()));
        assert(draw::span_views(spans@) =~= row_spans(self@, i as int, *theme));
        Line::new(spans)
    }

    fn status(&self) -> (r: String)
        ensures
            r@ == status_text(self@),
    {
        if self.submitting {
            return "saving…".to_owned();
        }
        if let Some(msg) = &self.error {
            let mut s = "error: ".to_owned();
            s.append(msg.as_str());
            s.append(" · esc to cancel");
            return s;
        }
        let mut n: u64 = 0;
        let mut i: usize = 0;
        while i < FIELD_COUNT
            invariant
                i <= 14,
                n <= i,
                n == dirty_among(self@.dirty, i as int),
            decreases 14 - i,
        {
            if self.dirty[i] {
                n = n + 1;
            }
            i = i + 1;
        }
        let mut s = decimal_text(n);
        s.append(
            " unsaved · space toggle · type to edit text · 1-8/←→ switch section · ctrl+s save · esc menu",
        );
        s
    }

    /// What the screen shows.
    pub fn render(&self, theme: &Theme) -> (f: SettingsFrame)
        ensures
            f.title@ == draw::one(" cs-tui • settings "@, theme.accent_spec()),
            match f.pane {
                SettingsPane::Waiting(line) => !self@.loaded && line@ == waiting_line(
                    self@,
                    *theme,
                ),
                SettingsPane::Rows { rows, selected, status } => {
                    &&& self@.loaded
                    &&& draw::line_views(rows@) == setting_rows(self@, 14, *theme)
                    &&& selected == self@.focused
                    &&& status@ == draw::one(status_text(self@), theme.muted_spec())
                },
            },
    {
        let title = Line::of(" cs-tui • settings ", theme.accent_style());
        if !self.loaded {
            let line = match &self.error {
                Some(msg) => Line::of(msg.as_str(), theme.error_style()),
                None => Line::of("loading settings…", theme.accent_style()),
            };
            return SettingsFrame { title, pane: SettingsPane::Waiting(line) };
        }
        let mut rows: Vec<Line> = Vec::new();
        let mut i: usize = 0;
        assert(draw::line_views(rows@) =~= setting_rows(self@, 0, *theme));
        while i < FIELD_COUNT
            invariant
                i <= 14,
                draw::line_views(rows@) == setting_rows(self@, i as int, *theme),
            decreases 14 - i,
        {
            push_line(&mut rows, self.row(i, theme));
            i = i + 1;
            assert(draw::line_views(rows@) =~= setting_rows(self@, i as int, *theme));
        }
        let status = Line::single(self.status(), theme.muted_style());
        SettingsFrame {
            title,
            pane: SettingsPane::Rows { rows, selected: self.focused, status },
        }
    }
}

// ---------------------------------------------------------------------------
// Laws.
// ---------------------------------------------------------------------------

/// Only what was changed is sent: with nothing unsaved there is nothing to send,
/// and a preference that was not changed is never part of an update.
pub proof fn law_updates_carry_only_changes(s: SettingsView)
    ensures
        s.dirty == none_dirty() ==> s.update() == UpdateView::nothing(),
        !s.dirty[0] ==> s.update().filter_nsfw is None,
        !s.dirty[1] ==> s.update().show_follower_count is None,
        !s.dirty[2] ==> s.update().hide_images_in_feed is None,
        !s.dirty[3] ==> s.update().hide_audio_in_feed is None,
        !s.dirty[4] ==> s.update().auto_watch_on_reply is None,
        !s.dirty[5] ==> s.update().use_legacy_menu_order is None,
        !s.dirty[6] ==> s.update().default_public_post is None,
        !s.dirty[7] && !s.dirty[8] && !s.dirty[9] ==> s.update().notifications is None,
        s.update().notifications matches Some(n) ==> (!s.dirty[7] ==> n.bookmark is None) && (
        !s.dirty[8] ==> n.reply is None) && (!s.dirty[9] ==> n.poke is None),
        !s.dirty[10] ==> s.update().icon_theme is None,
        !s.dirty[11] ==> s.update().image_pixel_size is None,
        !s.dirty[12] ==> s.update().time_display_format is None,
        !s.dirty[13] ==> s.update().keyboard_preset is None,
{
}

/// Freshly loaded preferences have nothing to save, and neither has a screen
/// whose save succeeded.
pub proof fn law_loaded_settings_are_clean(s: SettingsView, loaded: Settings)
    ensures
        s.with_settings(loaded).update() == UpdateView::nothing(),
{
}

/// Flipping a toggle twice leaves it as it was read: on or off.
pub proof fn law_flipping_twice_restores(s: SettingsView)
    requires
        s.on_toggle(),
        s.bools.len() == 14,
    ensures
        (s.flipped().flipped().bools[s.focused] == Some(true)) == (s.bools[s.focused] == Some(
            true,
        )),
{
}

/// The focus goes round: one step on and one step back is where it was.
pub proof fn law_focus_goes_round(focused: int)
    requires
        0 <= focused < 14,
    ensures
        ((focused + 1) % 14 + 13) % 14 == focused,
        ((focused + 13) % 14 + 1) % 14 == focused,
{
}

/// Typing into a focused text is uninterrupted: every character reaches it, and
/// the focus stays.
pub proof fn law_typing_reaches_the_text(s: SettingsView, c: char)
    requires
        s.loaded,
        !s.submitting,
        s.on_text(),
        s.texts.len() == 14,
        s.dirty.len() == 14,
    ensures
        ({
            let (after, intent) = s.keyed(KeyEvent { code: KeyCode::Char(c), control: false });
            &&& intent == SettingsIntentView::Nothing
            &&& after.texts[s.focused] == s.texts[s.focused].push(c)
            &&& after.dirty[s.focused]
            &&& after.focused == s.focused
        }),
{
}

/// Each preference that was changed is in the update, with its new value.
pub proof fn law_every_change_is_in_the_update(s: SettingsView)
    ensures
        s.dirty[0] ==> s.update().filter_nsfw == s.bools[0],
        s.dirty[1] ==> s.update().show_follower_count == s.bools[1],
        s.dirty[2] ==> s.update().hide_images_in_feed == s.bools[2],
        s.dirty[3] ==> s.update().hide_audio_in_feed == s.bools[3],
        s.dirty[4] ==> s.update().auto_watch_on_reply == s.bools[4],
        s.dirty[5] ==> s.update().use_legacy_menu_order == s.bools[5],
        s.dirty[6] ==> s.update().default_public_post == s.bools[6],
        s.dirty[7] ==> (s.update().notifications matches Some(n) && n.bookmark == s.bools[7]),
        s.dirty[8] ==> (s.update().notifications matches Some(n) && n.reply == s.bools[8]),
        s.dirty[9] ==> (s.update().notifications matches Some(n) && n.poke == s.bools[9]),
        s.dirty[10] ==> s.update().icon_theme == Some(s.texts[10]),
        s.dirty[11] ==> s.update().image_pixel_size == Some(s.texts[11]),
        s.dirty[12] ==> s.update().time_display_format == Some(s.texts[12]),
        s.dirty[13] ==> s.update().keyboard_preset == Some(s.texts[13]),
{
}

/// The preferences that arrived stand in their own places, and what failed to arrive
/// changes none.
pub proof fn law_preferences_arrive_in_their_places(s: SettingsView, got: Settings, msg: String)
    requires
        s.bools.len() == 14,
        s.texts.len() == 14,
    ensures
        ({
            let a = s.answered(Ok(got));
            &&& a.loaded && !a.loading && a.error is None
            &&& a.bools.len() == 14 && a.texts.len() == 14 && a.dirty.len() == 14
            &&& a.bools[0] == got.filter_nsfw
            &&& a.bools[1] == got.show_follower_count
            &&& a.bools[2] == got.hide_images_in_feed
            &&& a.bools[3] == got.hide_audio_in_feed
            &&& a.bools[4] == got.auto_watch_on_reply
            &&& a.bools[5] == got.use_legacy_menu_order
            &&& a.bools[6] == got.default_public_post
            &&& a.bools[7] == got.notifications.bookmark
            &&& a.bools[8] == got.notifications.reply
            &&& a.bools[9] == got.notifications.poke
            &&& got.icon_theme matches Some(t) ==> a.texts[10] == t@
            &&& got.icon_theme is None ==> a.texts[10].len() == 0
            &&& got.image_pixel_size matches Some(t) ==> a.texts[11] == t@
            &&& got.image_pixel_size is None ==> a.texts[11].len() == 0
            &&& got.time_display_format matches Some(t) ==> a.texts[12] == t@
            &&& got.time_display_format is None ==> a.texts[12].len() == 0
            &&& got.keyboard_preset matches Some(t) ==> a.texts[13] == t@
            &&& got.keyboard_preset is None ==> a.texts[13].len() == 0
            &&& a.focused == s.focused
            &&& forall|i: int| 0 <= i < 14 ==> !#[trigger] a.dirty[i]
        }),
        ({
            let a = s.answered(Err(msg));
            &&& a.error == Some(msg@) && a.loaded && !a.loading
            &&& a.bools == s.bools && a.texts == s.texts && a.dirty == s.dirty
        }),
{
}

/// The space turns the focused toggle over and marks it unsaved, and touches no other
/// preference.
pub proof fn law_space_turns_the_focused_toggle(s: SettingsView, i: int)
    requires
        s.loaded,
        !s.submitting,
        0 <= s.focused < 10,
        s.bools.len() == 14,
        s.texts.len() == 14,
        s.dirty.len() == 14,
        0 <= i < 14,
    ensures
        ({
            let (a, intent) = s.keyed(KeyEvent { code: KeyCode::Char(' '), control: false });
            &&& intent is Nothing
            &&& s.bools[s.focused] == Some(true) ==> a.bools[s.focused] == Some(false)
            &&& s.bools[s.focused] != Some(true) ==> a.bools[s.focused] == Some(true)
            &&& a.dirty[s.focused]
            &&& i != s.focused ==> a.bools[i] == s.bools[i] && a.dirty[i] == s.dirty[i]
            &&& a.texts == s.texts && a.focused == s.focused
        }),
{
}

/// In a text, backspace takes the last character off and other preferences stay as they
/// are; on a toggle it does nothing.
pub proof fn law_backspace_edits_the_focused_text(s: SettingsView, control: bool, i: int)
    requires
        s.loaded,
        !s.submitting,
        0 <= s.focused < 14,
        s.texts.len() == 14,
        s.dirty.len() == 14,
        0 <= i < 14,
    ensures
        ({
            let (a, intent) = s.keyed(KeyEvent { code: KeyCode::Backspace, control });
            &&& intent is Nothing
            &&& s.focused >= 10 && s.texts[s.focused].len() > 0 ==> a.texts[s.focused]
                == s.texts[s.focused].drop_last()
            &&& s.focused >= 10 ==> a.dirty[s.focused]
            &&& i != s.focused ==> a.texts[i] == s.texts[i] && a.dirty[i] == s.dirty[i]
            &&& s.focused < 10 ==> a == s
            &&& a.bools == s.bools
        }),
{
}

/// The focus goes one on and one back, round the fourteen, and letters do it on the
/// toggles only.
pub proof fn law_keys_move_the_focus(s: SettingsView, key: KeyEvent)
    requires
        s.loaded,
        !s.submitting,
        !key.control,
        0 <= s.focused < 14,
    ensures
        ({
            let (a, intent) = s.keyed(key);
            let on = key.code == KeyCode::Tab || key.code == KeyCode::Down || (s.focused < 10
                && key.code == KeyCode::Char('j'));
            let back = key.code == KeyCode::BackTab || key.code == KeyCode::Up || (s.focused < 10
                && key.code == KeyCode::Char('k'));
            &&& on && s.focused < 13 ==> a.focused == s.focused + 1
            &&& on && s.focused == 13 ==> a.focused == 0
            &&& back && s.focused > 0 ==> a.focused == s.focused - 1
            &&& back && s.focused == 0 ==> a.focused == 13
            &&& on || back ==> intent is Nothing && a.bools == s.bools && a.texts == s.texts
                && a.dirty == s.dirty
            &&& !on && !back ==> a.focused == s.focused
        }),
{
}

/// What was changed is sent, once: with no change the screen closes, and until the save
/// settles no key does anything.
pub proof fn law_changes_are_sent_once(s: SettingsView, key: KeyEvent)
    requires
        s.dirty.len() == 14,
    ensures
        s.submitting ==> s.keyed(key) == (s, SettingsIntentView::Nothing),
        s.loaded && !s.submitting && (key.code == KeyCode::Enter || (key.control && key.code
            == KeyCode::Char('s'))) ==> {
            let (a, intent) = s.keyed(key);
            &&& (forall|i: int| 0 <= i < 14 ==> !#[trigger] s.dirty[i]) ==> intent is Cancel && a
                == s
            &&& (exists|i: int| 10 <= i < 14 && #[trigger] s.dirty[i]) ==> a.submitting && (
            intent matches SettingsIntentView::Submit { update } && update == s.update())
            &&& (exists|i: int| 0 <= i < 7 && #[trigger] s.dirty[i] && s.bools[i] is Some)
                ==> a.submitting && (intent matches SettingsIntentView::Submit { update } && update
                == s.update())
            &&& s.dirty[7] || s.dirty[8] || s.dirty[9] ==> a.submitting && intent is Submit
            &&& a.bools == s.bools && a.texts == s.texts && a.dirty == s.dirty
        },
{
    let none = UpdateView::nothing();
    let u = s.update();
    if exists|i: int| 10 <= i < 14 && #[trigger] s.dirty[i] {
        assert(u.icon_theme is Some || u.image_pixel_size is Some || u.time_display_format is Some
            || u.keyboard_preset is Some);
        assert(u != none);
    }
    if exists|i: int| 0 <= i < 7 && #[trigger] s.dirty[i] && s.bools[i] is Some {
        assert(u.filter_nsfw is Some || u.show_follower_count is Some || u.hide_images_in_feed
            is Some || u.hide_audio_in_feed is Some || u.auto_watch_on_reply is Some
            || u.use_legacy_menu_order is Some || u.default_public_post is Some);
        assert(u != none);
    }
    if forall|i: int| 0 <= i < 14 ==> !#[trigger] s.dirty[i] {
        assert(s.dirty =~= none_dirty());
    }
}

/// A save that went through leaves nothing unsaved and the values as they are; one that
/// failed leaves the changes and says why.
pub proof fn law_a_save_settles(s: SettingsView, msg: String)
    ensures
        !s.settled(Ok(())).submitting,
        s.settled(Ok(())).bools == s.bools,
        s.settled(Ok(())).texts == s.texts,
        s.settled(Ok(())).update() == UpdateView::nothing(),
        !s.settled(Err(msg)).submitting,
        s.settled(Err(msg)).error == Some(msg@),
        s.settled(Err(msg)).update() == s.update(),
        s.settled(Err(msg)).bools == s.bools,
        s.settled(Err(msg)).texts == s.texts,
{
}

/// A preference's row shows a star where it is unsaved, its label first, and its value
/// last: a checked box exactly when it is on, or the text in quotes; there is one row
/// for each.
pub proof fn law_rows_show_their_preferences(s: SettingsView, i: int, theme: Theme)
    requires
        0 <= i < 14,
    ensures
        ({
            let rows = setting_rows(s, 14, theme);
            let row = rows[i];
            let label = label_text(i);
            &&& rows.len() == 14
            &&& row.len() == 3
            &&& row[0].content[0] == (if s.dirty[i] {
                '*'
            } else {
                ' '
            })
            &&& row[1].content.take(label.len() as int) == label
            &&& label.len() < 32 ==> row[1].content.len() == 32
            &&& i < 10 ==> row[2].content.len() == 3 && (row[2].content[1] == 'x') == (s.bools[i]
                == Some(true))
            &&& i >= 10 ==> row[2].content.len() == s.texts[i].len() + 2 && row[2].content.subrange(
                1,
                (s.texts[i].len() + 1) as int,
            ) == s.texts[i]
            &&& i == s.focused ==> row[1].style == theme.accent_spec()
            &&& i != s.focused ==> row[1].style == theme.muted_spec()
        }),
{
    reveal_strlit("* ");
    reveal_strlit("  ");
    reveal_strlit("[x]");
    reveal_strlit("[ ]");
    reveal_strlit("\"");
    reveal_strlit(" ");
    let label = label_text(i);
    let row = setting_rows(s, 14, theme)[i];
    assert(padded(label, 32).take(label.len() as int) =~= label);
    if label.len() < 32 {
        strs::lemma_repeated_len(" "@, (32 - label.len()) as nat);
    }
    if i >= 10 {
        assert(row[2].content.subrange(1, (s.texts[i].len() + 1) as int) =~= s.texts[i]);
    }
}

/// The labels name fourteen different preferences.
pub proof fn law_labels_are_distinct(i: int, j: int)
    requires
        0 <= i < j < 14,
    ensures
        label_text(i) != label_text(j),
{
    reveal_strlit("filter NSFW posts");
    reveal_strlit("show follower count on profile");
    reveal_strlit("hide images in feed");
    reveal_strlit("hide audio in feed");
    reveal_strlit("auto-watch threads I reply to");
    reveal_strlit("use legacy menu order");
    reveal_strlit("default new posts to public");
    reveal_strlit("notify on bookmark");
    reveal_strlit("notify on reply");
    reveal_strlit("notify on poke");
    reveal_strlit("icon theme");
    reveal_strlit("image pixel size");
    reveal_strlit("time display format");
    reveal_strlit("keyboard preset");
    let a = label_text(i);
    let b = label_text(j);
    assert(a[0] != b[0] || a.len() != b.len() || a[3] != b[3] || a[5] != b[5] || a[10] != b[10]);
}

/// The status line counts what is unsaved.
pub proof fn law_unsaved_are_counted(s: SettingsView, i: int, n: int)
    requires
        s.dirty.len() == 14,
        0 <= i < 14,
        0 <= n <= 14,
    ensures
        dirty_among(none_dirty(), n) == 0,
        !s.dirty[i] ==> dirty_among(s.dirty.update(i, true), n) == dirty_among(s.dirty, n) + (
        if i < n {
            1nat
        } else {
            0
        }),
    decreases n,
{
    if n > 0 {
        law_unsaved_are_counted(s, i, n - 1);
    }
}

/// The screen starts loading, with nothing changed and no value known.
pub proof fn law_settings_start_unknown(i: int)
    requires
        0 <= i < 14,
    ensures
        !SettingsView::started().loaded,
        SettingsView::started().loading,
        !SettingsView::started().submitting,
        SettingsView::started().focused == 0,
        SettingsView::started().bools[i] is None,
        SettingsView::started().texts[i].len() == 0,
        !SettingsView::started().dirty[i],
{
}

/// The status says that a save is under way, or why one failed, or how many changes wait.
pub proof fn law_the_status_counts_the_changes(s: SettingsView)
    ensures
        s.submitting ==> status_text(s) == "saving…"@,
        !s.submitting ==> (s.error matches Some(msg) ==> status_text(s) == "error: "@ + msg
            + " · esc to cancel"@),
        !s.submitting && s.error is None ==> {
            let d = strs::decimal(dirty_among(s.dirty, 14));
            d.len() <= status_text(s).len() && status_text(s).take(d.len() as int) == d
        },
{
    if !s.submitting && s.error is None {
        let d = strs::decimal(dirty_among(s.dirty, 14));
        assert(status_text(s).take(d.len() as int) =~= d);
    }
}

} // verus!
