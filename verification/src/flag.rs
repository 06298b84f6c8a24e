//! The one-line prompt for the reason of a report.
use vstd::prelude::*;

use crate::draw::{self, Line};
use crate::input::{self, collapse_newlines, windowed_line};
use crate::key::{KeyCode, KeyEvent};
use crate::strs::{self, chars_of, string_of, trim};
use crate::theme::Theme;

verus! {

/// The longest reason the server takes, in characters.
pub const MAX_FLAG_REASON: usize = 500;

/// An open prompt: what is reported, the reason typed so far, and the caret.
#[derive(Debug, Clone, PartialEq, Eq)]
pub struct FlagPrompt<T> {
    pub target: T,
    pub reason: String,
    /// The caret, counted in characters.
    pub cursor: usize,
}

/// What a [`FlagPrompt`] holds.
#[verifier::ext_equal]
pub struct FlagView<T> {
    pub target: T,
    pub reason: Seq<char>,
    pub cursor: int,
}

impl<T> View for FlagPrompt<T> {
    type V = FlagView<T>;

    open spec fn view(&self) -> FlagView<T> {
        FlagView { target: self.target, reason: self.reason@, cursor: self.cursor as int }
    }
}

/// What a key did to the prompt.
#[derive(Debug, Clone, Copy, PartialEq, Eq, Structural)]
pub enum FlagPromptKey {
    /// The key belonged to the field.
    Consumed,
    /// The report was abandoned.
    Cancelled,
    /// The report is to be sent.
    Submitted,
}

impl<T> FlagView<T> {
    pub open spec fn opened(target: T) -> FlagView<T> {
        FlagView { target, reason: Seq::empty(), cursor: 0 }
    }

    /// The caret, no further than the end of the reason.
    pub open spec fn caret(self) -> int {
        if self.cursor < self.reason.len() {
            self.cursor
        } else {
            self.reason.len() as int
        }
    }

    /// The prompt after a key that neither sends nor abandons the report.
    pub open spec fn typed(self, key: KeyEvent) -> FlagView<T> {
        let cur = self.caret();
        match key.code {
            KeyCode::Backspace => if cur > 0 {
                FlagView { reason: self.reason.remove(cur - 1), cursor: cur - 1, ..self }
            } else {
                FlagView { cursor: cur, ..self }
            },
            KeyCode::Delete => if cur < self.reason.len() {
                FlagView { reason: self.reason.remove(cur), cursor: cur, ..self }
            } else {
                FlagView { cursor: cur, ..self }
            },
            KeyCode::Left => FlagView {
                cursor: if cur > 0 {
                    cur - 1
                } else {
                    0
                },
                ..self
            },
            KeyCode::Right => FlagView {
                cursor: if cur < self.reason.len() {
                    cur + 1
                } else {
                    cur
                },
                ..self
            },
            KeyCode::Home => FlagView { cursor: 0, ..self },
            KeyCode::End => FlagView { cursor: self.reason.len() as int, ..self },
            KeyCode::Char(c) => if !key.control && self.reason.len() < MAX_FLAG_REASON {
                FlagView { reason: self.reason.insert(cur, c), cursor: cur + 1, ..self }
            } else {
                FlagView { cursor: cur, ..self }
            },
            _ => FlagView { cursor: cur, ..self },
        }
    }

    /// How many more characters the reason takes.
    pub open spec fn room(self) -> int {
        if self.reason.len() < MAX_FLAG_REASON {
            MAX_FLAG_REASON - self.reason.len()
        } else {
            0
        }
    }

    /// The prompt after a paste: on one line, and no more of it than there is
    /// room for.
    pub open spec fn pasted(self, text: Seq<char>) -> FlagView<T> {
        let flat = input::collapsed_from(text, 0);
        let more = flat.take(draw::least(self.room(), flat.len() as int));
        let cur = self.caret();
        FlagView {
            reason: self.reason.take(cur) + more + self.reason.skip(cur),
            cursor: cur + more.len(),
            ..self
        }
    }
}

/// The reason as it is sent: without surrounding white space, and none at all
/// when nothing is left.
pub open spec fn sent_reason(reason: Seq<char>) -> Option<Seq<char>> {
    if strs::trimmed(reason).len() == 0 {
        None
    } else {
        Some(strs::trimmed(reason))
    }
}

/// What a key does to an open prompt.
pub open spec fn key_outcome(key: KeyEvent) -> FlagPromptKey {
    match key.code {
        KeyCode::Enter => FlagPromptKey::Submitted,
        KeyCode::Esc => FlagPromptKey::Cancelled,
        _ => FlagPromptKey::Consumed,
    }
}

impl<T> FlagPrompt<T> {
    pub fn new(target: T) -> (r: FlagPrompt<T>)
        ensures
            r@ == FlagView::opened(target),
            r.target == target,
    {
        FlagPrompt { target, reason: String::new(), cursor: 0 }
    }

    /// Type into the field, move its caret, or say that the report was sent or
    /// abandoned.
    pub fn handle_key(&mut self, key: KeyEvent) -> (r: FlagPromptKey)
        ensures
            r == key_outcome(key),
            r == FlagPromptKey::Consumed ==> final(self)@ == old(self)@.typed(key),
            r != FlagPromptKey::Consumed ==> final(self)@ == old(self)@,
    {
        match key.code {
            KeyCode::Enter => {
                return FlagPromptKey::Submitted;
            },
            KeyCode::Esc => {
                return FlagPromptKey::Cancelled;
            },
            _ => {},
        }
        let mut chars = chars_of(self.reason.as_str());
        let n: usize = chars.len();
        let cur: usize = if self.cursor < n {
            self.cursor
        } else {
            n
        };
        self.cursor = cur;
        match key.code {
            KeyCode::Backspace => {
                if cur > 0 {
                    let _ = chars.remove(cur - 1);
                    self.reason = string_of(&chars);
                    self.cursor = cur - 1;
                }
            },
            KeyCode::Delete => {
                if cur < n {
                    let _ = chars.remove(cur);
                    self.reason = string_of(&chars);
                }
            },
            KeyCode::Left => {
                if cur > 0 {
                    self.cursor = cur - 1;
                }
            },
            KeyCode::Right => {
                if cur < n {
                    self.cursor = cur + 1;
                }
            },
            KeyCode::Home => {
                self.cursor = 0;
            },
            KeyCode::End => {
                self.cursor = n;
            },
            KeyCode::Char(c) => {
                if !key.control && n < MAX_FLAG_REASON {
                    chars.insert(cur, c);
                    self.reason = string_of(&chars);
                    self.cursor = cur + 1;
                }
            },
            _ => {},
        }
        FlagPromptKey::Consumed
    }

    /// Insert pasted text at the caret.
    pub fn paste(&mut self, text: &str)
        ensures
            final(self)@ == old(self)@.pasted(text@),
    {
        let flat = chars_of(collapse_newlines(text).as_str());
        let chars = chars_of(self.reason.as_str());
        let n: usize = chars.len();
        let cur: usize = if self.cursor < n {
            self.cursor
        } else {
            n
        };
        let room: usize = if n < MAX_FLAG_REASON {
            MAX_FLAG_REASON - n
        } else {
            0
        };
        let take: usize = if room < flat.len() {
            room
        } else {
            flat.len()
        };
        let mut reason = strs::string_of_range(&chars, 0, cur);
        reason.append(strs::string_of_range(&flat, 0, take).as_str());
        reason.append(strs::string_of_range(&chars, cur, n).as_str());
        assert(reason@ =~= old(self)@.pasted(text@).reason);
        self.reason = reason;
        if take > 0 {
            self.cursor = cur + take;
        } else {
            self.cursor = cur;
        }
    }

    /// The reason to send, if there is one.
    pub fn reason_to_send(&self) -> (r: Option<String>)
        ensures
            strs::opt_text(r) == sent_reason(self@.reason),
    {
        let t = trim(self.reason.as_str());
        if t.as_str().is_empty() {
            None
        } else {
            Some(t)
        }
    }
}

/// The two rows of an open prompt: what it is for, and the field.
pub open spec fn prompt_rows(reason: Seq<char>, cursor: int, width: int, theme: Theme) -> Seq<
    Seq<draw::SpanView>,
> {
    seq![
        draw::one("flag reason (optional) · enter send · esc cancel"@, theme.muted_spec()),
        input::windowed(reason, cursor, width, theme),
    ]
}

/// The two rows of an open prompt in a pane `width` columns wide.
pub fn render_flag_prompt<T>(prompt: &FlagPrompt<T>, width: u16, theme: &Theme) -> (r: Vec<Line>)
    ensures
        draw::line_views(r@) == prompt_rows(
            prompt@.reason,
            prompt@.cursor,
            width as int,
            *theme,
        ),
{
    let mut rows: Vec<Line> = Vec::new();
    draw::push_line(
        &mut rows,
        Line::of("flag reason (optional) · enter send · esc cancel", theme.muted_style()),
    );
    draw::push_line(
        &mut rows,
        windowed_line(prompt.reason.as_str(), prompt.cursor, width as usize, theme),
    );
    assert(draw::line_views(rows@) =~= prompt_rows(
        prompt@.reason,
        prompt@.cursor,
        width as int,
        *theme,
    ));
    rows
}

// ---------------------------------------------------------------------------
// Laws.
// ---------------------------------------------------------------------------

/// No key and no paste takes a reason past the cap.
pub proof fn law_reason_stays_under_the_cap<T>(s: FlagView<T>, key: KeyEvent, text: Seq<char>)
    requires
        s.reason.len() <= MAX_FLAG_REASON,
        0 <= s.cursor,
    ensures
        s.typed(key).reason.len() <= MAX_FLAG_REASON,
        s.pasted(text).reason.len() <= MAX_FLAG_REASON,
        0 <= s.typed(key).cursor <= s.typed(key).reason.len(),
        0 <= s.pasted(text).cursor <= s.pasted(text).reason.len(),
{
}

/// What is reported never changes while the reason is typed.
pub proof fn law_target_is_fixed<T>(s: FlagView<T>, key: KeyEvent, text: Seq<char>)
    ensures
        s.typed(key).target == s.target,
        s.pasted(text).target == s.target,
{
}

/// A character goes in at the caret, and backspace takes it out again; the caret
/// moves one character at a time and to either end, and none of that changes the
/// reason.
pub proof fn law_typing_edits_at_the_caret<T>(s: FlagView<T>, key: KeyEvent, c: char)
    requires
        0 <= s.cursor <= s.reason.len(),
        !key.control,
    ensures
        key.code == KeyCode::Char(c) && s.reason.len() < 500 ==> ({
            let r = s.typed(key);
            &&& r.reason == s.reason.take(s.cursor) + seq![c] + s.reason.skip(s.cursor)
            &&& r.cursor == s.cursor + 1
            &&& r.typed(KeyEvent { code: KeyCode::Backspace, control: false }) == s
        }),
        key.code == KeyCode::Char(c) && s.reason.len() >= 500 ==> s.typed(key) == s,
        key.code == KeyCode::Backspace && s.cursor > 0 ==> ({
            let r = s.typed(key);
            &&& r.reason == s.reason.take(s.cursor - 1) + s.reason.skip(s.cursor)
            &&& r.cursor == s.cursor - 1
        }),
        key.code == KeyCode::Delete && s.cursor < s.reason.len() ==> ({
            let r = s.typed(key);
            &&& r.reason == s.reason.take(s.cursor) + s.reason.skip(s.cursor + 1)
            &&& r.cursor == s.cursor
        }),
        key.code == KeyCode::Left ==> s.typed(key) == (FlagView {
            cursor: if s.cursor > 0 {
                s.cursor - 1
            } else {
                0
            },
            ..s
        }),
        key.code == KeyCode::Right ==> s.typed(key) == (FlagView {
            cursor: if s.cursor < s.reason.len() {
                s.cursor + 1
            } else {
                s.cursor
            },
            ..s
        }),
        key.code == KeyCode::Home ==> s.typed(key) == (FlagView { cursor: 0, ..s }),
        key.code == KeyCode::End ==> s.typed(key) == (FlagView {
            cursor: s.reason.len() as int,
            ..s
        }),
{
    let r = s.typed(key);
    if key.code == KeyCode::Char(c) && s.reason.len() < 500 {
        assert(r.reason =~= s.reason.take(s.cursor) + seq![c] + s.reason.skip(s.cursor));
        let b = r.typed(KeyEvent { code: KeyCode::Backspace, control: false });
        assert(b.reason =~= s.reason);
        assert(b =~= s);
    }
    if key.code == KeyCode::Char(c) && s.reason.len() >= 500 {
        assert(r =~= s);
    }
    if key.code == KeyCode::Backspace && s.cursor > 0 {
        assert(r.reason =~= s.reason.take(s.cursor - 1) + s.reason.skip(s.cursor));
    }
    if key.code == KeyCode::Delete && s.cursor < s.reason.len() {
        assert(r.reason =~= s.reason.take(s.cursor) + s.reason.skip(s.cursor + 1));
    }
}

/// A paste goes in at the caret, as much of it as there is room for, and leaves the
/// caret behind it.
pub proof fn law_pasting_goes_in_at_the_caret<T>(s: FlagView<T>, text: Seq<char>)
    requires
        0 <= s.cursor <= s.reason.len() <= 500,
    ensures
        ({
            let r = s.pasted(text);
            let flat = input::collapsed_from(text, 0);
            let n = r.reason.len() - s.reason.len();
            &&& 0 <= n <= flat.len()
            &&& n == flat.len() || r.reason.len() == 500
            &&& r.reason.take(s.cursor) == s.reason.take(s.cursor)
            &&& r.reason.subrange(s.cursor, s.cursor + n) == flat.take(n)
            &&& r.reason.skip(s.cursor + n) == s.reason.skip(s.cursor)
            &&& r.cursor == s.cursor + n
        }),
{
    let r = s.pasted(text);
    let flat = input::collapsed_from(text, 0);
    let n = r.reason.len() - s.reason.len();
    assert(r.reason.take(s.cursor) =~= s.reason.take(s.cursor));
    assert(r.reason.subrange(s.cursor, s.cursor + n) =~= flat.take(n));
    assert(r.reason.skip(s.cursor + n) =~= s.reason.skip(s.cursor));
}

/// Enter sends and escape abandons, and no other key does either; what is sent is
/// the trimmed reason, or none where it is blank.
pub proof fn law_only_enter_sends(key: KeyEvent, reason: Seq<char>)
    ensures
        key_outcome(key) == FlagPromptKey::Submitted <==> key.code == KeyCode::Enter,
        key_outcome(key) == FlagPromptKey::Cancelled <==> key.code == KeyCode::Esc,
        sent_reason(reason) is None <==> (forall|k: int|
            0 <= k < reason.len() ==> strs::white_space(#[trigger] reason[k])),
        sent_reason(reason) matches Some(r) ==> r.len() > 0 && exists|i: int| #[trigger]
            strs::padded_at(reason, r, i),
{
    strs::law_trimming_takes_only_outer_white_space(reason);
    let i = choose|i: int| #[trigger] strs::padded_at(reason, strs::trimmed(reason), i);
    assert(strs::padded_at(reason, strs::trimmed(reason), i));
}

/// A new prompt is empty and on its target.
pub proof fn law_a_prompt_opens_empty<T>(target: T)
    ensures
        FlagView::opened(target).target == target,
        FlagView::opened(target).reason.len() == 0,
        FlagView::opened(target).cursor == 0,
{
}

} // verus!
