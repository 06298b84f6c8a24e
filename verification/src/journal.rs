//! Journal screen: a browser for private notes, with their revisions.
use vstd::prelude::*;

use time::OffsetDateTime;

use crate::config::Config;
use crate::draw::{self, append_lines, push_block, push_line, push_span, Line, Span};
use crate::hyperlink::{self, render_linked_paragraph, LinkedParagraph};
use crate::key::{KeyCode, KeyEvent};
use crate::list::Page;
use crate::list_nav::{self, ListNav};
use crate::markdown::{self, render_markdown, ImageUrls};
use crate::model::Moment;
use crate::strs::{
    self, chars_of, clone_strings, decimal_text, join, repeat, same, string_of_range, trim,
    wide_decimal_text,
};
use crate::text::{self, first_line_of};
use crate::theme::Theme;

verus! {

/// A private note.
#[derive(Debug, Clone, PartialEq, Eq, Default)]
pub struct Note {
    pub note_id: String,
    pub author_id: String,
    pub content: String,
    pub topics: Vec<String>,
    pub revision_number: u32,
    pub deleted: bool,
    pub created_at: Option<Moment>,
}

/// What a note said at one revision.
#[derive(Debug, Clone, PartialEq, Eq, Default)]
pub struct NoteRevision {
    pub revision_number: u32,
    pub content: String,
    pub topics: Vec<String>,
    pub created_at: Option<Moment>,
}

/// What is asked of the shell.
#[derive(Debug, Clone, PartialEq, Eq)]
pub enum JournalIntent {
    LoadMore,
    Refresh,
    /// Write a new note.
    Compose,
    /// Edit the selected note.
    EditSelected { note_id: String, content: String, topics: Vec<String> },
    /// Delete the selected note.
    DeleteSelected { note_id: String },
    /// Load the selected note's revisions.
    ShowRevisions { note_id: String },
    /// Go back to the note itself.
    HideRevisions,
    Quit,
    /// Nothing is asked.
    Nothing,
}

/// What a [`JournalIntent`] says.
#[verifier::ext_equal]
pub enum JournalIntentView {
    LoadMore,
    Refresh,
    Compose,
    EditSelected { note_id: Seq<char>, content: Seq<char>, topics: Seq<String> },
    DeleteSelected { note_id: Seq<char> },
    ShowRevisions { note_id: Seq<char> },
    HideRevisions,
    Quit,
    Nothing,
}

impl View for JournalIntent {
    type V = JournalIntentView;

    open spec fn view(&self) -> JournalIntentView {
        match self {
            JournalIntent::LoadMore => JournalIntentView::LoadMore,
            JournalIntent::Refresh => JournalIntentView::Refresh,
            JournalIntent::Compose => JournalIntentView::Compose,
            JournalIntent::EditSelected { note_id, content, topics } =>
                JournalIntentView::EditSelected {
                note_id: note_id@,
                content: content@,
                topics: topics@,
            },
            JournalIntent::DeleteSelected { note_id } => JournalIntentView::DeleteSelected {
                note_id: note_id@,
            },
            JournalIntent::ShowRevisions { note_id } => JournalIntentView::ShowRevisions {
                note_id: note_id@,
            },
            JournalIntent::HideRevisions => JournalIntentView::HideRevisions,
            JournalIntent::Quit => JournalIntentView::Quit,
            JournalIntent::Nothing => JournalIntentView::Nothing,
        }
    }
}

/// What the detail panel shows.
#[derive(Debug, Clone, Copy, PartialEq, Eq, Structural)]
pub enum DetailMode {
    /// The latest content of the selected note.
    Current,
    /// The revisions of the selected note.
    Revisions,
}

/// The screen.
#[derive(Debug)]
pub struct JournalScreen {
    pub notes: Vec<Note>,
    pub selected: usize,
    pub next_cursor: Option<String>,
    pub loading: bool,
    pub error: Option<String>,
    pub mode: DetailMode,
    pub revisions: Vec<NoteRevision>,
    pub revisions_for: Option<String>,
    pub revision_selected: usize,
    pub loading_revisions: bool,
    pub confirming_delete: bool,
}

/// What a [`JournalScreen`] holds.
#[verifier::ext_equal]
pub struct JournalView {
    pub notes: Seq<Note>,
    pub selected: int,
    pub next_cursor: Option<Seq<char>>,
    pub loading: bool,
    pub error: Option<Seq<char>>,
    pub mode: DetailMode,
    pub revisions: Seq<NoteRevision>,
    pub revisions_for: Option<Seq<char>>,
    pub revision_selected: int,
    pub loading_revisions: bool,
    pub confirming_delete: bool,
}

impl View for JournalScreen {
    type V = JournalView;

    open spec fn view(&self) -> JournalView {
        JournalView {
            notes: self.notes@,
            selected: self.selected as int,
            next_cursor: strs::opt_text(self.next_cursor),
            loading: self.loading,
            error: strs::opt_text(self.error),
            mode: self.mode,
            revisions: self.revisions@,
            revisions_for: strs::opt_text(self.revisions_for),
            revision_selected: self.revision_selected as int,
            loading_revisions: self.loading_revisions,
            confirming_delete: self.confirming_delete,
        }
    }
}

impl JournalView {
    pub open spec fn started() -> JournalView {
        JournalView {
            notes: Seq::empty(),
            selected: 0,
            next_cursor: None,
            loading: true,
            error: None,
            mode: DetailMode::Current,
            revisions: Seq::empty(),
            revisions_for: None,
            revision_selected: 0,
            loading_revisions: false,
            confirming_delete: false,
        }
    }

    pub open spec fn chosen(self) -> Option<Note> {
        if 0 <= self.selected < self.notes.len() {
            Some(self.notes[self.selected])
        } else {
            None
        }
    }

    pub open spec fn deletes(self) -> JournalIntentView {
        match self.chosen() {
            Some(n) => JournalIntentView::DeleteSelected { note_id: n.note_id@ },
            None => JournalIntentView::Nothing,
        }
    }

    /// The screen and the intent after a key on the revisions.
    pub open spec fn reviewed(self, code: KeyCode) -> (JournalView, JournalIntentView) {
        match code {
            KeyCode::Char('j') | KeyCode::Down => (
                JournalView {
                    revision_selected: if self.revision_selected < self.revisions.len() - 1 {
                        self.revision_selected + 1
                    } else {
                        self.revision_selected
                    },
                    ..self
                },
                JournalIntentView::Nothing,
            ),
            KeyCode::Char('k') | KeyCode::Up => (
                JournalView {
                    revision_selected: if self.revision_selected > 0 {
                        self.revision_selected - 1
                    } else {
                        0
                    },
                    ..self
                },
                JournalIntentView::Nothing,
            ),
            KeyCode::Char('v') | KeyCode::Backspace => (self, JournalIntentView::HideRevisions),
            _ => (self, JournalIntentView::Nothing),
        }
    }

    /// The screen and the intent after a key on the notes that does not move.
    pub open spec fn acted(self, code: KeyCode, confirm_deletes: bool) -> (
        JournalView,
        JournalIntentView,
    ) {
        match code {
            KeyCode::Char('r') => (
                JournalView {
                    notes: Seq::empty(),
                    next_cursor: None,
                    selected: 0,
                    loading: true,
                    error: None,
                    ..self
                },
                JournalIntentView::Refresh,
            ),
            KeyCode::Char('c') => (self, JournalIntentView::Compose),
            KeyCode::Char('e') => (
                self,
                match self.chosen() {
                    Some(n) => JournalIntentView::EditSelected {
                        note_id: n.note_id@,
                        content: n.content@,
                        topics: n.topics@,
                    },
                    None => JournalIntentView::Nothing,
                },
            ),
            KeyCode::Char('d') | KeyCode::Delete => if self.chosen() is Some && confirm_deletes {
                (
                    JournalView { confirming_delete: true, ..self },
                    JournalIntentView::Nothing,
                )
            } else {
                (self, self.deletes())
            },
            KeyCode::Char('v') => (
                self,
                match self.chosen() {
                    Some(n) => JournalIntentView::ShowRevisions { note_id: n.note_id@ },
                    None => JournalIntentView::Nothing,
                },
            ),
            _ => (self, JournalIntentView::Nothing),
        }
    }

    /// The screen and the intent after a key. A delete that was asked for is
    /// only made by `y`; any other key takes it back.
    pub open spec fn keyed(self, key: KeyEvent, confirm_deletes: bool) -> (
        JournalView,
        JournalIntentView,
    ) {
        if key.is_quit_spec() {
            (self, JournalIntentView::Quit)
        } else if self.confirming_delete {
            (
                JournalView { confirming_delete: false, ..self },
                if key.code == KeyCode::Char('y') || key.code == KeyCode::Char('Y') {
                    self.deletes()
                } else {
                    JournalIntentView::Nothing
                },
            )
        } else if self.mode == DetailMode::Revisions {
            self.reviewed(key.code)
        } else {
            let (selected, nav) = list_nav::navigated(
                key.code,
                self.selected,
                self.notes.len() as int,
                self.next_cursor is Some,
                1,
            );
            let moved = JournalView { selected, ..self };
            match nav {
                ListNav::LoadMore => (
                    JournalView { loading: true, ..moved },
                    JournalIntentView::LoadMore,
                ),
                ListNav::Moved => (moved, JournalIntentView::Nothing),
                ListNav::Ignored => moved.acted(key.code, confirm_deletes),
            }
        }
    }

    pub open spec fn after_initial(self, page: Page<Note>) -> JournalView {
        match page {
            Ok((notes, cursor)) => JournalView {
                loading: false,
                notes: notes@,
                next_cursor: strs::opt_text(cursor),
                selected: if self.selected >= notes@.len() {
                    0
                } else {
                    self.selected
                },
                error: None,
                ..self
            },
            Err(msg) => JournalView { loading: false, error: Some(msg@), ..self },
        }
    }

    pub open spec fn after_more(self, page: Page<Note>) -> JournalView {
        match page {
            Ok((notes, cursor)) => JournalView {
                loading: false,
                notes: self.notes + notes@,
                next_cursor: strs::opt_text(cursor),
                error: None,
                ..self
            },
            Err(msg) => JournalView { loading: false, error: Some(msg@), ..self },
        }
    }

    pub open spec fn with_revisions(
        self,
        note_id: Seq<char>,
        result: Result<Vec<NoteRevision>, String>,
    ) -> JournalView {
        match result {
            Ok(revs) => JournalView {
                loading_revisions: false,
                revisions: revs@,
                revisions_for: Some(note_id),
                revision_selected: 0,
                mode: DetailMode::Revisions,
                ..self
            },
            Err(msg) => JournalView { loading_revisions: false, error: Some(msg@), ..self },
        }
    }

    /// The screen without the first note of that id; the selection stays on a
    /// note while there is one.
    pub open spec fn without(self, note_id: Seq<char>) -> JournalView {
        match note_index(self.notes, note_id, 0) {
            Some(i) => {
                let left = self.notes.len() - 1;
                JournalView {
                    notes: self.notes.remove(i),
                    selected: if self.selected < left {
                        self.selected
                    } else if left > 0 {
                        left - 1
                    } else {
                        0
                    },
                    ..self
                }
            },
            None => self,
        }
    }
}

/// Where the first note with that id stands at or after position `i`.
pub open spec fn note_index(notes: Seq<Note>, id: Seq<char>, i: int) -> Option<int>
    decreases notes.len() - i,
{
    if i < 0 || i >= notes.len() {
        None
    } else if notes[i].note_id@ == id {
        Some(i)
    } else {
        note_index(notes, id, i + 1)
    }
}

impl JournalScreen {
    pub fn new() -> (r: JournalScreen)
        ensures
            r@ == JournalView::started(),
    {
        JournalScreen {
            notes: Vec::new(),
            selected: 0,
            next_cursor: None,
            loading: true,
            error: None,
            mode: DetailMode::Current,
            revisions: Vec::new(),
            revisions_for: None,
            revision_selected: 0,
            loading_revisions: false,
            confirming_delete: false,
        }
    }

    fn delete_intent(&self) -> (r: JournalIntent)
        ensures
            r@ == self@.deletes(),
    {
        if self.selected < self.notes.len() {
            JournalIntent::DeleteSelected { note_id: self.notes[self.selected].note_id.clone() }
        } else {
            JournalIntent::Nothing
        }
    }

    /// Take a key and say what is asked of the shell.
    pub fn handle_key(&mut self, key: KeyEvent, confirm_deletes: bool) -> (r: JournalIntent)
        ensures
            (final(self)@, r@) == old(self)@.keyed(key, confirm_deletes),
    {
        if key.is_quit() {
            return JournalIntent::Quit;
        }
        if self.confirming_delete {
            self.confirming_delete = false;
            if key.code == KeyCode::Char('y') || key.code == KeyCode::Char('Y') {
                return self.delete_intent();
            }
            return JournalIntent::Nothing;
        }
        if self.mode == DetailMode::Revisions {
            return self.handle_key_revisions(key.code);
        }
        let len: usize = self.notes.len();
        let has_more = self.next_cursor.is_some();
        match list_nav::navigate(key.code, &mut self.selected, len, has_more) {
            ListNav::LoadMore => {
                self.loading = true;
                return JournalIntent::LoadMore;
            },
            ListNav::Moved => {
                return JournalIntent::Nothing;
            },
            ListNav::Ignored => {},
        }
        let present = self.selected < self.notes.len();
        match key.code {
            KeyCode::Char('r') => {
                self.notes.clear();
                self.next_cursor = None;
                self.selected = 0;
                self.loading = true;
                self.error = None;
                JournalIntent::Refresh
            },
            KeyCode::Char('c') => JournalIntent::Compose,
            KeyCode::Char('e') => {
                if !present {
                    return JournalIntent::Nothing;
                }
                let n = &self.notes[self.selected];
                JournalIntent::EditSelected {
                    note_id: n.note_id.clone(),
                    content: n.content.clone(),
                    topics: clone_strings(&n.topics),
                }
            },
            KeyCode::Char('d') | KeyCode::Delete => {
                if present && confirm_deletes {
                    self.confirming_delete = true;
                    return JournalIntent::Nothing;
                }
                self.delete_intent()
            },
            KeyCode::Char('v') => {
                if !present {
                    return JournalIntent::Nothing;
                }
                JournalIntent::ShowRevisions { note_id: self.notes[self.selected].note_id.clone() }
            },
            _ => JournalIntent::Nothing,
        }
    }

    fn handle_key_revisions(&mut self, code: KeyCode) -> (r: JournalIntent)
        ensures
            (final(self)@, r@) == old(self)@.reviewed(code),
    {
        match code {
            KeyCode::Char('j') | KeyCode::Down => {
                if self.revisions.len() > 0 && self.revision_selected < self.revisions.len() - 1 {
                    self.revision_selected = self.revision_selected + 1;
                }
            },
            KeyCode::Char('k') | KeyCode::Up => {
                if self.revision_selected > 0 {
                    self.revision_selected = self.revision_selected - 1;
                }
            },
            KeyCode::Char('v') | KeyCode::Backspace => {
                return JournalIntent::HideRevisions;
            },
            _ => {},
        }
        JournalIntent::Nothing
    }

    /// Apply an initial load or refresh.
    pub fn apply_initial(&mut self, result: Page<Note>)
        ensures
            final(self)@ == old(self)@.after_initial(result),
    {
        self.loading = false;
        match result {
            Ok((notes, cursor)) => {
                self.notes = notes;
                self.next_cursor = cursor;
                if self.selected >= self.notes.len() {
                    self.selected = 0;
                }
                self.error = None;
            },
            Err(msg) => {
                self.error = Some(msg);
            },
        }
    }

    /// Append a load-more page.
    pub fn apply_more(&mut self, result: Page<Note>)
        ensures
            final(self)@ == old(self)@.after_more(result),
    {
        self.loading = false;
        match result {
            Ok((notes, cursor)) => {
                let mut notes = notes;
                self.notes.append(&mut notes);
                self.next_cursor = cursor;
                self.error = None;
            },
            Err(msg) => {
                self.error = Some(msg);
            },
        }
    }

    /// The revisions of a note arrived, or failed to.
    pub fn apply_revisions(&mut self, note_id: String, result: Result<Vec<NoteRevision>, String>)
        ensures
            final(self)@ == old(self)@.with_revisions(note_id@, result),
    {
        self.loading_revisions = false;
        match result {
            Ok(revs) => {
                self.revisions = revs;
                self.revisions_for = Some(note_id);
                self.revision_selected = 0;
                self.mode = DetailMode::Revisions;
            },
            Err(msg) => {
                self.error = Some(msg);
            },
        }
    }

    /// Drop a note that was deleted.
    pub fn remove_local(&mut self, note_id: &str)
        ensures
            final(self)@ == old(self)@.without(note_id@),
    {
        let mut i: usize = 0;
        while i < self.notes.len()
            invariant
                i <= self.notes@.len(),
                *self == *old(self),
                note_index(self.notes@, note_id@, i as int) == note_index(
                    self.notes@,
                    note_id@,
                    0,
                ),
            decreases self.notes@.len() - i,
        {
            if same(self.notes[i].note_id.as_str(), note_id) {
                let _ = self.notes.remove(i);
                if self.selected >= self.notes.len() {
                    self.selected = if self.notes.len() > 0 {
                        self.notes.len() - 1
                    } else {
                        0
                    };
                }
                return;
            }
            i = i + 1;
        }
    }
}

impl Default for JournalScreen {
    fn default() -> (r: JournalScreen)
        ensures
            r@ == JournalView::started(),
    {
        JournalScreen::new()
    }
}

// ---------------------------------------------------------------------------
// Times.
// ---------------------------------------------------------------------------

/// A moment by the calendar and the clock.
#[derive(Debug, Clone, Copy, PartialEq, Eq, Structural)]
pub struct CivilTime {
    pub year: i32,
    pub month: u8,
    pub day: u8,
    pub hour: u8,
    pub minute: u8,
}

/// Whether a year has a 29th of February.
pub open spec fn leap(year: int) -> bool {
    year % 4 == 0 && (year % 100 != 0 || year % 400 == 0)
}

/// The days of a year before the first of a month.
pub open spec fn days_before_month(year: int, month: int) -> int {
    let leap_day: int = if leap(year) {
        1
    } else {
        0
    };
    if month <= 1 {
        0
    } else if month == 2 {
        31
    } else if month == 3 {
        59 + leap_day
    } else if month == 4 {
        90 + leap_day
    } else if month == 5 {
        120 + leap_day
    } else if month == 6 {
        151 + leap_day
    } else if month == 7 {
        181 + leap_day
    } else if month == 8 {
        212 + leap_day
    } else if month == 9 {
        243 + leap_day
    } else if month == 10 {
        273 + leap_day
    } else if month == 11 {
        304 + leap_day
    } else if month == 12 {
        334 + leap_day
    } else {
        365 + leap_day
    }
}

/// The days from the Unix epoch to a day of the Gregorian calendar.
pub open spec fn day_number(year: int, month: int, day: int) -> int {
    let y = year - 1;
    365 * y + y / 4 - y / 100 + y / 400 + days_before_month(year, month) + day - 719163
}

/// Whether the Gregorian calendar has such a day, and it is the one on which the
/// moment `secs` seconds after the Unix epoch falls in UTC.
pub open spec fn falls_on(secs: int, date: (int, int, int)) -> bool {
    let (year, month, day) = date;
    &&& 1 <= month <= 12
    &&& 1 <= day <= days_before_month(year, month + 1) - days_before_month(year, month)
    &&& day_number(year, month, day) == secs / 86400
}

/// Whether a moment is in one of the years from -9999 to 9999, in UTC.
pub open spec fn in_calendar(secs: int) -> bool {
    -377705116800 <= secs <= 253402300799
}

/// The year, month and day of the moment `secs` seconds after the Unix epoch, in
/// UTC, where the calendar reaches it.
pub uninterp spec fn civil_date(secs: int) -> Option<(int, int, int)>;

/// `time::OffsetDateTime::from_unix_timestamp`: the moment `secs` seconds after
/// the Unix epoch, in UTC, or `None` where it is outside the calendar of the
/// `time` crate, which is the Gregorian one, carried on in both directions, and
/// holds at least the years from -9999 to 9999. The hour and the minute follow
/// from the seconds within the day.
#[verifier::external_body]
fn civil_time(secs: i64) -> (r: Option<CivilTime>)
    ensures
        in_calendar(secs as int) ==> r is Some,
        match r {
            Some(c) => {
                let date = (c.year as int, c.month as int, c.day as int);
                &&& civil_date(secs as int) == Some(date)
                &&& falls_on(secs as int, date)
                &&& c.hour == (secs as int % 86400) / 3600
                &&& c.minute == (secs as int % 3600) / 60
            },
            None => civil_date(secs as int) is None,
        },
{
    let t = OffsetDateTime::from_unix_timestamp(secs).ok()?;
    Some(CivilTime {
        year: t.year(),
        month: u8::from(t.month()),
        day: t.day(),
        hour: t.hour(),
        minute: t.minute(),
    })
}

/// The year, month and day that a moment's own clock shows, where the calendar
/// reaches it.
pub open spec fn date_of(t: Moment) -> Option<(int, int, int)> {
    if i64::MIN <= t.local() <= i64::MAX {
        civil_date(t.local())
    } else {
        None
    }
}

/// Whether a moment has the date on which it falls by its own clock, and one at
/// all where the calendar reaches it.
pub open spec fn dated(t: Moment) -> bool {
    match date_of(t) {
        Some(date) => falls_on(t.local(), date),
        None => !in_calendar(t.local()),
    }
}

/// What a moment's own clock shows: the time that a clock in UTC shows as many
/// seconds later as it is ahead.
fn civil_of(t: Moment) -> (r: Option<CivilTime>)
    ensures
        match r {
            Some(c) => {
                &&& date_of(t) == Some((c.year as int, c.month as int, c.day as int))
                &&& falls_on(t.local(), (c.year as int, c.month as int, c.day as int))
                &&& c.hour == (t.local() % 86400) / 3600
                &&& c.minute == (t.local() % 3600) / 60
            },
            None => date_of(t) is None && !in_calendar(t.local()),
        },
{
    let local: i128 = t.secs as i128 + t.offset as i128;
    if local < i64::MIN as i128 || local > i64::MAX as i128 {
        None
    } else {
        civil_time(local as i64)
    }
}

/// A number in decimal, filled up with zeros to `width` digits.
pub open spec fn zero_filled(n: nat, width: int) -> Seq<char> {
    let d = strs::decimal(n);
    if d.len() < width {
        strs::repeated("0"@, (width - d.len()) as nat) + d
    } else {
        d
    }
}

fn zero_fill(n: u128, width: usize) -> (r: String)
    ensures
        r@ == zero_filled(n as nat, width as int),
{
    let d = wide_decimal_text(n);
    let len: usize = chars_of(d.as_str()).len();
    if len < width {
        let mut r = repeat("0", width - len);
        r.append(d.as_str());
        r
    } else {
        d
    }
}

/// A number in decimal, with its sign where it is negative, filled up with
/// zeros to `width` characters.
pub open spec fn signed(n: int, width: int) -> Seq<char> {
    if n < 0 {
        "-"@ + zero_filled((-n) as nat, width - 1)
    } else {
        zero_filled(n as nat, width)
    }
}

fn signed_text(n: i128, width: usize) -> (r: String)
    requires
        i128::MIN < n,
        width >= 1,
    ensures
        r@ == signed(n as int, width as int),
{
    if n < 0 {
        let mut r = "-".to_owned();
        r.append(zero_fill((0 - n) as u128, width - 1).as_str());
        r
    } else {
        zero_fill(n as u128, width)
    }
}

/// A moment as its date, or as how long ago it was while that is under thirty
/// days; `date` is what the calendar says of it.
pub open spec fn relative(t: Moment, now: Moment, date: Option<(int, int, int)>) -> Seq<char> {
    let secs = now.since(t);
    if secs < 60 {
        signed(secs, 1) + "s ago"@
    } else if secs < 3600 {
        signed(secs / 60, 1) + "m ago"@
    } else if secs < 86400 {
        signed(secs / 3600, 1) + "h ago"@
    } else if secs < 2592000 {
        signed(secs / 86400, 1) + "d ago"@
    } else {
        match date {
            Some((year, month, day)) => signed(year, 1) + "-"@ + zero_filled(month as nat, 2)
                + "-"@ + zero_filled(day as nat, 2),
            None => Seq::empty(),
        }
    }
}

/// How a moment is shown in the list of notes, given what the calendar says of
/// it.
pub fn relative_text(t: Moment, now: Moment, date: Option<CivilTime>) -> (r: String)
    ensures
        r@ == relative(
            t,
            now,
            match date {
                Some(c) => Some((c.year as int, c.month as int, c.day as int)),
                None => None,
            },
        ),
{
    let secs: i128 = now.seconds_since(t);
    let mut s = String::new();
    if secs < 60 {
        s.append(signed_text(secs, 1).as_str());
        s.append("s ago");
    } else if secs < 3600 {
        s.append(signed_text(secs / 60, 1).as_str());
        s.append("m ago");
    } else if secs < 86400 {
        s.append(signed_text(secs / 3600, 1).as_str());
        s.append("h ago");
    } else if secs < 2592000 {
        s.append(signed_text(secs / 86400, 1).as_str());
        s.append("d ago");
    } else if let Some(c) = date {
        s.append(signed_text(c.year as i128, 1).as_str());
        s.append("-");
        s.append(zero_fill(c.month as u128, 2).as_str());
        s.append("-");
        s.append(zero_fill(c.day as u128, 2).as_str());
    }
    assert(s@ =~= relative(
        t,
        now,
        match date {
            Some(c) => Some((c.year as int, c.month as int, c.day as int)),
            None => None,
        },
    ));
    s
}

/// How a moment is shown in the list of notes.
pub fn format_relative(t: Moment, now: Moment) -> (r: String)
    ensures
        r@ == relative(t, now, date_of(t)),
        dated(t),
{
    relative_text(t, now, civil_of(t))
}

/// A moment as its date, hour and minute by its own clock; `date` is what the
/// calendar says of it.
pub open spec fn full(t: Moment, date: Option<(int, int, int)>) -> Seq<char> {
    match date {
        Some((year, month, day)) => signed(year, 4) + "-"@ + zero_filled(month as nat, 2) + "-"@
            + zero_filled(day as nat, 2) + " "@ + zero_filled(((t.local() % 86400) / 3600) as nat, 2)
            + ":"@ + zero_filled(((t.local() % 3600) / 60) as nat, 2),
        None => Seq::empty(),
    }
}

/// A moment by the calendar and the clock, as text.
pub fn civil_text(c: CivilTime) -> (r: String)
    ensures
        r@ == signed(c.year as int, 4) + "-"@ + zero_filled(c.month as nat, 2) + "-"@
            + zero_filled(c.day as nat, 2) + " "@ + zero_filled(c.hour as nat, 2) + ":"@
            + zero_filled(c.minute as nat, 2),
{
    let mut s = signed_text(c.year as i128, 4);
    s.append("-");
    s.append(zero_fill(c.month as u128, 2).as_str());
    s.append("-");
    s.append(zero_fill(c.day as u128, 2).as_str());
    s.append(" ");
    s.append(zero_fill(c.hour as u128, 2).as_str());
    s.append(":");
    s.append(zero_fill(c.minute as u128, 2).as_str());
    s
}

/// How a moment is shown in full.
pub fn format_full(t: Moment) -> (r: String)
    ensures
        r@ == full(t, date_of(t)),
        dated(t),
{
    match civil_of(t) {
        Some(c) => civil_text(c),
        None => String::new(),
    }
}

pub open spec fn full_or_empty(t: Option<Moment>) -> Seq<char> {
    match t {
        Some(t) => full(t, date_of(t)),
        None => Seq::empty(),
    }
}

fn full_text(t: Option<Moment>) -> (r: String)
    ensures
        r@ == full_or_empty(t),
{
    match t {
        Some(t) => format_full(t),
        None => String::new(),
    }
}

// ---------------------------------------------------------------------------
// What is shown.
// ---------------------------------------------------------------------------

/// The first line of a text, trimmed, and cut to `max` characters.
pub open spec fn shortened(s: Seq<char>, max: int) -> Seq<char> {
    let first = strs::trimmed(text::first_line(s));
    if first.len() <= max {
        first
    } else {
        first.take(max - 1) + "…"@
    }
}

/// The first line of `s`, trimmed, and cut to `max` characters.
pub fn first_line_truncated(s: &str, max: usize) -> (r: String)
    requires
        max > 0 || strs::trimmed(text::first_line(s@)).len() == 0,
    ensures
        r@ == shortened(s@, max as int),
{
    let first = trim(first_line_of(s).as_str());
    let chars = chars_of(first.as_str());
    if chars.len() <= max {
        first
    } else {
        let mut r = string_of_range(&chars, 0, max - 1);
        assert(chars@.subrange(0, max - 1) =~= first@.take(max - 1));
        r.append("…");
        r
    }
}

pub open spec fn topic_list(topics: Seq<String>) -> Seq<char> {
    "#"@ + strs::joined(strs::texts(topics), " #"@)
}

fn topic_text(topics: &Vec<String>) -> (r: String)
    ensures
        r@ == topic_list(topics@),
{
    let mut r = "#".to_owned();
    r.append(join(topics, " #").as_str());
    r
}

/// The rows of a note in the list.
pub open spec fn note_lines(n: Note, now: Moment, theme: Theme) -> Seq<Seq<draw::SpanView>> {
    seq![
        seq![
            draw::span(
                "[r"@ + strs::decimal(n.revision_number as nat) + "]"@,
                theme.muted_spec(),
            ),
            draw::span(
                " "@ + (match n.created_at {
                    Some(t) => relative(t, now, date_of(t)),
                    None => Seq::empty(),
                }) + (if n.topics@.len() > 0 {
                    "  "@ + topic_list(n.topics@)
                } else {
                    Seq::empty()
                }),
                theme.muted_spec(),
            ),
        ],
        draw::one(shortened(n.content@, 60), theme.base_spec()),
        draw::blank(),
    ]
}

/// The rows of a note in the list.
pub fn note_item(n: &Note, now: Moment, theme: &Theme) -> (r: Vec<Line>)
    ensures
        draw::line_views(r@) == note_lines(*n, now, *theme),
{
    let mut rev = "[r".to_owned();
    rev.append(decimal_text(n.revision_number as u64).as_str());
    rev.append("]");
    let when = match n.created_at {
        Some(t) => format_relative(t, now),
        None => String::new(),
    };
    let mut topics = String::new();
    if n.topics.len() > 0 {
        topics.append("  ");
        topics.append(topic_text(&n.topics).as_str());
    }
    let mut meta = " ".to_owned();
    meta.append(when.as_str());
    meta.append(topics.as_str());
    let mut spans: Vec<Span> = Vec::new();
    push_span(&mut spans, Span::new(rev, theme.muted_style()));
    push_span(&mut spans, Span::new(meta, theme.muted_style()));
    let ghost want = note_lines(*n, now, *theme);
    assert(topics@ =~= if n.topics@.len() > 0 {
        "  "@ + topic_list(n.topics@)
    } else {
        Seq::empty()
    });
    assert(draw::span_views(spans@) =~= want[0]);
    let mut lines: Vec<Line> = Vec::new();
    push_line(&mut lines, Line::new(spans));
    push_line(
        &mut lines,
        Line::single(first_line_truncated(n.content.as_str(), 60), theme.base()),
    );
    push_line(&mut lines, Line::empty());
    assert(draw::line_views(lines@) =~= want);
    lines
}

/// The rows of the first `k` notes.
pub open spec fn note_rows(notes: Seq<Note>, k: int, now: Moment, theme: Theme) -> Seq<
    Seq<Seq<draw::SpanView>>,
> {
    Seq::new(k as nat, |i: int| note_lines(notes[i], now, theme))
}

/// The list of notes.
#[derive(Debug)]
pub enum JournalList {
    Message(Line),
    Rows { rows: Vec<Vec<Line>>, selected: usize },
}

/// The detail panel.
#[derive(Debug)]
pub enum JournalDetail {
    /// No note is selected.
    Blank,
    Message(Line),
    Note(LinkedParagraph),
    /// The revisions, in `height` rows, and the text of the selected one.
    Revisions { rows: Vec<Line>, selected: usize, height: u16, text: Option<LinkedParagraph> },
}

/// What one render shows.
#[derive(Debug)]
pub struct JournalFrame {
    pub title: Line,
    pub list: JournalList,
    pub detail: JournalDetail,
    pub status: Line,
}

/// A text as it renders.
pub open spec fn rendered(content: Seq<char>, theme: Theme) -> Seq<Seq<draw::SpanView>> {
    markdown::MdView::rendered(
        markdown::markdown_events(content),
        theme,
        ImageUrls::Show,
    ).out
}

pub open spec fn topics_line(topics: Seq<String>, theme: Theme) -> Seq<draw::SpanView> {
    draw::one("topics: "@ + topic_list(topics), theme.muted_spec())
}

/// The lines of a note: its header, its topics and its text.
pub open spec fn current_lines(n: Note, theme: Theme) -> Seq<Seq<draw::SpanView>> {
    let head = seq![
        draw::one(
            "note "@ + n.note_id@ + " · revision "@ + strs::decimal(n.revision_number as nat)
                + " · "@ + full_or_empty(n.created_at),
            theme.muted_spec(),
        ),
    ];
    (if n.topics@.len() > 0 {
        head.push(topics_line(n.topics@, theme))
    } else {
        head
    }).push(draw::blank()) + rendered(n.content@, theme)
}

/// The lines of a revision: its topics and its text.
pub open spec fn revision_lines(r: NoteRevision, theme: Theme) -> Seq<Seq<draw::SpanView>> {
    (if r.topics@.len() > 0 {
        seq![topics_line(r.topics@, theme), draw::blank()]
    } else {
        Seq::empty()
    }) + rendered(r.content@, theme)
}

/// The row of a revision.
pub open spec fn revision_row(r: NoteRevision, theme: Theme) -> Seq<draw::SpanView> {
    seq![
        draw::span("r"@ + strs::decimal(r.revision_number as nat), theme.accent_spec()),
        draw::span(" · "@ + full_or_empty(r.created_at), theme.muted_spec()),
    ]
}

/// The rows of the first `k` revisions.
pub open spec fn revision_rows(revs: Seq<NoteRevision>, k: int, theme: Theme) -> Seq<
    Seq<draw::SpanView>,
> {
    Seq::new(k as nat, |i: int| revision_row(revs[i], theme))
}

/// The index, no further than the last of `n`.
pub open spec fn within(i: int, n: int) -> int {
    if n == 0 {
        0
    } else if i < n {
        i
    } else {
        n - 1
    }
}

fn within_len(i: usize, n: usize) -> (r: usize)
    ensures
        r == within(i as int, n as int),
{
    if n == 0 {
        0
    } else if i < n {
        i
    } else {
        n - 1
    }
}

/// Whether a paragraph shows these lines, with a link for every URL in them
/// when links are on.
pub open spec fn links(
    p: LinkedParagraph,
    lines: Seq<Seq<draw::SpanView>>,
    width: u16,
    enabled: bool,
) -> bool {
    &&& draw::line_views(p.lines@) == lines
    &&& p.scroll == 0
    &&& hyperlink::target_views(p.targets@) == if enabled {
        hyperlink::targets_of(lines, lines.len() as int, hyperlink::wrap_columns(width))
    } else {
        Seq::<hyperlink::TargetView>::empty()
    }
}

/// The rows the list of revisions takes: at most eight and one.
pub open spec fn revisions_height(n: int) -> int {
    (if n % 65536 < 8 {
        n % 65536
    } else {
        8
    }) + 1
}

impl JournalView {
    /// Whether a list shows the notes.
    pub open spec fn listed_by(self, list: JournalList, now: Moment, theme: Theme) -> bool {
        if self.loading && self.notes.len() == 0 {
            list matches JournalList::Message(l) && l@ == draw::one(
                "loading notes…"@,
                theme.accent_spec(),
            )
        } else if let Some(msg) = self.error {
            list matches JournalList::Message(l) && l@ == draw::one(msg, theme.error_spec())
        } else if self.notes.len() == 0 {
            list matches JournalList::Message(l) && l@ == draw::one(
                "no notes — press c to compose"@,
                theme.muted_spec(),
            )
        } else {
            list matches JournalList::Rows { rows, selected } && draw::block_views(rows@)
                == note_rows(self.notes, self.notes.len() as int, now, theme) && selected
                == within(self.selected, self.notes.len() as int)
        }
    }

    /// Whether a panel `width` columns wide shows the detail.
    pub open spec fn detailed_by(
        self,
        detail: JournalDetail,
        width: u16,
        theme: Theme,
        cfg: Config,
    ) -> bool {
        if self.mode == DetailMode::Current {
            match self.chosen() {
                Some(n) => detail matches JournalDetail::Note(p) && links(
                    p,
                    current_lines(n, theme),
                    width,
                    cfg.hyperlinks,
                ),
                None => detail is Blank,
            }
        } else if self.loading_revisions {
            detail matches JournalDetail::Message(l) && l@ == draw::one(
                "loading revisions…"@,
                theme.accent_spec(),
            )
        } else if self.revisions.len() == 0 {
            detail matches JournalDetail::Message(l) && l@ == draw::one(
                "no revisions"@,
                theme.muted_spec(),
            )
        } else {
            &&& detail matches JournalDetail::Revisions { rows, selected, height, text }
            &&& draw::line_views(rows@) == revision_rows(
                self.revisions,
                self.revisions.len() as int,
                theme,
            )
            &&& selected == within(self.revision_selected, self.revisions.len() as int)
            &&& height == revisions_height(self.revisions.len() as int)
            &&& if self.revision_selected < self.revisions.len() {
                text matches Some(p) && links(
                    p,
                    revision_lines(self.revisions[self.revision_selected], theme),
                    width,
                    cfg.hyperlinks,
                )
            } else {
                text is None
            }
        }
    }

    pub open spec fn status_text(self) -> Seq<char> {
        if self.confirming_delete {
            "really delete this note? y=yes, any other key=cancel"@
        } else if self.mode == DetailMode::Revisions {
            "viewing revisions ("@ + strs::decimal(self.revisions.len())
                + ") · v or backspace to return"@
        } else {
            strs::decimal(self.notes.len()) + (if self.next_cursor is Some {
                " notes · scroll down for more · c compose · e edit · d delete · v revisions · r refresh · esc menu"@
            } else {
                " notes · end · c compose · e edit · d delete · v revisions · r refresh · esc menu"@
            })
        }
    }
}

impl JournalScreen {
    fn render_list(&self, now: Moment, theme: &Theme) -> (l: JournalList)
        ensures
            self@.listed_by(l, now, *theme),
    {
        if self.loading && self.notes.len() == 0 {
            return JournalList::Message(Line::of("loading notes…", theme.accent_style()));
        }
        if let Some(msg) = &self.error {
            return JournalList::Message(Line::of(msg.as_str(), theme.error_style()));
        }
        if self.notes.len() == 0 {
            return JournalList::Message(
                Line::of("no notes — press c to compose", theme.muted_style()),
            );
        }
        let mut rows: Vec<Vec<Line>> = Vec::new();
        let mut i: usize = 0;
        assert(draw::block_views(rows@) =~= note_rows(self@.notes, 0, now, *theme));
        while i < self.notes.len()
            invariant
                i <= self.notes@.len(),
                draw::block_views(rows@) == note_rows(
                    self@.notes,
                    i as int,
                    now,
                    *theme,
                ),
            decreases self.notes@.len() - i,
        {
            push_block(&mut rows, note_item(&self.notes[i], now, theme));
            i = i + 1;
            assert(draw::block_views(rows@) =~= note_rows(
                self@.notes,
                i as int,
                now,
                *theme,
            ));
        }
        JournalList::Rows { rows, selected: within_len(self.selected, self.notes.len()) }
    }

    fn render_current_detail(&self, width: u16, theme: &Theme, cfg: &Config) -> (d: JournalDetail)
        requires
            self.mode == DetailMode::Current,
        ensures
            self@.detailed_by(d, width, *theme, *cfg),
    {
        if self.selected >= self.notes.len() {
            return JournalDetail::Blank;
        }
        let n = &self.notes[self.selected];
        let mut head = "note ".to_owned();
        head.append(n.note_id.as_str());
        head.append(" · revision ");
        head.append(decimal_text(n.revision_number as u64).as_str());
        head.append(" · ");
        head.append(full_text(n.created_at).as_str());
        let mut lines: Vec<Line> = Vec::new();
        push_line(&mut lines, Line::single(head, theme.muted_style()));
        if n.topics.len() > 0 {
            let mut s = "topics: ".to_owned();
            s.append(topic_text(&n.topics).as_str());
            push_line(&mut lines, Line::single(s, theme.muted_style()));
        }
        push_line(&mut lines, Line::empty());
        let mut body = render_markdown(n.content.as_str(), theme);
        append_lines(&mut lines, &mut body);
        assert(draw::line_views(lines@) =~= current_lines(*n, *theme));
        JournalDetail::Note(render_linked_paragraph(lines, width, 0, cfg.hyperlinks))
    }

    fn render_revisions_detail(&self, width: u16, theme: &Theme, cfg: &Config) -> (d:
        JournalDetail)
        requires
            self.mode == DetailMode::Revisions,
        ensures
            self@.detailed_by(d, width, *theme, *cfg),
    {
        if self.loading_revisions {
            return JournalDetail::Message(Line::of("loading revisions…", theme.accent_style()));
        }
        if self.revisions.len() == 0 {
            return JournalDetail::Message(Line::of("no revisions", theme.muted_style()));
        }
        let mut rows: Vec<Line> = Vec::new();
        let mut i: usize = 0;
        assert(draw::line_views(rows@) =~= revision_rows(self@.revisions, 0, *theme));
        while i < self.revisions.len()
            invariant
                i <= self.revisions@.len(),
                draw::line_views(rows@) == revision_rows(self@.revisions, i as int, *theme),
            decreases self.revisions@.len() - i,
        {
            let r = &self.revisions[i];
            let mut number = "r".to_owned();
            number.append(decimal_text(r.revision_number as u64).as_str());
            let mut when = " · ".to_owned();
            when.append(full_text(r.created_at).as_str());
            let mut spans: Vec<Span> = Vec::new();
            push_span(&mut spans, Span::new(number, theme.accent_style()));
            push_span(&mut spans, Span::new(when, theme.muted_style()));
            assert(draw::span_views(spans@) =~= revision_row(*r, *theme));
            push_line(&mut rows, Line::new(spans));
            i = i + 1;
            assert(draw::line_views(rows@) =~= revision_rows(self@.revisions, i as int, *theme));
        }
        let low: usize = self.revisions.len() % 65536;
        let height: u16 = if low < 8 {
            low as u16 + 1
        } else {
            9
        };
        let text = if self.revision_selected < self.revisions.len() {
            let rev = &self.revisions[self.revision_selected];
            let mut lines: Vec<Line> = Vec::new();
            if rev.topics.len() > 0 {
                let mut s = "topics: ".to_owned();
                s.append(topic_text(&rev.topics).as_str());
                push_line(&mut lines, Line::single(s, theme.muted_style()));
                push_line(&mut lines, Line::empty());
            }
            let mut body = render_markdown(rev.content.as_str(), theme);
            append_lines(&mut lines, &mut body);
            assert(draw::line_views(lines@) =~= revision_lines(*rev, *theme));
            Some(render_linked_paragraph(lines, width, 0, cfg.hyperlinks))
        } else {
            None
        };
        JournalDetail::Revisions {
            rows,
            selected: within_len(self.revision_selected, self.revisions.len()),
            height,
            text,
        }
    }

    fn status(&self) -> (r: String)
        ensures
            r@ == self@.status_text(),
    {
        if self.confirming_delete {
            return "really delete this note? y=yes, any other key=cancel".to_owned();
        }
        if self.mode == DetailMode::Revisions {
            let mut s = "viewing revisions (".to_owned();
            s.append(decimal_text(self.revisions.len() as u64).as_str());
            s.append(") · v or backspace to return");
            return s;
        }
        let mut s = decimal_text(self.notes.len() as u64);
        s.append(if self.next_cursor.is_some() {
            " notes · scroll down for more · c compose · e edit · d delete · v revisions · r refresh · esc menu"
        } else {
            " notes · end · c compose · e edit · d delete · v revisions · r refresh · esc menu"
        });
        s
    }

    /// What the screen shows at the moment `now`; `width` gives the columns of
    /// the detail panel.
    pub fn render(&self, now: Moment, width: u16, theme: &Theme, cfg: &Config) -> (f: JournalFrame)
        ensures
            f.title@ == draw::one(" cs-tui • journal "@, theme.accent_spec()),
            self@.listed_by(f.list, now, *theme),
            self@.detailed_by(f.detail, width, *theme, *cfg),
            f.status@ == draw::one(self@.status_text(), theme.muted_spec()),
    {
        let detail = match self.mode {
            DetailMode::Current => self.render_current_detail(width, theme, cfg),
            DetailMode::Revisions => self.render_revisions_detail(width, theme, cfg),
        };
        JournalFrame {
            title: Line::of(" cs-tui • journal ", theme.accent_style()),
            list: self.render_list(now, theme),
            detail,
            status: Line::single(self.status(), theme.muted_style()),
        }
    }
}

// ---------------------------------------------------------------------------
// Laws.
// ---------------------------------------------------------------------------

/// With confirmation on, nothing is deleted but by `y` after the question.
pub proof fn law_deleting_takes_a_confirmation(s: JournalView, key: KeyEvent)
    requires
        s.keyed(key, true).1 is DeleteSelected,
    ensures
        s.confirming_delete,
        key.code == KeyCode::Char('y') || key.code == KeyCode::Char('Y'),
{
}

/// A question is answered by the next key, whatever it is.
pub proof fn law_a_question_is_asked_once(s: JournalView, key: KeyEvent, confirm: bool)
    requires
        s.confirming_delete,
        !key.is_quit_spec(),
    ensures
        !s.keyed(key, confirm).0.confirming_delete,
{
}

/// Dropping a note leaves the others in order, and the selection on one of
/// them while there is one.
pub proof fn law_dropping_keeps_the_selection(s: JournalView, id: Seq<char>)
    requires
        0 <= s.selected,
        s.notes.len() > 0 ==> s.selected < s.notes.len(),
    ensures
        s.without(id).notes.len() > 0 ==> 0 <= s.without(id).selected < s.without(
            id,
        ).notes.len(),
        note_index(s.notes, id, 0) is None ==> s.without(id) == s,
{
    lemma_note_index(s.notes, id, 0);
}

/// No two days have one number: a moment falls on one day only.
pub proof fn law_a_moment_falls_on_one_day(secs: int, a: (int, int, int), b: (int, int, int))
    requires
        falls_on(secs, a),
        falls_on(secs, b),
    ensures
        a == b,
{
    lemma_day_of_its_year(a.0, a.1, a.2);
    lemma_day_of_its_year(b.0, b.1, b.2);
    if a.0 < b.0 {
        lemma_years_pass(a.0 + 1, b.0);
    } else if b.0 < a.0 {
        lemma_years_pass(b.0 + 1, a.0);
    }
}

proof fn lemma_day_of_its_year(year: int, month: int, day: int)
    requires
        1 <= month <= 12,
        1 <= day <= days_before_month(year, month + 1) - days_before_month(year, month),
    ensures
        day_number(year, 1, 1) <= day_number(year, month, day) < day_number(year + 1, 1, 1),
{
}

proof fn lemma_years_pass(from: int, to: int)
    requires
        from <= to,
    ensures
        day_number(from, 1, 1) <= day_number(to, 1, 1),
    decreases to - from,
{
    if from < to {
        lemma_years_pass(from, to - 1);
    }
}

/// Whatever key asks for it, the note that is deleted, edited or whose revisions
/// are shown is the selected one.
pub proof fn law_only_the_selected_note_is_acted_on(s: JournalView, key: KeyEvent, confirm: bool)
    ensures
        s.keyed(key, confirm).1 matches JournalIntentView::DeleteSelected { note_id } ==> 0
            <= s.selected < s.notes.len() && note_id == s.notes[s.selected].note_id@,
        s.keyed(key, confirm).1 matches JournalIntentView::ShowRevisions { note_id } ==> 0
            <= s.selected < s.notes.len() && note_id == s.notes[s.selected].note_id@,
        s.keyed(key, confirm).1 matches JournalIntentView::EditSelected {
            note_id,
            content,
            topics,
        } ==> 0 <= s.selected < s.notes.len() && note_id == s.notes[s.selected].note_id@ && content
            == s.notes[s.selected].content@ && topics == s.notes[s.selected].topics@,
{
}

/// A delete that is to be confirmed is first asked about, and then made of the
/// note that was selected all along; one that need not be is made at once.
pub proof fn law_a_confirmed_delete_is_made(s: JournalView, key: KeyEvent, yes: KeyEvent)
    requires
        s.mode == DetailMode::Current,
        !s.confirming_delete,
        0 <= s.selected < s.notes.len(),
        key.code == KeyCode::Char('d') || key.code == KeyCode::Delete,
        yes.code == KeyCode::Char('y') || yes.code == KeyCode::Char('Y'),
    ensures
        ({
            let asked = s.keyed(key, true);
            let id = s.notes[s.selected].note_id@;
            &&& asked == (
                JournalView { confirming_delete: true, ..s },
                JournalIntentView::Nothing,
            )
            &&& asked.0.keyed(yes, true) == (
                s,
                JournalIntentView::DeleteSelected { note_id: id },
            )
            &&& s.keyed(key, false) == (s, JournalIntentView::DeleteSelected { note_id: id })
        }),
{
}

/// The keys on the notes do what they say: compose, edit, show the revisions, and
/// load everything anew.
pub proof fn law_note_keys_do_what_they_say(s: JournalView, key: KeyEvent, confirm: bool)
    requires
        s.mode == DetailMode::Current,
        !s.confirming_delete,
        !key.control,
    ensures
        key.code == KeyCode::Char('c') ==> s.keyed(key, confirm) == (
            s,
            JournalIntentView::Compose,
        ),
        key.code == KeyCode::Char('e') && 0 <= s.selected < s.notes.len() ==> s.keyed(key, confirm)
            == (
            s,
            JournalIntentView::EditSelected {
                note_id: s.notes[s.selected].note_id@,
                content: s.notes[s.selected].content@,
                topics: s.notes[s.selected].topics@,
            },
        ),
        key.code == KeyCode::Char('v') && 0 <= s.selected < s.notes.len() ==> s.keyed(key, confirm)
            == (
            s,
            JournalIntentView::ShowRevisions { note_id: s.notes[s.selected].note_id@ },
        ),
        key.code == KeyCode::Char('r') ==> ({
            let r = s.keyed(key, confirm);
            &&& r.1 == JournalIntentView::Refresh
            &&& r.0.notes.len() == 0 && r.0.selected == 0 && r.0.loading && r.0.error is None
                && r.0.next_cursor is None
        }),
{
}

/// Moving over the notes goes to the neighbor, keeps the notes, and asks for more
/// at the end where there is more.
pub proof fn law_moving_over_the_notes(s: JournalView, key: KeyEvent, confirm: bool)
    requires
        s.mode == DetailMode::Current,
        !s.confirming_delete,
        0 <= s.selected < s.notes.len(),
    ensures
        ({
            let r = s.keyed(key, confirm);
            let down = key.code == KeyCode::Down || key.code == KeyCode::Char('j');
            let up = key.code == KeyCode::Up || key.code == KeyCode::Char('k');
            &&& down && s.selected + 1 < s.notes.len() ==> r == (
                JournalView { selected: s.selected + 1, ..s },
                JournalIntentView::Nothing,
            )
            &&& down && s.selected + 1 == s.notes.len() && s.next_cursor is Some ==> r == (
                JournalView { loading: true, ..s },
                JournalIntentView::LoadMore,
            )
            &&& up && s.selected > 0 ==> r == (
                JournalView { selected: s.selected - 1, ..s },
                JournalIntentView::Nothing,
            )
            &&& r.1 is LoadMore ==> s.next_cursor is Some && r.0.loading
            &&& r.1 !is Refresh ==> r.0.notes == s.notes && 0 <= r.0.selected < s.notes.len()
        }),
{
}

/// Among the revisions a step goes to the neighbor and stays inside, and the way
/// back is asked for; the notes are left alone.
pub proof fn law_moving_over_the_revisions(s: JournalView, key: KeyEvent, confirm: bool)
    requires
        s.mode == DetailMode::Revisions,
        !s.confirming_delete,
        !key.control,
        0 <= s.revision_selected,
    ensures
        ({
            let r = s.keyed(key, confirm);
            let down = key.code == KeyCode::Down || key.code == KeyCode::Char('j');
            let up = key.code == KeyCode::Up || key.code == KeyCode::Char('k');
            &&& down && s.revision_selected + 1 < s.revisions.len() ==> r == (
                JournalView { revision_selected: s.revision_selected + 1, ..s },
                JournalIntentView::Nothing,
            )
            &&& down && s.revision_selected + 1 >= s.revisions.len() ==> r == (
                s,
                JournalIntentView::Nothing,
            )
            &&& up && s.revision_selected > 0 ==> r == (
                JournalView { revision_selected: s.revision_selected - 1, ..s },
                JournalIntentView::Nothing,
            )
            &&& (key.code == KeyCode::Char('v') || key.code == KeyCode::Backspace) ==> r == (
                s,
                JournalIntentView::HideRevisions,
            )
            &&& r.0.notes == s.notes && r.0.selected == s.selected
        }),
{
}

/// A first page replaces the notes, a further one goes behind them, and one that
/// failed changes neither and is told.
pub proof fn law_pages_bring_their_notes(
    s: JournalView,
    notes: Vec<Note>,
    cursor: Option<String>,
    msg: String,
)
    ensures
        ({
            let first = s.after_initial(Ok((notes, cursor)));
            let more = s.after_more(Ok((notes, cursor)));
            let failed = s.after_initial(Err(msg));
            let stuck = s.after_more(Err(msg));
            &&& first.notes == notes@
            &&& first.next_cursor == strs::opt_text(cursor)
            &&& first.error is None && !first.loading
            &&& first.selected == (if s.selected < notes@.len() {
                s.selected
            } else {
                0
            })
            &&& more.notes == s.notes + notes@
            &&& more.next_cursor == strs::opt_text(cursor)
            &&& more.error is None && !more.loading
            &&& more.selected == s.selected
            &&& failed == (JournalView { loading: false, error: Some(msg@), ..s })
            &&& stuck == failed
        }),
{
}

/// Revisions that arrive are shown from the first on, as those of their note; a
/// failure leaves what is shown and is told.
pub proof fn law_revisions_are_shown_when_they_arrive(
    s: JournalView,
    id: Seq<char>,
    revs: Vec<NoteRevision>,
    msg: String,
)
    ensures
        ({
            let r = s.with_revisions(id, Ok(revs));
            &&& r.mode == DetailMode::Revisions
            &&& r.revisions == revs@
            &&& r.revisions_for == Some(id)
            &&& r.revision_selected == 0
            &&& !r.loading_revisions
            &&& r.notes == s.notes && r.selected == s.selected
        }),
        s.with_revisions(id, Err(msg)) == (JournalView {
            loading_revisions: false,
            error: Some(msg@),
            ..s
        }),
{
}

proof fn lemma_note_index(notes: Seq<Note>, id: Seq<char>, i: int)
    requires
        0 <= i,
    ensures
        match note_index(notes, id, i) {
            Some(k) => i <= k < notes.len() && notes[k].note_id@ == id && forall|j: int|
                i <= j < k ==> (#[trigger] notes[j]).note_id@ != id,
            None => forall|j: int| i <= j < notes.len() ==> (#[trigger] notes[j]).note_id@ != id,
        },
    decreases notes.len() - i,
{
    if i < notes.len() && notes[i].note_id@ != id {
        lemma_note_index(notes, id, i + 1);
    }
}

/// What is dropped is a note of that id, and only one; where ids are distinct,
/// none of that id is left.
pub proof fn law_the_named_note_is_dropped(s: JournalView, id: Seq<char>, at: int)
    requires
        0 <= at < s.notes.len(),
        s.notes[at].note_id@ == id,
        forall|j: int| 0 <= j < s.notes.len() && j != at ==> (#[trigger] s.notes[j]).note_id@ != id,
    ensures
        s.without(id).notes == s.notes.remove(at),
        forall|j: int|
            0 <= j < s.without(id).notes.len() ==> (
            #[trigger] s.without(id).notes[j]).note_id@ != id,
{
    lemma_note_index(s.notes, id, 0);
    assert(s.notes[at].note_id@ == id);
}

/// An unknown id drops nothing.
pub proof fn law_an_unknown_note_drops_nothing(s: JournalView, id: Seq<char>)
    requires
        forall|j: int| 0 <= j < s.notes.len() ==> (#[trigger] s.notes[j]).note_id@ != id,
    ensures
        s.without(id) == s,
{
    lemma_note_index(s.notes, id, 0);
}

proof fn lemma_zeros(n: nat, d: Seq<char>)
    ensures
        strs::repeated("0"@, n).len() == n,
        strs::number_of(strs::repeated("0"@, n) + d) == strs::number_of(d),
        forall|k: int| 0 <= k < n ==> #[trigger] strs::repeated("0"@, n)[k] == '0',
    decreases n, d.len(),
{
    reveal_strlit("0");
    let z = strs::repeated("0"@, n);
    if d.len() > 0 {
        lemma_zeros(n, d.drop_last());
        assert((z + d).drop_last() =~= z + d.drop_last());
    } else if n > 0 {
        lemma_zeros((n - 1) as nat, d);
        let less = strs::repeated("0"@, (n - 1) as nat);
        assert(z + d =~= z);
        assert(less + d =~= less);
        assert(z.drop_last() =~= less);
        assert(z.last() == '0');
        assert forall|k: int| 0 <= k < n implies #[trigger] z[k] == '0' by {
            if k < n - 1 {
                assert(z[k] == less[k]);
            }
        }
    } else {
        assert(z + d =~= d);
    }
}

/// Filling up with zeros changes no number, and reaches the width.
pub proof fn law_zeros_change_no_number(n: nat, width: int)
    ensures
        strs::number_of(zero_filled(n, width)) == n,
        zero_filled(n, width).len() >= width,
        width <= strs::decimal(n).len() ==> zero_filled(n, width) == strs::decimal(n),
        width > strs::decimal(n).len() ==> zero_filled(n, width).len() == width,
{
    strs::law_decimal_is_read_back(n);
    let d = strs::decimal(n);
    if d.len() < width {
        lemma_zeros((width - d.len()) as nat, d);
    }
}

proof fn lemma_digits(n: nat)
    ensures
        n < 10 ==> strs::decimal(n).len() == 1,
        n < 100 ==> strs::decimal(n).len() <= 2,
        n < 1000 ==> strs::decimal(n).len() <= 3,
        n < 10000 ==> strs::decimal(n).len() <= 4,
{
    reveal_with_fuel(strs::decimal, 5);
}

/// How long ago a moment was is told in whole units, rounded down, in the largest
/// unit of seconds, minutes, hours and days of which there is one.
pub proof fn law_ages_are_told_in_whole_units(
    t: Moment,
    now: Moment,
    date: Option<(int, int, int)>,
)
    requires
        0 <= now.instant() - t.instant() < 30 * 86400 * 1_000_000_000,
    ensures
        ({
            let text = relative(t, now, date);
            let n = text.len() - 5;
            let count = strs::number_of(text.take(n));
            let unit: int = if text[n] == 's' {
                1
            } else if text[n] == 'm' {
                60
            } else if text[n] == 'h' {
                3600
            } else {
                86400
            };
            let nanos = now.instant() - t.instant();
            &&& n > 0
            &&& text[n] == 's' || text[n] == 'm' || text[n] == 'h' || text[n] == 'd'
            &&& text.skip(n + 1) == seq![' ', 'a', 'g', 'o']
            &&& count * unit * 1_000_000_000 <= nanos < (count + 1) * unit * 1_000_000_000
            &&& text[n] != 's' ==> count >= 1
            &&& text[n] == 's' || text[n] == 'm' ==> count < 60
            &&& text[n] == 'h' ==> count < 24
        }),
{
    reveal_strlit("s ago");
    reveal_strlit("m ago");
    reveal_strlit("h ago");
    reveal_strlit("d ago");
    let secs = now.since(t);
    let nanos = now.instant() - t.instant();
    assert(secs * 1_000_000_000 <= nanos < (secs + 1) * 1_000_000_000);
    let text = relative(t, now, date);
    let count = if secs < 60 {
        secs
    } else if secs < 3600 {
        secs / 60
    } else if secs < 86400 {
        secs / 3600
    } else {
        secs / 86400
    };
    law_zeros_change_no_number(count as nat, 1);
    strs::law_decimal_is_read_back(count as nat);
    let d = zero_filled(count as nat, 1);
    let n = text.len() - 5;
    assert(text.take(n) =~= d);
    assert(text.skip(n + 1) =~= seq![' ', 'a', 'g', 'o']);
}

/// A moment told in full can be read back: the date and the time of day are where
/// they are expected, and have as many digits.
pub proof fn law_full_moments_are_read_back(t: Moment, date: (int, int, int))
    requires
        0 <= date.0 <= 9999,
        1 <= date.1 <= 12,
        1 <= date.2 <= 31,
    ensures
        ({
            let text = full(t, Some(date));
            &&& text.len() == 16
            &&& text[4] == '-' && text[7] == '-' && text[10] == ' ' && text[13] == ':'
            &&& strs::number_of(text.subrange(0, 4)) == date.0
            &&& strs::number_of(text.subrange(5, 7)) == date.1
            &&& strs::number_of(text.subrange(8, 10)) == date.2
            &&& 3600 * strs::number_of(text.subrange(11, 13)) + 60 * strs::number_of(
                text.subrange(14, 16),
            ) <= t.local() % 86400 < 3600 * strs::number_of(text.subrange(11, 13)) + 60
                * strs::number_of(text.subrange(14, 16)) + 60
        }),
        full(t, None) == Seq::<char>::empty(),
{
    reveal_strlit("-");
    reveal_strlit(" ");
    reveal_strlit(":");
    let hour = (t.local() % 86400) / 3600;
    let minute = (t.local() % 3600) / 60;
    lemma_digits(date.0 as nat);
    lemma_digits(date.1 as nat);
    lemma_digits(date.2 as nat);
    lemma_digits(hour as nat);
    lemma_digits(minute as nat);
    law_zeros_change_no_number(date.0 as nat, 4);
    law_zeros_change_no_number(date.1 as nat, 2);
    law_zeros_change_no_number(date.2 as nat, 2);
    law_zeros_change_no_number(hour as nat, 2);
    law_zeros_change_no_number(minute as nat, 2);
    let text = full(t, Some(date));
    assert(text.subrange(0, 4) =~= zero_filled(date.0 as nat, 4));
    assert(text.subrange(5, 7) =~= zero_filled(date.1 as nat, 2));
    assert(text.subrange(8, 10) =~= zero_filled(date.2 as nat, 2));
    assert(text.subrange(11, 13) =~= zero_filled(hour as nat, 2));
    assert(text.subrange(14, 16) =~= zero_filled(minute as nat, 2));
    assert((t.local() % 86400) % 3600 == t.local() % 3600);
}

/// A first line that fits is shown whole, and one that does not as its beginning
/// and an ellipsis, `max` characters in all.
pub proof fn law_previews_begin_the_note(s: Seq<char>, max: int)
    requires
        max > 0,
    ensures
        ({
            let first = strs::trimmed(text::first_line(s));
            &&& first.len() <= max ==> shortened(s, max) == first
            &&& first.len() > max ==> shortened(s, max).len() == max && shortened(s, max).last()
                == '…' && shortened(s, max).drop_last() == first.take(max - 1)
        }),
{
    reveal_strlit("…");
    let first = strs::trimmed(text::first_line(s));
    if first.len() > max {
        assert(shortened(s, max).drop_last() =~= first.take(max - 1));
    }
}

/// The list has a block for each note, in order, which says the note's revision,
/// its age and its first line; and the panel beside it the selected note's id
/// and text.
pub proof fn law_notes_are_listed_and_shown(
    s: JournalView,
    list: JournalList,
    detail: JournalDetail,
    width: u16,
    now: Moment,
    theme: Theme,
    cfg: Config,
    i: int,
)
    requires
        s.listed_by(list, now, theme),
        s.detailed_by(detail, width, theme, cfg),
        s.error is None,
        0 <= i < s.notes.len(),
        0 <= s.selected < s.notes.len(),
    ensures
        ({
            &&& list matches JournalList::Rows { rows, selected }
            &&& selected == s.selected
            &&& rows@.len() == s.notes.len()
            &&& draw::line_views(rows@[i]@).len() == 3
            &&& draw::line_views(rows@[i]@)[1][0].content == shortened(s.notes[i].content@, 60)
            &&& draw::line_views(rows@[i]@)[0][0].content == seq!['[', 'r'] + strs::decimal(
                s.notes[i].revision_number as nat,
            ) + seq![']']
            &&& s.notes[i].created_at matches Some(t) ==> ({
                let meta = draw::line_views(rows@[i]@)[0][1].content;
                let age = relative(t, now, date_of(t));
                meta.len() > age.len() && meta.subrange(1, 1 + age.len() as int) == age
            })
        }),
        s.mode == DetailMode::Current ==> ({
            &&& detail matches JournalDetail::Note(p)
            &&& strs::occurs_at(
                draw::line_text(draw::line_views(p.lines@)[0]),
                s.notes[s.selected].note_id@,
                5,
            )
            &&& ({
                let all = draw::line_views(p.lines@);
                let body = rendered(s.notes[s.selected].content@, theme);
                all.len() >= body.len() && all.skip(all.len() - body.len()) == body
            })
        }),
{
    reveal_strlit("[r");
    reveal_strlit("]");
    reveal_strlit(" ");
    reveal_strlit("note ");
    assert("[r"@ =~= seq!['[', 'r']);
    assert("]"@ =~= seq![']']);
    match list {
        JournalList::Rows { rows, selected } => {
            assert(draw::block_views(rows@).len() == rows@.len());
            assert(draw::block_views(rows@)[i] == note_lines(s.notes[i], now, theme));
            if let Some(t) = s.notes[i].created_at {
                let meta = draw::line_views(rows@[i]@)[0][1].content;
                let age = relative(t, now, date_of(t));
                assert(meta.subrange(1, 1 + age.len() as int) =~= age);
            }
        },
        _ => {},
    }
    if s.mode == DetailMode::Current {
        match detail {
            JournalDetail::Note(p) => {
                let n = s.notes[s.selected];
                let all = draw::line_views(p.lines@);
                let body = rendered(n.content@, theme);
                assert(all == current_lines(n, theme));
                assert(all.skip(all.len() - body.len()) =~= body);
                reveal_with_fuel(draw::line_text, 2);
                assert(all[0].drop_last() =~= Seq::empty());
                let head = all[0].last().content;
                assert(draw::line_text(all[0]) =~= head);
                assert(head.subrange(5, 5 + n.note_id@.len() as int) =~= n.note_id@);
            },
            _ => {},
        }
    }
}

/// Among the revisions, the text that is shown is that of the selected one.
pub proof fn law_the_selected_revision_is_shown(
    s: JournalView,
    detail: JournalDetail,
    width: u16,
    theme: Theme,
    cfg: Config,
    i: int,
)
    requires
        s.detailed_by(detail, width, theme, cfg),
        s.mode == DetailMode::Revisions,
        !s.loading_revisions,
        0 <= i < s.revisions.len(),
        0 <= s.revision_selected < s.revisions.len(),
    ensures
        ({
            &&& detail matches JournalDetail::Revisions { rows, selected, height, text }
            &&& selected == s.revision_selected
            &&& rows@.len() == s.revisions.len()
            &&& rows@[i]@[0].content == seq!['r'] + strs::decimal(
                s.revisions[i].revision_number as nat,
            )
            &&& text matches Some(p)
            &&& ({
                let all = draw::line_views(p.lines@);
                let body = rendered(s.revisions[s.revision_selected].content@, theme);
                all.len() >= body.len() && all.skip(all.len() - body.len()) == body
            })
        }),
{
    reveal_strlit("r");
    assert("r"@ =~= seq!['r']);
    match detail {
        JournalDetail::Revisions { rows, selected, height, text } => {
            assert(draw::line_views(rows@).len() == rows@.len());
            assert(draw::line_views(rows@)[i] == revision_row(s.revisions[i], theme));
            if let Some(p) = text {
                let all = draw::line_views(p.lines@);
                let body = rendered(s.revisions[s.revision_selected].content@, theme);
                assert(all.skip(all.len() - body.len()) =~= body);
            }
        },
        _ => {},
    }
}

/// The journal starts empty and loading, with nothing to confirm.
pub proof fn law_the_journal_starts_loading()
    ensures
        JournalView::started().notes.len() == 0,
        JournalView::started().loading,
        JournalView::started().mode is Current,
        !JournalView::started().confirming_delete,
        !JournalView::started().loading_revisions,
        JournalView::started().error is None,
        JournalView::started().next_cursor is None,
        JournalView::started().revisions_for is None,
{
}

/// A delete that waits for its answer is asked about before anything else is said, then
/// come the revisions, and the notes are counted.
pub proof fn law_the_status_asks_first(s: JournalView)
    ensures
        s.confirming_delete ==> s.status_text()
            == "really delete this note? y=yes, any other key=cancel"@,
        !s.confirming_delete && s.mode is Revisions ==> s.status_text() == "viewing revisions ("@
            + strs::decimal(s.revisions.len()) + ") · v or backspace to return"@,
        !s.confirming_delete && !(s.mode is Revisions) ==> s.status_text().take(
            strs::decimal(s.notes.len()).len() as int,
        ) == strs::decimal(s.notes.len()),
{
    if !s.confirming_delete && !(s.mode is Revisions) {
        let d = strs::decimal(s.notes.len());
        assert(s.status_text().take(d.len() as int) =~= d);
    }
}

/// A place is kept within a list: it stays where the list reaches it, and is the last one
/// where it does not.
pub proof fn law_places_are_kept_within(i: int, n: int)
    requires
        0 <= i,
        0 <= n,
    ensures
        i < n ==> within(i, n) == i,
        0 < n <= i ==> within(i, n) == n - 1,
        n == 0 ==> within(i, n) == 0,
{
}

/// Days are counted from the first of January 1970: each day is one more than the one
/// before it, over the ends of months and years too, February having a day more in a
/// leap year.
pub proof fn law_days_follow_one_another(year: int, month: int, day: int)
    requires
        1 <= month <= 12,
    ensures
        day_number(1970, 1, 1) == 0,
        day_number(year, month, day + 1) == day_number(year, month, day) + 1,
        month == 4 || month == 6 || month == 9 || month == 11 ==> day_number(year, month, 30) + 1
            == day_number(year, month + 1, 1),
        month == 1 || month == 3 || month == 5 || month == 7 || month == 8 || month == 10
            ==> day_number(year, month, 31) + 1 == day_number(year, month + 1, 1),
        leap(year) ==> day_number(year, 2, 29) + 1 == day_number(year, 3, 1),
        !leap(year) ==> day_number(year, 2, 28) + 1 == day_number(year, 3, 1),
        day_number(year, 12, 31) + 1 == day_number(year + 1, 1, 1),
        year % 4 != 0 ==> !leap(year),
        year % 400 == 0 ==> leap(year),
        year % 100 == 0 && year % 400 != 0 ==> !leap(year),
        year % 4 == 0 && year % 100 != 0 ==> leap(year),
{
}

/// The row of a note names its topics where it has any, and the revision that is shown
/// is headed by its own.
pub proof fn law_topics_are_named(n: Note, r: NoteRevision, now: Moment, theme: Theme)
    ensures
        ({
            let age: Seq<char> = match n.created_at {
                Some(t) => relative(t, now, date_of(t)),
                None => Seq::empty(),
            };
            let meta = note_lines(n, now, theme)[0][1].content;
            &&& n.topics@.len() > 0 ==> meta == " "@ + age + ("  "@ + topic_list(n.topics@))
            &&& n.topics@.len() == 0 ==> meta == " "@ + age
        }),
        r.topics@.len() > 0 ==> revision_lines(r, theme)[0] == topics_line(r.topics@, theme)
            && revision_lines(r, theme).skip(2) == rendered(r.content@, theme),
        r.topics@.len() == 0 ==> revision_lines(r, theme) == rendered(r.content@, theme),
{
    let age: Seq<char> = match n.created_at {
        Some(t) => relative(t, now, date_of(t)),
        None => Seq::empty(),
    };
    assert(" "@ + age + Seq::<char>::empty() =~= " "@ + age);
    let body = rendered(r.content@, theme);
    if r.topics@.len() > 0 {
        assert(revision_lines(r, theme).skip(2) =~= body);
    } else {
        assert(Seq::<Seq<draw::SpanView>>::empty() + body =~= body);
    }
}

} // verus!
