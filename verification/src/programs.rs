//! Programs: the terminal program registry.
//!
//! The screen browses the gallery, reads a release's source, and manages one's
//! own programs. It has sub-modes (a source view, a publish form, a save prompt
//! and a confirmation), so it decides what Esc means before the shell does.
use vstd::prelude::*;

use crate::base64;
use crate::config::Config;
use crate::draw::{self, push_block, push_line, push_span, Line, Span};
use crate::input::{self, collapse_newlines, windowed_line};
use crate::key::{KeyCode, KeyEvent};
use crate::list::{self, ListBody, Page, TabState, TabView};
use crate::list_nav::{self, ListNav};
use crate::strs::{
    self, bytes_of, chars_of, clone_opt, decimal_text, is_ascii_alphanumeric_char, same,
    text_of_bytes, trim,
};
use crate::text;
use crate::theme::{Style, Theme};

verus! {

/// How many pages the screen pulls on its own while the listing stays empty.
pub const MAX_AUTO_PAGES: u8 = 4;

/// The longest name of a program, in characters.
pub const MAX_PROGRAM_NAME_LEN: usize = 32;

/// The longest description of a program, in characters.
pub const MAX_PROGRAM_DESCRIPTION_LEN: usize = 256;

/// The machine a program runs on.
#[derive(Debug, Clone, Copy, PartialEq, Eq, Structural, Default)]
pub enum Runtime {
    #[default]
    Web,
    Term,
    Wasm,
    /// A machine this client has never heard of.
    Unknown,
}

impl Runtime {
    /// Whether a program's source is a binary rather than text.
    pub fn is_binary(self) -> (r: bool)
        ensures
            r == (self == Runtime::Wasm),
    {
        self == Runtime::Wasm
    }
}

/// A program as the registry lists it.
#[derive(Debug, Clone, PartialEq, Eq, Default)]
pub struct Program {
    pub id: String,
    pub name: String,
    pub owner_username: String,
    pub description: String,
    pub runtime: Runtime,
    pub release: u32,
    /// Whether it is in the gallery; only one's own listing says.
    pub is_published: Option<bool>,
    /// Whether a moderator took it down; only one's own listing says.
    pub taken_down: Option<bool>,
}

impl Program {
    pub fn copy(&self) -> (r: Program)
        ensures
            r == *self,
    {
        Program {
            id: self.id.clone(),
            name: self.name.clone(),
            owner_username: self.owner_username.clone(),
            description: self.description.clone(),
            runtime: self.runtime,
            release: self.release,
            is_published: self.is_published,
            taken_down: self.taken_down,
        }
    }

    /// Whether it is known to be out of the gallery.
    pub fn is_draft(&self) -> (r: bool)
        ensures
            r == (self.is_published == Some(false)),
    {
        match self.is_published {
            Some(b) => !b,
            None => false,
        }
    }

    /// Whether it is known to be taken down.
    pub fn is_taken_down(&self) -> (r: bool)
        ensures
            r == (self.taken_down == Some(true)),
    {
        match self.taken_down {
            Some(b) => b,
            None => false,
        }
    }
}

/// Why a source cannot be had as bytes.
#[derive(Debug, Clone, Copy, PartialEq, Eq, Structural)]
pub enum SourceError {
    /// It claims to be base64 and is not.
    NotBase64,
}

impl SourceError {
    pub open spec fn message_text() -> Seq<char> {
        "this program's source is not valid base64"@
    }

    /// What to tell the reader.
    pub fn user_message(self) -> (r: String)
        ensures
            r@ == SourceError::message_text(),
    {
        "this program's source is not valid base64".to_owned()
    }
}

/// One release of a program's source, as it came over the wire.
#[derive(Debug, Clone, PartialEq, Eq, Default)]
pub struct ProgramSource {
    pub id: String,
    pub name: String,
    pub runtime: Runtime,
    pub release: u32,
    /// `base64`, or else the source is plain text.
    pub encoding: String,
    pub source: String,
}

impl ProgramSource {
    /// The bytes of the source, where it can be decoded.
    pub open spec fn payload(self) -> Option<Seq<u8>> {
        if self.encoding@ == "base64"@ {
            base64::decoded(self.source@)
        } else {
            Some(vstd::utf8::encode_utf8(self.source@))
        }
    }

    /// The source as text, where it is text.
    pub open spec fn readable(self) -> Option<Seq<char>> {
        if self.runtime == Runtime::Wasm {
            None
        } else {
            match self.payload() {
                Some(b) => if vstd::utf8::valid_utf8(b) {
                    Some(vstd::utf8::decode_utf8(b))
                } else {
                    None
                },
                None => None,
            }
        }
    }

    /// The decoded bytes of the source.
    pub fn bytes(&self) -> (r: Result<Vec<u8>, SourceError>)
        ensures
            match r {
                Ok(b) => self.payload() == Some(b@),
                Err(e) => self.payload() is None && e == SourceError::NotBase64,
            },
    {
        if same(self.encoding.as_str(), "base64") {
            let r = base64::decode(self.source.as_str());
            proof {
                base64::law_only_encodings_are_decoded(self.source@);
            }
            match r {
                Some(b) => {
                    proof {
                        base64::law_decoding_undoes_encoding(b@);
                    }
                    Ok(b)
                },
                None => Err(SourceError::NotBase64),
            }
        } else {
            Ok(bytes_of(self.source.as_str()))
        }
    }

    /// The source as text, if it is text.
    pub fn text(&self) -> (r: Option<String>)
        ensures
            strs::opt_text(r) == self.readable(),
    {
        if self.runtime.is_binary() {
            return None;
        }
        match self.bytes() {
            Ok(b) => text_of_bytes(b),
            Err(_) => None,
        }
    }
}

/// What to list.
#[derive(Debug, Clone, PartialEq, Eq, Default)]
pub struct ProgramQuery {
    /// Only one's own programs, drafts and recalled ones with them.
    pub mine: bool,
    /// Only programs of these kinds; none means every kind.
    pub runtimes: Vec<Runtime>,
}

/// What a [`ProgramQuery`] asks for.
#[verifier::ext_equal]
pub struct QueryView {
    pub mine: bool,
    pub runtimes: Seq<Runtime>,
}

impl View for ProgramQuery {
    type V = QueryView;

    open spec fn view(&self) -> QueryView {
        QueryView { mine: self.mine, runtimes: self.runtimes@ }
    }
}

/// Which listing the gallery is showing.
#[derive(Debug, Clone, Copy, PartialEq, Eq, Structural)]
pub enum Scope {
    /// Every published program.
    Gallery,
    /// One's own.
    Mine,
}

impl Scope {
    pub open spec fn label_spec(self) -> Seq<char> {
        match self {
            Scope::Gallery => "gallery"@,
            Scope::Mine => "mine"@,
        }
    }

    pub fn label(self) -> (r: &'static str)
        ensures
            r@ == self.label_spec(),
    {
        match self {
            Scope::Gallery => "gallery",
            Scope::Mine => "mine",
        }
    }

    pub open spec fn other(self) -> Scope {
        match self {
            Scope::Gallery => Scope::Mine,
            Scope::Mine => Scope::Gallery,
        }
    }

    /// The other listing.
    pub fn toggled(self) -> (r: Scope)
        ensures
            r == self.other(),
    {
        match self {
            Scope::Gallery => Scope::Mine,
            Scope::Mine => Scope::Gallery,
        }
    }
}

/// The runtime filter at a place of the cycle; none asks for every kind.
pub open spec fn filter_at(i: int) -> Option<Runtime> {
    if i == 1 {
        Some(Runtime::Web)
    } else if i == 2 {
        Some(Runtime::Term)
    } else if i == 3 {
        Some(Runtime::Wasm)
    } else {
        None
    }
}

fn filter_of(i: usize) -> (r: Option<Runtime>)
    ensures
        r == filter_at(i as int),
{
    if i == 1 {
        Some(Runtime::Web)
    } else if i == 2 {
        Some(Runtime::Term)
    } else if i == 3 {
        Some(Runtime::Wasm)
    } else {
        None
    }
}

pub open spec fn runtime_text(runtime: Option<Runtime>) -> Seq<char> {
    match runtime {
        None => "all"@,
        Some(Runtime::Web) => "web"@,
        Some(Runtime::Term) => "term"@,
        Some(Runtime::Wasm) => "wasm"@,
        Some(Runtime::Unknown) => "?"@,
    }
}

fn runtime_label(runtime: Option<Runtime>) -> (r: &'static str)
    ensures
        r@ == runtime_text(runtime),
{
    match runtime {
        None => "all",
        Some(Runtime::Web) => "web",
        Some(Runtime::Term) => "term",
        Some(Runtime::Wasm) => "wasm",
        Some(Runtime::Unknown) => "?",
    }
}

// ---------------------------------------------------------------------------
// The publish form.
// ---------------------------------------------------------------------------

/// A field of the publish form.
#[derive(Debug, Clone, Copy, PartialEq, Eq, Structural)]
pub enum PublishField {
    Name,
    Description,
    Runtime,
    SourcePath,
    Note,
}

impl PublishField {
    pub const ALL: [PublishField; 5] = [
        PublishField::Name,
        PublishField::Description,
        PublishField::Runtime,
        PublishField::SourcePath,
        PublishField::Note,
    ];

    pub open spec fn label_spec(self) -> Seq<char> {
        match self {
            PublishField::Name => "name (letters, digits, . _ - · max 32)"@,
            PublishField::Description => "description (required, max 256)"@,
            PublishField::Runtime => "runtime (space cycles · fixed at the first release)"@,
            PublishField::SourcePath => "source file"@,
            PublishField::Note => "release note (optional)"@,
        }
    }

    pub fn label(self) -> (r: &'static str)
        ensures
            r@ == self.label_spec(),
    {
        match self {
            PublishField::Name => "name (letters, digits, . _ - · max 32)",
            PublishField::Description => "description (required, max 256)",
            PublishField::Runtime => "runtime (space cycles · fixed at the first release)",
            PublishField::SourcePath => "source file",
            PublishField::Note => "release note (optional)",
        }
    }
}

/// The publish form. The source comes from a file.
#[derive(Debug, Default)]
pub struct PublishForm {
    pub name: String,
    pub description: String,
    pub runtime: Runtime,
    pub source_path: String,
    pub note: String,
    pub focused: usize,
    pub submitting: bool,
    pub error: Option<String>,
}

/// What a [`PublishForm`] holds.
#[verifier::ext_equal]
pub struct PublishView {
    pub name: Seq<char>,
    pub description: Seq<char>,
    pub runtime: Runtime,
    pub source_path: Seq<char>,
    pub note: Seq<char>,
    pub focused: int,
    pub submitting: bool,
    pub error: Option<Seq<char>>,
}

impl View for PublishForm {
    type V = PublishView;

    open spec fn view(&self) -> PublishView {
        PublishView {
            name: self.name@,
            description: self.description@,
            runtime: self.runtime,
            source_path: self.source_path@,
            note: self.note@,
            focused: self.focused as int,
            submitting: self.submitting,
            error: strs::opt_text(self.error),
        }
    }
}

/// Whether a character may stand in a program's name.
pub open spec fn name_char(c: char) -> bool {
    strs::ascii_alphanumeric(c) || c == '.' || c == '_' || c == '-'
}

/// Whether every character may stand in a program's name.
pub open spec fn name_chars(s: Seq<char>) -> bool {
    forall|i: int| 0 <= i < s.len() ==> name_char(#[trigger] s[i])
}

impl PublishView {
    pub open spec fn blank() -> PublishView {
        PublishView {
            name: Seq::empty(),
            description: Seq::empty(),
            runtime: Runtime::Web,
            source_path: Seq::empty(),
            note: Seq::empty(),
            focused: 0,
            submitting: false,
            error: None,
        }
    }

    pub open spec fn field(self) -> PublishField {
        PublishField::ALL@[if self.focused < 4 {
            self.focused
        } else {
            4
        }]
    }

    /// The text of a field.
    pub open spec fn value(self, field: PublishField) -> Seq<char> {
        match field {
            PublishField::Name => self.name,
            PublishField::Description => self.description,
            PublishField::Runtime => runtime_text(Some(self.runtime)),
            PublishField::SourcePath => self.source_path,
            PublishField::Note => self.note,
        }
    }

    /// The form with another text in the focused field; the runtime has none.
    pub open spec fn with_text(self, text: Seq<char>) -> PublishView {
        match self.field() {
            PublishField::Name => PublishView { name: text, ..self },
            PublishField::Description => PublishView { description: text, ..self },
            PublishField::Runtime => self,
            PublishField::SourcePath => PublishView { source_path: text, ..self },
            PublishField::Note => PublishView { note: text, ..self },
        }
    }

    pub open spec fn inserted(self, text: Seq<char>) -> PublishView {
        self.with_text(self.value(self.field()) + text)
    }

    pub open spec fn erased(self) -> PublishView {
        let t = self.value(self.field());
        if t.len() > 0 {
            self.with_text(t.drop_last())
        } else {
            self
        }
    }

    pub open spec fn next_runtime(self) -> Runtime {
        match self.runtime {
            Runtime::Web => Runtime::Term,
            Runtime::Term => Runtime::Wasm,
            Runtime::Wasm | Runtime::Unknown => Runtime::Web,
        }
    }

    /// The first thing wrong with the form, as far as it can be told before the
    /// file is read.
    pub open spec fn complaint(self) -> Option<Seq<char>> {
        let name = strs::trimmed(self.name);
        let description = strs::trimmed(self.description);
        if name.len() == 0 {
            Some("a program needs a name"@)
        } else if name.len() > MAX_PROGRAM_NAME_LEN {
            Some("name must be ≤32 characters"@)
        } else if !name_chars(name) {
            Some("name may hold only letters, digits, '.', '_' and '-'"@)
        } else if description.len() == 0 {
            Some("a program needs a description"@)
        } else if description.len() > MAX_PROGRAM_DESCRIPTION_LEN {
            Some("description must be ≤256 characters"@)
        } else if strs::trimmed(self.source_path).len() == 0 {
            Some("point the form at the file to publish"@)
        } else {
            None
        }
    }

    /// What a valid form sends: every field trimmed, and no note when it is
    /// blank.
    pub open spec fn sent(self) -> ProgramsIntentView {
        let note = strs::trimmed(self.note);
        ProgramsIntentView::Publish {
            name: strs::trimmed(self.name),
            description: strs::trimmed(self.description),
            runtime: self.runtime,
            note: if note.len() > 0 {
                Some(note)
            } else {
                None
            },
            source_path: strs::trimmed(self.source_path),
        }
    }

    /// The form and the intent after it was submitted.
    pub open spec fn submitted(self) -> (PublishView, ProgramsIntentView) {
        if self.submitting {
            (self, ProgramsIntentView::Nothing)
        } else {
            match self.complaint() {
                Some(msg) => (
                    PublishView { error: Some(msg), ..self },
                    ProgramsIntentView::Nothing,
                ),
                None => (
                    PublishView { submitting: true, error: None, ..self },
                    self.sent(),
                ),
            }
        }
    }

    /// The form and the intent after a key.
    pub open spec fn keyed(self, key: KeyEvent) -> (PublishView, ProgramsIntentView) {
        if key.control && key.code == KeyCode::Char('d') {
            self.submitted()
        } else if self.submitting {
            (self, ProgramsIntentView::Nothing)
        } else {
            match key.code {
                KeyCode::Tab => (
                    PublishView { focused: (self.focused + 1) % 5, ..self },
                    ProgramsIntentView::Nothing,
                ),
                KeyCode::BackTab => (
                    PublishView { focused: (self.focused + 4) % 5, ..self },
                    ProgramsIntentView::Nothing,
                ),
                KeyCode::Enter => self.submitted(),
                KeyCode::Backspace => (self.erased(), ProgramsIntentView::Nothing),
                KeyCode::Char(c) => if c == ' ' && self.field() == PublishField::Runtime {
                    (
                        PublishView { runtime: self.next_runtime(), ..self },
                        ProgramsIntentView::Nothing,
                    )
                } else if key.control {
                    (self, ProgramsIntentView::Nothing)
                } else {
                    (self.inserted(seq![c]), ProgramsIntentView::Nothing)
                },
                _ => (self, ProgramsIntentView::Nothing),
            }
        }
    }
}

impl PublishForm {
    fn blank() -> (r: PublishForm)
        ensures
            r@ == PublishView::blank(),
    {
        PublishForm {
            name: String::new(),
            description: String::new(),
            runtime: Runtime::Web,
            source_path: String::new(),
            note: String::new(),
            focused: 0,
            submitting: false,
            error: None,
        }
    }

    fn focused_field(&self) -> (r: PublishField)
        ensures
            r == self@.field(),
    {
        let at: usize = if self.focused < 4 {
            self.focused
        } else {
            4
        };
        PublishField::ALL[at]
    }

    fn value_of(&self, field: PublishField) -> (r: String)
        ensures
            r@ == self@.value(field),
    {
        match field {
            PublishField::Name => self.name.clone(),
            PublishField::Description => self.description.clone(),
            PublishField::Runtime => runtime_label(Some(self.runtime)).to_owned(),
            PublishField::SourcePath => self.source_path.clone(),
            PublishField::Note => self.note.clone(),
        }
    }

    fn insert(&mut self, text: &str)
        ensures
            final(self)@ == old(self)@.inserted(text@),
    {
        match self.focused_field() {
            PublishField::Name => self.name.append(text),
            PublishField::Description => self.description.append(text),
            PublishField::Runtime => {},
            PublishField::SourcePath => self.source_path.append(text),
            PublishField::Note => self.note.append(text),
        }
    }

    fn push(&mut self, c: char)
        ensures
            final(self)@ == old(self)@.inserted(seq![c]),
    {
        match self.focused_field() {
            PublishField::Name => self.name.push(c),
            PublishField::Description => self.description.push(c),
            PublishField::Runtime => {},
            PublishField::SourcePath => self.source_path.push(c),
            PublishField::Note => self.note.push(c),
        }
        assert(self@ =~= old(self)@.inserted(seq![c]));
    }

    fn pop(&mut self)
        ensures
            final(self)@ == old(self)@.erased(),
    {
        let _ = match self.focused_field() {
            PublishField::Name => self.name.pop(),
            PublishField::Description => self.description.pop(),
            PublishField::Runtime => None,
            PublishField::SourcePath => self.source_path.pop(),
            PublishField::Note => self.note.pop(),
        };
    }

    fn cycle_runtime(&mut self)
        ensures
            final(self)@ == (PublishView { runtime: old(self)@.next_runtime(), ..old(self)@ }),
    {
        self.runtime = match self.runtime {
            Runtime::Web => Runtime::Term,
            Runtime::Term => Runtime::Wasm,
            Runtime::Wasm | Runtime::Unknown => Runtime::Web,
        };
    }

    /// The first thing wrong with the form.
    pub fn validate(&self) -> (r: Result<(), String>)
        ensures
            match r {
                Ok(_) => self@.complaint() is None,
                Err(msg) => self@.complaint() == Some(msg@),
            },
    {
        let name = chars_of(trim(self.name.as_str()).as_str());
        if name.len() == 0 {
            return Err("a program needs a name".to_owned());
        }
        if name.len() > MAX_PROGRAM_NAME_LEN {
            return Err("name must be ≤32 characters".to_owned());
        }
        let mut i: usize = 0;
        while i < name.len()
            invariant
                i <= name@.len(),
                forall|k: int| 0 <= k < i ==> name_char(#[trigger] name@[k]),
                name@ == strs::trimmed(self@.name),
                0 < name@.len() <= MAX_PROGRAM_NAME_LEN,
            decreases name@.len() - i,
        {
            let c = name[i];
            if !(is_ascii_alphanumeric_char(c) || c == '.' || c == '_' || c == '-') {
                assert(!name_char(name@[i as int]));
                return Err("name may hold only letters, digits, '.', '_' and '-'".to_owned());
            }
            i = i + 1;
        }
        let description = chars_of(trim(self.description.as_str()).as_str());
        if description.len() == 0 {
            return Err("a program needs a description".to_owned());
        }
        if description.len() > MAX_PROGRAM_DESCRIPTION_LEN {
            return Err("description must be ≤256 characters".to_owned());
        }
        if trim(self.source_path.as_str()).as_str().is_empty() {
            return Err("point the form at the file to publish".to_owned());
        }
        Ok(())
    }

    fn submit(&mut self) -> (r: ProgramsIntent)
        ensures
            (final(self)@, r@) == old(self)@.submitted(),
    {
        if self.submitting {
            return ProgramsIntent::Nothing;
        }
        if let Err(msg) = self.validate() {
            self.error = Some(msg);
            return ProgramsIntent::Nothing;
        }
        self.submitting = true;
        self.error = None;
        let note = trim(self.note.as_str());
        let note = if note.as_str().is_empty() {
            None
        } else {
            Some(note)
        };
        ProgramsIntent::Publish {
            name: trim(self.name.as_str()),
            description: trim(self.description.as_str()),
            runtime: self.runtime,
            note,
            source_path: trim(self.source_path.as_str()),
        }
    }

    fn handle_key(&mut self, key: KeyEvent) -> (r: ProgramsIntent)
        ensures
            (final(self)@, r@) == old(self)@.keyed(key),
    {
        if key.control && key.code == KeyCode::Char('d') {
            return self.submit();
        }
        if self.submitting {
            return ProgramsIntent::Nothing;
        }
        match key.code {
            KeyCode::Tab => {
                self.focused = (self.focused % 5 + 1) % 5;
            },
            KeyCode::BackTab => {
                self.focused = (self.focused % 5 + 4) % 5;
            },
            KeyCode::Enter => {
                return self.submit();
            },
            KeyCode::Backspace => {
                self.pop();
            },
            KeyCode::Char(c) => {
                if c == ' ' && self.focused_field() == PublishField::Runtime {
                    self.cycle_runtime();
                } else if !key.control {
                    self.push(c);
                }
            },
            _ => {},
        }
        ProgramsIntent::Nothing
    }
}

// ---------------------------------------------------------------------------
// The screen.
// ---------------------------------------------------------------------------

/// What the screen is showing.
#[derive(Debug)]
pub enum ProgramsMode {
    /// The listing.
    Gallery,
    /// One program's source at one release.
    Source {
        program: Program,
        /// The release being read, once one has arrived.
        release: Option<u32>,
        source: Option<ProgramSource>,
        loading: bool,
        error: Option<String>,
        scroll: u16,
        /// The largest useful scroll offset, as of the last render.
        max_scroll: u16,
    },
    /// The publish form.
    Publish(PublishForm),
    /// A recall, or the deletion of the record, waits for its confirmation.
    ConfirmRecall { program_id: String, name: String, purge: bool },
}

/// What a [`ProgramsMode`] holds.
#[verifier::ext_equal]
pub enum ModeView {
    Gallery,
    Source {
        program: Program,
        release: Option<u32>,
        source: Option<ProgramSource>,
        loading: bool,
        error: Option<String>,
        scroll: int,
        max_scroll: int,
    },
    Publish(PublishView),
    ConfirmRecall { program_id: String, name: String, purge: bool },
}

impl View for ProgramsMode {
    type V = ModeView;

    open spec fn view(&self) -> ModeView {
        match self {
            ProgramsMode::Gallery => ModeView::Gallery,
            ProgramsMode::Source {
                program,
                release,
                source,
                loading,
                error,
                scroll,
                max_scroll,
            } => ModeView::Source {
                program: *program,
                release: *release,
                source: *source,
                loading: *loading,
                error: *error,
                scroll: *scroll as int,
                max_scroll: *max_scroll as int,
            },
            ProgramsMode::Publish(form) => ModeView::Publish(form@),
            ProgramsMode::ConfirmRecall { program_id, name, purge } => ModeView::ConfirmRecall {
                program_id: *program_id,
                name: *name,
                purge: *purge,
            },
        }
    }
}

/// What is asked of the shell.
#[derive(Debug, Clone, PartialEq, Eq)]
pub enum ProgramsIntent {
    /// Say something to the reader without changing the screen.
    Warn(String),
    /// Load the listing from the top.
    Reload { query: Box<ProgramQuery> },
    /// Fetch the next page.
    LoadMore { query: Box<ProgramQuery>, before: String },
    LoadSource { program_id: String, release: Option<u32> },
    /// Read the file at `source_path` and publish it.
    Publish {
        name: String,
        description: String,
        runtime: Runtime,
        note: Option<String>,
        source_path: String,
    },
    Recall { program_id: String, purge: bool },
    SaveSource { path: String, bytes: Vec<u8> },
    Quit,
    /// Nothing is asked.
    Nothing,
}

/// What a [`ProgramsIntent`] says.
#[verifier::ext_equal]
pub enum ProgramsIntentView {
    Warn(Seq<char>),
    Reload { query: QueryView },
    LoadMore { query: QueryView, before: Seq<char> },
    LoadSource { program_id: Seq<char>, release: Option<u32> },
    Publish {
        name: Seq<char>,
        description: Seq<char>,
        runtime: Runtime,
        note: Option<Seq<char>>,
        source_path: Seq<char>,
    },
    Recall { program_id: Seq<char>, purge: bool },
    SaveSource { path: Seq<char>, bytes: Seq<u8> },
    Quit,
    Nothing,
}

impl View for ProgramsIntent {
    type V = ProgramsIntentView;

    open spec fn view(&self) -> ProgramsIntentView {
        match self {
            ProgramsIntent::Warn(msg) => ProgramsIntentView::Warn(msg@),
            ProgramsIntent::Reload { query } => ProgramsIntentView::Reload { query: (**query)@ },
            ProgramsIntent::LoadMore { query, before } => ProgramsIntentView::LoadMore {
                query: (**query)@,
                before: before@,
            },
            ProgramsIntent::LoadSource { program_id, release } => ProgramsIntentView::LoadSource {
                program_id: program_id@,
                release: *release,
            },
            ProgramsIntent::Publish { name, description, runtime, note, source_path } =>
                ProgramsIntentView::Publish {
                name: name@,
                description: description@,
                runtime: *runtime,
                note: strs::opt_text(*note),
                source_path: source_path@,
            },
            ProgramsIntent::Recall { program_id, purge } => ProgramsIntentView::Recall {
                program_id: program_id@,
                purge: *purge,
            },
            ProgramsIntent::SaveSource { path, bytes } => ProgramsIntentView::SaveSource {
                path: path@,
                bytes: bytes@,
            },
            ProgramsIntent::Quit => ProgramsIntentView::Quit,
            ProgramsIntent::Nothing => ProgramsIntentView::Nothing,
        }
    }
}

/// The screen.
#[derive(Debug)]
pub struct ProgramsScreen {
    pub list: TabState<Program>,
    pub mode: ProgramsMode,
    pub scope: Scope,
    /// The listing that the rows on screen came from. It follows `scope` only
    /// once a page arrives, so rows of other members are never taken for one's
    /// own.
    pub loaded_scope: Scope,
    /// The place in the cycle of runtime filters.
    pub runtime_filter: usize,
    /// Automatic follow-up pages still allowed.
    pub auto_pages_left: u8,
    /// The path being typed into the save prompt, which lies over the source.
    pub save_prompt: Option<String>,
}

/// What a [`ProgramsScreen`] holds.
#[verifier::ext_equal]
pub struct ProgramsView {
    pub list: TabView<Program>,
    pub mode: ModeView,
    pub scope: Scope,
    pub loaded_scope: Scope,
    pub runtime_filter: int,
    pub auto_pages_left: int,
    pub save_prompt: Option<Seq<char>>,
}

impl View for ProgramsScreen {
    type V = ProgramsView;

    open spec fn view(&self) -> ProgramsView {
        ProgramsView {
            list: self.list@,
            mode: self.mode@,
            scope: self.scope,
            loaded_scope: self.loaded_scope,
            runtime_filter: self.runtime_filter as int,
            auto_pages_left: self.auto_pages_left as int,
            save_prompt: strs::opt_text(self.save_prompt),
        }
    }
}

/// The path offered for saving a source: its name, and the extension of its
/// runtime.
pub open spec fn save_path(source: ProgramSource) -> Seq<char> {
    let stem = strs::trimmed(source.name@);
    (if stem.len() == 0 {
        "program"@
    } else {
        stem
    }) + "."@ + (if source.runtime == Runtime::Wasm {
        "wasm"@
    } else {
        "js"@
    })
}

/// The path offered for saving a source.
pub fn default_save_path(source: &ProgramSource) -> (r: String)
    ensures
        r@ == save_path(*source),
{
    let stem = trim(source.name.as_str());
    let mut r = if stem.as_str().is_empty() {
        "program".to_owned()
    } else {
        stem
    };
    r.append(".");
    r.append(if source.runtime.is_binary() {
        "wasm"
    } else {
        "js"
    });
    r
}

/// Where a key scrolls the source to, if it scrolls.
pub open spec fn scrolled(code: KeyCode, scroll: int, max: int) -> Option<int> {
    match code {
        KeyCode::Char('j') | KeyCode::Down => Some(draw::least(scroll + 1, max)),
        KeyCode::Char('k') | KeyCode::Up => Some(draw::less(scroll, 1)),
        KeyCode::PageDown => Some(draw::least(scroll + 10, max)),
        KeyCode::PageUp => Some(draw::less(scroll, 10)),
        KeyCode::Char('g') | KeyCode::Home => Some(0),
        KeyCode::Char('G') | KeyCode::End => Some(max),
        _ => None,
    }
}

impl ProgramsView {
    pub open spec fn started() -> ProgramsView {
        ProgramsView {
            list: TabView { loading: true, ..TabView::fresh() },
            mode: ModeView::Gallery,
            scope: Scope::Gallery,
            loaded_scope: Scope::Gallery,
            runtime_filter: 0,
            auto_pages_left: MAX_AUTO_PAGES as int,
            save_prompt: None,
        }
    }

    /// The query that the scope and filter describe.
    pub open spec fn query(self) -> QueryView {
        QueryView {
            mine: self.scope == Scope::Mine,
            runtimes: match filter_at(self.runtime_filter) {
                Some(r) => seq![r],
                None => Seq::empty(),
            },
        }
    }

    pub open spec fn selected(self) -> Option<Program> {
        if 0 <= self.list.selected < self.list.items.len() {
            Some(self.list.items[self.list.selected])
        } else {
            None
        }
    }

    /// The screen without the rows of the listing being left.
    pub open spec fn cleared(self) -> ProgramsView {
        ProgramsView {
            list: TabView {
                items: Seq::empty(),
                next_cursor: None,
                selected: 0,
                ..self.list
            },
            ..self
        }
    }

    /// The screen and the intent when the listing is fetched again.
    pub open spec fn reloading(self) -> (ProgramsView, ProgramsIntentView) {
        (
            ProgramsView {
                list: TabView { loading: true, error: None, ..self.list },
                auto_pages_left: MAX_AUTO_PAGES as int,
                ..self
            },
            ProgramsIntentView::Reload { query: self.query() },
        )
    }

    /// The screen and the intent when the selected program is to be recalled,
    /// or its record deleted. Only rows of one's own listing can be, and
    /// nothing that a moderator took down.
    pub open spec fn recalling(self, purge: bool) -> (ProgramsView, ProgramsIntentView) {
        if self.loaded_scope != Scope::Mine {
            (
                self,
                ProgramsIntentView::Warn("m first — you can only recall your own programs"@),
            )
        } else {
            match self.selected() {
                None => (self, ProgramsIntentView::Nothing),
                Some(p) => if p.taken_down == Some(true) {
                    (
                        self,
                        ProgramsIntentView::Warn(
                            "a moderator took this down — it cannot be recalled or deleted"@,
                        ),
                    )
                } else if !purge && p.is_published == Some(false) {
                    (
                        self,
                        ProgramsIntentView::Warn(
                            "already out of the gallery · D deletes the record"@,
                        ),
                    )
                } else {
                    (
                        ProgramsView {
                            mode: ModeView::ConfirmRecall { program_id: p.id, name: p.name, purge },
                            ..self
                        },
                        ProgramsIntentView::Nothing,
                    )
                },
            }
        }
    }

    pub open spec fn page(self) -> int {
        if self.list.page_items < 1 {
            1
        } else {
            self.list.page_items
        }
    }

    /// The screen and the intent after a key on the listing that does not move.
    pub open spec fn acted(self, code: KeyCode) -> (ProgramsView, ProgramsIntentView) {
        match code {
            KeyCode::Enter => match self.selected() {
                Some(program) => (
                    ProgramsView {
                        mode: ModeView::Source {
                            program,
                            release: None,
                            source: None,
                            loading: true,
                            error: None,
                            scroll: 0,
                            max_scroll: 0,
                        },
                        ..self
                    },
                    ProgramsIntentView::LoadSource { program_id: program.id@, release: None },
                ),
                None => (self, ProgramsIntentView::Nothing),
            },
            KeyCode::Char('r') => self.reloading(),
            KeyCode::Char('m') => (ProgramsView {
                scope: self.scope.other(),
                ..self
            }).cleared().reloading(),
            KeyCode::Char('t') => (ProgramsView {
                runtime_filter: (self.runtime_filter + 1) % 4,
                ..self
            }).cleared().reloading(),
            KeyCode::Char('P') => (
                ProgramsView { mode: ModeView::Publish(PublishView::blank()), ..self },
                ProgramsIntentView::Nothing,
            ),
            KeyCode::Char('d') => self.recalling(false),
            KeyCode::Char('D') => self.recalling(true),
            _ => (self, ProgramsIntentView::Nothing),
        }
    }

    /// The screen and the intent after a key on the listing.
    pub open spec fn browsed(self, code: KeyCode) -> (ProgramsView, ProgramsIntentView) {
        let (selected, nav) = list_nav::navigated(
            code,
            self.list.selected,
            self.list.items.len() as int,
            self.list.next_cursor is Some,
            self.page(),
        );
        let moved = ProgramsView { list: TabView { selected, ..self.list }, ..self };
        match nav {
            ListNav::Moved => (moved, ProgramsIntentView::Nothing),
            ListNav::LoadMore => match moved.list.next_cursor {
                Some(before) => (
                    ProgramsView { list: TabView { loading: true, ..moved.list }, ..moved },
                    ProgramsIntentView::LoadMore { query: moved.query(), before },
                ),
                None => (moved, ProgramsIntentView::Nothing),
            },
            ListNav::Ignored => moved.acted(code),
        }
    }

    /// The screen and the intent after a key on the source.
    pub open spec fn read(self, code: KeyCode) -> (ProgramsView, ProgramsIntentView) {
        match self.mode {
            ModeView::Source { program, release, source, loading, error, scroll, max_scroll } => {
                if let Some(to) = scrolled(code, scroll, max_scroll) {
                    (
                        ProgramsView {
                            mode: ModeView::Source {
                                program,
                                release,
                                source,
                                loading,
                                error,
                                scroll: to,
                                max_scroll,
                            },
                            ..self
                        },
                        ProgramsIntentView::Nothing,
                    )
                } else {
                    let fetching = ProgramsView {
                        mode: ModeView::Source {
                            program,
                            release,
                            source,
                            loading: true,
                            error,
                            scroll,
                            max_scroll,
                        },
                        ..self
                    };
                    match (code, release) {
                        (KeyCode::Char(','), Some(n)) => if n <= 1 {
                            (self, ProgramsIntentView::Warn("that is the first release"@))
                        } else {
                            (
                                fetching,
                                ProgramsIntentView::LoadSource {
                                    program_id: program.id@,
                                    release: Some((n - 1) as u32),
                                },
                            )
                        },
                        (KeyCode::Char('.'), Some(n)) => if n >= program.release {
                            (self, ProgramsIntentView::Warn("that is the current release"@))
                        } else {
                            (
                                fetching,
                                ProgramsIntentView::LoadSource {
                                    program_id: program.id@,
                                    release: Some((n + 1) as u32),
                                },
                            )
                        },
                        (KeyCode::Char('w'), _) => match source {
                            Some(fetched) => (
                                ProgramsView { save_prompt: Some(save_path(fetched)), ..self },
                                ProgramsIntentView::Nothing,
                            ),
                            None => (self, ProgramsIntentView::Nothing),
                        },
                        _ => (self, ProgramsIntentView::Nothing),
                    }
                }
            },
            _ => (self, ProgramsIntentView::Nothing),
        }
    }

    /// The source that is open, if one has arrived.
    pub open spec fn open_source(self) -> Option<ProgramSource> {
        match self.mode {
            ModeView::Source { source, .. } => source,
            _ => None,
        }
    }

    /// The screen and the intent after a key in the save prompt, whose path so
    /// far is `path`. What is saved are the decoded bytes.
    pub open spec fn saved(self, path: Seq<char>, key: KeyEvent) -> (
        ProgramsView,
        ProgramsIntentView,
    ) {
        let closed = ProgramsView { save_prompt: None, ..self };
        match key.code {
            KeyCode::Enter => {
                let to = strs::trimmed(path);
                if to.len() == 0 {
                    (self, ProgramsIntentView::Warn("give the file a path"@))
                } else {
                    (
                        closed,
                        match self.open_source() {
                            Some(fetched) => match fetched.payload() {
                                Some(bytes) => ProgramsIntentView::SaveSource { path: to, bytes },
                                None => ProgramsIntentView::Warn(SourceError::message_text()),
                            },
                            None => ProgramsIntentView::Nothing,
                        },
                    )
                }
            },
            KeyCode::Backspace => (
                ProgramsView {
                    save_prompt: Some(
                        if path.len() > 0 {
                            path.drop_last()
                        } else {
                            path
                        },
                    ),
                    ..self
                },
                ProgramsIntentView::Nothing,
            ),
            KeyCode::Char(c) => if key.control {
                (self, ProgramsIntentView::Nothing)
            } else {
                (
                    ProgramsView { save_prompt: Some(path.push(c)), ..self },
                    ProgramsIntentView::Nothing,
                )
            },
            _ => (self, ProgramsIntentView::Nothing),
        }
    }

    /// The screen and the intent after a key on the confirmation: only `y`
    /// means yes.
    pub open spec fn confirmed(self, program_id: Seq<char>, purge: bool, code: KeyCode) -> (
        ProgramsView,
        ProgramsIntentView,
    ) {
        if code == KeyCode::Char('y') || code == KeyCode::Char('Y') {
            (
                ProgramsView {
                    mode: ModeView::Gallery,
                    list: TabView { loading: true, ..self.list },
                    ..self
                },
                ProgramsIntentView::Recall { program_id, purge },
            )
        } else {
            (ProgramsView { mode: ModeView::Gallery, ..self }, ProgramsIntentView::Nothing)
        }
    }

    /// The screen and the intent after a key.
    pub open spec fn keyed(self, key: KeyEvent) -> (ProgramsView, ProgramsIntentView) {
        if key.is_quit_spec() {
            (self, ProgramsIntentView::Quit)
        } else if let Some(path) = self.save_prompt {
            self.saved(path, key)
        } else {
            match self.mode {
                ModeView::Gallery => self.browsed(key.code),
                ModeView::Source { .. } => self.read(key.code),
                ModeView::Publish(form) => {
                    let (form, intent) = form.keyed(key);
                    (ProgramsView { mode: ModeView::Publish(form), ..self }, intent)
                },
                ModeView::ConfirmRecall { program_id, purge, .. } => self.confirmed(
                    program_id@,
                    purge,
                    key.code,
                ),
            }
        }
    }

    /// Whether the screen fetches the next page by itself: the listing is still
    /// empty, there is more, and some of the budget is left.
    pub open spec fn chases(self) -> bool {
        &&& self.list.items.len() == 0
        &&& self.auto_pages_left > 0
        &&& self.list.next_cursor is Some
    }

    pub open spec fn settled(self) -> ProgramsView {
        if self.chases() {
            ProgramsView {
                auto_pages_left: self.auto_pages_left - 1,
                list: TabView { loading: true, ..self.list },
                ..self
            }
        } else {
            self
        }
    }

    pub open spec fn chased(self) -> Option<Seq<char>> {
        if self.chases() {
            self.list.next_cursor
        } else {
            None
        }
    }

    /// The screen after a source arrived for `program_id`, or failed to. One
    /// for a program that is no longer open changes nothing.
    pub open spec fn with_source(
        self,
        program_id: Seq<char>,
        result: Result<ProgramSource, String>,
    ) -> ProgramsView {
        match self.mode {
            ModeView::Source { program, release, source, loading, error, scroll, max_scroll } => {
                if program.id@ != program_id {
                    self
                } else {
                    ProgramsView {
                        mode: match result {
                            Ok(fetched) => ModeView::Source {
                                program,
                                release: Some(fetched.release),
                                source: Some(fetched),
                                loading: false,
                                error: None,
                                scroll: 0,
                                max_scroll: 0,
                            },
                            Err(msg) => ModeView::Source {
                                program,
                                release,
                                source,
                                loading: false,
                                error: Some(msg),
                                scroll,
                                max_scroll,
                            },
                        },
                        ..self
                    }
                }
            },
            _ => self,
        }
    }
}

/// How many items an initial page brings.
pub open spec fn page_len(page: Page<Program>) -> int {
    match page {
        Ok((items, _)) => items@.len() as int,
        Err(_) => 0,
    }
}

impl ProgramsView {
    /// The screen after an answer to a publish, and what is told of it.
    pub open spec fn published(self, result: Result<String, String>) -> (
        ProgramsView,
        Option<String>,
    ) {
        match (self.mode, result) {
            (ModeView::Publish(form), Ok(message)) => (
                ProgramsView { mode: ModeView::Gallery, ..self },
                Some(message),
            ),
            (ModeView::Publish(form), Err(msg)) => (
                ProgramsView {
                    mode: ModeView::Publish(
                        PublishView { submitting: false, error: Some(msg@), ..form },
                    ),
                    ..self
                },
                None,
            ),
            _ => (self, None),
        }
    }

    /// The screen after Esc, and whether it took the key: the prompt closes, or
    /// else the sub-mode, and the gallery takes nothing.
    pub open spec fn escaped(self) -> (ProgramsView, bool) {
        if self.save_prompt is Some {
            (ProgramsView { save_prompt: None, ..self }, true)
        } else {
            (ProgramsView { mode: ModeView::Gallery, ..self }, !(self.mode is Gallery))
        }
    }

    /// The screen after a paste.
    pub open spec fn pasted(self, text: Seq<char>) -> ProgramsView {
        let flat = input::collapsed_from(text, 0);
        match (self.save_prompt, self.mode) {
            (Some(path), _) => ProgramsView { save_prompt: Some(path + flat), ..self },
            (None, ModeView::Publish(form)) => ProgramsView {
                mode: ModeView::Publish(form.inserted(flat)),
                ..self
            },
            _ => self,
        }
    }

    /// The screen after a first page, and the cursor of the page to fetch at
    /// once, if there is one.
    pub open spec fn after_first(self, page: Page<Program>) -> (ProgramsView, Option<Seq<char>>) {
        let loaded = ProgramsView {
            list: self.list.after_initial(page, page_len(page)),
            loaded_scope: if page is Ok {
                self.scope
            } else {
                self.loaded_scope
            },
            ..self
        };
        (loaded.settled(), loaded.chased())
    }

    /// The screen after a further page, and the cursor of the page to fetch at
    /// once, if there is one.
    pub open spec fn after_page(self, page: Page<Program>) -> (ProgramsView, Option<Seq<char>>) {
        let loaded = ProgramsView { list: self.list.after_more(page), ..self };
        (loaded.settled(), loaded.chased())
    }
}

impl Default for ProgramsScreen {
    fn default() -> (r: ProgramsScreen)
        ensures
            r@ == ProgramsView::started(),
    {
        ProgramsScreen::new()
    }
}

impl ProgramsScreen {
    pub fn new() -> (r: ProgramsScreen)
        ensures
            r@ == ProgramsView::started(),
    {
        ProgramsScreen {
            list: TabState::loading(),
            mode: ProgramsMode::Gallery,
            scope: Scope::Gallery,
            loaded_scope: Scope::Gallery,
            runtime_filter: 0,
            auto_pages_left: MAX_AUTO_PAGES,
            save_prompt: None,
        }
    }

    /// What Esc means here: it closes the prompt, or else the sub-mode. Says
    /// whether it did; at the gallery it does not.
    pub fn handle_escape(&mut self) -> (r: bool)
        ensures
            (final(self)@, r) == old(self)@.escaped(),
    {
        if self.save_prompt.is_some() {
            self.save_prompt = None;
            return true;
        }
        match &self.mode {
            ProgramsMode::Gallery => {
                return false;
            },
            _ => {},
        }
        self.mode = ProgramsMode::Gallery;
        true
    }

    /// Whether a printable key belongs to a field.
    pub fn is_text_input(&self) -> (r: bool)
        ensures
            r == (self@.save_prompt is Some || self@.mode is Publish),
    {
        if self.save_prompt.is_some() {
            return true;
        }
        match &self.mode {
            ProgramsMode::Publish(_) => true,
            _ => false,
        }
    }

    fn take_mode(&mut self) -> (r: ProgramsMode)
        ensures
            r == old(self).mode,
            final(self)@ == (ProgramsView { mode: ModeView::Gallery, ..old(self)@ }),
    {
        let mut mode = ProgramsMode::Gallery;
        std::mem::swap(&mut mode, &mut self.mode);
        mode
    }

    /// Insert pasted text, on one line, into the field that captures text.
    pub fn paste_text(&mut self, text: &str)
        ensures
            final(self)@ == old(self)@.pasted(text@),
    {
        let flat = collapse_newlines(text);
        if let Some(mut path) = self.save_prompt.take() {
            path.append(flat.as_str());
            self.save_prompt = Some(path);
            return;
        }
        match self.take_mode() {
            ProgramsMode::Publish(form) => {
                let mut form = form;
                form.insert(flat.as_str());
                self.mode = ProgramsMode::Publish(form);
            },
            other => {
                self.mode = other;
            },
        }
    }

    /// The query that the scope and filter describe.
    pub fn query(&self) -> (r: ProgramQuery)
        ensures
            r@ == self@.query(),
    {
        let mut runtimes: Vec<Runtime> = Vec::new();
        if let Some(runtime) = filter_of(self.runtime_filter) {
            runtimes.push(runtime);
        }
        assert(runtimes@ =~= self@.query().runtimes);
        ProgramQuery { mine: self.scope == Scope::Mine, runtimes }
    }

    fn clear_for_new_query(&mut self)
        ensures
            final(self)@ == old(self)@.cleared(),
    {
        self.list.items.clear();
        self.list.next_cursor = None;
        self.list.selected = 0;
    }

    fn reload(&mut self) -> (r: ProgramsIntent)
        ensures
            (final(self)@, r@) == old(self)@.reloading(),
    {
        self.list.loading = true;
        self.list.error = None;
        self.auto_pages_left = MAX_AUTO_PAGES;
        ProgramsIntent::Reload { query: Box::new(self.query()) }
    }

    /// Apply the first page, returning the cursor to follow when the listing is
    /// still empty with more behind it.
    pub fn apply_initial(&mut self, result: Page<Program>) -> (r: Option<String>)
        ensures
            (final(self)@, strs::opt_text(r)) == old(self)@.after_first(result),
    {
        let ok = result.is_ok();
        self.list.apply_initial(result);
        if ok {
            self.loaded_scope = self.scope;
        }
        self.next_auto_page()
    }

    /// Apply a follow-up page, returning the cursor to follow when the listing
    /// is still empty with more behind it.
    pub fn apply_more(&mut self, result: Page<Program>) -> (r: Option<String>)
        ensures
            (final(self)@, strs::opt_text(r)) == old(self)@.after_page(result),
    {
        self.list.apply_more(result);
        self.next_auto_page()
    }

    fn next_auto_page(&mut self) -> (r: Option<String>)
        ensures
            final(self)@ == old(self)@.settled(),
            strs::opt_text(r) == old(self)@.chased(),
    {
        if self.list.items.len() > 0 || self.auto_pages_left == 0 {
            return None;
        }
        let cursor = clone_opt(&self.list.next_cursor);
        if cursor.is_some() {
            self.auto_pages_left = self.auto_pages_left - 1;
            self.list.loading = true;
        }
        cursor
    }

    /// Fold a fetched source into the open program; `program_id` is the program
    /// it was fetched for.
    pub fn apply_source(&mut self, program_id: &str, result: Result<ProgramSource, String>)
        ensures
            final(self)@ == old(self)@.with_source(program_id@, result),
    {
        match self.take_mode() {
            ProgramsMode::Source {
                program,
                release,
                source,
                loading,
                error,
                scroll,
                max_scroll,
            } => {
                if !same(program.id.as_str(), program_id) {
                    self.mode = ProgramsMode::Source {
                        program,
                        release,
                        source,
                        loading,
                        error,
                        scroll,
                        max_scroll,
                    };
                    return;
                }
                self.mode = match result {
                    Ok(fetched) => ProgramsMode::Source {
                        program,
                        release: Some(fetched.release),
                        source: Some(fetched),
                        loading: false,
                        error: None,
                        scroll: 0,
                        max_scroll: 0,
                    },
                    Err(msg) => ProgramsMode::Source {
                        program,
                        release,
                        source,
                        loading: false,
                        error: Some(msg),
                        scroll,
                        max_scroll,
                    },
                };
            },
            other => {
                self.mode = other;
            },
        }
    }

    /// Fold a finished publish back into the screen, returning the line to show
    /// the reader. A success closes the form; a failure stays on it.
    pub fn apply_published(&mut self, result: Result<String, String>) -> (r: Option<String>)
        ensures
            (final(self)@, r) == old(self)@.published(result),
    {
        match self.take_mode() {
            ProgramsMode::Publish(form) => match result {
                Ok(message) => Some(message),
                Err(msg) => {
                    let mut form = form;
                    form.submitting = false;
                    form.error = Some(msg);
                    self.mode = ProgramsMode::Publish(form);
                    None
                },
            },
            other => {
                self.mode = other;
                None
            },
        }
    }

    /// The program under the cursor.
    pub fn selected(&self) -> (r: Option<&Program>)
        ensures
            match r {
                Some(p) => self@.selected() == Some(*p),
                None => self@.selected() is None,
            },
    {
        if self.list.selected < self.list.items.len() {
            Some(&self.list.items[self.list.selected])
        } else {
            None
        }
    }

    /// Take a key and say what is asked of the shell.
    pub fn handle_key(&mut self, key: KeyEvent) -> (r: ProgramsIntent)
        ensures
            (final(self)@, r@) == old(self)@.keyed(key),
    {
        if key.is_quit() {
            return ProgramsIntent::Quit;
        }
        if let Some(path) = self.save_prompt.take() {
            return self.handle_save_prompt_key(path, key);
        }
        match self.take_mode() {
            ProgramsMode::Gallery => self.handle_gallery_key(key.code),
            ProgramsMode::Publish(form) => {
                let mut form = form;
                let intent = form.handle_key(key);
                self.mode = ProgramsMode::Publish(form);
                intent
            },
            ProgramsMode::ConfirmRecall { program_id, name, purge } => {
                if key.code == KeyCode::Char('y') || key.code == KeyCode::Char('Y') {
                    self.list.loading = true;
                    ProgramsIntent::Recall { program_id, purge }
                } else {
                    ProgramsIntent::Nothing
                }
            },
            source => {
                self.mode = source;
                self.handle_source_key(key.code)
            },
        }
    }

    fn handle_gallery_key(&mut self, code: KeyCode) -> (r: ProgramsIntent)
        ensures
            (final(self)@, r@) == old(self)@.browsed(code),
    {
        let has_more = self.list.next_cursor.is_some();
        let view_len: usize = self.list.items.len();
        let page: usize = self.list.page_items();
        match list_nav::navigate_paged(
            code,
            &mut self.list.selected,
            view_len,
            has_more,
            page,
        ) {
            ListNav::Moved => {
                return ProgramsIntent::Nothing;
            },
            ListNav::LoadMore => {
                return match clone_opt(&self.list.next_cursor) {
                    Some(before) => {
                        self.list.loading = true;
                        ProgramsIntent::LoadMore { query: Box::new(self.query()), before }
                    },
                    None => ProgramsIntent::Nothing,
                };
            },
            ListNav::Ignored => {},
        }
        match code {
            KeyCode::Enter => {
                let program = match self.selected() {
                    Some(p) => p.copy(),
                    None => {
                        return ProgramsIntent::Nothing;
                    },
                };
                let program_id = program.id.clone();
                self.mode = ProgramsMode::Source {
                    program,
                    release: None,
                    source: None,
                    loading: true,
                    error: None,
                    scroll: 0,
                    max_scroll: 0,
                };
                ProgramsIntent::LoadSource { program_id, release: None }
            },
            KeyCode::Char('r') => self.reload(),
            KeyCode::Char('m') => {
                self.scope = self.scope.toggled();
                self.clear_for_new_query();
                self.reload()
            },
            KeyCode::Char('t') => {
                self.runtime_filter = (self.runtime_filter % 4 + 1) % 4;
                self.clear_for_new_query();
                self.reload()
            },
            KeyCode::Char('P') => {
                self.mode = ProgramsMode::Publish(PublishForm::blank());
                ProgramsIntent::Nothing
            },
            KeyCode::Char('d') => self.start_recall(false),
            KeyCode::Char('D') => self.start_recall(true),
            _ => ProgramsIntent::Nothing,
        }
    }

    fn start_recall(&mut self, purge: bool) -> (r: ProgramsIntent)
        ensures
            (final(self)@, r@) == old(self)@.recalling(purge),
    {
        if self.loaded_scope != Scope::Mine {
            return ProgramsIntent::Warn(
                "m first — you can only recall your own programs".to_owned(),
            );
        }
        let (program_id, name) = match self.selected() {
            None => {
                return ProgramsIntent::Nothing;
            },
            Some(program) => {
                // Taken down first: such a program is also out of the gallery.
                if program.is_taken_down() {
                    return ProgramsIntent::Warn(
                        "a moderator took this down — it cannot be recalled or deleted".to_owned(),
                    );
                }
                if !purge && program.is_draft() {
                    return ProgramsIntent::Warn(
                        "already out of the gallery · D deletes the record".to_owned(),
                    );
                }
                (program.id.clone(), program.name.clone())
            },
        };
        self.mode = ProgramsMode::ConfirmRecall { program_id, name, purge };
        ProgramsIntent::Nothing
    }

    fn handle_source_key(&mut self, code: KeyCode) -> (r: ProgramsIntent)
        requires
            old(self)@.mode is Source,
        ensures
            (final(self)@, r@) == old(self)@.read(code),
    {
        match self.take_mode() {
            ProgramsMode::Source {
                program,
                release,
                source,
                loading,
                error,
                scroll,
                max_scroll,
            } => {
                let mut scroll: u16 = scroll;
                let mut loading = loading;
                let max: u16 = max_scroll;
                let mut intent = ProgramsIntent::Nothing;
                match code {
                    KeyCode::Char('j') | KeyCode::Down => {
                        scroll = if scroll < max {
                            scroll + 1
                        } else {
                            max
                        };
                    },
                    KeyCode::Char('k') | KeyCode::Up => {
                        scroll = if scroll > 0 {
                            scroll - 1
                        } else {
                            0
                        };
                    },
                    KeyCode::PageDown => {
                        scroll = if scroll < max && max - scroll >= 10 {
                            scroll + 10
                        } else {
                            max
                        };
                    },
                    KeyCode::PageUp => {
                        scroll = if scroll > 10 {
                            scroll - 10
                        } else {
                            0
                        };
                    },
                    KeyCode::Char('g') | KeyCode::Home => {
                        scroll = 0;
                    },
                    KeyCode::Char('G') | KeyCode::End => {
                        scroll = max;
                    },
                    KeyCode::Char(',') => {
                        if let Some(current) = release {
                            if current <= 1 {
                                intent = ProgramsIntent::Warn("that is the first release".to_owned());
                            } else {
                                loading = true;
                                intent = ProgramsIntent::LoadSource {
                                    program_id: program.id.clone(),
                                    release: Some(current - 1),
                                };
                            }
                        }
                    },
                    KeyCode::Char('.') => {
                        if let Some(current) = release {
                            if current >= program.release {
                                intent = ProgramsIntent::Warn(
                                    "that is the current release".to_owned(),
                                );
                            } else {
                                loading = true;
                                intent = ProgramsIntent::LoadSource {
                                    program_id: program.id.clone(),
                                    release: Some(current + 1),
                                };
                            }
                        }
                    },
                    KeyCode::Char('w') => {
                        if let Some(fetched) = &source {
                            self.save_prompt = Some(default_save_path(fetched));
                        }
                    },
                    _ => {},
                }
                self.mode = ProgramsMode::Source {
                    program,
                    release,
                    source,
                    loading,
                    error,
                    scroll,
                    max_scroll,
                };
                intent
            },
            _ => ProgramsIntent::Nothing,
        }
    }

    fn handle_save_prompt_key(&mut self, path: String, key: KeyEvent) -> (r: ProgramsIntent)
        requires
            old(self).save_prompt is None,
        ensures
            (final(self)@, r@) == (ProgramsView {
                save_prompt: Some(path@),
                ..old(self)@
            }).saved(path@, key),
    {
        let mut path = path;
        match key.code {
            KeyCode::Enter => {
                let to = trim(path.as_str());
                if to.as_str().is_empty() {
                    self.save_prompt = Some(path);
                    return ProgramsIntent::Warn("give the file a path".to_owned());
                }
                match &self.mode {
                    ProgramsMode::Source { source: Some(fetched), .. } => match fetched.bytes() {
                        Ok(bytes) => ProgramsIntent::SaveSource { path: to, bytes },
                        Err(e) => ProgramsIntent::Warn(e.user_message()),
                    },
                    _ => ProgramsIntent::Nothing,
                }
            },
            KeyCode::Backspace => {
                let _ = path.pop();
                self.save_prompt = Some(path);
                ProgramsIntent::Nothing
            },
            KeyCode::Char(c) => {
                if !key.control {
                    path.push(c);
                }
                self.save_prompt = Some(path);
                ProgramsIntent::Nothing
            },
            _ => {
                self.save_prompt = Some(path);
                ProgramsIntent::Nothing
            },
        }
    }
}

// ---------------------------------------------------------------------------
// What is shown.
// ---------------------------------------------------------------------------

/// The rows of one program: name, owner, runtime and release, what changes its
/// keys, then its description.
pub open spec fn program_lines(p: Program, theme: Theme) -> Seq<Seq<draw::SpanView>> {
    let head = seq![
        draw::span(p.name@, theme.base_spec()),
        draw::span(" by @"@ + p.owner_username@, theme.muted_spec()),
        draw::span(
            " · "@ + runtime_text(Some(p.runtime)) + " · v"@ + strs::decimal(p.release as nat),
            theme.muted_spec(),
        ),
    ];
    let header = if p.taken_down == Some(true) {
        head.push(draw::span(" · taken down"@, theme.error_spec()))
    } else if p.is_published == Some(false) {
        head.push(draw::span(" · not in the gallery"@, theme.warning_spec()))
    } else {
        head
    };
    seq![
        header,
        draw::one(
            "  "@ + (if strs::trimmed(p.description@).len() == 0 {
                "no description"@
            } else {
                p.description@
            }),
            theme.muted_spec(),
        ),
    ]
}

/// The rows of one program.
pub fn program_row(p: &Program, theme: &Theme) -> (r: Vec<Line>)
    ensures
        draw::line_views(r@) == program_lines(*p, *theme),
{
    let mut owner = " by @".to_owned();
    owner.append(p.owner_username.as_str());
    let mut version = " · ".to_owned();
    version.append(runtime_label(Some(p.runtime)));
    version.append(" · v");
    version.append(decimal_text(p.release as u64).as_str());
    let mut spans: Vec<Span> = Vec::new();
    push_span(&mut spans, Span::of(p.name.as_str(), theme.base()));
    push_span(&mut spans, Span::new(owner, theme.muted_style()));
    push_span(&mut spans, Span::new(version, theme.muted_style()));
    if p.is_taken_down() {
        push_span(&mut spans, Span::of(" · taken down", theme.error_style()));
    } else if p.is_draft() {
        push_span(&mut spans, Span::of(" · not in the gallery", theme.warning_style()));
    }
    assert(draw::span_views(spans@) =~= program_lines(*p, *theme)[0]);
    let mut description = "  ".to_owned();
    description.append(if trim(p.description.as_str()).as_str().is_empty() {
        "no description"
    } else {
        p.description.as_str()
    });
    let mut lines: Vec<Line> = Vec::new();
    push_line(&mut lines, Line::new(spans));
    push_line(&mut lines, Line::single(description, theme.muted_style()));
    assert(draw::line_views(lines@) =~= program_lines(*p, *theme));
    lines
}

/// The rows of the first `n` programs.
pub open spec fn program_rows(items: Seq<Program>, n: int, theme: Theme) -> Seq<
    Seq<Seq<draw::SpanView>>,
> {
    Seq::new(n as nat, |i: int| program_lines(items[i], theme))
}

pub open spec fn status_text(s: ProgramsView) -> Seq<char> {
    let keys =
        "enter read · m scope · t runtime · P publish · d recall · D delete · r refresh · esc back"@;
    if s.list.loading && s.list.items.len() == 0 {
        "loading… · "@ + keys
    } else {
        strs::decimal(s.list.items.len()) + " programs · "@ + (if s.list.next_cursor is Some {
            "n more"@
        } else {
            "end"@
        }) + " · "@ + keys
    }
}

/// The status line of the gallery.
pub fn gallery_status(s: &ProgramsScreen) -> (r: String)
    ensures
        r@ == status_text(s@),
{
    let keys =
        "enter read · m scope · t runtime · P publish · d recall · D delete · r refresh · esc back";
    if s.list.loading && s.list.items.len() == 0 {
        let mut t = "loading… · ".to_owned();
        t.append(keys);
        return t;
    }
    let mut t = decimal_text(s.list.items.len() as u64);
    t.append(" programs · ");
    t.append(if s.list.next_cursor.is_some() {
        "n more"
    } else {
        "end"
    });
    t.append(" · ");
    t.append(keys);
    t
}

/// The rows that `len` columns take at `width` columns each; none still take one.
pub open spec fn rows_at(len: int, width: int) -> int {
    if len == 0 {
        1
    } else {
        (len + width - 1) / width
    }
}

/// What a character counts for when a line is broken into rows: one, and a wide
/// glyph its columns and those it may leave unused at the end of the row before.
pub open spec fn weight(c: char) -> int {
    if text::columns(c) <= 1 {
        1
    } else {
        2 * text::columns(c) - 1
    }
}

/// What the characters of a line count for.
pub open spec fn line_weight(line: Seq<char>) -> int
    decreases line.len(),
{
    if line.len() == 0 {
        0
    } else {
        line_weight(line.drop_last()) + weight(line.last())
    }
}

/// Lines measured by what their characters count for.
pub open spec fn by_weight() -> spec_fn(Seq<char>) -> int {
    |line: Seq<char>| line_weight(line)
}

/// Lines measured by the columns of their characters.
pub open spec fn by_columns() -> spec_fn(Seq<char>) -> int {
    |line: Seq<char>| text::columns_sum(line)
}

/// Lines measured by how many characters they have.
pub open spec fn by_length() -> spec_fn(Seq<char>) -> int {
    |line: Seq<char>| line.len() as int
}

/// The rows the first `n` lines take at `width` columns, measured in one way.
pub open spec fn rows_sum(
    lines: Seq<Seq<char>>,
    n: int,
    width: int,
    measure: spec_fn(Seq<char>) -> int,
) -> int
    decreases n,
{
    if n <= 0 {
        0
    } else {
        rows_sum(lines, n - 1, width, measure) + rows_at(measure(lines[n - 1]), width)
    }
}

/// The rows a text takes once wrapped to `width` columns, its lines measured in
/// one way; at least one.
pub open spec fn wrapped_by(
    text: Seq<char>,
    width: int,
    measure: spec_fn(Seq<char>) -> int,
) -> int {
    let lines = text::lines_from(text, 0);
    let sum = rows_sum(
        lines,
        lines.len() as int,
        if width < 1 {
            1
        } else {
            width
        },
        measure,
    );
    if sum < 1 {
        1
    } else {
        sum
    }
}

/// The rows a text takes once wrapped to `width` columns: a count of characters
/// that only ever over-estimates for wide glyphs.
pub open spec fn wrapped(text: Seq<char>, width: int) -> int {
    wrapped_by(text, width, by_weight())
}

proof fn lemma_line_weight(line: Seq<char>)
    ensures
        line.len() <= line_weight(line) <= 509 * line.len(),
        0 <= text::columns_sum(line) <= line_weight(line),
        (forall|i: int| 0 <= i < line.len() ==> text::columns(#[trigger] line[i]) <= 1)
            ==> line_weight(line) == line.len(),
    decreases line.len(),
{
    if line.len() > 0 {
        lemma_line_weight(line.drop_last());
        assert(text::columns(line.last()) <= 255);
        if forall|i: int| 0 <= i < line.len() ==> text::columns(#[trigger] line[i]) <= 1 {
            assert forall|i: int| 0 <= i < line.drop_last().len() implies text::columns(
                #[trigger] line.drop_last()[i],
            ) <= 1 by {
                assert(line.drop_last()[i] == line[i]);
            }
            assert(text::columns(line[line.len() - 1]) <= 1);
        }
    }
}

proof fn lemma_rows_sum(lines: Seq<Seq<char>>, n: int, width: int)
    requires
        0 <= n <= lines.len(),
        width >= 1,
    ensures
        0 <= rows_sum(lines, n, width, by_weight()),
    decreases n,
{
    if n > 0 {
        lemma_rows_sum(lines, n - 1, width);
        lemma_line_weight(lines[n - 1]);
        lemma_rows_at(line_weight(lines[n - 1]), width);
    }
}

proof fn lemma_rows_at_grows(a: int, b: int, width: int)
    requires
        0 <= a <= b,
        width >= 1,
    ensures
        rows_at(a, width) <= rows_at(b, width),
{
    lemma_rows_at(a, width);
    lemma_rows_at(b, width);
    if a > 0 {
        vstd::arithmetic::div_mod::lemma_div_is_ordered(a + width - 1, b + width - 1, width);
    }
}

proof fn lemma_rows_by_columns(lines: Seq<Seq<char>>, n: int, width: int)
    requires
        0 <= n <= lines.len(),
        width >= 1,
    ensures
        rows_sum(lines, n, width, by_columns()) <= rows_sum(lines, n, width, by_weight()),
    decreases n,
{
    if n > 0 {
        lemma_rows_by_columns(lines, n - 1, width);
        lemma_line_weight(lines[n - 1]);
        lemma_rows_at_grows(
            text::columns_sum(lines[n - 1]),
            line_weight(lines[n - 1]),
            width,
        );
    }
}

proof fn lemma_rows_by_length(lines: Seq<Seq<char>>, n: int, width: int)
    requires
        0 <= n <= lines.len(),
        forall|k: int| 0 <= k < lines.len() ==> strs::all_ascii(#[trigger] lines[k]),
    ensures
        rows_sum(lines, n, width, by_length()) == rows_sum(lines, n, width, by_weight()),
    decreases n,
{
    if n > 0 {
        lemma_rows_by_length(lines, n - 1, width);
        let line = lines[n - 1];
        assert(strs::all_ascii(line));
        assert forall|i: int| 0 <= i < line.len() implies text::columns(#[trigger] line[i]) <= 1 by {
            assert(strs::is_ascii_char(line[i]));
        }
        lemma_line_weight(line);
    }
}

proof fn lemma_ascii_lines(s: Seq<char>, i: int)
    requires
        strs::all_ascii(s),
        0 <= i,
    ensures
        forall|k: int|
            0 <= k < text::lines_from(s, i).len() ==> strs::all_ascii(
                #[trigger] text::lines_from(s, i)[k],
            ),
    decreases s.len() - i,
{
    if i < s.len() {
        let k = text::line_end(s, i);
        lemma_line_end(s, i);
        let line = text::line_content(s, i, k);
        assert(strs::all_ascii(line)) by {
            assert forall|m: int| 0 <= m < line.len() implies strs::is_ascii_char(
                #[trigger] line[m],
            ) by {
                assert(line[m] == s[i + m]);
            }
        }
        if k < s.len() {
            lemma_ascii_lines(s, k + 1);
        }
        assert forall|m: int| 0 <= m < text::lines_from(s, i).len() implies strs::all_ascii(
            #[trigger] text::lines_from(s, i)[m],
        ) by {
            if m > 0 {
                assert(text::lines_from(s, i)[m] == text::lines_from(s, k + 1)[m - 1]);
            }
        }
    }
}

proof fn lemma_line_end(s: Seq<char>, i: int)
    requires
        0 <= i <= s.len(),
    ensures
        i <= text::line_end(s, i) <= s.len(),
    decreases s.len() - i,
{
    if i < s.len() && s[i] != '\n' {
        lemma_line_end(s, i + 1);
    }
}

proof fn lemma_rows_at(len: int, width: int)
    requires
        0 <= len,
        width >= 1,
    ensures
        rows_at(len, width) >= 1,
        len > 0 && len % width == 0 ==> rows_at(len, width) == len / width,
        len % width != 0 ==> rows_at(len, width) == len / width + 1,
{
    let q = len / width;
    let r = len % width;
    vstd::arithmetic::div_mod::lemma_fundamental_div_mod(len, width);
    vstd::arithmetic::div_mod::lemma_div_pos_is_pos(len, width);
    if r == 0 {
        if len > 0 {
            vstd::arithmetic::div_mod::lemma_fundamental_div_mod_converse(
                len + width - 1,
                width,
                q,
                width - 1,
            );
            if q == 0 {
                assert(width * q == 0) by (nonlinear_arith)
                    requires
                        q == 0,
                ;
            }
        } else {
            vstd::arithmetic::div_mod::lemma_small_mod(0nat, width as nat);
        }
    } else {
        assert(len + width - 1 == width * (q + 1) + (r - 1)) by (nonlinear_arith)
            requires
                len == width * q + r,
        ;
        assert(width * (q + 1) == (q + 1) * width) by (nonlinear_arith);
        vstd::arithmetic::div_mod::lemma_fundamental_div_mod_converse(
            len + width - 1,
            width,
            q + 1,
            r - 1,
        );
        if len == 0 {
            vstd::arithmetic::div_mod::lemma_small_mod(0nat, width as nat);
        }
    }
}

fn weigh(line: &str) -> (r: u128)
    ensures
        r == line_weight(line@),
{
    let v = chars_of(line);
    let mut sum: u128 = 0;
    let mut i: usize = 0;
    assert(v@.take(0) =~= Seq::<char>::empty());
    while i < v.len()
        invariant
            i <= v@.len(),
            sum == line_weight(v@.take(i as int)),
            sum <= 509 * i,
        decreases v@.len() - i,
    {
        let c = text::columns_of(v[i]);
        assert(v@.take(i + 1).drop_last() =~= v@.take(i as int));
        assert(c <= 255);
        sum = sum + if c <= 1 {
            1
        } else {
            2 * c as u128 - 1
        };
        i = i + 1;
    }
    assert(v@.take(i as int) =~= v@);
    sum
}

/// How many rows `text` occupies once wrapped to `width` columns, as far as a
/// `usize` can say.
///
/// It counts characters, which is right for ASCII, and only ever over-estimates
/// for wider glyphs, so that the end of the text stays within reach.
pub fn wrapped_rows(text: &str, width: u16) -> (r: usize)
    ensures
        r == draw::least(wrapped(text@, width as int), usize::MAX as int),
        r >= draw::least(wrapped_by(text@, width as int, by_columns()), usize::MAX as int),
        strs::all_ascii(text@) ==> r == draw::least(
            wrapped_by(text@, width as int, by_length()),
            usize::MAX as int,
        ),
{
    let lines = text::lines(text);
    let ghost all = strs::texts(lines@);
    let cols: u128 = if width < 1 {
        1
    } else {
        width as u128
    };
    let mut sum: usize = 0;
    let mut i: usize = 0;
    while i < lines.len()
        invariant
            i <= lines@.len(),
            all == strs::texts(lines@),
            cols >= 1,
            sum == draw::least(
                rows_sum(all, i as int, cols as int, by_weight()),
                usize::MAX as int,
            ),
        decreases lines@.len() - i,
    {
        let len: u128 = weigh(lines[i].as_str());
        proof {
            assert(all[i as int] == lines@[i as int]@);
            lemma_rows_at(len as int, cols as int);
            lemma_rows_sum(all, i as int, cols as int);
            lemma_quotient_fits(len as int, cols as int);
        }
        let rows: u128 = if len == 0 {
            1
        } else if len % cols == 0 {
            len / cols
        } else {
            len / cols + 1
        };
        assert(rows == rows_at(line_weight(all[i as int]), cols as int));
        sum = if rows > (usize::MAX - sum) as u128 {
            usize::MAX
        } else {
            sum + rows as usize
        };
        i = i + 1;
    }
    proof {
        law_rows_never_fall_short(text@, width as int);
        law_ascii_rows_count_characters(text@, width as int);
    }
    if sum < 1 {
        1
    } else {
        sum
    }
}

proof fn lemma_quotient_fits(len: int, width: int)
    requires
        0 <= len,
        width >= 1,
    ensures
        0 <= len / width <= len,
        len % width != 0 ==> len / width < len,
{
    vstd::arithmetic::div_mod::lemma_fundamental_div_mod(len, width);
    vstd::arithmetic::div_mod::lemma_div_pos_is_pos(len, width);
    vstd::arithmetic::div_mod::lemma_mod_bound(len, width);
    let q = len / width;
    assert(width * q >= q) by (nonlinear_arith)
        requires
            width >= 1,
            q >= 0,
    ;
}

/// The two lines that stand in for a source without a text form, saying which
/// of the reasons applies.
pub open spec fn undisplayable(source: ProgramSource, theme: Theme) -> Seq<Seq<draw::SpanView>> {
    match source.payload() {
        Some(bytes) => seq![
            if source.runtime == Runtime::Wasm {
                draw::one("a wasm binary — nothing to read here"@, theme.muted_spec())
            } else {
                draw::one("this program's source is not readable text"@, theme.warning_spec())
            },
            draw::one(
                strs::decimal(bytes.len()) + " bytes · w saves it to a file"@,
                theme.muted_spec(),
            ),
        ],
        None => seq![
            draw::one(SourceError::message_text(), theme.error_spec()),
            draw::one(
                "the server sent a source this client cannot decode"@,
                theme.muted_spec(),
            ),
        ],
    }
}

/// The two lines that stand in for a source without a text form.
pub fn undisplayable_source_lines(source: &ProgramSource, theme: &Theme) -> (r: Vec<Line>)
    ensures
        draw::line_views(r@) == undisplayable(*source, *theme),
{
    let mut lines: Vec<Line> = Vec::new();
    match source.bytes() {
        Ok(bytes) => {
            if source.runtime.is_binary() {
                push_line(
                    &mut lines,
                    Line::of("a wasm binary — nothing to read here", theme.muted_style()),
                );
            } else {
                push_line(
                    &mut lines,
                    Line::of("this program's source is not readable text", theme.warning_style()),
                );
            }
            let mut size = decimal_text(bytes.len() as u64);
            size.append(" bytes · w saves it to a file");
            push_line(&mut lines, Line::single(size, theme.muted_style()));
        },
        Err(e) => {
            push_line(&mut lines, Line::single(e.user_message(), theme.error_style()));
            push_line(
                &mut lines,
                Line::of("the server sent a source this client cannot decode", theme.muted_style()),
            );
        },
    }
    assert(draw::line_views(lines@) =~= undisplayable(*source, *theme));
    lines
}

/// Each text on a line of its own, in one style.
pub open spec fn styled_lines(texts: Seq<Seq<char>>, n: int, style: Style) -> Seq<
    Seq<draw::SpanView>,
> {
    Seq::new(n as nat, |i: int| draw::one(texts[i], style))
}

/// The lines of the source view, and the rows they take at `width` columns.
pub open spec fn source_body(
    source: Option<ProgramSource>,
    loading: bool,
    error: Option<String>,
    width: int,
    theme: Theme,
) -> (Seq<Seq<draw::SpanView>>, int) {
    if loading {
        (seq![draw::one("loading…"@, theme.accent_spec())], 1)
    } else if let Some(msg) = error {
        (seq![draw::one(msg@, theme.error_spec())], 1)
    } else {
        match source {
            Some(fetched) => match fetched.readable() {
                Some(t) => {
                    let lines = text::lines_from(t, 0);
                    (
                        styled_lines(lines, lines.len() as int, theme.base_spec()),
                        wrapped(t, width),
                    )
                },
                None => (undisplayable(fetched, theme), 2),
            },
            None => (seq![draw::one("no source"@, theme.muted_spec())], 1),
        }
    }
}

/// Whether the source view shows text that scrolls.
pub open spec fn scrolls(
    source: Option<ProgramSource>,
    loading: bool,
    error: Option<String>,
) -> bool {
    !loading && error is None && source is Some && source->Some_0.readable() is Some
}

/// The largest useful scroll offset of so many rows in a pane.
pub open spec fn scroll_limit(rows: int, pane: int) -> int {
    draw::least(draw::less(rows, pane), u16::MAX as int)
}

/// A pane of text and the row it is scrolled to.
#[derive(Debug)]
pub struct SourcePane {
    pub lines: Vec<Line>,
    pub scroll: u16,
    pub max_scroll: u16,
}

fn styled_block(texts: &Vec<String>, style: Style) -> (lines: Vec<Line>)
    ensures
        draw::line_views(lines@) == styled_lines(
            strs::texts(texts@),
            texts@.len() as int,
            style,
        ),
{
    let mut lines: Vec<Line> = Vec::new();
    let ghost all = strs::texts(texts@);
    let mut i: usize = 0;
    assert(draw::line_views(lines@) =~= styled_lines(all, 0, style));
    while i < texts.len()
        invariant
            i <= texts@.len(),
            all == strs::texts(texts@),
            draw::line_views(lines@) == styled_lines(all, i as int, style),
        decreases texts@.len() - i,
    {
        push_line(&mut lines, Line::of(texts[i].as_str(), style));
        i = i + 1;
        assert(draw::line_views(lines@) =~= styled_lines(all, i as int, style));
    }
    lines
}

fn source_pane(
    source: &Option<ProgramSource>,
    loading: bool,
    error: &Option<String>,
    scroll: u16,
    width: u16,
    height: u16,
    theme: &Theme,
) -> (p: SourcePane)
    ensures
        ({
            let (lines, rows) = source_body(*source, loading, *error, width as int, *theme);
            &&& draw::line_views(p.lines@) == lines
            &&& p.max_scroll == scroll_limit(rows, height as int)
            &&& p.scroll == if scrolls(*source, loading, *error) {
                scroll
            } else {
                0
            }
        }),
{
    let mut rows: usize = 1;
    let mut shown: u16 = 0;
    let mut lines: Vec<Line> = Vec::new();
    if loading {
        push_line(&mut lines, Line::of("loading…", theme.accent_style()));
    } else if let Some(msg) = error {
        push_line(&mut lines, Line::of(msg.as_str(), theme.error_style()));
    } else if let Some(fetched) = source {
        match fetched.text() {
            Some(t) => {
                rows = wrapped_rows(t.as_str(), width);
                shown = scroll;
                let parts = text::lines(t.as_str());
                assert(strs::texts(parts@).len() == parts@.len());
                lines = styled_block(&parts, theme.base());
            },
            None => {
                rows = 2;
                lines = undisplayable_source_lines(fetched, theme);
            },
        }
    } else {
        push_line(&mut lines, Line::of("no source", theme.muted_style()));
    }
    assert(draw::line_views(lines@) =~= source_body(
        *source,
        loading,
        *error,
        width as int,
        *theme,
    ).0);
    let pane: usize = height as usize;
    let over: usize = if rows > pane {
        rows - pane
    } else {
        0
    };
    let max_scroll: u16 = if over > u16::MAX as usize {
        u16::MAX
    } else {
        over as u16
    };
    SourcePane { lines, scroll: shown, max_scroll }
}

/// The label and the value of the first `n` fields of the form; the focused text
/// field shows its end and a caret.
pub open spec fn field_rows(form: PublishView, n: int, width: int, theme: Theme) -> Seq<
    Seq<draw::SpanView>,
>
    decreases n,
{
    if n <= 0 {
        Seq::empty()
    } else {
        let field = PublishField::ALL@[n - 1];
        let focused = form.field() == field;
        let value = form.value(field);
        field_rows(form, n - 1, width, theme).push(
            draw::one(
                field.label_spec(),
                if focused {
                    theme.accent_spec()
                } else {
                    theme.muted_spec()
                },
            ),
        ).push(
            if focused && field != PublishField::Runtime {
                input::windowed(value, value.len() as int, width, theme)
            } else {
                draw::one(value, theme.base_spec())
            },
        )
    }
}

fn publish_rows(form: &PublishForm, width: u16, theme: &Theme) -> (rows: Vec<Line>)
    ensures
        draw::line_views(rows@) == field_rows(form@, 5, width as int, *theme),
{
    let mut rows: Vec<Line> = Vec::new();
    let mut i: usize = 0;
    assert(draw::line_views(rows@) =~= field_rows(form@, 0, width as int, *theme));
    while i < 5
        invariant
            i <= 5,
            draw::line_views(rows@) == field_rows(form@, i as int, width as int, *theme),
        decreases 5 - i,
    {
        let field = PublishField::ALL[i];
        let focused = form.focused_field() == field;
        let style = if focused {
            theme.accent_style()
        } else {
            theme.muted_style()
        };
        push_line(&mut rows, Line::of(field.label(), style));
        let value = form.value_of(field);
        if focused && field != PublishField::Runtime {
            let end: usize = chars_of(value.as_str()).len();
            push_line(&mut rows, windowed_line(value.as_str(), end, width as usize, theme));
        } else {
            push_line(&mut rows, Line::single(value, theme.base()));
        }
        i = i + 1;
    }
    rows
}

pub open spec fn form_status(form: PublishView, theme: Theme) -> Seq<draw::SpanView> {
    if form.submitting {
        draw::one("publishing…"@, theme.accent_spec())
    } else {
        match form.error {
            Some(msg) => draw::one(msg, theme.error_spec()),
            None => draw::one(
                "tab focus · space cycles runtime · enter/ctrl+d publish · esc cancel"@,
                theme.muted_spec(),
            ),
        }
    }
}

/// The question, and what the answer means.
pub open spec fn confirm_lines(name: Seq<char>, purge: bool, theme: Theme) -> Seq<
    Seq<draw::SpanView>,
> {
    if purge {
        seq![
            draw::one("Delete the record for "@ + name + "?"@, theme.error_spec()),
            draw::one(
                "Irreversible. The release history goes with it, and the slot it holds against your program count is freed. Copies other members installed are unaffected."@,
                theme.muted_spec(),
            ),
        ]
    } else {
        seq![
            draw::one("Take "@ + name + " out of the gallery?"@, theme.warning_spec()),
            draw::one(
                "The release history stays and publishing again resumes from the next version, so this can be undone. It does not free the slot the program holds against your count — D does that."@,
                theme.muted_spec(),
            ),
        ]
    }
}

fn confirm_block(name: &str, purge: bool, theme: &Theme) -> (lines: Vec<Line>)
    ensures
        draw::line_views(lines@) == confirm_lines(name@, purge, *theme),
{
    let mut lines: Vec<Line> = Vec::new();
    if purge {
        let mut s = "Delete the record for ".to_owned();
        s.append(name);
        s.append("?");
        push_line(&mut lines, Line::single(s, theme.error_style()));
        push_line(
            &mut lines,
            Line::of(
                "Irreversible. The release history goes with it, and the slot it holds against your program count is freed. Copies other members installed are unaffected.",
                theme.muted_style(),
            ),
        );
    } else {
        let mut s = "Take ".to_owned();
        s.append(name);
        s.append(" out of the gallery?");
        push_line(&mut lines, Line::single(s, theme.warning_style()));
        push_line(
            &mut lines,
            Line::of(
                "The release history stays and publishing again resumes from the next version, so this can be undone. It does not free the slot the program holds against your count — D does that.",
                theme.muted_style(),
            ),
        );
    }
    assert(draw::line_views(lines@) =~= confirm_lines(name@, purge, *theme));
    lines
}

/// What the pane shows, by mode.
#[derive(Debug)]
pub enum ProgramsPane {
    Gallery(ListBody),
    Source(SourcePane),
    /// The label and the field of the save prompt.
    Save(Vec<Line>),
    /// A label and a value for each field.
    Publish(Vec<Line>),
    Confirm(Vec<Line>),
}

/// What one render shows.
#[derive(Debug)]
pub struct ProgramsFrame {
    pub title: Line,
    pub pane: ProgramsPane,
    pub status: Line,
}

impl ProgramsView {
    pub open spec fn title_text(self) -> Seq<char> {
        if self.save_prompt is Some {
            " cs-tui • save program source "@
        } else {
            match self.mode {
                ModeView::Gallery => " cs-tui • programs • "@ + self.scope.label_spec()
                    + " • runtime: "@ + runtime_text(filter_at(self.runtime_filter)) + " "@,
                ModeView::Source { program, release, .. } => " cs-tui • "@ + program.name@
                    + " by @"@ + program.owner_username@ + " • v"@ + strs::decimal(
                    (match release {
                        Some(n) => n,
                        None => program.release,
                    }) as nat,
                ) + " "@,
                ModeView::Publish(_) => " cs-tui • publish a program "@,
                ModeView::ConfirmRecall { .. } => " cs-tui • programs "@,
            }
        }
    }

    pub open spec fn status_shown(self, theme: Theme) -> Seq<draw::SpanView> {
        if self.save_prompt is Some {
            draw::one("enter save · esc cancel"@, theme.muted_spec())
        } else {
            match self.mode {
                ModeView::Gallery => match list::more_error_text(self.list) {
                    Some(msg) => draw::one(msg, theme.error_spec()),
                    None => draw::one(status_text(self), theme.muted_spec()),
                },
                ModeView::Source { .. } => draw::one(
                    "j/k/PgUp/PgDn/g/G scroll · , . releases · w save to a file · esc back"@,
                    theme.muted_spec(),
                ),
                ModeView::Publish(form) => form_status(form, theme),
                ModeView::ConfirmRecall { .. } => draw::one(
                    "y confirms · esc cancels"@,
                    theme.muted_spec(),
                ),
            }
        }
    }

    /// Whether a pane `width` by `height` cells shows this screen.
    pub open spec fn shown_by(
        self,
        pane: ProgramsPane,
        width: int,
        height: int,
        theme: Theme,
        cfg: Config,
    ) -> bool {
        if let Some(path) = self.save_prompt {
            pane matches ProgramsPane::Save(lines) && draw::line_views(lines@) == seq![
                draw::one("write to"@, theme.accent_spec()),
                input::windowed(path, path.len() as int, width, theme),
            ]
        } else {
            match self.mode {
                ModeView::Gallery => pane matches ProgramsPane::Gallery(body) && body@
                    == list::body_of(
                    self.list,
                    program_rows(self.list.items, self.list.items.len() as int, theme),
                    match self.scope {
                        Scope::Gallery => "no programs published yet"@,
                        Scope::Mine => "you have not published a program · P to publish one"@,
                    },
                    theme,
                    cfg.selection,
                ),
                ModeView::Source { source, loading, error, scroll, .. } => {
                    let (lines, rows) = source_body(source, loading, error, width, theme);
                    &&& pane matches ProgramsPane::Source(p)
                    &&& draw::line_views(p.lines@) == lines
                    &&& p.max_scroll == scroll_limit(rows, height)
                    &&& p.scroll == if scrolls(source, loading, error) {
                        scroll
                    } else {
                        0
                    }
                },
                ModeView::Publish(form) => pane matches ProgramsPane::Publish(lines)
                    && draw::line_views(lines@) == field_rows(form, 5, width, theme),
                ModeView::ConfirmRecall { name, purge, .. } => pane matches ProgramsPane::Confirm(
                    lines,
                ) && draw::line_views(lines@) == confirm_lines(name@, purge, theme),
            }
        }
    }

    /// The screen after a render: the source view knows how far it scrolls.
    pub open spec fn measured(self, width: int, height: int, theme: Theme) -> ProgramsView {
        match self.mode {
            ModeView::Source { program, release, source, loading, error, scroll, max_scroll } => {
                if self.save_prompt is Some {
                    self
                } else {
                    ProgramsView {
                        mode: ModeView::Source {
                            program,
                            release,
                            source,
                            loading,
                            error,
                            scroll,
                            max_scroll: scroll_limit(
                                source_body(source, loading, error, width, theme).1,
                                height,
                            ),
                        },
                        ..self
                    }
                }
            },
            _ => self,
        }
    }
}

impl ProgramsScreen {
    fn title(&self) -> (r: String)
        ensures
            r@ == self@.title_text(),
    {
        if self.save_prompt.is_some() {
            return " cs-tui • save program source ".to_owned();
        }
        match &self.mode {
            ProgramsMode::Gallery => {
                let mut t = " cs-tui • programs • ".to_owned();
                t.append(self.scope.label());
                t.append(" • runtime: ");
                t.append(runtime_label(filter_of(self.runtime_filter)));
                t.append(" ");
                t
            },
            ProgramsMode::Source { program, release, .. } => {
                let shown: u32 = match release {
                    Some(n) => *n,
                    None => program.release,
                };
                let mut t = " cs-tui • ".to_owned();
                t.append(program.name.as_str());
                t.append(" by @");
                t.append(program.owner_username.as_str());
                t.append(" • v");
                t.append(decimal_text(shown as u64).as_str());
                t.append(" ");
                t
            },
            ProgramsMode::Publish(_) => " cs-tui • publish a program ".to_owned(),
            ProgramsMode::ConfirmRecall { .. } => " cs-tui • programs ".to_owned(),
        }
    }

    fn status(&self, theme: &Theme) -> (r: Line)
        ensures
            r@ == self@.status_shown(*theme),
    {
        if self.save_prompt.is_some() {
            return Line::of("enter save · esc cancel", theme.muted_style());
        }
        match &self.mode {
            ProgramsMode::Gallery => match list::load_more_error(&self.list) {
                Some(msg) => Line::single(msg, theme.error_style()),
                None => Line::single(gallery_status(self), theme.muted_style()),
            },
            ProgramsMode::Source { .. } => Line::of(
                "j/k/PgUp/PgDn/g/G scroll · , . releases · w save to a file · esc back",
                theme.muted_style(),
            ),
            ProgramsMode::Publish(form) => {
                if form.submitting {
                    return Line::of("publishing…", theme.accent_style());
                }
                match &form.error {
                    Some(msg) => Line::of(msg.as_str(), theme.error_style()),
                    None => Line::of(
                        "tab focus · space cycles runtime · enter/ctrl+d publish · esc cancel",
                        theme.muted_style(),
                    ),
                }
            },
            ProgramsMode::ConfirmRecall { .. } => Line::of(
                "y confirms · esc cancels",
                theme.muted_style(),
            ),
        }
    }

    fn render_gallery(&self, theme: &Theme, cfg: &Config) -> (b: ListBody)
        ensures
            b@ == list::body_of(
                self@.list,
                program_rows(self@.list.items, self@.list.items.len() as int, *theme),
                match self@.scope {
                    Scope::Gallery => "no programs published yet"@,
                    Scope::Mine => "you have not published a program · P to publish one"@,
                },
                *theme,
                cfg.selection,
            ),
    {
        let mut rows: Vec<Vec<Line>> = Vec::new();
        let mut i: usize = 0;
        assert(draw::block_views(rows@) =~= program_rows(self@.list.items, 0, *theme));
        while i < self.list.items.len()
            invariant
                i <= self.list.items@.len(),
                draw::block_views(rows@) == program_rows(self@.list.items, i as int, *theme),
            decreases self.list.items@.len() - i,
        {
            push_block(&mut rows, program_row(&self.list.items[i], theme));
            i = i + 1;
            assert(draw::block_views(rows@) =~= program_rows(
                self@.list.items,
                i as int,
                *theme,
            ));
        }
        let empty = match self.scope {
            Scope::Gallery => "no programs published yet",
            Scope::Mine => "you have not published a program · P to publish one",
        };
        list::render_body(&self.list, rows, empty, theme, cfg.selection)
    }

    /// What the screen shows in a pane `width` by `height` cells; the source
    /// view learns how far it scrolls.
    pub fn render(&mut self, width: u16, height: u16, theme: &Theme, cfg: &Config) -> (f:
        ProgramsFrame)
        ensures
            f.title@ == draw::one(old(self)@.title_text(), theme.heading_spec()),
            f.status@ == old(self)@.status_shown(*theme),
            old(self)@.shown_by(f.pane, width as int, height as int, *theme, *cfg),
            final(self)@ == old(self)@.measured(width as int, height as int, *theme),
    {
        let title = Line::single(self.title(), theme.heading_style());
        let status = self.status(theme);
        if let Some(path) = &self.save_prompt {
            let mut lines: Vec<Line> = Vec::new();
            push_line(&mut lines, Line::of("write to", theme.accent_style()));
            let end: usize = chars_of(path.as_str()).len();
            push_line(&mut lines, windowed_line(path.as_str(), end, width as usize, theme));
            assert(draw::line_views(lines@) =~= seq![
                draw::one("write to"@, theme.accent_spec()),
                input::windowed(path@, path@.len() as int, width as int, *theme),
            ]);
            return ProgramsFrame { title, pane: ProgramsPane::Save(lines), status };
        }
        let pane = match self.take_mode() {
            ProgramsMode::Gallery => ProgramsPane::Gallery(self.render_gallery(theme, cfg)),
            ProgramsMode::Source {
                program,
                release,
                source,
                loading,
                error,
                scroll,
                max_scroll,
            } => {
                let pane = source_pane(&source, loading, &error, scroll, width, height, theme);
                self.mode = ProgramsMode::Source {
                    program,
                    release,
                    source,
                    loading,
                    error,
                    scroll,
                    max_scroll: pane.max_scroll,
                };
                ProgramsPane::Source(pane)
            },
            ProgramsMode::Publish(form) => {
                let lines = publish_rows(&form, width, theme);
                self.mode = ProgramsMode::Publish(form);
                ProgramsPane::Publish(lines)
            },
            ProgramsMode::ConfirmRecall { program_id, name, purge } => {
                let lines = confirm_block(name.as_str(), purge, theme);
                self.mode = ProgramsMode::ConfirmRecall { program_id, name, purge };
                ProgramsPane::Confirm(lines)
            },
        };
        ProgramsFrame { title, pane, status }
    }
}

// ---------------------------------------------------------------------------
// Laws.
// ---------------------------------------------------------------------------

/// A confirmation is only ever opened on a row that came from one's own
/// listing and that no moderator took down.
pub proof fn law_only_own_programs_are_recalled(s: ProgramsView, key: KeyEvent)
    requires
        !(s.mode is ConfirmRecall),
        s.keyed(key).0.mode is ConfirmRecall,
    ensures
        s.loaded_scope == Scope::Mine,
        s.keyed(key).0.selected() matches Some(p) && p.taken_down != Some(true),
{
}

/// Nothing is recalled or deleted but by `y` on the confirmation.
pub proof fn law_recall_takes_a_confirmation(s: ProgramsView, key: KeyEvent)
    requires
        s.keyed(key).1 is Recall,
    ensures
        s.mode is ConfirmRecall,
        key.code == KeyCode::Char('y') || key.code == KeyCode::Char('Y'),
{
}

/// What is published meets the registry's rules on names and descriptions.
pub proof fn law_published_forms_are_valid(s: ProgramsView, key: KeyEvent)
    ensures
        s.keyed(key).1 matches ProgramsIntentView::Publish {
            name,
            description,
            source_path,
            ..
        } ==> 0 < name.len() <= MAX_PROGRAM_NAME_LEN && name_chars(name) && 0 < description.len()
            <= MAX_PROGRAM_DESCRIPTION_LEN && source_path.len() > 0,
{
}

/// The form never lands on a runtime that cannot be published under.
pub proof fn law_runtime_cycle_is_known(f: PublishView)
    ensures
        f.next_runtime() != Runtime::Unknown,
{
}

/// The source never scrolls past what the last render measured.
pub proof fn law_source_scroll_is_clamped(code: KeyCode, scroll: int, max: int)
    requires
        0 <= scroll <= max,
    ensures
        scrolled(code, scroll, max) matches Some(to) ==> 0 <= to <= max,
{
}

/// The automatic chain spends its budget and stops when it is gone.
pub proof fn law_automatic_pages_are_bounded(s: ProgramsView)
    requires
        0 <= s.auto_pages_left <= MAX_AUTO_PAGES,
    ensures
        s.chases() ==> 0 <= s.settled().auto_pages_left < s.auto_pages_left
            && s.settled().list.loading,
        !s.chases() ==> s.settled() == s,
        s.auto_pages_left == 0 ==> !s.chases(),
        s.list.items.len() > 0 ==> !s.chases(),
{
}

/// A plain-text source is shown and saved as it was sent.
pub proof fn law_plain_sources_survive(source: ProgramSource)
    requires
        source.encoding@ != "base64"@,
    ensures
        source.payload() == Some(vstd::utf8::encode_utf8(source.source@)),
        source.runtime != Runtime::Wasm ==> source.readable() == Some(source.source@),
{
    vstd::utf8::encode_utf8_valid_utf8(source.source@);
    vstd::utf8::encode_utf8_decode_utf8(source.source@);
}

/// The count of rows is never less than what the columns of the characters
/// take.
pub proof fn law_rows_never_fall_short(text: Seq<char>, width: int)
    ensures
        wrapped_by(text, width, by_columns()) <= wrapped(text, width),
{
    let lines = text::lines_from(text, 0);
    lemma_rows_by_columns(
        lines,
        lines.len() as int,
        if width < 1 {
            1
        } else {
            width
        },
    );
}

/// On ASCII text the count of rows is by the characters.
pub proof fn law_ascii_rows_count_characters(text: Seq<char>, width: int)
    ensures
        strs::all_ascii(text) ==> wrapped(text, width) == wrapped_by(text, width, by_length()),
{
    if strs::all_ascii(text) {
        let lines = text::lines_from(text, 0);
        lemma_ascii_lines(text, 0);
        lemma_rows_by_length(
            lines,
            lines.len() as int,
            if width < 1 {
                1
            } else {
                width
            },
        );
    }
}

/// The rows from character `i` of a line on, when `used` columns of the row under
/// way are taken and a glyph that does not fit goes to the next row whole.
pub open spec fn broken_rows(line: Seq<char>, i: int, used: int, width: int) -> int
    decreases line.len() - i,
{
    if i < 0 || i >= line.len() {
        1
    } else {
        let c = text::columns(line[i]);
        if used > 0 && c > 0 && used + c > width {
            1 + broken_rows(line, i + 1, c, width)
        } else {
            broken_rows(line, i + 1, used + c, width)
        }
    }
}

/// A line broken at the edge of the pane takes no more rows than are counted for
/// it, wide glyphs that leave a column unused included.
pub proof fn law_broken_lines_are_counted(line: Seq<char>, width: int)
    requires
        width >= 1,
    ensures
        broken_rows(line, 0, 0, width) <= rows_at(line_weight(line), width),
{
    lemma_line_weight(line);
    lemma_broken_rows(line, 0, 0, width);
    assert(line.skip(0) =~= line);
    let w = line_weight(line);
    let n = broken_rows(line, 0, 0, width);
    if w > 0 {
        assert((n - 1) * width == width * (n - 1)) by (nonlinear_arith);
        assert(n * width == width * (n - 1) + width) by (nonlinear_arith);
        vstd::arithmetic::div_mod::lemma_div_is_ordered(n * width, w + width - 1, width);
        vstd::arithmetic::div_mod::lemma_div_by_multiple(n, width);
    }
}

proof fn lemma_weight_of_rest(line: Seq<char>, i: int)
    requires
        0 <= i < line.len(),
    ensures
        line_weight(line.skip(i)) == weight(line[i]) + line_weight(line.skip(i + 1)),
    decreases line.len() - i,
{
    let rest = line.skip(i);
    if rest.len() == 1 {
        assert(rest.drop_last() =~= Seq::<char>::empty());
        assert(line.skip(i + 1) =~= Seq::<char>::empty());
    } else {
        let short = line.drop_last();
        lemma_weight_of_rest(short, i);
        assert(rest.drop_last() =~= short.skip(i));
        assert(line.skip(i + 1).drop_last() =~= short.skip(i + 1));
    }
}

proof fn lemma_broken_rows(line: Seq<char>, i: int, used: int, width: int)
    requires
        0 <= i <= line.len(),
        0 <= used,
        width >= 1,
    ensures
        broken_rows(line, i, used, width) >= 1,
        used + line_weight(line.skip(i)) >= 1 ==> width * (broken_rows(line, i, used, width) - 1)
            + 1 <= used + line_weight(line.skip(i)),
        used + line_weight(line.skip(i)) == 0 ==> broken_rows(line, i, used, width) == 1,
    decreases line.len() - i,
{
    lemma_line_weight(line.skip(i));
    if i < line.len() {
        lemma_weight_of_rest(line, i);
        lemma_line_weight(line.skip(i + 1));
        let c = text::columns(line[i]);
        if used > 0 && c > 0 && used + c > width {
            lemma_broken_rows(line, i + 1, c, width);
            let m = broken_rows(line, i + 1, c, width);
            assert(width * (1 + m - 1) == width + width * (m - 1)) by (nonlinear_arith);
        } else {
            lemma_broken_rows(line, i + 1, used + c, width);
        }
    }
    assert(width * 0 == 0);
}

/// Enter on the listing opens the selected program's source and asks for its current
/// release.
pub proof fn law_enter_reads_the_selected_program(s: ProgramsView, key: KeyEvent)
    requires
        s.mode is Gallery,
        s.save_prompt is None,
        key.code == KeyCode::Enter,
        0 <= s.list.selected < s.list.items.len(),
    ensures
        ({
            let p = s.list.items[s.list.selected];
            let r = s.keyed(key);
            &&& r.1 == (ProgramsIntentView::LoadSource { program_id: p.id@, release: None })
            &&& r.0.mode matches ModeView::Source {
                program,
                release,
                source,
                loading,
                error,
                scroll,
                max_scroll,
            }
            &&& program == p && release is None && source is None && loading && error is None
                && scroll == 0
            &&& r.0.list == s.list
        }),
{
    assert(TabView { selected: s.list.selected, ..s.list } =~= s.list);
}

/// The other listing, and the next runtime, are asked for from an empty list; the same
/// listing is asked for anew without blanking it; the query says what the scope and
/// the filter are.
pub proof fn law_listings_are_asked_for(s: ProgramsView, key: KeyEvent)
    requires
        s.mode is Gallery,
        s.save_prompt is None,
        0 <= s.runtime_filter < 4,
    ensures
        ({
            let r = s.keyed(key);
            &&& key.code == KeyCode::Char('m') ==> {
                &&& s.scope is Gallery ==> r.0.scope is Mine
                &&& s.scope is Mine ==> r.0.scope is Gallery
                &&& r.0.runtime_filter == s.runtime_filter
                &&& r.0.list.items.len() == 0 && r.0.list.selected == 0
                    && r.0.list.next_cursor is None
            }
            &&& key.code == KeyCode::Char('t') ==> {
                &&& s.runtime_filter < 3 ==> r.0.runtime_filter == s.runtime_filter + 1
                &&& s.runtime_filter == 3 ==> r.0.runtime_filter == 0
                &&& r.0.scope == s.scope
                &&& r.0.list.items.len() == 0 && r.0.list.selected == 0
                    && r.0.list.next_cursor is None
            }
            &&& key.code == KeyCode::Char('r') ==> r.0.list.items == s.list.items && r.0.scope
                == s.scope && r.0.runtime_filter == s.runtime_filter
            &&& key.code == KeyCode::Char('m') || key.code == KeyCode::Char('t') || key.code
                == KeyCode::Char('r') ==> {
                &&& r.0.list.loading && r.0.list.error is None && r.0.auto_pages_left == 4
                &&& r.0.loaded_scope == s.loaded_scope
                &&& r.1 matches ProgramsIntentView::Reload { query }
                &&& query.mine == (r.0.scope is Mine)
                &&& r.0.runtime_filter == 0 ==> query.runtimes == Seq::<Runtime>::empty()
                &&& r.0.runtime_filter == 1 ==> query.runtimes == seq![Runtime::Web]
                &&& r.0.runtime_filter == 2 ==> query.runtimes == seq![Runtime::Term]
                &&& r.0.runtime_filter == 3 ==> query.runtimes == seq![Runtime::Wasm]
            }
        }),
{
}

/// A step goes to the neighbor, and at the end asks for what follows the cursor under
/// the same query.
pub proof fn law_steps_move_over_the_programs(s: ProgramsView, key: KeyEvent)
    requires
        s.mode is Gallery,
        s.save_prompt is None,
        0 <= s.list.selected < s.list.items.len(),
    ensures
        ({
            let r = s.keyed(key);
            let at = s.list.selected;
            let last = s.list.items.len() - 1;
            let down = key.code == KeyCode::Down || key.code == KeyCode::Char('j');
            let up = key.code == KeyCode::Up || key.code == KeyCode::Char('k');
            &&& down && at < last ==> r == (
                ProgramsView { list: TabView { selected: at + 1, ..s.list }, ..s },
                ProgramsIntentView::Nothing,
            )
            &&& up && at > 0 ==> r == (
                ProgramsView { list: TabView { selected: at - 1, ..s.list }, ..s },
                ProgramsIntentView::Nothing,
            )
            &&& down && at == last ==> (s.list.next_cursor matches Some(c) ==> r.0.list.loading
                && r.0.list.items == s.list.items && (r.1 matches ProgramsIntentView::LoadMore {
                query,
                before,
            } && before == c && query.mine == (s.scope is Mine) && query == s.query()))
            &&& down && at == last && s.list.next_cursor is None ==> r.1 is Nothing
        }),
{
}

/// A recall is asked about for the selected program, and only where the rows are one's
/// own, nobody took it down, and it is not out of the gallery already; deleting the
/// record may be asked about for one that is.
pub proof fn law_recalls_are_for_the_selected_program(s: ProgramsView, key: KeyEvent)
    requires
        s.mode is Gallery,
        s.save_prompt is None,
        0 <= s.list.selected < s.list.items.len(),
        key.code == KeyCode::Char('d') || key.code == KeyCode::Char('D'),
    ensures
        ({
            let p = s.list.items[s.list.selected];
            let purge = key.code == KeyCode::Char('D');
            let r = s.keyed(key);
            let allowed = s.loaded_scope is Mine && p.taken_down != Some(true) && (purge
                || p.is_published != Some(false));
            &&& allowed ==> r == (
                ProgramsView {
                    mode: ModeView::ConfirmRecall { program_id: p.id, name: p.name, purge },
                    ..s
                },
                ProgramsIntentView::Nothing,
            )
            &&& !allowed ==> r.0 == s && r.1 is Warn
        }),
{
    assert(TabView { selected: s.list.selected, ..s.list } =~= s.list);
}

/// `y` recalls the program that was asked about, in the way that was asked, and any
/// other key drops the question.
pub proof fn law_the_answer_is_for_the_question(
    s: ProgramsView,
    key: KeyEvent,
    id: String,
    name: String,
    purge: bool,
)
    requires
        s.mode == (ModeView::ConfirmRecall { program_id: id, name, purge }),
        s.save_prompt is None,
        !(key.code == KeyCode::Char('c') && key.control),
    ensures
        s.keyed(key).0.mode is Gallery,
        s.keyed(key).0.list.items == s.list.items,
        key.code == KeyCode::Char('y') || key.code == KeyCode::Char('Y') ==> s.keyed(key).1
            == (ProgramsIntentView::Recall { program_id: id@, purge }) && s.keyed(
            key,
        ).0.list.loading,
        key.code != KeyCode::Char('y') && key.code != KeyCode::Char('Y') ==> s.keyed(key).1
            is Nothing,
{
}

/// On the source, the keys scroll by a row, by ten and to the ends, walk to the release
/// before and after within those there are, and offer to save.
pub proof fn law_source_keys_scroll_and_walk(
    s: ProgramsView,
    key: KeyEvent,
    p: Program,
    release: Option<u32>,
    source: Option<ProgramSource>,
    loading: bool,
    error: Option<String>,
    scroll: int,
    max: int,
)
    requires
        s.mode == (ModeView::Source {
            program: p,
            release,
            source,
            loading,
            error,
            scroll,
            max_scroll: max,
        }),
        s.save_prompt is None,
        0 <= scroll <= max,
    ensures
        ({
            let r = s.keyed(key);
            let to: Option<int> = if key.code == KeyCode::Down || key.code == KeyCode::Char('j') {
                Some(
                    if scroll < max {
                        scroll + 1
                    } else {
                        max
                    },
                )
            } else if key.code == KeyCode::Up || key.code == KeyCode::Char('k') {
                Some(
                    if scroll > 0 {
                        scroll - 1
                    } else {
                        0
                    },
                )
            } else if key.code == KeyCode::PageDown {
                Some(
                    if scroll + 10 <= max {
                        scroll + 10
                    } else {
                        max
                    },
                )
            } else if key.code == KeyCode::PageUp {
                Some(
                    if scroll >= 10 {
                        scroll - 10
                    } else {
                        0
                    },
                )
            } else if key.code == KeyCode::Home || key.code == KeyCode::Char('g') {
                Some(0)
            } else if key.code == KeyCode::End || key.code == KeyCode::Char('G') {
                Some(max)
            } else {
                None
            };
            &&& to matches Some(t) ==> r.1 is Nothing && r.0.mode == (ModeView::Source {
                program: p,
                release,
                source,
                loading,
                error,
                scroll: t,
                max_scroll: max,
            })
            &&& key.code == KeyCode::Char(',') ==> (release matches Some(n) ==> n > 1 ==> r.1
                == (ProgramsIntentView::LoadSource {
                program_id: p.id@,
                release: Some((n - 1) as u32),
            }))
            &&& key.code == KeyCode::Char(',') ==> (release matches Some(n) ==> n <= 1 ==> r.0 == s
                && r.1 is Warn)
            &&& key.code == KeyCode::Char('.') ==> (release matches Some(n) ==> n < p.release
                ==> r.1 == (ProgramsIntentView::LoadSource {
                program_id: p.id@,
                release: Some((n + 1) as u32),
            }))
            &&& key.code == KeyCode::Char('.') ==> (release matches Some(n) ==> n >= p.release
                ==> r.0 == s && r.1 is Warn)
            &&& key.code == KeyCode::Char('w') ==> (source matches Some(f) ==> r.1 is Nothing
                && r.0.save_prompt == Some(save_path(f)))
        }),
{
}

/// A source is saved to the trimmed path as the bytes it stands for; a blank path and a
/// source that cannot be decoded are told; what is typed goes to the path.
pub proof fn law_sources_are_saved_as_their_bytes(
    s: ProgramsView,
    key: KeyEvent,
    path: Seq<char>,
    c: char,
)
    requires
        s.save_prompt == Some(path),
        !(key.code == KeyCode::Char('c') && key.control),
    ensures
        ({
            let r = s.keyed(key);
            let to = strs::trimmed(path);
            &&& key.code == KeyCode::Enter && to.len() == 0 ==> r.0 == s && r.1 is Warn
            &&& key.code == KeyCode::Enter && to.len() > 0 ==> r.0 == (ProgramsView {
                save_prompt: None,
                ..s
            })
            &&& key.code == KeyCode::Enter && to.len() > 0 ==> (s.mode matches ModeView::Source {
                source: Some(f),
                ..
            } ==> r.1 == (match f.payload() {
                Some(bytes) => ProgramsIntentView::SaveSource { path: to, bytes },
                None => ProgramsIntentView::Warn(SourceError::message_text()),
            }))
            &&& key.code == KeyCode::Char(c) && !key.control ==> r == (
                ProgramsView { save_prompt: Some(path.push(c)), ..s },
                ProgramsIntentView::Nothing,
            )
            &&& key.code is Char && key.control ==> r == (s, ProgramsIntentView::Nothing)
            &&& key.code == KeyCode::Backspace && path.len() > 0 ==> r == (
                ProgramsView { save_prompt: Some(path.drop_last()), ..s },
                ProgramsIntentView::Nothing,
            )
            &&& r.1 is SaveSource ==> key.code == KeyCode::Enter
        }),
{
}

/// The bytes of a source are what base64 encodes where it says so, and else its text;
/// and text that is plain reads as itself.
pub proof fn law_sources_are_decoded_by_their_encoding(f: ProgramSource)
    ensures
        f.encoding@ == "base64"@ ==> f.payload() == base64::decoded(f.source@),
        f.encoding@ != "base64"@ ==> f.payload() == Some(vstd::utf8::encode_utf8(f.source@)),
        f.runtime is Wasm ==> f.readable() is None,
        !(f.runtime is Wasm) ==> (f.payload() matches Some(b) ==> vstd::utf8::valid_utf8(b)
            ==> f.readable() == Some(vstd::utf8::decode_utf8(b))),
        !(f.runtime is Wasm) ==> (f.payload() matches Some(b) ==> !vstd::utf8::valid_utf8(b)
            ==> f.readable() is None),
        f.payload() is None ==> f.readable() is None,
{
}

/// The path that is offered is the program's name with the extension of its kind.
pub proof fn law_the_offered_path_names_the_program(f: ProgramSource)
    ensures
        f.runtime is Wasm ==> save_path(f).skip(save_path(f).len() - 5) == ".wasm"@,
        !(f.runtime is Wasm) ==> save_path(f).skip(save_path(f).len() - 3) == ".js"@,
        strs::trimmed(f.name@).len() > 0 ==> save_path(f).take(
            strs::trimmed(f.name@).len() as int,
        ) == strs::trimmed(f.name@) && save_path(f).len() == strs::trimmed(f.name@).len() + (
        if f.runtime is Wasm {
            5int
        } else {
            3
        }),
{
    reveal_strlit(".");
    reveal_strlit("wasm");
    reveal_strlit("js");
    reveal_strlit(".wasm");
    reveal_strlit(".js");
    reveal_strlit("program");
    let t = save_path(f);
    if f.runtime is Wasm {
        assert(t.skip(t.len() - 5) =~= ".wasm"@);
    } else {
        assert(t.skip(t.len() - 3) =~= ".js"@);
    }
    let stem = strs::trimmed(f.name@);
    if stem.len() > 0 {
        assert(t.take(stem.len() as int) =~= stem);
    }
}

/// In the form, a key goes to the focused field only: a character to its end, backspace
/// takes the last one off, the space turns the runtime, and the tab keys go round the
/// five fields.
pub proof fn law_the_form_edits_the_focused_field(f: PublishView, key: KeyEvent, c: char)
    requires
        !f.submitting,
        !key.control,
        0 <= f.focused < 5,
    ensures
        ({
            let r = f.keyed(key);
            let typed = key.code == KeyCode::Char(c);
            &&& typed && f.focused == 0 ==> r.0 == (PublishView { name: f.name.push(c), ..f })
            &&& typed && f.focused == 1 ==> r.0 == (PublishView {
                description: f.description.push(c),
                ..f
            })
            &&& typed && f.focused == 2 && c == ' ' ==> r.0 == (PublishView {
                runtime: if f.runtime is Web {
                    Runtime::Term
                } else if f.runtime is Term {
                    Runtime::Wasm
                } else {
                    Runtime::Web
                },
                ..f
            })
            &&& typed && f.focused == 2 && c != ' ' ==> r.0 == f
            &&& typed && f.focused == 3 ==> r.0 == (PublishView {
                source_path: f.source_path.push(c),
                ..f
            })
            &&& typed && f.focused == 4 ==> r.0 == (PublishView { note: f.note.push(c), ..f })
            &&& typed ==> r.1 is Nothing
            &&& key.code == KeyCode::Backspace && f.focused == 0 && f.name.len() > 0 ==> r.0 == (
            PublishView { name: f.name.drop_last(), ..f })
            &&& key.code == KeyCode::Backspace && f.focused == 1 && f.description.len() > 0 ==> r.0
                == (PublishView { description: f.description.drop_last(), ..f })
            &&& key.code == KeyCode::Backspace && f.focused == 3 && f.source_path.len() > 0 ==> r.0
                == (PublishView { source_path: f.source_path.drop_last(), ..f })
            &&& key.code == KeyCode::Backspace && f.focused == 4 && f.note.len() > 0 ==> r.0 == (
            PublishView { note: f.note.drop_last(), ..f })
            &&& key.code == KeyCode::Tab ==> r.0 == (PublishView {
                focused: if f.focused < 4 {
                    f.focused + 1
                } else {
                    0
                },
                ..f
            })
            &&& key.code == KeyCode::BackTab ==> r.0 == (PublishView {
                focused: if f.focused > 0 {
                    f.focused - 1
                } else {
                    4
                },
                ..f
            })
        }),
{
    assert(f.name + seq![c] =~= f.name.push(c));
    assert(f.description + seq![c] =~= f.description.push(c));
    assert(f.source_path + seq![c] =~= f.source_path.push(c));
    assert(f.note + seq![c] =~= f.note.push(c));
}

/// A form is sent, with every field trimmed and no blank note, exactly when its name,
/// description and path will do; else what is wrong is told and nothing is sent; and
/// one that is on its way is not sent again.
pub proof fn law_only_complete_forms_are_sent(f: PublishView, key: KeyEvent)
    requires
        (key.code == KeyCode::Enter && !key.control) || (key.code == KeyCode::Char('d')
            && key.control),
    ensures
        ({
            let r = f.keyed(key);
            let name = strs::trimmed(f.name);
            let description = strs::trimmed(f.description);
            let path = strs::trimmed(f.source_path);
            let note = strs::trimmed(f.note);
            let ok = 0 < name.len() <= 32 && (forall|i: int|
                0 <= i < name.len() ==> strs::ascii_alphanumeric(#[trigger] name[i]) || name[i]
                    == '.' || name[i] == '_' || name[i] == '-') && 0 < description.len() <= 256
                && path.len() > 0;
            &&& f.submitting ==> r == (f, ProgramsIntentView::Nothing)
            &&& !f.submitting && ok ==> r == (
                PublishView { submitting: true, error: None, ..f },
                ProgramsIntentView::Publish {
                    name,
                    description,
                    runtime: f.runtime,
                    note: if note.len() > 0 {
                        Some(note)
                    } else {
                        None
                    },
                    source_path: path,
                },
            )
            &&& !f.submitting && !ok ==> r.1 is Nothing && r.0.error is Some && r.0 == (
            PublishView { error: r.0.error, ..f })
        }),
{
    let name = strs::trimmed(f.name);
    assert(name_chars(name) == (forall|i: int|
        0 <= i < name.len() ==> strs::ascii_alphanumeric(#[trigger] name[i]) || name[i] == '.'
            || name[i] == '_' || name[i] == '-')) by {
        if name_chars(name) {
            assert forall|i: int| 0 <= i < name.len() implies strs::ascii_alphanumeric(
                #[trigger] name[i],
            ) || name[i] == '.' || name[i] == '_' || name[i] == '-' by {
                assert(name_char(name[i]));
            }
        }
    }
}

/// The form on the screen takes the keys, and a new one is blank.
pub proof fn law_the_form_takes_the_keys(s: ProgramsView, key: KeyEvent, f: PublishView)
    requires
        s.save_prompt is None,
        !(key.code == KeyCode::Char('c') && key.control),
    ensures
        s.mode == ModeView::Publish(f) ==> s.keyed(key) == (
            ProgramsView { mode: ModeView::Publish(f.keyed(key).0), ..s },
            f.keyed(key).1,
        ),
        s.mode is Gallery && key.code == KeyCode::Char('P') ==> s.keyed(key).1 is Nothing
            && s.keyed(key).0.mode == ModeView::Publish(
            PublishView {
                name: Seq::empty(),
                description: Seq::empty(),
                runtime: Runtime::Web,
                source_path: Seq::empty(),
                note: Seq::empty(),
                focused: 0,
                submitting: false,
                error: None,
            },
        ),
{
}

/// Escape closes the save prompt first, then the sub-mode, and is left to others at the
/// gallery.
pub proof fn law_escape_closes_one_thing(s: ProgramsView)
    ensures
        s.save_prompt is Some ==> s.escaped() == (ProgramsView { save_prompt: None, ..s }, true),
        s.save_prompt is None && s.mode is Gallery ==> s.escaped() == (s, false),
        s.save_prompt is None && !(s.mode is Gallery) ==> s.escaped() == (
            ProgramsView { mode: ModeView::Gallery, ..s },
            true,
        ),
{
}

/// A paste goes, on one line, to the path that is typed, or else to the focused field of
/// the form, and nowhere else.
pub proof fn law_a_paste_goes_to_the_field(s: ProgramsView, text: Seq<char>)
    ensures
        s.save_prompt matches Some(path) ==> s.pasted(text) == (ProgramsView {
            save_prompt: Some(path + input::collapsed_from(text, 0)),
            ..s
        }),
        s.save_prompt is None && !(s.mode is Publish) ==> s.pasted(text) == s,
        s.save_prompt is None ==> (s.mode matches ModeView::Publish(f) ==> f.focused == 0
            ==> s.pasted(text).mode == ModeView::Publish(
            PublishView { name: f.name + input::collapsed_from(text, 0), ..f },
        )),
        s.save_prompt is None ==> (s.mode matches ModeView::Publish(f) ==> f.focused == 2
            ==> s.pasted(text) == s),
{
}

/// A page that brings programs is kept; an empty one has the next fetched while the
/// budget lasts; the rows are one's own once a page of one's own listing arrived, and a
/// page that failed changes neither rows nor whose they are.
pub proof fn law_pages_bring_their_programs(
    s: ProgramsView,
    items: Vec<Program>,
    cursor: Option<String>,
    msg: String,
)
    requires
        0 <= s.auto_pages_left,
    ensures
        ({
            let (first, chase) = s.after_first(Ok((items, cursor)));
            &&& first.list.items == items@
            &&& first.list.next_cursor == strs::opt_text(cursor)
            &&& first.loaded_scope == s.scope && first.scope == s.scope
            &&& items@.len() > 0 ==> chase is None && !first.list.loading
            &&& items@.len() == 0 && s.auto_pages_left > 0 ==> chase == strs::opt_text(cursor)
                && first.list.loading == (cursor is Some)
            &&& s.auto_pages_left == 0 ==> chase is None
        }),
        ({
            let (more, chase) = s.after_page(Ok((items, cursor)));
            &&& more.list.items == s.list.items + items@
            &&& more.list.next_cursor == strs::opt_text(cursor)
            &&& more.loaded_scope == s.loaded_scope
            &&& s.list.items.len() + items@.len() > 0 ==> chase is None
            &&& s.list.items.len() + items@.len() == 0 && s.auto_pages_left > 0 ==> chase
                == strs::opt_text(cursor)
        }),
        ({
            let failed = s.after_first(Err(msg)).0;
            &&& failed.list.items == s.list.items
            &&& failed.loaded_scope == s.loaded_scope
            &&& failed.list.error == Some(msg@)
        }),
{
}

/// A source that arrives is shown from its top under its own release number, for the
/// program it was fetched for; one for another program changes nothing.
pub proof fn law_sources_land_on_their_program(
    s: ProgramsView,
    id: Seq<char>,
    f: ProgramSource,
    msg: String,
)
    ensures
        s.mode matches ModeView::Source {
            program,
            release,
            source,
            loading,
            error,
            scroll,
            max_scroll,
        } ==> {
            &&& program.id@ != id ==> s.with_source(id, Ok(f)) == s && s.with_source(id, Err(msg))
                == s
            &&& program.id@ == id ==> s.with_source(id, Ok(f)).mode == (ModeView::Source {
                program,
                release: Some(f.release),
                source: Some(f),
                loading: false,
                error: None,
                scroll: 0,
                max_scroll: 0,
            })
            &&& program.id@ == id ==> s.with_source(id, Err(msg)).mode == (ModeView::Source {
                program,
                release,
                source,
                loading: false,
                error: Some(msg),
                scroll,
                max_scroll,
            })
        },
        !(s.mode is Source) ==> s.with_source(id, Ok(f)) == s,
        s.with_source(id, Ok(f)).list == s.list,
{
}

/// The row of a program says its name, owner, kind and release, whether it was taken
/// down or is out of the gallery, and its description; there is one for each, in
/// order.
pub proof fn law_rows_tell_of_their_programs(items: Seq<Program>, theme: Theme, i: int)
    requires
        0 <= i < items.len(),
    ensures
        ({
            let p = items[i];
            let rows = program_rows(items, items.len() as int, theme);
            let row = rows[i];
            &&& rows.len() == items.len()
            &&& row.len() == 2
            &&& row[0][0].content == p.name@
            &&& row[0][1].content == " by @"@ + p.owner_username@
            &&& row[0][2].content == " · "@ + (match p.runtime {
                Runtime::Web => "web"@,
                Runtime::Term => "term"@,
                Runtime::Wasm => "wasm"@,
                Runtime::Unknown => "?"@,
            }) + " · v"@ + strs::decimal(p.release as nat)
            &&& p.taken_down == Some(true) ==> row[0][3].content == " · taken down"@
            &&& p.taken_down != Some(true) && p.is_published == Some(false) ==> row[0][3].content
                == " · not in the gallery"@
            &&& p.taken_down != Some(true) && p.is_published != Some(false) ==> row[0].len() == 3
            &&& strs::trimmed(p.description@).len() > 0 ==> row[1][0].content == seq![' ', ' ']
                + p.description@
        }),
{
    reveal_strlit("  ");
    assert("  "@ =~= seq![' ', ' ']);
}

/// The source is shown line for line where it can be read, and what stands in its way
/// is told where it cannot; the scroll reaches the last row.
pub proof fn law_sources_are_shown_line_by_line(
    f: ProgramSource,
    width: int,
    pane: int,
    theme: Theme,
    k: int,
)
    ensures
        ({
            let (lines, rows) = source_body(Some(f), false, None, width, theme);
            &&& f.readable() matches Some(t) ==> lines.len() == text::lines_from(t, 0).len() && (0
                <= k < lines.len() ==> lines[k].len() == 1 && lines[k][0].content
                == text::lines_from(t, 0)[k])
            &&& f.readable() is None ==> lines.len() == 2 && (f.payload() matches Some(b)
                ==> lines[1][0].content == strs::decimal(b.len())
                + " bytes · w saves it to a file"@)
            &&& 0 <= pane && rows <= u16::MAX && rows > pane ==> scroll_limit(rows, pane) + pane
                == rows
            &&& rows <= pane ==> scroll_limit(rows, pane) == 0
        }),
{
}

/// Each field of the form is shown under its label, and the focused label is picked
/// out.
pub proof fn law_the_form_shows_its_fields(f: PublishView, width: int, theme: Theme)
    requires
        0 <= f.focused < 5,
    ensures
        ({
            let rows = field_rows(f, 5, width, theme);
            &&& rows.len() == 10
            &&& f.focused != 0 ==> rows[1][0].content == f.name
            &&& f.focused != 1 ==> rows[3][0].content == f.description
            &&& rows[5][0].content == runtime_text(Some(f.runtime))
            &&& f.focused != 3 ==> rows[7][0].content == f.source_path
            &&& f.focused != 4 ==> rows[9][0].content == f.note
            &&& (rows[0][0].style == theme.accent_spec()) == (f.focused == 0
                || theme.accent_spec() == theme.muted_spec())
        }),
{
    reveal_with_fuel(field_rows, 6);
}

/// The question names the program that it is about.
pub proof fn law_the_question_names_the_program(name: Seq<char>, purge: bool, theme: Theme)
    ensures
        purge ==> confirm_lines(name, purge, theme)[0][0].content == "Delete the record for "@
            + name + "?"@,
        !purge ==> confirm_lines(name, purge, theme)[0][0].content == "Take "@ + name
            + " out of the gallery?"@,
{
}

/// A publish that went through closes the form and is told; one that failed keeps what
/// was typed, says why and can be sent again.
pub proof fn law_a_failed_publish_keeps_the_form(
    s: ProgramsView,
    f: PublishView,
    message: String,
)
    requires
        s.mode == ModeView::Publish(f),
    ensures
        s.published(Ok(message)).0.mode is Gallery,
        s.published(Ok(message)).1 == Some(message),
        s.published(Err(message)).1 is None,
        ({
            &&& s.published(Err(message)).0.mode matches ModeView::Publish(g)
            &&& g.name == f.name && g.description == f.description && g.source_path
                == f.source_path && g.note == f.note && g.runtime == f.runtime
            &&& !g.submitting && g.error == Some(message@)
        }),
        s.published(Ok(message)).0.list == s.list,
{
}

/// The screen starts on the gallery, loading, with every runtime.
pub proof fn law_programs_start_on_the_gallery()
    ensures
        ProgramsView::started().mode is Gallery,
        ProgramsView::started().scope is Gallery,
        ProgramsView::started().loaded_scope is Gallery,
        ProgramsView::started().runtime_filter == 0,
        ProgramsView::started().save_prompt is None,
        ProgramsView::started().list.loading,
        ProgramsView::started().list.items.len() == 0,
        ProgramsView::started().auto_pages_left == 4,
{
}

/// The title says what is on the screen: the prompt, the program that is read with its
/// owner and release, the form, or the listing with its scope and filter.
pub proof fn law_the_title_says_what_is_shown(s: ProgramsView)
    ensures
        s.save_prompt is Some ==> s.title_text() == " cs-tui • save program source "@,
        s.save_prompt is None && s.mode is Publish ==> s.title_text()
            == " cs-tui • publish a program "@,
        s.save_prompt is None && s.mode is Gallery ==> s.title_text() == " cs-tui • programs • "@
            + s.scope.label_spec() + " • runtime: "@ + runtime_text(filter_at(s.runtime_filter))
            + " "@,
        s.save_prompt is None ==> (s.mode matches ModeView::Source { program, release: Some(n), .. }
            ==> s.title_text() == " cs-tui • "@ + program.name@ + " by @"@ + program.owner_username@
            + " • v"@ + strs::decimal(n as nat) + " "@),
        s.save_prompt is None ==> (s.mode matches ModeView::Source { program, release: None, .. }
            ==> s.title_text() == " cs-tui • "@ + program.name@ + " by @"@ + program.owner_username@
            + " • v"@ + strs::decimal(program.release as nat) + " "@),
{
}

/// A render of a source learns how far it scrolls, and changes nothing else.
pub proof fn law_renders_only_measure(
    s: ProgramsView,
    width: int,
    height: int,
    theme: Theme,
)
    ensures
        s.measured(width, height, theme).list == s.list,
        s.measured(width, height, theme).scope == s.scope,
        s.measured(width, height, theme).save_prompt == s.save_prompt,
        !(s.mode is Source) ==> s.measured(width, height, theme) == s,
        s.save_prompt is None ==> (s.mode matches ModeView::Source {
            program,
            release,
            source,
            loading,
            error,
            scroll,
            max_scroll,
        } ==> s.measured(width, height, theme).mode == (ModeView::Source {
            program,
            release,
            source,
            loading,
            error,
            scroll,
            max_scroll: scroll_limit(source_body(source, loading, error, width, theme).1, height),
        })),
{
}

/// The form says that it is on its way, or else what is wrong with it.
pub proof fn law_the_form_says_what_is_wrong(f: PublishView, theme: Theme)
    ensures
        f.submitting ==> form_status(f, theme) == draw::one("publishing…"@, theme.accent_spec()),
        !f.submitting ==> (f.error matches Some(msg) ==> form_status(f, theme) == draw::one(
            msg,
            theme.error_spec(),
        )),
{
}

/// Until a source is here that is said, then why it is not; each takes one row, and so
/// does the word that there is none.
pub proof fn law_the_source_tells_its_state(
    source: Option<ProgramSource>,
    error: Option<String>,
    width: int,
    theme: Theme,
)
    ensures
        source_body(source, true, error, width, theme) == (
            seq![draw::one("loading…"@, theme.accent_spec())],
            1int,
        ),
        error matches Some(msg) ==> source_body(source, false, error, width, theme) == (
            seq![draw::one(msg@, theme.error_spec())],
            1int,
        ),
        error is None && source is None ==> source_body(source, false, error, width, theme) == (
            seq![draw::one("no source"@, theme.muted_spec())],
            1int,
        ),
        error is None ==> (source matches Some(f) ==> f.readable() is None ==> source_body(
            source,
            false,
            error,
            width,
            theme,
        ).1 == 2),
{
}

/// The status counts the programs that are loaded and says whether there are more.
pub proof fn law_the_status_counts_the_programs(s: ProgramsView)
    requires
        !s.list.loading || s.list.items.len() > 0,
    ensures
        ({
            let d = strs::decimal(s.list.items.len()) + " programs · "@ + (
            if s.list.next_cursor is Some {
                "n more"@
            } else {
                "end"@
            });
            d.len() <= status_text(s).len() && status_text(s).take(d.len() as int) == d
        }),
{
    let d = strs::decimal(s.list.items.len()) + " programs · "@ + (if s.list.next_cursor is Some {
        "n more"@
    } else {
        "end"@
    });
    assert(status_text(s).take(d.len() as int) =~= d);
}

} // verus!
