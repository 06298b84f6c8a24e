//! Login screen: email and password, submit, and what went wrong.
use vstd::prelude::*;

use crate::draw::{self, Line, Rect};
use crate::input::{self, collapse_newlines, windowed_line};
use crate::key::{KeyCode, KeyEvent};
use crate::strs::{self, chars_of, contains, repeat, to_ascii_lower, trim};
use crate::theme::Theme;

verus! {

/// A field of the form.
#[derive(Debug, Clone, Copy, PartialEq, Eq, Structural)]
pub enum Field {
    Email,
    Password,
}

/// What is asked of the shell.
#[derive(Debug, Clone, Copy, PartialEq, Eq, Structural)]
pub enum LoginIntent {
    /// Try to log in with what was typed.
    Submit,
    Quit,
    /// Nothing is asked.
    Nothing,
}

/// The screen.
#[derive(Debug)]
pub struct LoginScreen {
    pub email: String,
    pub password: String,
    pub focused: Field,
    pub error: Option<String>,
    pub submitting: bool,
}

/// What a [`LoginScreen`] holds.
#[verifier::ext_equal]
pub struct LoginView {
    pub email: Seq<char>,
    pub password: Seq<char>,
    pub focused: Field,
    pub error: Option<Seq<char>>,
    pub submitting: bool,
}

impl View for LoginScreen {
    type V = LoginView;

    open spec fn view(&self) -> LoginView {
        LoginView {
            email: self.email@,
            password: self.password@,
            focused: self.focused,
            error: strs::opt_text(self.error),
            submitting: self.submitting,
        }
    }
}

impl LoginView {
    pub open spec fn focused_text(self) -> Seq<char> {
        match self.focused {
            Field::Email => self.email,
            Field::Password => self.password,
        }
    }

    /// The form with another text in the focused field, and no complaint.
    pub open spec fn with_text(self, text: Seq<char>) -> LoginView {
        match self.focused {
            Field::Email => LoginView { email: text, error: None, ..self },
            Field::Password => LoginView { password: text, error: None, ..self },
        }
    }

    /// The form and the intent after Enter: on the email it goes on to the
    /// password; there it submits, if both say something.
    pub open spec fn entered(self) -> (LoginView, LoginIntent) {
        if self.focused == Field::Email {
            (LoginView { focused: Field::Password, ..self }, LoginIntent::Nothing)
        } else if strs::trimmed(self.email).len() == 0 || self.password.len() == 0 {
            (
                LoginView { error: Some("Enter both email and password."@), ..self },
                LoginIntent::Nothing,
            )
        } else {
            (LoginView { error: None, submitting: true, ..self }, LoginIntent::Submit)
        }
    }

    /// The form and the intent after a key. Nothing is taken while a login is
    /// on its way.
    pub open spec fn keyed(self, key: KeyEvent) -> (LoginView, LoginIntent) {
        if self.submitting {
            (self, LoginIntent::Nothing)
        } else if key.is_quit_spec() {
            (self, LoginIntent::Quit)
        } else {
            match key.code {
                KeyCode::Tab | KeyCode::BackTab => (
                    LoginView {
                        focused: match self.focused {
                            Field::Email => Field::Password,
                            Field::Password => Field::Email,
                        },
                        error: None,
                        ..self
                    },
                    LoginIntent::Nothing,
                ),
                KeyCode::Enter => self.entered(),
                KeyCode::Backspace => {
                    let t = self.focused_text();
                    (
                        self.with_text(
                            if t.len() > 0 {
                                t.drop_last()
                            } else {
                                t
                            },
                        ),
                        LoginIntent::Nothing,
                    )
                },
                KeyCode::Char(c) => (
                    self.with_text(self.focused_text().push(c)),
                    LoginIntent::Nothing,
                ),
                _ => (self, LoginIntent::Nothing),
            }
        }
    }
}

impl LoginView {
    /// The screen after a paste.
    pub open spec fn pasted(self, text: Seq<char>) -> LoginView {
        if self.submitting {
            self
        } else {
            self.with_text(self.focused_text() + input::collapsed_from(text, 0))
        }
    }

    /// The screen after an answer to a submit.
    pub open spec fn settled(self, result: Result<(), String>) -> LoginView {
        match result {
            Ok(_) => LoginView { submitting: false, error: None, ..self },
            Err(msg) => LoginView {
                submitting: false,
                error: Some(humanized(msg@)),
                password: Seq::empty(),
                focused: Field::Password,
                ..self
            },
        }
    }
}

impl LoginScreen {
    pub fn new(prefill_email: String) -> (r: LoginScreen)
        ensures
            r@ == (LoginView {
                email: prefill_email@,
                password: Seq::empty(),
                focused: Field::Email,
                error: None,
                submitting: false,
            }),
    {
        LoginScreen {
            email: prefill_email,
            password: String::new(),
            focused: Field::Email,
            error: None,
            submitting: false,
        }
    }

    /// Take a key and say what is asked of the shell.
    pub fn handle_key(&mut self, key: KeyEvent) -> (r: LoginIntent)
        ensures
            (final(self)@, r) == old(self)@.keyed(key),
    {
        if self.submitting {
            return LoginIntent::Nothing;
        }
        if key.is_quit() {
            return LoginIntent::Quit;
        }
        match key.code {
            KeyCode::Tab | KeyCode::BackTab => {
                self.focused = match self.focused {
                    Field::Email => Field::Password,
                    Field::Password => Field::Email,
                };
                self.error = None;
            },
            KeyCode::Enter => {
                if self.focused == Field::Email {
                    self.focused = Field::Password;
                    return LoginIntent::Nothing;
                }
                if trim(self.email.as_str()).as_str().is_empty()
                    || self.password.as_str().is_empty() {
                    self.error = Some("Enter both email and password.".to_owned());
                    return LoginIntent::Nothing;
                }
                self.error = None;
                self.submitting = true;
                return LoginIntent::Submit;
            },
            KeyCode::Backspace => {
                let _ = match self.focused {
                    Field::Email => self.email.pop(),
                    Field::Password => self.password.pop(),
                };
                self.error = None;
            },
            KeyCode::Char(c) => {
                match self.focused {
                    Field::Email => self.email.push(c),
                    Field::Password => self.password.push(c),
                }
                self.error = None;
            },
            _ => {},
        }
        LoginIntent::Nothing
    }

    /// Insert pasted text, on one line, into the focused field.
    pub fn paste_into_focused(&mut self, text: &str)
        ensures
            final(self)@ == old(self)@.pasted(text@),
    {
        if self.submitting {
            return;
        }
        let cleaned = collapse_newlines(text);
        match self.focused {
            Field::Email => self.email.append(cleaned.as_str()),
            Field::Password => self.password.append(cleaned.as_str()),
        }
        self.error = None;
    }

    /// The login settled. A failure says why and asks for the password again.
    pub fn finish_submit(&mut self, result: Result<(), String>)
        ensures
            final(self)@ == old(self)@.settled(result),
    {
        self.submitting = false;
        match result {
            Ok(_) => {
                self.error = None;
            },
            Err(msg) => {
                self.error = Some(humanize_login_error(msg.as_str()));
                self.password = String::new();
                self.focused = Field::Password;
            },
        }
    }
}

/// What the reader is told of a failed login: advice where the reason is
/// recognised, whatever its letter case, and else the reason itself.
pub open spec fn humanized(raw: Seq<char>) -> Seq<char> {
    let lower = strs::ascii_lowered(raw);
    if strs::occurs(lower, "verif"@) {
        "Email not verified. Open the verification link in your inbox, then log in again."@
    } else if strs::occurs(lower, "rate limited"@) || strs::occurs(lower, "too many"@) {
        "Too many attempts. Wait a moment, then try again."@
    } else if strs::occurs(lower, "unauthorized"@) || strs::occurs(lower, "(401)"@)
        || strs::occurs(lower, "credential"@) {
        "Incorrect email or password."@
    } else {
        raw
    }
}

/// What the reader is told of a failed login.
pub fn humanize_login_error(raw: &str) -> (r: String)
    ensures
        r@ == humanized(raw@),
{
    let lower = to_ascii_lower(raw);
    let l = lower.as_str();
    if contains(l, "verif") {
        "Email not verified. Open the verification link in your inbox, then log in again.".to_owned()
    } else if contains(l, "rate limited") || contains(l, "too many") {
        "Too many attempts. Wait a moment, then try again.".to_owned()
    } else if contains(l, "unauthorized") || contains(l, "(401)") || contains(l, "credential") {
        "Incorrect email or password.".to_owned()
    } else {
        raw.to_owned()
    }
}

// ---------------------------------------------------------------------------
// What is shown.
// ---------------------------------------------------------------------------

/// A box of at most `w` by `h` cells in the middle of an area.
pub open spec fn centered(area: Rect, w: int, h: int) -> Rect {
    let width = draw::least(w, area.width as int);
    let height = draw::least(h, area.height as int);
    Rect {
        x: (area.x + (area.width - width) / 2) as u16,
        y: (area.y + (area.height - height) / 2) as u16,
        width: width as u16,
        height: height as u16,
    }
}

/// A box of at most `w` by `h` cells in the middle of an area.
pub fn center(area: Rect, w: u16, h: u16) -> (r: Rect)
    requires
        area.x + area.width <= u16::MAX,
        area.y + area.height <= u16::MAX,
    ensures
        r == centered(area, w as int, h as int),
{
    let width: u16 = if w <= area.width {
        w
    } else {
        area.width
    };
    let height: u16 = if h <= area.height {
        h
    } else {
        area.height
    };
    Rect {
        x: area.x + (area.width - width) / 2,
        y: area.y + (area.height - height) / 2,
        width,
        height,
    }
}

/// A field's text: with a caret at its end where it is focused.
pub open spec fn input_shown(value: Seq<char>, focused: bool, width: int, theme: Theme) -> Seq<
    draw::SpanView,
> {
    if focused {
        input::windowed(value, value.len() as int, width, theme)
    } else {
        draw::one(value, theme.base_spec())
    }
}

fn input_line(value: &str, focused: bool, width: u16, theme: &Theme) -> (r: Line)
    ensures
        r@ == input_shown(value@, focused, width as int, *theme),
{
    if focused {
        let end: usize = chars_of(value).len();
        windowed_line(value, end, width as usize, theme)
    } else {
        Line::of(value, theme.base())
    }
}

pub open spec fn label_shown(label: Seq<char>, focused: bool, theme: Theme) -> Seq<
    draw::SpanView,
> {
    draw::one(
        label,
        if focused {
            theme.accent_spec()
        } else {
            theme.muted_spec()
        },
    )
}

fn labeled(label: &str, focused: bool, theme: &Theme) -> (r: Line)
    ensures
        r@ == label_shown(label@, focused, *theme),
{
    if focused {
        Line::of(label, theme.accent_style())
    } else {
        Line::of(label, theme.muted_style())
    }
}

impl LoginView {
    pub open spec fn status_shown(self, theme: Theme) -> Seq<draw::SpanView> {
        if self.submitting {
            draw::one("logging in…"@, theme.accent_spec())
        } else {
            match self.error {
                Some(msg) => draw::one(msg, theme.error_spec()),
                None => draw::one(
                    "tab to switch · enter to submit · esc for menu"@,
                    theme.muted_spec(),
                ),
            }
        }
    }
}

/// The columns of a field inside a card: all but the border and a margin.
pub open spec fn field_width(card: Rect) -> int {
    if card.width >= 4 {
        card.width - 4
    } else {
        0
    }
}

/// What one render shows.
#[derive(Debug)]
pub struct LoginFrame {
    pub card: Rect,
    pub title: Line,
    pub email_label: Line,
    pub email: Line,
    pub password_label: Line,
    pub password: Line,
    pub status: Line,
}

impl LoginScreen {
    /// What the screen shows in an area: a card in its middle. The password
    /// shows as one dot for each character.
    pub fn render(&self, area: Rect, theme: &Theme) -> (f: LoginFrame)
        requires
            area.x + area.width <= u16::MAX,
            area.y + area.height <= u16::MAX,
        ensures
            f.card == centered(area, 60, 12),
            f.title@ == draw::one(" cs-tui • login "@, theme.heading_spec()),
            f.email_label@ == label_shown("email"@, self@.focused == Field::Email, *theme),
            f.email@ == input_shown(
                self@.email,
                self@.focused == Field::Email,
                field_width(f.card),
                *theme,
            ),
            f.password_label@ == label_shown(
                "password"@,
                self@.focused == Field::Password,
                *theme,
            ),
            f.password@ == input_shown(
                strs::repeated("•"@, self@.password.len()),
                self@.focused == Field::Password,
                field_width(f.card),
                *theme,
            ),
            f.status@ == self@.status_shown(*theme),
    {
        let card = center(area, 60, 12);
        let width: u16 = if card.width >= 4 {
            card.width - 4
        } else {
            0
        };
        let on_email = self.focused == Field::Email;
        let on_password = self.focused == Field::Password;
        let masked = repeat("•", chars_of(self.password.as_str()).len());
        let status = if self.submitting {
            Line::of("logging in…", theme.accent_style())
        } else {
            match &self.error {
                Some(msg) => Line::of(msg.as_str(), theme.error_style()),
                None => Line::of(
                    "tab to switch · enter to submit · esc for menu",
                    theme.muted_style(),
                ),
            }
        };
        LoginFrame {
            card,
            title: Line::of(" cs-tui • login ", theme.heading_style()),
            email_label: labeled("email", on_email, theme),
            email: input_line(self.email.as_str(), on_email, width, theme),
            password_label: labeled("password", on_password, theme),
            password: input_line(masked.as_str(), on_password, width, theme),
            status,
        }
    }
}

// ---------------------------------------------------------------------------
// Laws.
// ---------------------------------------------------------------------------

/// A login is only tried with both fields filled, and not while one is on its
/// way.
pub proof fn law_only_filled_forms_are_submitted(s: LoginView, key: KeyEvent)
    requires
        s.keyed(key).1 == LoginIntent::Submit,
    ensures
        strs::trimmed(s.email).len() > 0,
        s.password.len() > 0,
        !s.submitting,
        s.keyed(key).0.submitting,
{
}

/// What is shown for the password depends on its length alone.
pub proof fn law_password_is_never_shown(a: LoginView, b: LoginView)
    requires
        a.password.len() == b.password.len(),
    ensures
        strs::repeated("•"@, a.password.len()) == strs::repeated("•"@, b.password.len()),
        a.error == b.error && a.submitting == b.submitting ==> forall|theme: Theme|
            a.status_shown(theme) == b.status_shown(theme),
{
}

/// The card lies within the area.
pub proof fn law_card_fits_the_area(area: Rect, w: int, h: int)
    requires
        area.x + area.width <= u16::MAX,
        area.y + area.height <= u16::MAX,
        0 <= w,
        0 <= h,
    ensures
        area.x <= centered(area, w, h).x,
        centered(area, w, h).x + centered(area, w, h).width <= area.x + area.width,
        area.y <= centered(area, w, h).y,
        centered(area, w, h).y + centered(area, w, h).height <= area.y + area.height,
{
}

/// A character goes to the end of the focused field, backspace takes its last one off,
/// and the other field is left alone.
pub proof fn law_typing_reaches_the_focused_field(s: LoginView, c: char)
    requires
        !s.submitting,
    ensures
        ({
            let (a, intent) = s.keyed(KeyEvent { code: KeyCode::Char(c), control: false });
            &&& intent is Nothing && a.error is None && a.focused == s.focused
            &&& s.focused is Email ==> a.email == s.email.push(c) && a.password == s.password
            &&& s.focused is Password ==> a.password == s.password.push(c) && a.email == s.email
        }),
        ({
            let (a, intent) = s.keyed(KeyEvent { code: KeyCode::Backspace, control: false });
            &&& intent is Nothing && a.focused == s.focused
            &&& s.focused is Email && s.email.len() > 0 ==> a.email == s.email.drop_last()
            &&& s.focused is Email ==> a.password == s.password
            &&& s.focused is Password && s.password.len() > 0 ==> a.password
                == s.password.drop_last()
            &&& s.focused is Password ==> a.email == s.email
        }),
{
}

/// The tab keys go to the other field, Enter goes on from the email and submits a filled
/// form from the password, telling what is missing from another; what was typed stays.
pub proof fn law_keys_lead_through_the_form(s: LoginView, key: KeyEvent)
    requires
        !s.submitting,
    ensures
        ({
            let (a, intent) = s.keyed(key);
            let tab = key.code == KeyCode::Tab || key.code == KeyCode::BackTab;
            let enter = key.code == KeyCode::Enter;
            &&& tab && s.focused is Email ==> a.focused is Password && intent is Nothing
            &&& tab && s.focused is Password ==> a.focused is Email && intent is Nothing
            &&& enter && s.focused is Email ==> a.focused is Password && intent is Nothing
            &&& enter && s.focused is Password && strs::trimmed(s.email).len() > 0
                && s.password.len() > 0 ==> intent is Submit && a.submitting && a.error is None
            &&& enter && s.focused is Password && (strs::trimmed(s.email).len() == 0
                || s.password.len() == 0) ==> intent is Nothing && !a.submitting && a.error is Some
            &&& tab || enter ==> a.email == s.email && a.password == s.password
            &&& key.code == KeyCode::Char('c') && key.control ==> intent is Quit && a == s
        }),
{
}

/// While a submit is on its way no key and no paste changes the form.
pub proof fn law_a_submit_is_not_disturbed(s: LoginView, key: KeyEvent, text: Seq<char>)
    requires
        s.submitting,
    ensures
        s.keyed(key) == (s, LoginIntent::Nothing),
        s.pasted(text) == s,
{
}

/// A paste is added to the focused field on one line.
pub proof fn law_a_paste_is_added(s: LoginView, text: Seq<char>)
    requires
        !s.submitting,
    ensures
        s.focused is Email ==> s.pasted(text).email == s.email + input::collapsed_from(text, 0)
            && s.pasted(text).password == s.password,
        s.focused is Password ==> s.pasted(text).password == s.password + input::collapsed_from(
            text,
            0,
        ) && s.pasted(text).email == s.email,
        s.pasted(text).error is None,
{
}

/// A refused login keeps the email, drops the password and asks for it again.
pub proof fn law_a_refused_login_drops_the_password(s: LoginView, msg: String)
    ensures
        ({
            let a = s.settled(Err(msg));
            &&& !a.submitting && a.error is Some
            &&& a.password.len() == 0 && a.email == s.email && a.focused is Password
        }),
        s.settled(Ok(())) == (LoginView { submitting: false, error: None, ..s }),
{
}

/// An error that speaks of verification, of too many attempts or of the credentials is
/// put in words of its own, whatever its case; any other is shown as it came.
pub proof fn law_login_errors_are_told_apart(raw: Seq<char>)
    ensures
        ({
            let l = strs::ascii_lowered(raw);
            let unverified = strs::occurs(l, "verif"@);
            let limited = strs::occurs(l, "rate limited"@) || strs::occurs(l, "too many"@);
            let refused = strs::occurs(l, "unauthorized"@) || strs::occurs(l, "(401)"@)
                || strs::occurs(l, "credential"@);
            &&& unverified ==> humanized(raw)[0] == 'E'
            &&& limited && !unverified ==> humanized(raw)[0] == 'T'
            &&& refused && !unverified && !limited ==> humanized(raw)[0] == 'I'
            &&& !unverified && !limited && !refused ==> humanized(raw) == raw
        }),
{
    reveal_strlit(
        "Email not verified. Open the verification link in your inbox, then log in again.",
    );
    reveal_strlit("Too many attempts. Wait a moment, then try again.");
    reveal_strlit("Incorrect email or password.");
}

/// The card has the size that was asked for where the area holds it, stands in the
/// middle, and is no larger than the area.
pub proof fn law_the_card_is_centered(area: Rect, w: int, h: int)
    requires
        area.x + area.width <= u16::MAX,
        area.y + area.height <= u16::MAX,
        0 <= w,
        0 <= h,
    ensures
        ({
            let c = centered(area, w, h);
            &&& w <= area.width ==> c.width == w
            &&& w > area.width ==> c.width == area.width
            &&& h <= area.height ==> c.height == h
            &&& h > area.height ==> c.height == area.height
            &&& 0 <= (area.x + area.width - (c.x + c.width)) - (c.x - area.x) <= 1
            &&& 0 <= (area.y + area.height - (c.y + c.height)) - (c.y - area.y) <= 1
        }),
{
}

/// A message takes the place of the hint, and a submit on its way that of both.
pub proof fn law_the_status_tells_what_went_wrong(s: LoginView, theme: Theme)
    ensures
        !s.submitting ==> (s.error matches Some(msg) ==> s.status_shown(theme).len() == 1
            && s.status_shown(theme)[0].content == msg && s.status_shown(theme)[0].style
            == theme.error_spec()),
        s.submitting ==> s.status_shown(theme)[0].content == "logging in…"@,
{
}

} // verus!
