//! What opens a URL: the browser the reader configured, or the default handler
//! of the desktop.
//!
//! The scheme is checked before the handler is chosen, so a configured browser
//! cannot widen what is openable.
use vstd::prelude::*;

use crate::strs::{self, begins, chars_of, contains, push_text, to_ascii_lower, trim, words};

verus! {

/// A desktop, as far as opening links goes.
#[derive(Debug, Clone, Copy, PartialEq, Eq, Structural)]
pub enum Platform {
    MacOs,
    Windows,
    Other,
}

/// A program and its arguments, run without a shell.
#[derive(Debug, Clone, PartialEq, Eq)]
pub struct CommandLine {
    pub program: String,
    pub args: Vec<String>,
}

/// What a [`CommandLine`] says.
#[verifier::ext_equal]
pub struct CommandView {
    pub program: Seq<char>,
    pub args: Seq<Seq<char>>,
}

impl View for CommandLine {
    type V = CommandView;

    open spec fn view(&self) -> CommandView {
        CommandView { program: self.program@, args: strs::texts(self.args@) }
    }
}

/// Why a URL is not opened.
#[derive(Debug, Clone, Copy, PartialEq, Eq, Structural)]
pub enum OpenError {
    /// Its scheme is neither http nor https.
    NotHttp,
}

impl OpenError {
    /// What to tell the reader.
    pub fn message(self) -> (r: &'static str)
        ensures
            r@ == "refusing to open a non-http(s) url"@,
    {
        "refusing to open a non-http(s) url"
    }
}

/// How links are opened here.
#[derive(Debug, Clone, PartialEq, Eq)]
pub struct OpenPrefs {
    /// The configured browser command, if any.
    pub browser: Option<String>,
    pub platform: Platform,
}

/// Whether a URL is handed to a handler at all: http and https only, in any
/// letter case.
pub open spec fn openable(url: Seq<char>) -> bool {
    let lower = strs::ascii_lowered(strs::trimmed(url));
    strs::starts_with(lower, "https://"@) || strs::starts_with(lower, "http://"@)
}

/// Whether `url` is handed to a handler at all.
pub fn is_openable(url: &str) -> (r: bool)
    ensures
        r == openable(url@),
{
    let lower = to_ascii_lower(trim(url).as_str());
    begins(lower.as_str(), "https://") || begins(lower.as_str(), "http://")
}

/// `s` from `i` on with every `%s` replaced by `url`.
pub open spec fn substituted(s: Seq<char>, url: Seq<char>, i: int) -> Seq<char>
    decreases s.len() - i,
{
    if i < 0 || i >= s.len() {
        Seq::empty()
    } else if i + 2 <= s.len() && s[i] == '%' && s[i + 1] == 's' {
        url + substituted(s, url, i + 2)
    } else {
        seq![s[i]] + substituted(s, url, i + 1)
    }
}

fn substitute(arg: &str, url: &str) -> (r: String)
    ensures
        r@ == substituted(arg@, url@, 0),
{
    let v = chars_of(arg);
    let mut r = String::new();
    let mut i: usize = 0;
    assert(r@ + substituted(arg@, url@, 0) =~= substituted(arg@, url@, 0));
    while i < v.len()
        invariant
            i <= v@.len(),
            v@ == arg@,
            r@ + substituted(arg@, url@, i as int) == substituted(arg@, url@, 0),
        decreases v@.len() - i,
    {
        let ghost before = r@;
        if v[i] == '%' && v.len() - i >= 2 && v[i + 1] == 's' {
            r.append(url);
            assert(r@ + substituted(arg@, url@, i + 2) =~= before + (url@ + substituted(
                arg@,
                url@,
                i + 2,
            )));
            i = i + 2;
        } else {
            r.push(v[i]);
            assert(r@ + substituted(arg@, url@, i + 1) =~= before + (seq![v@[i as int]]
                + substituted(arg@, url@, i + 1)));
            i = i + 1;
        }
    }
    assert(r@ + substituted(arg@, url@, i as int) =~= r@);
    r
}

/// The first `n` words of a setting after the program, as arguments.
pub open spec fn arguments(parts: Seq<Seq<char>>, url: Seq<char>, n: int) -> Seq<Seq<char>> {
    Seq::new(
        n as nat,
        |i: int|
            if strs::occurs(parts[i + 1], "%s"@) {
                substituted(parts[i + 1], url, 0)
            } else {
                parts[i + 1]
            },
    )
}

/// Whether one of the first `n` arguments says where the URL goes.
pub open spec fn places_url(parts: Seq<Seq<char>>, n: int) -> bool {
    exists|i: int| 1 <= i <= n && strs::occurs(#[trigger] parts[i], "%s"@)
}

/// The command of a browser setting: its first word is the program, the others
/// are arguments, and the URL replaces each `%s`, or else comes last. None where
/// the setting holds no word.
pub open spec fn browser_line(browser: Seq<char>, url: Seq<char>) -> Option<CommandView> {
    let parts = strs::words_from(browser, 0);
    if parts.len() == 0 {
        None
    } else {
        let n = parts.len() - 1;
        let args = arguments(parts, url, n);
        Some(
            CommandView {
                program: parts[0],
                args: if places_url(parts, n) {
                    args
                } else {
                    args.push(url)
                },
            },
        )
    }
}

/// The default handler of a desktop, with the URL as its last argument.
pub open spec fn opener_line(url: Seq<char>, platform: Platform) -> CommandView {
    match platform {
        Platform::MacOs => CommandView { program: "open"@, args: seq![url] },
        Platform::Windows => CommandView {
            program: "cmd"@,
            args: seq!["/C"@, "start"@, ""@, url],
        },
        Platform::Other => CommandView { program: "xdg-open"@, args: seq![url] },
    }
}

/// The command that opens a URL.
pub open spec fn line_for(url: Seq<char>, browser: Option<Seq<char>>, platform: Platform) ->
    CommandView {
    match browser {
        Some(b) => match browser_line(b, url) {
            Some(c) => c,
            None => opener_line(url, platform),
        },
        None => opener_line(url, platform),
    }
}

/// The command of a browser setting.
pub fn browser_command(browser: &str, url: &str) -> (r: Option<CommandLine>)
    ensures
        match r {
            Some(c) => browser_line(browser@, url@) == Some(c@),
            None => browser_line(browser@, url@) is None,
        },
{
    let parts = words(browser);
    let ghost all = strs::texts(parts@);
    assert(all.len() == parts@.len());
    if parts.len() == 0 {
        return None;
    }
    let mut args: Vec<String> = Vec::new();
    let mut placed = false;
    let mut i: usize = 1;
    assert(strs::texts(args@) =~= arguments(all, url@, 0));
    while i < parts.len()
        invariant
            1 <= i <= parts@.len(),
            all == strs::texts(parts@),
            strs::texts(args@) == arguments(all, url@, i - 1),
            placed == places_url(all, i - 1),
        decreases parts@.len() - i,
    {
        let arg = parts[i].as_str();
        assert(all[i as int] == arg@);
        if contains(arg, "%s") {
            push_text(&mut args, substitute(arg, url));
            placed = true;
            assert(strs::occurs(all[i as int], "%s"@));
        } else {
            push_text(&mut args, arg.to_owned());
        }
        i = i + 1;
        assert(strs::texts(args@) =~= arguments(all, url@, i - 1));
        assert(placed == places_url(all, i - 1)) by {
            if places_url(all, i - 1) {
                let k = choose|k: int| 1 <= k <= i - 1 && strs::occurs(#[trigger] all[k], "%s"@);
                if k < i - 1 {
                    assert(places_url(all, i - 2));
                }
            }
            if places_url(all, i - 2) {
                let k = choose|k: int| 1 <= k <= i - 2 && strs::occurs(#[trigger] all[k], "%s"@);
                assert(1 <= k <= i - 1 && strs::occurs(all[k], "%s"@));
            }
        }
    }
    if !placed {
        push_text(&mut args, url.to_owned());
    }
    let program = parts[0].clone();
    assert(program@ == all[0]);
    Some(CommandLine { program, args })
}

/// The default handler of a desktop, with the URL as its last argument.
pub fn opener_command(url: &str, platform: Platform) -> (r: CommandLine)
    ensures
        r@ == opener_line(url@, platform),
{
    let mut args: Vec<String> = Vec::new();
    assert(strs::texts(args@) =~= Seq::empty());
    let program = match platform {
        Platform::MacOs => "open",
        Platform::Windows => {
            push_text(&mut args, "/C".to_owned());
            push_text(&mut args, "start".to_owned());
            // The window title, so that the URL is not taken for one.
            push_text(&mut args, "".to_owned());
            "cmd"
        },
        Platform::Other => "xdg-open",
    };
    push_text(&mut args, url.to_owned());
    let r = CommandLine { program: program.to_owned(), args };
    assert(r@ =~= opener_line(url@, platform));
    r
}

/// The command that opens `url`: the configured browser if there is a usable
/// one, else the default handler.
pub fn command_for(url: &str, browser: Option<&str>, platform: Platform) -> (r: CommandLine)
    ensures
        r@ == line_for(url@, strs::opt_str(browser), platform),
{
    if let Some(b) = browser {
        if let Some(c) = browser_command(b, url) {
            return c;
        }
    }
    opener_command(url, platform)
}

/// The program to start for a URL, which only one of the web gets.
pub open spec fn answer(url: Seq<char>, browser: Option<Seq<char>>, platform: Platform) -> Result<
    CommandView,
    OpenError,
> {
    if openable(url) {
        Ok(line_for(url, browser, platform))
    } else {
        Err(OpenError::NotHttp)
    }
}

/// The command that opens `url`, preferring `browser`. A URL that is not http or
/// https is refused whatever the browser.
pub fn open_url_with(url: &str, browser: Option<&str>, platform: Platform) -> (r: Result<
    CommandLine,
    OpenError,
>)
    ensures
        match r {
            Ok(c) => answer(url@, strs::opt_str(browser), platform) == Ok::<
                CommandView,
                OpenError,
            >(c@),
            Err(e) => answer(url@, strs::opt_str(browser), platform) == Err::<
                CommandView,
                OpenError,
            >(e),
        },
{
    if !is_openable(url) {
        return Err(OpenError::NotHttp);
    }
    Ok(command_for(url, browser, platform))
}

/// The command that opens `url` here.
pub fn open_url(url: &str, prefs: &OpenPrefs) -> (r: Result<CommandLine, OpenError>)
    ensures
        match r {
            Ok(c) => answer(url@, strs::opt_text(prefs.browser), prefs.platform) == Ok::<
                CommandView,
                OpenError,
            >(c@),
            Err(e) => answer(url@, strs::opt_text(prefs.browser), prefs.platform) == Err::<
                CommandView,
                OpenError,
            >(e),
        },
{
    match &prefs.browser {
        Some(b) => open_url_with(url, Some(b.as_str()), prefs.platform),
        None => open_url_with(url, None, prefs.platform),
    }
}

// ---------------------------------------------------------------------------
// Laws.
// ---------------------------------------------------------------------------

/// The URL is one argument however it is spelled: the command has as many
/// arguments for one URL as for another, and the same program.
pub proof fn law_url_stays_one_argument(
    browser: Option<Seq<char>>,
    platform: Platform,
    a: Seq<char>,
    b: Seq<char>,
)
    ensures
        line_for(a, browser, platform).program == line_for(b, browser, platform).program,
        line_for(a, browser, platform).args.len() == line_for(b, browser, platform).args.len(),
{
}

/// Without a place for it the URL comes last, by a configured browser or by the
/// default handler.
pub proof fn law_url_comes_last(browser: Option<Seq<char>>, platform: Platform, url: Seq<char>)
    requires
        browser matches Some(b) ==> !places_url(
            strs::words_from(b, 0),
            strs::words_from(b, 0).len() - 1,
        ),
    ensures
        line_for(url, browser, platform).args.last() == url,
{
}

/// A setting without a word in it is no setting.
pub proof fn law_blank_browser_falls_back(b: Seq<char>, platform: Platform, url: Seq<char>)
    requires
        strs::words_from(b, 0).len() == 0,
    ensures
        line_for(url, Some(b), platform) == line_for(url, None, platform),
{
}

/// A URL of the web begins, behind white space and in any case, with one of the two
/// schemes; it is opened, and any other text is refused, whatever the browser.
pub proof fn law_only_web_urls_are_opened(
    url: Seq<char>,
    browser: Option<Seq<char>>,
    platform: Platform,
)
    ensures
        ({
            let t = strs::trimmed(url);
            let http = t.len() >= 7 && (t[0] == 'h' || t[0] == 'H') && (t[1] == 't' || t[1] == 'T')
                && (t[2] == 't' || t[2] == 'T') && (t[3] == 'p' || t[3] == 'P');
            let plain = http && t[4] == ':' && t[5] == '/' && t[6] == '/';
            let safe = http && t.len() >= 8 && (t[4] == 's' || t[4] == 'S') && t[5] == ':' && t[6]
                == '/' && t[7] == '/';
            (answer(url, browser, platform) is Ok) == (plain || safe)
        }),
{
    reveal_strlit("https://");
    reveal_strlit("http://");
    let t = strs::trimmed(url);
    let l = strs::ascii_lowered(t);
    let long = "https://"@;
    let short = "http://"@;
    assert(strs::starts_with(l, long) == (l.len() >= 8 && l[0] == 'h' && l[1] == 't' && l[2] == 't'
        && l[3] == 'p' && l[4] == 's' && l[5] == ':' && l[6] == '/' && l[7] == '/')) by {
        if strs::starts_with(l, long) {
            assert forall|k: int| 0 <= k < 8 implies l[k] == long[k] by {
                assert(l.take(8)[k] == l[k]);
            }
        } else if l.len() >= 8 && l[0] == 'h' && l[1] == 't' && l[2] == 't' && l[3] == 'p' && l[4]
            == 's' && l[5] == ':' && l[6] == '/' && l[7] == '/' {
            assert(l.take(8) =~= long);
        }
    }
    assert(strs::starts_with(l, short) == (l.len() >= 7 && l[0] == 'h' && l[1] == 't' && l[2] == 't'
        && l[3] == 'p' && l[4] == ':' && l[5] == '/' && l[6] == '/')) by {
        if strs::starts_with(l, short) {
            assert forall|k: int| 0 <= k < 7 implies l[k] == short[k] by {
                assert(l.take(7)[k] == l[k]);
            }
        } else if l.len() >= 7 && l[0] == 'h' && l[1] == 't' && l[2] == 't' && l[3] == 'p' && l[4]
            == ':' && l[5] == '/' && l[6] == '/' {
            assert(l.take(7) =~= short);
        }
    }
}

/// A configured browser is its first word; the further words are its arguments, with
/// the URL standing for a placeholder, and behind them where there is none.
pub proof fn law_the_configured_browser_is_started(
    browser: Seq<char>,
    url: Seq<char>,
    platform: Platform,
    i: int,
)
    requires
        openable(url),
        strs::words_from(browser, 0).len() > 0,
    ensures
        ({
            let parts = strs::words_from(browser, 0);
            let n = parts.len() - 1;
            let placed = exists|k: int| 1 <= k <= n && strs::occurs(#[trigger] parts[k], "%s"@);
            &&& answer(url, Some(browser), platform) matches Ok(c)
            &&& c.program == parts[0]
            &&& placed ==> c.args.len() == n
            &&& !placed ==> c.args.len() == n + 1 && c.args[n] == url
            &&& 0 <= i < n && !strs::occurs(parts[i + 1], "%s"@) ==> c.args[i] == parts[i + 1]
            &&& 0 <= i < n && parts[i + 1] == "%s"@ ==> c.args[i] == url
        }),
{
    let parts = strs::words_from(browser, 0);
    reveal_strlit("%s");
    if 0 <= i < parts.len() - 1 && parts[i + 1] == "%s"@ {
        assert(strs::occurs_at(parts[i + 1], "%s"@, 0)) by {
            assert("%s"@.subrange(0, 2) =~= "%s"@);
        }
        reveal_with_fuel(substituted, 2);
        assert(substituted("%s"@, url, 0) =~= url);
    }
}

/// A placeholder inside an argument is replaced where it stands.
pub proof fn law_placeholders_are_replaced(a: Seq<char>, b: Seq<char>, url: Seq<char>)
    requires
        forall|k: int| 0 <= k < a.len() ==> #[trigger] a[k] != '%',
        forall|k: int| 0 <= k < b.len() ==> #[trigger] b[k] != '%',
    ensures
        substituted(a + seq!['%', 's'] + b, url, 0) == a + url + b,
{
    let s = a + seq!['%', 's'] + b;
    lemma_plain_is_kept(s, url, a.len() as int + 2, s.len() as int);
    assert(s.skip(a.len() as int + 2) =~= b);
    lemma_plain_before(s, url, 0, a.len() as int);
    assert(s.subrange(0, a.len() as int) =~= a);
    assert(substituted(s, url, a.len() as int) == url + substituted(s, url, a.len() as int + 2));
    assert(a + (url + b) =~= a + url + b);
}

proof fn lemma_plain_is_kept(s: Seq<char>, url: Seq<char>, i: int, n: int)
    requires
        0 <= i <= n,
        n == s.len(),
        forall|k: int| i <= k < n ==> #[trigger] s[k] != '%',
    ensures
        substituted(s, url, i) == s.skip(i),
    decreases n - i,
{
    if i < n {
        lemma_plain_is_kept(s, url, i + 1, n);
        assert(seq![s[i]] + s.skip(i + 1) =~= s.skip(i));
    } else {
        assert(s.skip(i) =~= Seq::empty());
    }
}

proof fn lemma_plain_before(s: Seq<char>, url: Seq<char>, i: int, n: int)
    requires
        0 <= i <= n <= s.len(),
        forall|k: int| i <= k < n ==> #[trigger] s[k] != '%',
    ensures
        substituted(s, url, i) == s.subrange(i, n) + substituted(s, url, n),
    decreases n - i,
{
    if i < n {
        lemma_plain_before(s, url, i + 1, n);
        assert(seq![s[i]] + (s.subrange(i + 1, n) + substituted(s, url, n)) =~= s.subrange(i, n)
            + substituted(s, url, n));
    } else {
        assert(s.subrange(i, n) + substituted(s, url, n) =~= substituted(s, url, n));
    }
}

/// Without a browser each desktop's own opener is started, on the URL alone, or behind
/// the empty title that the one of Windows wants.
pub proof fn law_desktops_have_their_openers(url: Seq<char>)
    requires
        openable(url),
    ensures
        answer(url, None, Platform::MacOs) == Ok::<CommandView, OpenError>(
            CommandView { program: "open"@, args: seq![url] },
        ),
        answer(url, None, Platform::Other) == Ok::<CommandView, OpenError>(
            CommandView { program: "xdg-open"@, args: seq![url] },
        ),
        ({
            &&& answer(url, None, Platform::Windows) matches Ok(c)
            &&& c.program == "cmd"@
            &&& c.args.len() == 4 && c.args[2].len() == 0 && c.args[3] == url
        }),
{
    reveal_strlit("");
}

} // verus!
