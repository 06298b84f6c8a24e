//! What opens a link.
use cs_tui::open::{
    browser_command, command_for, is_openable, open_url, open_url_with, opener_command,
    CommandLine, OpenError, OpenPrefs, Platform,
};

const HERE: Platform = Platform::Other;

fn prefs() -> OpenPrefs {
    OpenPrefs { browser: None, platform: HERE }
}

/// The program and its arguments.
fn parts(cmd: &CommandLine) -> (String, Vec<String>) {
    (cmd.program.clone(), cmd.args.clone())
}

#[test]
fn only_http_urls_are_handed_to_the_desktop() {
    // These arrive in other people's messages; `xdg-open` acts on whatever
    // handler the scheme names.
    for ok in [
        "https://example.com/a.png",
        "http://example.com/a.png",
        "HTTPS://EXAMPLE.COM/A.PNG",
    ] {
        assert!(is_openable(ok), "{ok}");
    }
    for bad in [
        "file:///etc/passwd",
        "smb://host/share",
        "javascript:alert(1)",
        "mailto:someone@example.com",
        "",
        "  ",
        "/etc/passwd",
    ] {
        assert!(!is_openable(bad), "{bad}");
        assert!(open_url(bad, &prefs()).is_err(), "{bad} must be refused");
    }
}

#[test]
fn a_configured_browser_replaces_the_os_handler() {
    let url = "https://example.com/a.png";
    let (prog, args) = parts(&command_for(url, Some("firefox --new-tab"), HERE));
    assert_eq!(prog, "firefox");
    assert_eq!(args, vec!["--new-tab", url]);
}

#[test]
fn a_percent_s_places_the_url_instead_of_appending_it() {
    // Some browsers want the link before their own trailing arguments.
    let url = "https://example.com/a.png";
    let (prog, args) = parts(&command_for(url, Some("qutebrowser %s --target tab"), HERE));
    assert_eq!(prog, "qutebrowser");
    assert_eq!(args, vec![url, "--target", "tab"]);
    // and it must not ALSO be appended
    assert_eq!(args.iter().filter(|a| *a == url).count(), 1);
}

#[test]
fn a_blank_browser_falls_back_to_the_os_handler() {
    // "" and "   " mean unset, not "spawn nothing". Failing to spawn on
    // every link, with no message saying why, is the worse reading.
    let url = "https://example.com/a.png";
    for blank in [Some(""), Some("   "), Some("\t"), None] {
        let (prog, _) = parts(&command_for(url, blank, HERE));
        let (want, _) = parts(&opener_command(url, HERE));
        assert_eq!(prog, want, "{blank:?} should fall back");
    }
}

#[test]
fn a_configured_browser_cannot_widen_what_is_openable() {
    // The scheme check runs before the handler is chosen, so pointing
    // `browser` at something else does not make `file://` reachable from a
    // link in someone else's message.
    for bad in ["file:///etc/passwd", "javascript:alert(1)", "smb://h/s"] {
        assert!(open_url_with(bad, Some("firefox"), HERE).is_err(), "{bad}");
    }
}

#[test]
fn the_url_stays_one_argument_however_it_is_spelled() {
    // There is no shell, so this is structural rather than a matter of
    // escaping: whatever the URL contains, it arrives as a single argv
    // entry. A URL with a space in it cannot become two arguments, and one
    // with a semicolon cannot become a second command.
    let url = "https://example.com/a b;rm -rf /";
    let (_, args) = parts(&command_for(url, Some("firefox"), HERE));
    assert_eq!(args, vec![url]);
    let (_, args) = parts(&command_for(url, Some("qutebrowser %s"), HERE));
    assert_eq!(args, vec![url]);
}

#[test]
fn opener_command_puts_the_url_last_and_names_a_program() {
    let url = "https://youtu.be/dQw4w9WgXcQ";
    let cmd = opener_command(url, HERE);
    assert!(!cmd.program.is_empty(), "a program must be chosen");
    let last = cmd.args.last().cloned();
    assert_eq!(last.as_deref(), Some(url), "url must be the final argument");
}

#[test]
fn each_desktop_has_its_handler() {
    let url = "https://example.com";
    assert_eq!(parts(&opener_command(url, Platform::MacOs)), ("open".into(), vec![url.into()]));
    assert_eq!(
        parts(&opener_command(url, Platform::Windows)),
        ("cmd".into(), vec!["/C".into(), "start".into(), "".into(), url.into()])
    );
    assert_eq!(parts(&opener_command(url, Platform::Other)), ("xdg-open".into(), vec![url.into()]));
}

#[test]
fn the_url_goes_into_every_place_kept_for_it() {
    let cmd = browser_command("b --url=%s %s%s -x", "u").unwrap();
    assert_eq!(parts(&cmd), ("b".into(), vec!["--url=u".into(), "uu".into(), "-x".into()]));
    assert!(browser_command(" \t ", "u").is_none());
    // A program is not an argument, whatever its name.
    let cmd = browser_command("%s", "u").unwrap();
    assert_eq!(parts(&cmd), ("%s".into(), vec!["u".into()]));
}

#[test]
fn preferences_choose_the_browser() {
    let p = OpenPrefs { browser: Some("lynx".into()), platform: Platform::MacOs };
    assert_eq!(
        open_url(" https://example.com", &p),
        Ok(CommandLine { program: "lynx".into(), args: vec![" https://example.com".into()] })
    );
    assert_eq!(open_url("ftp://example.com", &p), Err(OpenError::NotHttp));
    assert_eq!(OpenError::NotHttp.message(), "refusing to open a non-http(s) url");
}
