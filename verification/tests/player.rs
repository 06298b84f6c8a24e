//! Background playback.
use cs_tui::player::{
    after_event, command_json, keeps_trying, mpv_args, render_bar, socket_name, Action, Cmd,
    Event, Handle, CONNECT_ATTEMPTS, DEFAULT_VOLUME, VOLUME_MAX, VOLUME_MIN,
};
use cs_tui::theme::Theme;

fn handle(volume: i64) -> Handle {
    Handle {
        artist: "Art of Noise".into(),
        title: "Paranoimia".into(),
        url: "https://youtu.be/x".into(),
        token: 1,
        paused: false,
        volume,
    }
}

#[test]
fn toggle_pause_flips_local_state() {
    let mut h = handle(100);
    assert!(!h.paused);
    h.toggle_pause();
    assert!(h.paused);
    h.toggle_pause();
    assert!(!h.paused);
}

#[test]
fn step_volume_clamps_to_mpv_range() {
    let mut h = handle(100);
    h.step_volume(50); // 150 -> clamped to 130
    assert_eq!(h.volume, VOLUME_MAX);
    h.step_volume(-1000); // -> clamped to 0
    assert_eq!(h.volume, VOLUME_MIN);
}

#[test]
fn socket_path_is_unique_per_token_and_process() {
    let pid = 4711;
    for windows in [false, true] {
        let a = socket_name(pid, 1, windows);
        let b = socket_name(pid, 2, windows);
        assert_ne!(a, b, "different tokens must not collide");
        assert!(a.contains(&pid.to_string()), "the name holds the pid: {a:?}");
    }
    assert_eq!(socket_name(pid, 1, false), "cs-tui-mpv-4711-1.sock");
    assert_eq!(socket_name(pid, 1, true), "\\\\.\\pipe\\cs-tui-mpv-4711-1");
}

#[test]
fn a_volume_step_tells_the_change_that_was_made() {
    let mut h = handle(DEFAULT_VOLUME);
    assert_eq!(h.step_volume(5), Some(Cmd::Volume(5)));
    assert_eq!(h.step_volume(500), Some(Cmd::Volume(75)));
    assert_eq!(h.step_volume(5), None);
    assert_eq!(h.volume, 130);
}

#[test]
fn commands_are_lines_of_json() {
    assert_eq!(command_json(Cmd::TogglePause), r#"{"command":["cycle","pause"]}"#);
    assert_eq!(command_json(Cmd::Volume(-5)), r#"{"command":["add","volume",-5]}"#);
    assert_eq!(command_json(Cmd::Volume(10)), r#"{"command":["add","volume",10]}"#);
    assert_eq!(command_json(Cmd::Stop), r#"{"command":["quit"]}"#);
}

#[test]
fn events_lead_to_actions() {
    let mut h = handle(50);
    assert_eq!(
        after_event(Event::Command(h.toggle_pause())),
        Action::Tell(r#"{"command":["cycle","pause"]}"#.into())
    );
    let quit = Action::TellAndKill(r#"{"command":["quit"]}"#.into());
    assert_eq!(after_event(Event::Command(h.stop())), quit);
    assert_eq!(after_event(Event::Dropped), quit);
    assert_eq!(after_event(Event::Exited), Action::Finish);
    assert_eq!(after_event(Event::Running), Action::Wait);
    assert!(keeps_trying(CONNECT_ATTEMPTS - 1));
    assert!(!keeps_trying(CONNECT_ATTEMPTS));
}

#[test]
fn the_player_is_started_with_its_socket() {
    assert_eq!(
        mpv_args("https://youtu.be/x", 50, "/tmp/s"),
        vec![
            "--no-video",
            "--no-terminal",
            "--really-quiet",
            "--idle=no",
            "--volume=50",
            "--input-ipc-server=/tmp/s",
            "https://youtu.be/x",
        ]
    );
}

#[test]
fn the_bar_names_the_track_and_the_keys() {
    let theme = Theme::cyber();
    let mut h = Handle::started("u".into(), "Art".into(), "Song".into(), 2, 70);
    assert_eq!(render_bar(&h, &theme).text(), "♪ ▶ Song · Art  ·  p pause · s stop · [ ] vol 70%");
    h.toggle_pause();
    h.artist = String::new();
    assert_eq!(render_bar(&h, &theme).text(), "♪ ⏸ Song  ·  p resume · s stop · [ ] vol 70%");
    h.title = String::new();
    assert!(render_bar(&h, &theme).text().contains("jukebox"));
}
