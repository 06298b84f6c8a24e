//! Jukebox attachments.
use cs_tui::audio::{audio_lines, has_audio, jukebox_track, jukebox_url};
use cs_tui::model::{Attachment, Entry};
use cs_tui::theme::Theme;

fn audio(src: &str, title: &str) -> Attachment {
    Attachment::Audio {
        src: src.into(),
        origin: "youtube".into(),
        artist: "Art of Noise".into(),
        title: title.into(),
        genre: String::new(),
    }
}

fn picture() -> Attachment {
    Attachment::Image { src: "https://x/a.png".into(), width: 1, height: 1 }
}

#[test]
fn the_first_track_is_the_one() {
    let all = vec![picture(), audio("u1", "one"), audio("u2", "two")];
    let track = jukebox_track(&all).unwrap();
    assert_eq!((track.url.as_str(), track.title.as_str()), ("u1", "one"));
    assert_eq!(track.copy(), track);
    assert_eq!(jukebox_url(&all).as_deref(), Some("u1"));
    assert_eq!(jukebox_track(&vec![picture()]), None);
}

#[test]
fn an_entry_knows_whether_it_plays() {
    let entry = Entry { attachments: vec![audio("u", "t")], ..Entry::default() };
    assert!(has_audio(&entry));
    assert!(!has_audio(&Entry::default()));
}

#[test]
fn every_track_is_listed_with_its_link() {
    let lines = audio_lines(&vec![audio("u1", "one"), picture(), audio("u2", "two")], &Theme::cyber());
    let text: Vec<String> = lines.iter().map(|l| l.text()).collect();
    for part in ["♪ one", "♪ two", "u1", "u2", "Art of Noise"] {
        assert!(text.iter().any(|l| l.contains(part)), "{part}: {text:?}");
    }
}
