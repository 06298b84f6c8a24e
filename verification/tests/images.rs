//! Which images there are, and which are kept.
use cs_tui::config::{Config, ImageSharpness};
use cs_tui::images::{
    check_bounds, decode_bounded, entry_image_urls, evict_to_cap, filter, filter_for, has_image,
    probe_dimensions, reply_image_urls, FilterType, ImageCache, MAX_CACHED_IMAGES, MAX_IMAGE_BYTES,
};
use cs_tui::model::{Attachment, Entry, Reply};

fn entry(content: &str, attachments: Vec<Attachment>) -> Entry {
    Entry {
        content: content.into(),
        attachments,
        ..Default::default()
    }
}

/// A picture of that size, as a PNG file.
fn png(width: u32, height: u32) -> Vec<u8> {
    let mut bytes = std::io::Cursor::new(Vec::new());
    image::DynamicImage::new_rgb8(width, height)
        .write_to(&mut bytes, image::ImageFormat::Png)
        .unwrap();
    bytes.into_inner()
}

#[test]
fn collects_markdown_images_then_attachments_deduped() {
    let e = entry(
        "see ![a](https://x/a.png) and ![b](https://x/b.png)",
        vec![
            Attachment::Image {
                src: "https://x/c.png".into(),
                width: 0,
                height: 0,
            },
            // duplicate of a markdown one — should not repeat
            Attachment::Image {
                src: "https://x/a.png".into(),
                width: 0,
                height: 0,
            },
        ],
    );
    let urls = entry_image_urls(&e);
    assert_eq!(
        urls,
        vec!["https://x/a.png", "https://x/b.png", "https://x/c.png"]
    );
}

#[test]
fn ignores_audio_attachments_and_empty() {
    let e = entry(
        "no images here",
        vec![Attachment::Audio {
            src: "https://x/song.mp3".into(),
            origin: String::new(),
            artist: String::new(),
            title: String::new(),
            genre: String::new(),
        }],
    );
    assert!(entry_image_urls(&e).is_empty());
}

#[test]
fn reply_image_urls_collects_markdown_then_attachments() {
    let r = Reply {
        content: "see ![a](https://x/a.png)".into(),
        attachments: vec![Attachment::Image {
            src: "https://x/b.png".into(),
            width: 0,
            height: 0,
        }],
        ..Default::default()
    };
    assert_eq!(
        reply_image_urls(&r),
        vec!["https://x/a.png", "https://x/b.png"]
    );
}

#[test]
fn crisp_maps_to_the_library_default_and_the_rest_are_distinct() {
    assert_eq!(filter_for(ImageSharpness::Crisp), None);

    let named = [
        filter_for(ImageSharpness::Smooth),
        filter_for(ImageSharpness::Medium),
        filter_for(ImageSharpness::Sharp),
    ];
    assert!(named.iter().all(Option::is_some), "only crisp may be None");
    // A setting whose values collapse onto one filter would look like it
    // works while doing nothing.
    for (i, a) in named.iter().enumerate() {
        for b in &named[i + 1..] {
            assert_ne!(a, b, "two sharpness levels resolve to the same filter");
        }
    }
}

#[test]
fn every_sharpness_name_in_the_template_parses() {
    // The template offers these four by name; a name that does not parse
    // would silently fall back to crisp and look like the setting is dead.
    for (name, want) in [
        ("crisp", ImageSharpness::Crisp),
        ("smooth", ImageSharpness::Smooth),
        ("medium", ImageSharpness::Medium),
        ("sharp", ImageSharpness::Sharp),
    ] {
        assert_eq!(ImageSharpness::parse(name), Some(want), "{name}");
    }
}

#[test]
fn has_image_detects_markdown_or_attachment() {
    // markdown image link in content
    assert!(has_image(&entry("see ![a](https://x/a.png)", vec![])));
    assert!(has_image(&entry(
        "just text",
        vec![Attachment::Image {
            src: "https://x/c.png".into(),
            width: 0,
            height: 0,
        }],
    )));
    // neither
    assert!(!has_image(&entry("no images", vec![])));
}

#[test]
fn a_picture_says_how_large_it_is() {
    assert_eq!(probe_dimensions(&png(3, 2)), Some((3, 2)));
    assert_eq!(probe_dimensions(b"not a picture"), None);
}

#[test]
fn bounded_pictures_are_decoded() {
    let picture = decode_bounded(&png(5, 4)).unwrap();
    assert_eq!((picture.width(), picture.height()), (5, 4));
    assert!(decode_bounded(b"not a picture").is_err());
    let large = vec![0; MAX_IMAGE_BYTES + 1];
    assert!(decode_bounded(&large).is_err());
}

#[test]
fn the_preferences_choose_the_filter() {
    assert_eq!(filter(&Config::default()), None);
    let cfg = Config { image_sharpness: ImageSharpness::Sharp, ..Config::default() };
    assert_eq!(filter(&cfg), Some(FilterType::Lanczos3));
}

#[test]
fn bounds_are_inclusive() {
    assert_eq!(check_bounds(MAX_IMAGE_BYTES, Some((8000, 5000))), None);
    assert!(check_bounds(MAX_IMAGE_BYTES + 1, None).is_some());
    assert!(check_bounds(10, Some((8001, 5000))).is_some());
    assert!(check_bounds(10, Some((u32::MAX, u32::MAX))).is_some());
    assert_eq!(check_bounds(10, None), None);
}

#[test]
fn a_full_cache_keeps_what_is_on_screen() {
    let mut cache: ImageCache<u32> = ImageCache::new();
    for i in 0..30 {
        cache.insert(format!("u{i}"), i);
    }
    cache.insert("u7".into(), 70);
    assert_eq!(cache.len(), 30);
    let keep = vec!["u7".to_string(), "u29".to_string()];
    evict_to_cap(&mut cache, &keep);
    assert_eq!(cache.len(), 2);
    assert_eq!(cache.get("u7"), Some(&70));
    assert!(cache.contains("u29"));
}

#[test]
fn a_screen_of_too_many_pictures_is_cut_to_the_cap() {
    let mut cache: ImageCache<u32> = ImageCache::new();
    let urls: Vec<String> = (0..30).map(|i| format!("u{i}")).collect();
    for (i, url) in urls.iter().enumerate() {
        cache.insert(url.clone(), i as u32);
    }
    evict_to_cap(&mut cache, &urls);
    assert_eq!(cache.len(), MAX_CACHED_IMAGES);
}

#[test]
fn a_small_cache_is_left_alone() {
    let mut cache: ImageCache<u32> = ImageCache::new();
    cache.insert("a".into(), 1);
    evict_to_cap(&mut cache, &vec![]);
    assert_eq!(cache.get("a"), Some(&1));
    assert_eq!(cache.get("b"), None);
}
