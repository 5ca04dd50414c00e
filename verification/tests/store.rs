use rsclip_core::config::AppConfig;
use rsclip_core::models::{NewEntry, NewEntryData};
use rsclip_core::store::{
    after_store, content_hash, entry_hash, image_file_name, payload_exceeds, payload_limit, read_cap, set_image_path,
    text_file_duplicate_candidate,
};

#[test]
fn limits_depend_on_the_mime_type() {
    let mut config = AppConfig::default();
    assert_eq!(payload_limit("image/png", &config.history), Some(10 * 1024 * 1024));
    assert_eq!(payload_limit("text/plain", &config.history), Some(1024 * 1024));
    config.history.max_text_bytes = 0;
    assert_eq!(payload_limit("text/plain", &config.history), None);
    assert_eq!(read_cap(Some(10)), Some(11));
    assert_eq!(read_cap(Some(usize::MAX)), Some(usize::MAX as u64));
    assert_eq!(read_cap(None), None);
    assert!(payload_exceeds(Some(10), 11));
    assert!(!payload_exceeds(Some(10), 10));
    assert!(!payload_exceeds(None, usize::MAX));
}

#[test]
fn plain_text_paths_may_repeat_a_file_list() {
    assert_eq!(
        text_file_duplicate_candidate("text/plain", b"/tmp/a b.txt\nfile:///tmp/c.txt"),
        Some("file:///tmp/a%20b.txt\r\nfile:///tmp/c.txt\r\n".to_string())
    );
    assert_eq!(text_file_duplicate_candidate("text/plain", b"hello"), None);
    assert_eq!(text_file_duplicate_candidate("text/html", b"/tmp/a.txt"), None);
    assert_eq!(text_file_duplicate_candidate("text/plain", b"/tmp/\xff.txt"), None);
}

#[test]
fn hashes_are_unique_without_dedupe() {
    assert_eq!(entry_hash("abc", true, 12, 34), "abc");
    assert_eq!(entry_hash("abc", false, 12, 34), "abc-12-34");
}

#[test]
fn stored_images_record_their_path() {
    let mut entry = NewEntry::new("h".into(), "image/png".into(), "t".into());
    entry.data = NewEntryData::Image { file_path: None, thumb_path: None, ocr_text: None };
    set_image_path(&mut entry, "/data/images/h.png");
    assert!(matches!(entry.data, NewEntryData::Image { file_path: Some(ref p), .. } if p == "/data/images/h.png"));
    let mut text = NewEntry::new("h".into(), "text/plain".into(), "t".into());
    set_image_path(&mut text, "/x");
    assert!(matches!(text.data, NewEntryData::Text));
}

#[test]
fn follow_ups_after_a_store() {
    let mut config = AppConfig::default();
    let image = NewEntryData::Image { file_path: Some("/i.png".into()), thumb_path: None, ocr_text: None };
    let link = NewEntryData::Link { url: "u".into(), domain: "example.com".into(), icon: "link".into() };
    let after = after_store(&config, &image);
    assert_eq!(after.ocr_image, None);
    assert_eq!(after.cleanup_days, None);
    assert_eq!(after.favicon_domain, None);
    config.ocr.auto_index = true;
    config.history.cleanup_unpinned_after_days = 30;
    config.links.favicon_cache = true;
    assert_eq!(after_store(&config, &image).ocr_image.as_deref(), Some("/i.png"));
    assert_eq!(after_store(&config, &image).cleanup_days, Some(30));
    assert_eq!(after_store(&config, &link).favicon_domain.as_deref(), Some("example.com"));
    config.ocr.enabled = false;
    assert_eq!(after_store(&config, &image).ocr_image, None);
}

fn reference_fnv1a(bytes: &[u8]) -> String {
    let mut h: u64 = 0xcbf2_9ce4_8422_2325;
    for b in bytes {
        h ^= *b as u64;
        h = h.wrapping_mul(0x100_0000_01b3);
    }
    format!("{h:016x}")
}

#[test]
fn content_hashes_are_fnv1a_hex() {
    assert_eq!(content_hash(b""), "cbf29ce484222325");
    assert_eq!(content_hash(b"a"), "af63dc4c8601ec8c");
    for payload in [&b"hello from rsclip"[..], b"\x00\xff", b"file:///tmp/a.txt\r\n"] {
        assert_eq!(content_hash(payload), reference_fnv1a(payload));
    }
}

#[test]
fn image_files_are_named_by_hash_and_type() {
    assert_eq!(image_file_name("abc", "image/png"), "abc.png");
    assert_eq!(image_file_name("abc", "image/jpeg"), "abc.jpg");
    assert_eq!(image_file_name("abc", "image/x-unknown"), "abc.bin");
}
