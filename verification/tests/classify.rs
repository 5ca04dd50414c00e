use rsclip_core::classify::{classify_payload, preview_text};
use rsclip_core::models::NewEntryData;

#[test]
fn classifies_link() {
    let entry = classify_payload("text/plain", "hash".to_string(), b"https://youtu.be/abc");
    assert!(matches!(entry.data, NewEntryData::Link { .. }));
    if let NewEntryData::Link { icon, .. } = entry.data {
        assert_eq!(icon, "youtube");
    }
}

#[test]
fn classifies_bare_domain_as_text() {
    let entry = classify_payload(
        "text/plain",
        "hash".to_string(),
        b"fastblobstorage.vercel.app",
    );
    assert!(matches!(entry.data, NewEntryData::Text));
    assert_eq!(entry.title, "fastblobstorage.vercel.app");
}

#[test]
fn classifies_token_shaped_https_value_as_text() {
    let entry = classify_payload(
        "text/plain",
        "hash".to_string(),
        b"https://fbsa_1f3a8e0389a8c0cbc656fca80307e478.fbs-admin-token-2026",
    );
    assert!(matches!(entry.data, NewEntryData::Text));
}

#[test]
fn classifies_color() {
    let entry = classify_payload("text/plain", "hash".to_string(), b"#c59edc");
    assert!(matches!(entry.data, NewEntryData::Color { .. }));
    if let NewEntryData::Color { value, .. } = entry.data {
        assert_eq!(value, "#c59edc");
    }
}

#[test]
fn classifies_uri_list_as_file() {
    let entry = classify_payload("text/uri-list", "hash".to_string(), b"file:///tmp/a.txt\n");

    assert!(matches!(entry.data, NewEntryData::File { .. }));
    assert_eq!(entry.mime_type, "text/uri-list");
    assert_eq!(entry.title, "a.txt");
    assert_eq!(entry.preview_text.as_deref(), Some("/tmp/a.txt"));
    assert_eq!(entry.text_content.as_deref(), Some("file:///tmp/a.txt\r\n"));
    assert_eq!(entry.size_bytes, "file:///tmp/a.txt\r\n".len() as i64);
}

#[test]
fn classifies_gnome_copy_payload_as_file() {
    let entry = classify_payload(
        "x-special/gnome-copied-files",
        "hash".to_string(),
        b"copy\nfile:///tmp/a.txt\n",
    );

    assert!(matches!(entry.data, NewEntryData::File { .. }));
    assert_eq!(entry.mime_type, "text/uri-list");
    assert_eq!(entry.text_content.as_deref(), Some("file:///tmp/a.txt\r\n"));
}

#[test]
fn classifies_gnome_cut_payload_as_copyable_file() {
    let entry = classify_payload(
        "x-special/gnome-copied-files",
        "hash".to_string(),
        b"cut\nfile:///tmp/a.txt\n",
    );

    assert!(matches!(entry.data, NewEntryData::File { .. }));
    assert_eq!(entry.mime_type, "text/uri-list");
    assert_eq!(entry.text_content.as_deref(), Some("file:///tmp/a.txt\r\n"));
}

#[test]
fn invalid_uri_list_falls_back_to_text_classification() {
    let entry = classify_payload("text/uri-list", "hash".to_string(), b"not a uri");

    assert!(matches!(entry.data, NewEntryData::Text));
    assert_eq!(entry.mime_type, "text/uri-list");
    assert_eq!(entry.text_content.as_deref(), Some("not a uri"));
}

#[test]
fn bounds_preview_for_large_multiline_text() {
    let text = (0..10_000)
        .map(|line| format!("line {line}\n"))
        .collect::<String>();

    let preview = preview_text(&text);

    assert_eq!(preview.chars().count(), 320);
    assert!(preview.ends_with("..."));
    assert!(preview.starts_with("line 0 line 1 line 2"));
    assert!(!preview.contains("line 9999"));
}

#[test]
fn truncates_at_unicode_character_boundary() {
    let text = format!("{}\u{1F642} trailing", "a".repeat(316));

    assert_eq!(preview_text(&text), format!("{}\u{1F642}...", "a".repeat(316)));
}

#[test]
fn preview_normalizes_unicode_whitespace() {
    assert_eq!(preview_text("\u{2003}one\n\t two\u{00a0}"), "one two");
}
