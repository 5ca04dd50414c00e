use rsclip_core::display::{
    domain_initial, domain_tooltip, entry_icon_name, entry_kind_label, entry_subtitle,
    file_count_label, file_subtitle, file_summary,
};
use rsclip_core::models::{ClipboardEntry, EntryData, EntryKind};

fn entry(kind: EntryKind, data: EntryData, text: Option<&str>, updated_at: i64) -> ClipboardEntry {
    ClipboardEntry {
        id: 1,
        content_hash: "h".into(),
        kind,
        mime_type: "text/plain".into(),
        title: "t".into(),
        preview_text: None,
        text_content: text.map(|s| s.to_string()),
        data,
        pinned: false,
        copied_at: 0,
        updated_at,
        last_used_at: None,
        use_count: 0,
        size_bytes: 0,
    }
}

#[test]
fn link_fallbacks() {
    assert_eq!(domain_tooltip(""), "Link");
    assert_eq!(domain_tooltip("example.com"), "example.com");
    assert_eq!(domain_initial("example.com"), "E");
    assert_eq!(domain_initial("..-9lives.org"), "9");
    assert_eq!(domain_initial("-.-"), "?");
    assert_eq!(domain_initial(""), "?");
}

#[test]
fn kind_icons_and_labels() {
    let e = entry(EntryKind::Image, EntryData::Unknown, None, 0);
    assert_eq!(entry_icon_name(&e), "image-x-generic-symbolic");
    assert_eq!(entry_kind_label(&e), "Image");
    let e = entry(EntryKind::File, EntryData::File { source_app: None }, None, 0);
    assert_eq!(entry_icon_name(&e), "folder-symbolic");
    let e = entry(EntryKind::Link, EntryData::Unknown, None, 0);
    assert_eq!(entry_kind_label(&e), "Link");
}

#[test]
fn file_counts() {
    assert_eq!(file_count_label(1), "1 file");
    assert_eq!(file_count_label(0), "0 files");
    assert_eq!(file_count_label(3), "3 files");
    assert_eq!(file_summary(3, 0), "3 files");
    assert_eq!(file_summary(3, 2), "3 files, 2 missing");
}

#[test]
fn file_subtitles_check_the_disk() {
    let list = "file:///\r\nfile:///rsclip-missing-test-path/missing.txt\r\n";
    let e = entry(EntryKind::File, EntryData::File { source_app: None }, Some(list), 0);
    assert_eq!(file_subtitle(&e), Some("2 files, 1 missing".to_string()));
    assert_eq!(entry_subtitle(&e), "2 files, 1 missing");

    let empty = entry(EntryKind::File, EntryData::File { source_app: None }, Some("# nothing"), 0);
    assert_eq!(file_subtitle(&empty), None);
    let now = chrono::Utc::now().timestamp();
    let text = entry(EntryKind::Text, EntryData::Text, None, now - 120);
    assert_eq!(entry_subtitle(&text), "2 min");
}
