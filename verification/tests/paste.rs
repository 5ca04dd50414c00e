use rsclip_core::models::{ClipboardEntry, EntryData, EntryKind};
use rsclip_core::paste::{
    clipboard_payload, parse_u64, paste_method, paste_options, wtype_paste_args, ClipboardPayload,
    PasteError, PasteMethod,
};

fn entry(kind: EntryKind, data: EntryData, text: Option<&str>, preview: Option<&str>) -> ClipboardEntry {
    ClipboardEntry {
        id: 1,
        content_hash: "hash".to_string(),
        kind,
        mime_type: "text/uri-list".to_string(),
        title: "a.txt".to_string(),
        preview_text: preview.map(|s| s.to_string()),
        text_content: text.map(|s| s.to_string()),
        data,
        pinned: false,
        copied_at: 0,
        updated_at: 0,
        last_used_at: None,
        use_count: 0,
        size_bytes: 0,
    }
}

fn test_file(text: Option<&str>) -> ClipboardEntry {
    entry(EntryKind::File, EntryData::File { source_app: None }, text, Some("/tmp/a.txt"))
}

#[test]
fn file_entry_writes_uri_list_mime_and_bytes() {
    let entry = test_file(Some("file:///tmp/a.txt\r\n"));
    let mut writes = Vec::new();

    match clipboard_payload(&entry).unwrap() {
        ClipboardPayload::Text { mime_type, text } => writes.push((mime_type, text.into_bytes())),
        other => panic!("unexpected payload {other:?}"),
    }

    assert_eq!(writes.len(), 1);
    assert_eq!(writes[0].0, "text/uri-list");
    assert_eq!(writes[0].1, b"file:///tmp/a.txt\r\n");
}

#[test]
fn file_entry_without_text_content_returns_clear_error() {
    let entry = test_file(None);
    let err = clipboard_payload(&entry).unwrap_err();

    assert!(err.message().contains("file entry has no URI-list content"));
}

#[test]
fn images_are_copied_from_their_file_with_their_mime_type() {
    let mut e = entry(
        EntryKind::Image,
        EntryData::Image { file_path: "/tmp/a.png".into(), thumb_path: None, ocr_text: None },
        None,
        None,
    );
    e.mime_type = "image/png".to_string();
    match clipboard_payload(&e).unwrap() {
        ClipboardPayload::FileContents { path, mime_type } => {
            assert_eq!(path, "/tmp/a.png");
            assert_eq!(mime_type, "image/png");
        }
        other => panic!("unexpected payload {other:?}"),
    }
}

#[test]
fn text_falls_back_to_the_preview() {
    let e = entry(EntryKind::Text, EntryData::Text, Some("full"), Some("pre"));
    assert!(matches!(
        clipboard_payload(&e).unwrap(),
        ClipboardPayload::Text { ref mime_type, ref text } if mime_type == "text/plain" && text == "full"
    ));
    let e = entry(EntryKind::Text, EntryData::Text, None, Some("pre"));
    assert!(matches!(
        clipboard_payload(&e).unwrap(),
        ClipboardPayload::Text { ref text, .. } if text == "pre"
    ));
    let e = entry(EntryKind::Text, EntryData::Text, None, None);
    let err = clipboard_payload(&e).unwrap_err();
    assert_eq!(err, PasteError::NoTextContent);
    assert_eq!(err.message(), "entry has no text content");
}

#[test]
fn paste_methods() {
    assert_eq!(paste_method(" wtype "), Ok(PasteMethod::Wtype));
    assert_eq!(paste_method("  ").unwrap_err().message(), "paste method is empty");
    assert_eq!(
        paste_method(" xdotool ").unwrap_err().message(),
        "unsupported paste method 'xdotool'; supported method: wtype"
    );
    assert_eq!(wtype_paste_args(), vec!["-M", "ctrl", "v", "-m", "ctrl"]);
}

#[test]
fn u64_parsing_matches_std() {
    for s in ["0", "42", "+7", "007", "18446744073709551615", "18446744073709551616", "", "+", "-1", "1a", " 1", "99999999999999999999"] {
        assert_eq!(parse_u64(s), s.parse::<u64>().ok(), "{s:?}");
    }
}

#[test]
fn paste_command_options() {
    assert_eq!(paste_options(true, false, None, 140), (true, 140));
    assert_eq!(paste_options(true, true, None, 140), (false, 140));
    assert_eq!(paste_options(false, false, Some("200"), 140), (false, 200));
    assert_eq!(paste_options(true, false, Some("soon"), 140), (true, 140));
}
