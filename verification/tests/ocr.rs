use rsclip_core::models::{ClipboardEntry, EntryData, EntryKind};
use rsclip_core::ocr::{ocr_image_path, tesseract_args, tesseract_result, wait_step, waits_with_timeout, OcrError, WaitStep};

fn image(path: &str) -> ClipboardEntry {
    ClipboardEntry {
        id: 3,
        content_hash: "h".into(),
        kind: EntryKind::Image,
        mime_type: "image/png".into(),
        title: "img".into(),
        preview_text: None,
        text_content: None,
        data: EntryData::Image { file_path: path.into(), thumb_path: None, ocr_text: None },
        pinned: false,
        copied_at: 0,
        updated_at: 0,
        last_used_at: None,
        use_count: 0,
        size_bytes: 0,
    }
}

#[test]
fn tesseract_arguments() {
    assert_eq!(tesseract_args("/i.png", "deu"), vec!["/i.png", "stdout", "-l", "deu"]);
}

#[test]
fn output_is_decoded_and_trimmed() {
    assert_eq!(tesseract_result("tesseract", true, b"  hello\nworld \n", b""), Ok("hello\nworld".to_string()));
    assert_eq!(tesseract_result("tesseract", true, b"a\xffb", b""), Ok("a\u{fffd}b".to_string()));
    let err = tesseract_result("tesseract", false, b"", b" bad image \n").unwrap_err();
    assert_eq!(err.message(), "tesseract failed: bad image");
}

#[test]
fn waiting_under_a_timeout() {
    assert_eq!(wait_step(true, 99_999, 1), WaitStep::Finished);
    assert_eq!(wait_step(false, 999, 1), WaitStep::Wait);
    assert_eq!(wait_step(false, 1_000, 1), WaitStep::TimedOut);
    assert_eq!(
        OcrError::TimedOut { command: "tesseract".into(), timeout_seconds: 20 }.message(),
        "tesseract timed out after 20s"
    );
}

#[test]
fn ocr_needs_an_enabled_image_entry() {
    let e = image("/tmp/x.png");
    assert_eq!(ocr_image_path(true, 3, Some(&e)), Ok("/tmp/x.png".to_string()));
    assert_eq!(ocr_image_path(false, 3, Some(&e)).unwrap_err().message(), "OCR is disabled in config");
    assert_eq!(ocr_image_path(true, -4, None).unwrap_err().message(), "entry -4 not found");
    let mut t = image("/tmp/x.png");
    t.data = EntryData::Text;
    assert_eq!(ocr_image_path(true, 3, Some(&t)).unwrap_err().message(), "entry is not an image");
}

#[test]
fn only_a_positive_timeout_is_polled() {
    assert!(!waits_with_timeout(0));
    assert!(waits_with_timeout(1));
    assert!(waits_with_timeout(u64::MAX));
}
