use rsclip_core::config::{AppConfig, RsclipPaths};

#[test]
fn theme_defaults_to_nonchalant_dark() {
    assert_eq!(AppConfig::default().ui.theme, "nonchalant-dark");
}

#[test]
fn defaults_match_documented_values() {
    let config = AppConfig::default();
    assert_eq!(config.history.max_entries, 2000);
    assert_eq!(config.history.max_text_bytes, 1024 * 1024);
    assert_eq!(config.history.max_image_bytes, 10 * 1024 * 1024);
    assert!(config.history.dedupe);
    assert_eq!(config.history.cleanup_unpinned_after_days, 0);
    assert!(config.paste.auto_paste);
    assert_eq!(config.paste.paste_delay_ms, 140);
    assert_eq!(config.paste.method, "wtype");
    assert!(config.ocr.enabled);
    assert_eq!(config.ocr.command, "tesseract");
    assert_eq!(config.ocr.default_language, "eng");
    assert_eq!(config.ocr.timeout_seconds, 20);
    assert!(!config.ocr.auto_index);
    assert_eq!(config.ui.window_width, 760);
    assert_eq!(config.ui.window_height, 480);
    assert_eq!(config.ui.background_opacity_bits, None);
    assert!(config.ui.preview_default);
    assert_eq!(config.ui.sidebar_width, 290);
    assert_eq!(config.ui.start_view, "clipboard");
    assert_eq!(config.ui.default_filter, "all");
    assert_eq!(config.ui.default_sort, "default");
    assert_eq!(config.ui.search_placeholder, "Search clipboard...");
    assert_eq!(config.ui.secrets_search_placeholder, "Search secrets by name...");
    assert!(config.ui.colors.accent.is_none());
    assert!(config.ui.colors.shell_bg.is_none());
    assert!(!config.links.favicon_cache);
}

#[test]
fn paths_are_laid_out_under_the_xdg_directories() {
    let paths = RsclipPaths::from_dirs("/c", "/s", "/d", "/r");
    assert_eq!(paths.config_dir, "/c");
    assert_eq!(paths.db_path, "/s/rsclip.db");
    assert_eq!(paths.log_path, "/s/rsclip.log");
    assert_eq!(paths.socket_path, "/r/rsclip.sock");
    assert_eq!(paths.image_dir, "/d/images");
    assert_eq!(paths.thumb_dir, "/d/thumbs");
    assert_eq!(paths.ocr_dir, "/d/ocr");
    assert_eq!(paths.favicon_dir, "/d/favicons");
    assert_eq!(paths.favicon_icon_dir, "/d/favicons/icons");
    assert_eq!(paths.favicon_queue_dir, "/d/favicons/queue");
    assert_eq!(paths.favicon_miss_dir, "/d/favicons/misses");
    assert_eq!(paths.config_path(), "/c/config.toml");
}
