//! Configuration: the directory layout and the settings with their defaults.
//!
//! Reading `config.toml` and the XDG environment happens outside the library;
//! here are the values the rest of the program works with.
use vstd::prelude::*;

use crate::text::{chars_of, string_of};

verus! {

/// The text of `Path::new(base).join(name)` (lossily converted to UTF-8).
pub uninterp spec fn path_joined(base: Seq<char>, name: Seq<char>) -> Seq<char>;

/// Joins a path with `std::path::Path::join` and converts the result with
/// `to_string_lossy`. The contract only names the result.
#[verifier::external_body]
pub(crate) fn join_path(base: &str, name: &str) -> (r: String)
    ensures
        r@ == path_joined(base@, name@),
{
    std::path::Path::new(base).join(name).to_string_lossy().into_owned()
}

/// Where rsclip keeps its configuration, state and data.
#[derive(Clone, Debug)]
pub struct RsclipPaths {
    pub config_dir: String,
    pub state_dir: String,
    pub data_dir: String,
    pub db_path: String,
    pub image_dir: String,
    pub thumb_dir: String,
    pub ocr_dir: String,
    pub favicon_dir: String,
    pub favicon_icon_dir: String,
    pub favicon_queue_dir: String,
    pub favicon_miss_dir: String,
    pub log_path: String,
    pub socket_path: String,
}

/// The layout under the given configuration, state, data and runtime directories.
pub open spec fn paths_layout(
    p: RsclipPaths,
    config_dir: Seq<char>,
    state_dir: Seq<char>,
    data_dir: Seq<char>,
    runtime_dir: Seq<char>,
) -> bool {
    let favicons = path_joined(data_dir, "favicons"@);
    &&& p.config_dir@ == config_dir
    &&& p.state_dir@ == state_dir
    &&& p.data_dir@ == data_dir
    &&& p.db_path@ == path_joined(state_dir, "rsclip.db"@)
    &&& p.log_path@ == path_joined(state_dir, "rsclip.log"@)
    &&& p.socket_path@ == path_joined(runtime_dir, "rsclip.sock"@)
    &&& p.image_dir@ == path_joined(data_dir, "images"@)
    &&& p.thumb_dir@ == path_joined(data_dir, "thumbs"@)
    &&& p.ocr_dir@ == path_joined(data_dir, "ocr"@)
    &&& p.favicon_dir@ == favicons
    &&& p.favicon_icon_dir@ == path_joined(favicons, "icons"@)
    &&& p.favicon_queue_dir@ == path_joined(favicons, "queue"@)
    &&& p.favicon_miss_dir@ == path_joined(favicons, "misses"@)
}

impl RsclipPaths {
    /// The file layout under the given directories: the database and log in
    /// the state directory, images, thumbnails, OCR output and favicons in the
    /// data directory, and the notification socket in the runtime directory.
    pub fn from_dirs(config_dir: &str, state_dir: &str, data_dir: &str, runtime_dir: &str) -> (r:
        RsclipPaths)
        ensures
            paths_layout(r, config_dir@, state_dir@, data_dir@, runtime_dir@),
    {
        let favicon_dir = join_path(data_dir, "favicons");
        RsclipPaths {
            config_dir: string_of(&chars_of(config_dir)),
            state_dir: string_of(&chars_of(state_dir)),
            data_dir: string_of(&chars_of(data_dir)),
            db_path: join_path(state_dir, "rsclip.db"),
            image_dir: join_path(data_dir, "images"),
            thumb_dir: join_path(data_dir, "thumbs"),
            ocr_dir: join_path(data_dir, "ocr"),
            favicon_icon_dir: join_path(favicon_dir.as_str(), "icons"),
            favicon_queue_dir: join_path(favicon_dir.as_str(), "queue"),
            favicon_miss_dir: join_path(favicon_dir.as_str(), "misses"),
            favicon_dir,
            log_path: join_path(state_dir, "rsclip.log"),
            socket_path: join_path(runtime_dir, "rsclip.sock"),
        }
    }

    /// `config.toml` in the configuration directory.
    pub fn config_path(&self) -> (r: String)
        ensures
            r@ == path_joined(self.config_dir@, "config.toml"@),
    {
        join_path(self.config_dir.as_str(), "config.toml")
    }
}

fn default_theme() -> (r: String)
    ensures
        r@ == "nonchalant-dark"@,
{
    string_of(&chars_of("nonchalant-dark"))
}

fn default_history_max_entries() -> (r: usize)
    ensures
        r == 2000,
{
    2000
}

/// Default maximum size for captured text payloads (1 MiB).
fn default_max_text_bytes() -> (r: usize)
    ensures
        r == 1048576,
{
    1024 * 1024
}

/// Default maximum size for captured image payloads (10 MiB).
fn default_max_image_bytes() -> (r: usize)
    ensures
        r == 10485760,
{
    10 * 1024 * 1024
}

fn default_true() -> (r: bool)
    ensures
        r,
{
    true
}

fn default_paste_delay_ms() -> (r: u64)
    ensures
        r == 140,
{
    140
}

fn default_paste_method() -> (r: String)
    ensures
        r@ == "wtype"@,
{
    string_of(&chars_of("wtype"))
}

fn default_ocr_command() -> (r: String)
    ensures
        r@ == "tesseract"@,
{
    string_of(&chars_of("tesseract"))
}

fn default_ocr_language() -> (r: String)
    ensures
        r@ == "eng"@,
{
    string_of(&chars_of("eng"))
}

fn default_ocr_timeout_seconds() -> (r: u64)
    ensures
        r == 20,
{
    20
}

fn default_window_width() -> (r: i32)
    ensures
        r == 760,
{
    760
}

fn default_window_height() -> (r: i32)
    ensures
        r == 480,
{
    480
}

fn default_sidebar_width() -> (r: i32)
    ensures
        r == 290,
{
    290
}

fn default_start_view() -> (r: String)
    ensures
        r@ == "clipboard"@,
{
    string_of(&chars_of("clipboard"))
}

fn default_filter() -> (r: String)
    ensures
        r@ == "all"@,
{
    string_of(&chars_of("all"))
}

fn default_sort() -> (r: String)
    ensures
        r@ == "default"@,
{
    string_of(&chars_of("default"))
}

fn default_search_placeholder() -> (r: String)
    ensures
        r@ == "Search clipboard..."@,
{
    string_of(&chars_of("Search clipboard..."))
}

fn default_secrets_search_placeholder() -> (r: String)
    ensures
        r@ == "Search secrets by name..."@,
{
    string_of(&chars_of("Search secrets by name..."))
}

/// History capture settings.
#[derive(Clone, Debug)]
pub struct HistoryConfig {
    pub max_entries: usize,
    /// Maximum text payload size; `0` explicitly disables the limit.
    pub max_text_bytes: usize,
    /// Maximum image payload size; `0` explicitly disables the limit.
    pub max_image_bytes: usize,
    pub dedupe: bool,
    pub cleanup_unpinned_after_days: u32,
}

impl Default for HistoryConfig {
    fn default() -> (r: Self)
        ensures
            r.max_entries == 2000,
            r.max_text_bytes == 1048576,
            r.max_image_bytes == 10485760,
            r.dedupe,
            r.cleanup_unpinned_after_days == 0,
    {
        HistoryConfig {
            max_entries: default_history_max_entries(),
            max_text_bytes: default_max_text_bytes(),
            max_image_bytes: default_max_image_bytes(),
            dedupe: true,
            cleanup_unpinned_after_days: 0,
        }
    }
}

/// Paste behaviour of the history view.
#[derive(Clone, Debug)]
pub struct PasteConfig {
    pub auto_paste: bool,
    pub paste_delay_ms: u64,
    pub method: String,
}

impl Default for PasteConfig {
    fn default() -> (r: Self)
        ensures
            r.auto_paste,
            r.paste_delay_ms == 140,
            r.method@ == "wtype"@,
    {
        PasteConfig {
            auto_paste: default_true(),
            paste_delay_ms: default_paste_delay_ms(),
            method: default_paste_method(),
        }
    }
}

/// OCR settings.
#[derive(Clone, Debug)]
pub struct OcrConfig {
    pub enabled: bool,
    pub command: String,
    pub default_language: String,
    pub timeout_seconds: u64,
    pub auto_index: bool,
}

impl Default for OcrConfig {
    fn default() -> (r: Self)
        ensures
            r.enabled,
            r.command@ == "tesseract"@,
            r.default_language@ == "eng"@,
            r.timeout_seconds == 20,
            !r.auto_index,
    {
        OcrConfig {
            enabled: default_true(),
            command: default_ocr_command(),
            default_language: default_ocr_language(),
            timeout_seconds: default_ocr_timeout_seconds(),
            auto_index: false,
        }
    }
}

/// Link settings.
#[derive(Clone, Debug)]
pub struct LinksConfig {
    pub favicon_cache: bool,
}

impl Default for LinksConfig {
    fn default() -> (r: Self)
        ensures
            !r.favicon_cache,
    {
        LinksConfig { favicon_cache: false }
    }
}

/// Optional theme colour overrides, each a CSS colour.
#[derive(Clone, Debug)]
pub struct UiColors {
    pub shell_bg: Option<String>,
    pub shell_border: Option<String>,
    pub surface: Option<String>,
    pub surface_subtle: Option<String>,
    pub surface_overlay: Option<String>,
    pub preview_bg: Option<String>,
    pub preview_text_bg: Option<String>,
    pub scrim_bg: Option<String>,
    pub text: Option<String>,
    pub text_strong: Option<String>,
    pub text_muted: Option<String>,
    pub text_selected_muted: Option<String>,
    pub border: Option<String>,
    pub border_subtle: Option<String>,
    pub border_preview: Option<String>,
    pub border_dialog: Option<String>,
    pub hover_bg: Option<String>,
    pub selected_bg: Option<String>,
    pub accent: Option<String>,
    pub accent_hover: Option<String>,
    pub accent_text: Option<String>,
    pub destructive: Option<String>,
    pub destructive_border: Option<String>,
    pub destructive_text: Option<String>,
}

/// Whether no colour is overridden.
pub open spec fn no_color_overrides(c: UiColors) -> bool {
    &&& c.shell_bg is None && c.shell_border is None && c.surface is None
    &&& c.surface_subtle is None && c.surface_overlay is None && c.preview_bg is None
    &&& c.preview_text_bg is None && c.scrim_bg is None && c.text is None
    &&& c.text_strong is None && c.text_muted is None && c.text_selected_muted is None
    &&& c.border is None && c.border_subtle is None && c.border_preview is None
    &&& c.border_dialog is None && c.hover_bg is None && c.selected_bg is None
    &&& c.accent is None && c.accent_hover is None && c.accent_text is None
    &&& c.destructive is None && c.destructive_border is None && c.destructive_text is None
}

impl Default for UiColors {
    fn default() -> (r: Self)
        ensures
            no_color_overrides(r),
    {
        UiColors {
            shell_bg: None,
            shell_border: None,
            surface: None,
            surface_subtle: None,
            surface_overlay: None,
            preview_bg: None,
            preview_text_bg: None,
            scrim_bg: None,
            text: None,
            text_strong: None,
            text_muted: None,
            text_selected_muted: None,
            border: None,
            border_subtle: None,
            border_preview: None,
            border_dialog: None,
            hover_bg: None,
            selected_bg: None,
            accent: None,
            accent_hover: None,
            accent_text: None,
            destructive: None,
            destructive_border: None,
            destructive_text: None,
        }
    }
}

/// Geometry, behaviour and colours of the history view.
#[derive(Clone, Debug)]
pub struct UiConfig {
    pub theme: String,
    pub window_width: i32,
    pub window_height: i32,
    /// The backdrop opacity, as the bit pattern of the 32-bit float it was
    /// configured as (`f32::to_bits`).
    pub background_opacity_bits: Option<u32>,
    pub resizable: bool,
    pub preview_default: bool,
    pub sidebar_width: i32,
    pub show_footer_hints: bool,
    pub reset_on_show: bool,
    pub auto_focus_search: bool,
    pub start_view: String,
    pub default_filter: String,
    pub default_sort: String,
    pub search_placeholder: String,
    pub secrets_search_placeholder: String,
    pub colors: UiColors,
}

impl Default for UiConfig {
    fn default() -> (r: Self)
        ensures
            r.theme@ == "nonchalant-dark"@,
            r.window_width == 760,
            r.window_height == 480,
            r.background_opacity_bits is None,
            !r.resizable,
            r.preview_default,
            r.sidebar_width == 290,
            r.show_footer_hints,
            r.reset_on_show,
            r.auto_focus_search,
            r.start_view@ == "clipboard"@,
            r.default_filter@ == "all"@,
            r.default_sort@ == "default"@,
            r.search_placeholder@ == "Search clipboard..."@,
            r.secrets_search_placeholder@ == "Search secrets by name..."@,
            no_color_overrides(r.colors),
    {
        UiConfig {
            theme: default_theme(),
            window_width: default_window_width(),
            window_height: default_window_height(),
            background_opacity_bits: None,
            resizable: false,
            preview_default: default_true(),
            sidebar_width: default_sidebar_width(),
            show_footer_hints: default_true(),
            reset_on_show: default_true(),
            auto_focus_search: default_true(),
            start_view: default_start_view(),
            default_filter: default_filter(),
            default_sort: default_sort(),
            search_placeholder: default_search_placeholder(),
            secrets_search_placeholder: default_secrets_search_placeholder(),
            colors: UiColors::default(),
        }
    }
}

/// All settings.
#[derive(Clone, Debug)]
pub struct AppConfig {
    pub history: HistoryConfig,
    pub paste: PasteConfig,
    pub ocr: OcrConfig,
    pub ui: UiConfig,
    pub links: LinksConfig,
}

impl Default for AppConfig {
    fn default() -> (r: Self)
        ensures
            r.history.max_entries == 2000,
            r.history.max_text_bytes == 1048576,
            r.history.max_image_bytes == 10485760,
            r.history.dedupe,
            r.history.cleanup_unpinned_after_days == 0,
            r.paste.auto_paste,
            r.paste.paste_delay_ms == 140,
            r.paste.method@ == "wtype"@,
            r.ocr.enabled,
            r.ocr.command@ == "tesseract"@,
            r.ocr.default_language@ == "eng"@,
            r.ocr.timeout_seconds == 20,
            !r.ocr.auto_index,
            r.ui.theme@ == "nonchalant-dark"@,
            r.ui.window_width == 760,
            r.ui.window_height == 480,
            r.ui.background_opacity_bits is None,
            !r.ui.resizable,
            r.ui.preview_default,
            r.ui.sidebar_width == 290,
            r.ui.show_footer_hints,
            r.ui.reset_on_show,
            r.ui.auto_focus_search,
            r.ui.start_view@ == "clipboard"@,
            r.ui.default_filter@ == "all"@,
            r.ui.default_sort@ == "default"@,
            r.ui.search_placeholder@ == "Search clipboard..."@,
            r.ui.secrets_search_placeholder@ == "Search secrets by name..."@,
            no_color_overrides(r.ui.colors),
            !r.links.favicon_cache,
    {
        AppConfig {
            history: HistoryConfig::default(),
            paste: PasteConfig::default(),
            ocr: OcrConfig::default(),
            ui: UiConfig::default(),
            links: LinksConfig::default(),
        }
    }
}

} // verus!
