//! The decisions of the history view: which view, filter and order apply,
//! what a key press does, how a reloaded configuration changes the live
//! settings, and which search results are still current.
//!
//! The toolkit code performs what these functions decide.
use vstd::prelude::*;

use crate::config::{AppConfig, UiConfig};
use crate::models::{filter_named, sort_named, EntryFilter, SortMode};
use crate::format::u128_decimal;
use crate::text::{
    ascii_lowercase, chars_eq, chars_of, decimal_text, lowercase_chars, push_all, string_of, trim,
    trim_chars,
};

verus! {

/// The two lists the history view shows.
#[derive(Clone, Copy, Debug, PartialEq, Eq, Structural)]
pub enum AppView {
    Clipboard,
    Secrets,
}

/// A configured name, trimmed and lower-cased.
pub open spec fn normalized_name(value: Seq<char>) -> Seq<char> {
    ascii_lowercase(trim(value))
}

/// The view a configured `start_view` selects: `secrets` (or `secret`), in any
/// case and with surrounding blanks, selects the secrets view.
pub open spec fn view_named(value: Seq<char>) -> AppView {
    let n = normalized_name(value);
    if n == "secrets"@ || n == "secret"@ {
        AppView::Secrets
    } else {
        AppView::Clipboard
    }
}

fn normalized(value: &str) -> (r: Vec<char>)
    ensures
        r@ == normalized_name(value@),
{
    lowercase_chars(&trim_chars(&chars_of(value)))
}

/// The view a configured `start_view` selects.
pub fn config_view(value: &str) -> (r: AppView)
    ensures
        r == view_named(value@),
{
    let n = normalized(value);
    if chars_eq(&n, &chars_of("secrets")) || chars_eq(&n, &chars_of("secret")) {
        AppView::Secrets
    } else {
        AppView::Clipboard
    }
}

/// The filter a configured `default_filter` selects (trimmed, any case).
pub fn config_filter(value: &str) -> (r: EntryFilter)
    ensures
        r == filter_named(normalized_name(value@)),
{
    let n = string_of(&normalized(value));
    EntryFilter::parse(n.as_str())
}

/// The order a configured `default_sort` selects (trimmed, any case).
pub fn config_sort(value: &str) -> (r: SortMode)
    ensures
        r == sort_named(normalized_name(value@)),
{
    let n = string_of(&normalized(value));
    SortMode::parse(n.as_str())
}

/// The position of a filter in the filter drop-down.
pub open spec fn filter_position(filter: EntryFilter) -> u32 {
    match filter {
        EntryFilter::All => 0,
        EntryFilter::Text => 1,
        EntryFilter::Images => 2,
        EntryFilter::Files => 3,
        EntryFilter::Links => 4,
        EntryFilter::Colors => 5,
        EntryFilter::Pinned => 6,
    }
}

/// The filter at a drop-down position; positions past the list select `All`.
pub open spec fn filter_at(index: u32) -> EntryFilter {
    if index == 1 {
        EntryFilter::Text
    } else if index == 2 {
        EntryFilter::Images
    } else if index == 3 {
        EntryFilter::Files
    } else if index == 4 {
        EntryFilter::Links
    } else if index == 5 {
        EntryFilter::Colors
    } else if index == 6 {
        EntryFilter::Pinned
    } else {
        EntryFilter::All
    }
}

/// The drop-down position that shows `filter`.
pub fn filter_index(filter: EntryFilter) -> (r: u32)
    ensures
        r == filter_position(filter),
{
    match filter {
        EntryFilter::All => 0,
        EntryFilter::Text => 1,
        EntryFilter::Images => 2,
        EntryFilter::Files => 3,
        EntryFilter::Links => 4,
        EntryFilter::Colors => 5,
        EntryFilter::Pinned => 6,
    }
}

/// The filter chosen at a drop-down position.
pub fn filter_from_index(index: u32) -> (r: EntryFilter)
    ensures
        r == filter_at(index),
{
    match index {
        1 => EntryFilter::Text,
        2 => EntryFilter::Images,
        3 => EntryFilter::Files,
        4 => EntryFilter::Links,
        5 => EntryFilter::Colors,
        6 => EntryFilter::Pinned,
        _ => EntryFilter::All,
    }
}

/// Choosing the position that shows a filter selects that filter again, and
/// every position that names a filter is the position showing it.
pub proof fn lemma_filter_index_round_trip(filter: EntryFilter, index: u32)
    ensures
        filter_at(filter_position(filter)) == filter,
        index <= 6 ==> filter_position(filter_at(index)) == index,
{
}

/// A key as the view distinguishes them.
#[derive(Clone, Copy, Debug, PartialEq, Eq, Structural)]
pub enum Key {
    Tab,
    Down,
    Up,
    Escape,
    /// Return or keypad Enter.
    Enter,
    /// A key that types this character.
    Character(char),
    Other,
}

/// What a key press asks the view to do.
#[derive(Clone, Copy, Debug, PartialEq, Eq, Structural)]
pub enum KeyAction {
    /// The key is not handled here; it goes on to the focused widget.
    Proceed,
    /// Handled, with nothing to do in the current view.
    Ignore,
    SwitchView(AppView),
    MoveDown,
    MoveUp,
    Hide,
    /// Paste the selected entry (or copy the selected secret) and close.
    Activate,
    /// Copy the selected entry or secret and stay open.
    Copy,
    SaveAsSecret,
    CopySecret,
    TogglePin,
    Delete,
    RenameSecret,
    Refresh,
    SetFilter(EntryFilter),
}

/// The other view.
pub open spec fn other_view(view: AppView) -> AppView {
    match view {
        AppView::Clipboard => AppView::Secrets,
        AppView::Secrets => AppView::Clipboard,
    }
}

/// Whether `key` types `c` in either case.
pub open spec fn is_letter(key: Key, lower: char, upper: char) -> bool {
    key == Key::Character(lower) || key == Key::Character(upper)
}

/// The keyboard map: plain Tab switches views, arrows move, Escape hides,
/// Enter activates (Ctrl+Enter copies), and Ctrl with S, P, D, E, R, I, L or C
/// saves or copies a secret, pins, deletes, renames, refreshes, filters images
/// or links, and copies. Nothing is handled while a prompt is open.
pub open spec fn key_action_for(key: Key, ctrl: bool, view: AppView, prompt_active: bool) -> KeyAction {
    let clipboard = view == AppView::Clipboard;
    if prompt_active {
        KeyAction::Proceed
    } else if key == Key::Tab && !ctrl {
        KeyAction::SwitchView(other_view(view))
    } else if key == Key::Down && !ctrl {
        KeyAction::MoveDown
    } else if key == Key::Up && !ctrl {
        KeyAction::MoveUp
    } else if key == Key::Escape {
        KeyAction::Hide
    } else if key == Key::Enter {
        if ctrl {
            KeyAction::Copy
        } else {
            KeyAction::Activate
        }
    } else if !ctrl {
        KeyAction::Proceed
    } else if is_letter(key, 's', 'S') {
        if clipboard {
            KeyAction::SaveAsSecret
        } else {
            KeyAction::CopySecret
        }
    } else if is_letter(key, 'p', 'P') {
        if clipboard {
            KeyAction::TogglePin
        } else {
            KeyAction::Ignore
        }
    } else if is_letter(key, 'd', 'D') {
        KeyAction::Delete
    } else if is_letter(key, 'e', 'E') {
        if clipboard {
            KeyAction::Ignore
        } else {
            KeyAction::RenameSecret
        }
    } else if is_letter(key, 'r', 'R') {
        KeyAction::Refresh
    } else if is_letter(key, 'i', 'I') {
        if clipboard {
            KeyAction::SetFilter(EntryFilter::Images)
        } else {
            KeyAction::Ignore
        }
    } else if is_letter(key, 'l', 'L') {
        if clipboard {
            KeyAction::SetFilter(EntryFilter::Links)
        } else {
            KeyAction::Ignore
        }
    } else if is_letter(key, 'c', 'C') {
        KeyAction::Copy
    } else {
        KeyAction::Proceed
    }
}

/// What a key press (with Ctrl held or not) does in `view`.
pub fn key_action(key: Key, ctrl: bool, view: AppView, prompt_active: bool) -> (r: KeyAction)
    ensures
        r == key_action_for(key, ctrl, view, prompt_active),
{
    let clipboard = view == AppView::Clipboard;
    if prompt_active {
        return KeyAction::Proceed;
    }
    match key {
        Key::Tab if !ctrl => KeyAction::SwitchView(
            match view {
                AppView::Clipboard => AppView::Secrets,
                AppView::Secrets => AppView::Clipboard,
            },
        ),
        Key::Down if !ctrl => KeyAction::MoveDown,
        Key::Up if !ctrl => KeyAction::MoveUp,
        Key::Escape => KeyAction::Hide,
        Key::Enter => if ctrl {
            KeyAction::Copy
        } else {
            KeyAction::Activate
        },
        Key::Character(c) if ctrl => {
            if c == 's' || c == 'S' {
                if clipboard {
                    KeyAction::SaveAsSecret
                } else {
                    KeyAction::CopySecret
                }
            } else if c == 'p' || c == 'P' {
                if clipboard {
                    KeyAction::TogglePin
                } else {
                    KeyAction::Ignore
                }
            } else if c == 'd' || c == 'D' {
                KeyAction::Delete
            } else if c == 'e' || c == 'E' {
                if clipboard {
                    KeyAction::Ignore
                } else {
                    KeyAction::RenameSecret
                }
            } else if c == 'r' || c == 'R' {
                KeyAction::Refresh
            } else if c == 'i' || c == 'I' {
                if clipboard {
                    KeyAction::SetFilter(EntryFilter::Images)
                } else {
                    KeyAction::Ignore
                }
            } else if c == 'l' || c == 'L' {
                if clipboard {
                    KeyAction::SetFilter(EntryFilter::Links)
                } else {
                    KeyAction::Ignore
                }
            } else if c == 'c' || c == 'C' {
                KeyAction::Copy
            } else {
                KeyAction::Proceed
            }
        },
        _ => KeyAction::Proceed,
    }
}

/// `value` clamped into `[lo, hi]` (for `lo <= hi`).
pub open spec fn clamp_i32(value: i32, lo: i32, hi: i32) -> i32 {
    if value < lo {
        lo
    } else if value > hi {
        hi
    } else {
        value
    }
}

/// The window's size and the list pane's width.
#[derive(Clone, Copy, Debug, PartialEq, Eq, Structural)]
pub struct WindowGeometry {
    pub width: i32,
    pub height: i32,
    pub sidebar_width: i32,
}

/// The width is kept in `[320, 3840]`, the height in `[240, 2160]`, and the
/// list pane leaves at least 160 pixels on either side.
pub open spec fn geometry_for(ui: UiConfig) -> WindowGeometry {
    let width = clamp_i32(ui.window_width, 320, 3840);
    WindowGeometry {
        width,
        height: clamp_i32(ui.window_height, 240, 2160),
        sidebar_width: clamp_i32(ui.sidebar_width, 160, (width - 160) as i32),
    }
}

fn clamp_to(value: i32, lo: i32, hi: i32) -> (r: i32)
    requires
        lo <= hi,
    ensures
        r == clamp_i32(value, lo, hi),
{
    if value < lo {
        lo
    } else if value > hi {
        hi
    } else {
        value
    }
}

/// The window geometry the configuration asks for, within sane bounds.
pub fn window_geometry(ui: &UiConfig) -> (r: WindowGeometry)
    ensures
        r == geometry_for(*ui),
        320 <= r.width <= 3840,
        240 <= r.height <= 2160,
        160 <= r.sidebar_width <= r.width - 160,
{
    let width = clamp_to(ui.window_width, 320, 3840);
    let height = clamp_to(ui.window_height, 240, 2160);
    let sidebar_width = clamp_to(ui.sidebar_width, 160, width - 160);
    WindowGeometry { width, height, sidebar_width }
}

/// The view's live settings and its current view, query, filter and order.
#[derive(Clone, Debug)]
pub struct UiState {
    pub history_limit: usize,
    pub auto_paste: bool,
    pub paste_delay_ms: u64,
    pub paste_method: String,
    pub ocr_enabled: bool,
    pub ocr_command: String,
    pub ocr_language: String,
    pub ocr_timeout_seconds: u64,
    pub default_view: AppView,
    pub default_filter: EntryFilter,
    pub default_sort: SortMode,
    pub reset_on_show: bool,
    pub auto_focus_search: bool,
    pub show_footer_hints: bool,
    pub search_placeholder: String,
    pub secrets_search_placeholder: String,
    pub geometry: WindowGeometry,
    pub resizable: bool,
    pub preview_shown: bool,
    pub view: AppView,
    pub query: String,
    pub filter: EntryFilter,
    pub sort: SortMode,
}

/// What must happen to the list after new settings were applied.
#[derive(Clone, Copy, Debug, PartialEq, Eq, Structural, Default)]
pub struct ApplyOutcome {
    /// The rows themselves may differ: query the history again.
    pub refresh_entries: bool,
    /// Only the presentation changed: draw the same rows again.
    pub rerender_current_list: bool,
}

/// The settings that come straight from the configuration.
pub open spec fn settings_match(s: UiState, config: AppConfig) -> bool {
    &&& s.history_limit == config.history.max_entries
    &&& s.auto_paste == config.paste.auto_paste
    &&& s.paste_delay_ms == config.paste.paste_delay_ms
    &&& s.paste_method@ == config.paste.method@
    &&& s.ocr_enabled == config.ocr.enabled
    &&& s.ocr_command@ == config.ocr.command@
    &&& s.ocr_language@ == config.ocr.default_language@
    &&& s.ocr_timeout_seconds == config.ocr.timeout_seconds
    &&& s.default_view == view_named(config.ui.start_view@)
    &&& s.default_filter == filter_named(normalized_name(config.ui.default_filter@))
    &&& s.default_sort == sort_named(normalized_name(config.ui.default_sort@))
    &&& s.reset_on_show == config.ui.reset_on_show
    &&& s.auto_focus_search == config.ui.auto_focus_search
    &&& s.show_footer_hints == config.ui.show_footer_hints
    &&& s.search_placeholder@ == config.ui.search_placeholder@
    &&& s.secrets_search_placeholder@ == config.ui.secrets_search_placeholder@
    &&& s.geometry == geometry_for(config.ui)
    &&& s.resizable == config.ui.resizable
    &&& s.preview_shown == config.ui.preview_default
}

fn copy_string(s: &String) -> (r: String)
    ensures
        r@ == s@,
{
    string_of(&chars_of(s.as_str()))
}

impl UiState {
    /// The state a freshly built view starts in: the configured settings, the
    /// default view, filter and order, and an empty query.
    pub fn from_config(config: &AppConfig) -> (r: UiState)
        ensures
            settings_match(r, *config),
            r.view == r.default_view,
            r.filter == r.default_filter,
            r.sort == r.default_sort,
            r.query@ == Seq::<char>::empty(),
    {
        let default_view = config_view(config.ui.start_view.as_str());
        let default_filter = config_filter(config.ui.default_filter.as_str());
        let default_sort = config_sort(config.ui.default_sort.as_str());
        UiState {
            history_limit: config.history.max_entries,
            auto_paste: config.paste.auto_paste,
            paste_delay_ms: config.paste.paste_delay_ms,
            paste_method: copy_string(&config.paste.method),
            ocr_enabled: config.ocr.enabled,
            ocr_command: copy_string(&config.ocr.command),
            ocr_language: copy_string(&config.ocr.default_language),
            ocr_timeout_seconds: config.ocr.timeout_seconds,
            default_view,
            default_filter,
            default_sort,
            reset_on_show: config.ui.reset_on_show,
            auto_focus_search: config.ui.auto_focus_search,
            show_footer_hints: config.ui.show_footer_hints,
            search_placeholder: copy_string(&config.ui.search_placeholder),
            secrets_search_placeholder: copy_string(&config.ui.secrets_search_placeholder),
            geometry: window_geometry(&config.ui),
            resizable: config.ui.resizable,
            preview_shown: config.ui.preview_default,
            view: default_view,
            query: String::new(),
            filter: default_filter,
            sort: default_sort,
        }
    }

    /// Applies a reloaded configuration. A filter or order still at its old
    /// default follows the new default; one the user changed is kept. The
    /// entries are queried again when the history limit or the effective
    /// filter or order changed, and redrawn when OCR, the footer hints or the
    /// preview pane changed.
    pub fn apply_live_config(&mut self, config: &AppConfig) -> (r: ApplyOutcome)
        ensures
            settings_match(*final(self), *config),
            final(self).view == old(self).view,
            final(self).query@ == old(self).query@,
            final(self).filter == (if old(self).filter == old(self).default_filter {
                final(self).default_filter
            } else {
                old(self).filter
            }),
            final(self).sort == (if old(self).sort == old(self).default_sort {
                final(self).default_sort
            } else {
                old(self).sort
            }),
            r.refresh_entries == (old(self).history_limit != config.history.max_entries
                || (old(self).filter == old(self).default_filter
                && old(self).default_filter != final(self).default_filter)
                || (old(self).sort == old(self).default_sort
                && old(self).default_sort != final(self).default_sort)),
            r.rerender_current_list == (old(self).ocr_enabled != config.ocr.enabled
                || old(self).show_footer_hints != config.ui.show_footer_hints
                || old(self).preview_shown != config.ui.preview_default),
    {
        let next_default_filter = config_filter(config.ui.default_filter.as_str());
        let next_default_sort = config_sort(config.ui.default_sort.as_str());
        let filter = if self.filter == self.default_filter {
            next_default_filter
        } else {
            self.filter
        };
        let sort = if self.sort == self.default_sort {
            next_default_sort
        } else {
            self.sort
        };
        let refresh_entries = self.history_limit != config.history.max_entries || (self.filter
            == self.default_filter && self.default_filter != next_default_filter) || (self.sort
            == self.default_sort && self.default_sort != next_default_sort);
        let rerender_current_list = self.ocr_enabled != config.ocr.enabled
            || self.show_footer_hints != config.ui.show_footer_hints || self.preview_shown
            != config.ui.preview_default;
        let mut next = UiState::from_config(config);
        next.view = self.view;
        next.query = copy_string(&self.query);
        next.filter = filter;
        next.sort = sort;
        *self = next;
        ApplyOutcome { refresh_entries, rerender_current_list }
    }

    /// Before the view is shown: with `reset_on_show`, go back to the default
    /// view, filter and order with an empty query; otherwise keep everything.
    pub fn reset_for_show(&mut self)
        ensures
            old(self).reset_on_show ==> final(self).view == old(self).default_view
                && final(self).filter == old(self).default_filter
                && final(self).sort == old(self).default_sort
                && final(self).query@ == Seq::<char>::empty(),
            !old(self).reset_on_show ==> final(self).view == old(self).view
                && final(self).filter == old(self).filter
                && final(self).sort == old(self).sort
                && final(self).query@ == old(self).query@,
            final(self).default_view == old(self).default_view,
            final(self).default_filter == old(self).default_filter,
            final(self).default_sort == old(self).default_sort,
            final(self).reset_on_show == old(self).reset_on_show,
    {
        if self.reset_on_show {
            self.view = self.default_view;
            self.query = String::new();
            self.filter = self.default_filter;
            self.sort = self.default_sort;
        }
    }

    /// Switches to `view`, clearing the query; `false` (and no change) when it
    /// is already the current view.
    pub fn switch_view(&mut self, view: AppView) -> (changed: bool)
        ensures
            changed == (old(self).view != view),
            final(self).view == view,
            changed ==> final(self).query@ == Seq::<char>::empty(),
            !changed ==> final(self).query@ == old(self).query@,
            final(self).filter == old(self).filter,
            final(self).sort == old(self).sort,
    {
        if self.view == view {
            return false;
        }
        self.view = view;
        self.query = String::new();
        true
    }

    /// The search field's placeholder for `view`.
    pub fn search_placeholder_for(&self, view: AppView) -> (r: String)
        ensures
            r@ == (match view {
                AppView::Clipboard => self.search_placeholder@,
                AppView::Secrets => self.secrets_search_placeholder@,
            }),
    {
        match view {
            AppView::Clipboard => copy_string(&self.search_placeholder),
            AppView::Secrets => copy_string(&self.secrets_search_placeholder),
        }
    }

    /// Records a typed query; `false` when it equals the current query (a
    /// programmatic reset), in which case no search is started.
    pub fn set_query(&mut self, text: &str) -> (changed: bool)
        ensures
            changed == (old(self).query@ != text@),
            final(self).query@ == text@,
            final(self).view == old(self).view,
            final(self).filter == old(self).filter,
            final(self).sort == old(self).sort,
    {
        let current = chars_of(self.query.as_str());
        let typed = chars_of(text);
        if chars_eq(&current, &typed) {
            return false;
        }
        self.query = string_of(&typed);
        true
    }

    /// Whether results computed for this generation, view, query, filter and
    /// order still describe what the view shows.
    pub fn is_current(
        &self,
        current_generation: u64,
        generation: u64,
        view: AppView,
        query: &str,
        filter: EntryFilter,
        sort: SortMode,
    ) -> (r: bool)
        ensures
            r == (generation == current_generation && view == self.view && query@ == self.query@
                && filter == self.filter && sort == self.sort),
    {
        generation == current_generation && view == self.view && chars_eq(
            &chars_of(query),
            &chars_of(self.query.as_str()),
        ) && filter == self.filter && sort == self.sort
    }
}

/// Applying the same configuration twice changes nothing the second time: the
/// settings stay as the first application left them and nothing needs to be
/// queried or drawn again.
pub proof fn lemma_apply_live_config_settles(s1: UiState, s2: UiState, s3: UiState, config: AppConfig, first: ApplyOutcome, second: ApplyOutcome)
    requires
        settings_match(s2, config),
        s2.filter == (if s1.filter == s1.default_filter {
            s2.default_filter
        } else {
            s1.filter
        }),
        s2.sort == (if s1.sort == s1.default_sort {
            s2.default_sort
        } else {
            s1.sort
        }),
        settings_match(s3, config),
        s3.filter == (if s2.filter == s2.default_filter {
            s3.default_filter
        } else {
            s2.filter
        }),
        s3.sort == (if s2.sort == s2.default_sort {
            s3.default_sort
        } else {
            s2.sort
        }),
        second.refresh_entries == (s2.history_limit != config.history.max_entries || (s2.filter
            == s2.default_filter && s2.default_filter != s3.default_filter) || (s2.sort
            == s2.default_sort && s2.default_sort != s3.default_sort)),
        second.rerender_current_list == (s2.ocr_enabled != config.ocr.enabled
            || s2.show_footer_hints != config.ui.show_footer_hints || s2.preview_shown
            != config.ui.preview_default),
    ensures
        !second.refresh_entries,
        !second.rerender_current_list,
        s3.filter == s2.filter,
        s3.sort == s2.sort,
{
}

/// How many rows a search reports and how many it loads: the match count
/// capped by the history limit, and at most one window of it.
pub open spec fn search_sizes(count: int, history_limit: int, row_limit: int) -> (int, int) {
    let total = if count < history_limit {
        count
    } else {
        history_limit
    };
    (
        total,
        if total == 0 {
            0
        } else if row_limit < total {
            row_limit
        } else {
            total
        },
    )
}

/// The number of matches to report and of rows to load for a search.
pub fn search_plan(count: usize, history_limit: usize, row_limit: usize) -> (r: (usize, usize))
    ensures
        (r.0 as int, r.1 as int) == search_sizes(count as int, history_limit as int, row_limit as int),
        r.1 <= r.0 <= history_limit,
{
    let total = if count < history_limit {
        count
    } else {
        history_limit
    };
    let rows = if total == 0 {
        0
    } else if row_limit < total {
        row_limit
    } else {
        total
    };
    (total, rows)
}

/// The next list generation; older results are ignored once it is issued.
pub fn next_generation(generation: u64) -> (r: u64)
    ensures
        r == (if generation == u64::MAX {
            0
        } else {
            generation + 1
        }),
{
    generation.wrapping_add(1)
}

/// The footer's key hints for a view (none when hints are off).
pub open spec fn footer_hint_text(view: AppView, show_hints: bool) -> Seq<char> {
    if !show_hints {
        Seq::empty()
    } else {
        match view {
            AppView::Clipboard => "Tab: switch tab | Enter: paste | Ctrl+C: copy | Ctrl+S: secret | Ctrl+P: pin | Ctrl+D: delete | Esc: close"@,
            AppView::Secrets => "Tab: switch tab | Enter: copy | Ctrl+C: copy | Ctrl+E: rename | Ctrl+D: delete | Esc: close"@,
        }
    }
}

/// The footer's key hints for a view.
pub fn footer_hints(view: AppView, show_hints: bool) -> (r: String)
    ensures
        r@ == footer_hint_text(view, show_hints),
{
    if !show_hints {
        return String::new();
    }
    match view {
        AppView::Clipboard => string_of(
            &chars_of(
                "Tab: switch tab | Enter: paste | Ctrl+C: copy | Ctrl+S: secret | Ctrl+P: pin | Ctrl+D: delete | Esc: close",
            ),
        ),
        AppView::Secrets => string_of(
            &chars_of(
                "Tab: switch tab | Enter: copy | Ctrl+C: copy | Ctrl+E: rename | Ctrl+D: delete | Esc: close",
            ),
        ),
    }
}

/// The count shown in the top bar: `Entries n` or `Secrets n`.
pub fn count_label(view: AppView, total: usize) -> (r: String)
    ensures
        r@ == (match view {
            AppView::Clipboard => "Entries "@,
            AppView::Secrets => "Secrets "@,
        }) + decimal_text(total as nat),
{
    let mut v = match view {
        AppView::Clipboard => chars_of("Entries "),
        AppView::Secrets => chars_of("Secrets "),
    };
    push_all(&mut v, &u128_decimal(total as u128));
    string_of(&v)
}

/// What a reloaded configuration leads to for the list.
#[derive(Clone, Copy, Debug, PartialEq, Eq, Structural)]
pub enum ReloadAction {
    /// Query the history again now.
    Refresh,
    /// Draw the same rows again now.
    Rerender,
    /// The hidden view is out of date; bring it up to date when shown.
    MarkDirty,
    Nothing,
}

/// A visible view refreshes (or else redraws) at once; a hidden one is only
/// marked out of date.
pub fn reload_action(visible: bool, outcome: ApplyOutcome) -> (r: ReloadAction)
    ensures
        r == (if visible {
            if outcome.refresh_entries {
                ReloadAction::Refresh
            } else if outcome.rerender_current_list {
                ReloadAction::Rerender
            } else {
                ReloadAction::Nothing
            }
        } else if outcome.refresh_entries || outcome.rerender_current_list {
            ReloadAction::MarkDirty
        } else {
            ReloadAction::Nothing
        }),
{
    if visible {
        if outcome.refresh_entries {
            ReloadAction::Refresh
        } else if outcome.rerender_current_list {
            ReloadAction::Rerender
        } else {
            ReloadAction::Nothing
        }
    } else if outcome.refresh_entries || outcome.rerender_current_list {
        ReloadAction::MarkDirty
    } else {
        ReloadAction::Nothing
    }
}

/// What a directory monitor reports about a file.
#[derive(Clone, Copy, Debug, PartialEq, Eq, Structural)]
pub enum FileEvent {
    Changed,
    ChangesDoneHint,
    Created,
    Deleted,
    Moved,
    Renamed,
    MovedIn,
    MovedOut,
    AttributeChanged,
    PreUnmount,
    Unmounted,
}

/// The events that can change the configuration file's contents.
pub open spec fn is_reload_event(event: FileEvent) -> bool {
    !(event == FileEvent::AttributeChanged || event == FileEvent::PreUnmount || event
        == FileEvent::Unmounted)
}

/// Whether a change in the configuration directory calls for a reload: a
/// contents-changing event on the configuration file (as either file of the
/// event).
pub fn should_reload_config(
    event: FileEvent,
    file: Option<&str>,
    other_file: Option<&str>,
    config_path: &str,
) -> (r: bool)
    ensures
        r == (is_reload_event(event) && ((file matches Some(f) && f@ == config_path@) || (
        other_file matches Some(o) && o@ == config_path@))),
{
    let reload_event = match event {
        FileEvent::AttributeChanged | FileEvent::PreUnmount | FileEvent::Unmounted => false,
        _ => true,
    };
    let matches_file = match file {
        Some(f) => chars_eq(&chars_of(f), &chars_of(config_path)),
        None => false,
    };
    let matches_other = match other_file {
        Some(o) => chars_eq(&chars_of(o), &chars_of(config_path)),
        None => false,
    };
    reload_event && (matches_file || matches_other)
}

} // verus!
