use rsclip_core::config::AppConfig;
use rsclip_core::models::{EntryFilter, SortMode};
use rsclip_core::ui_state::{
    config_filter, config_sort, config_view, count_label, filter_from_index, filter_index,
    footer_hints, key_action, next_generation, reload_action, search_plan,
    should_reload_config, window_geometry, AppView, ApplyOutcome, FileEvent, Key, KeyAction,
    ReloadAction, UiState,
};

#[test]
fn configured_names_are_trimmed_and_case_insensitive() {
    assert_eq!(config_view("  Secrets "), AppView::Secrets);
    assert_eq!(config_view("secret"), AppView::Secrets);
    assert_eq!(config_view("clipboard"), AppView::Clipboard);
    assert_eq!(config_view("anything"), AppView::Clipboard);
    assert_eq!(config_filter(" LINKS "), EntryFilter::Links);
    assert_eq!(config_filter("bogus"), EntryFilter::All);
    assert_eq!(config_sort("Most-Used"), SortMode::MostUsed);
    assert_eq!(config_sort("newest"), SortMode::Recent);
    assert_eq!(config_sort(""), SortMode::Default);
}

#[test]
fn filter_dropdown_positions_round_trip() {
    let filters = [
        EntryFilter::All,
        EntryFilter::Text,
        EntryFilter::Images,
        EntryFilter::Files,
        EntryFilter::Links,
        EntryFilter::Colors,
        EntryFilter::Pinned,
    ];
    for (position, filter) in filters.iter().enumerate() {
        assert_eq!(filter_index(*filter), position as u32);
        assert_eq!(filter_from_index(position as u32), *filter);
    }
    assert_eq!(filter_from_index(7), EntryFilter::All);
    assert_eq!(filter_from_index(u32::MAX), EntryFilter::All);
}

#[test]
fn keyboard_map_in_clipboard_view() {
    let v = AppView::Clipboard;
    assert_eq!(key_action(Key::Tab, false, v, false), KeyAction::SwitchView(AppView::Secrets));
    assert_eq!(key_action(Key::Tab, true, v, false), KeyAction::Proceed);
    assert_eq!(key_action(Key::Down, false, v, false), KeyAction::MoveDown);
    assert_eq!(key_action(Key::Up, false, v, false), KeyAction::MoveUp);
    assert_eq!(key_action(Key::Up, true, v, false), KeyAction::Proceed);
    assert_eq!(key_action(Key::Escape, true, v, false), KeyAction::Hide);
    assert_eq!(key_action(Key::Enter, false, v, false), KeyAction::Activate);
    assert_eq!(key_action(Key::Enter, true, v, false), KeyAction::Copy);
    assert_eq!(key_action(Key::Character('s'), true, v, false), KeyAction::SaveAsSecret);
    assert_eq!(key_action(Key::Character('P'), true, v, false), KeyAction::TogglePin);
    assert_eq!(key_action(Key::Character('d'), true, v, false), KeyAction::Delete);
    assert_eq!(key_action(Key::Character('e'), true, v, false), KeyAction::Ignore);
    assert_eq!(key_action(Key::Character('r'), true, v, false), KeyAction::Refresh);
    assert_eq!(
        key_action(Key::Character('i'), true, v, false),
        KeyAction::SetFilter(EntryFilter::Images)
    );
    assert_eq!(
        key_action(Key::Character('L'), true, v, false),
        KeyAction::SetFilter(EntryFilter::Links)
    );
    assert_eq!(key_action(Key::Character('c'), true, v, false), KeyAction::Copy);
    assert_eq!(key_action(Key::Character('c'), false, v, false), KeyAction::Proceed);
    assert_eq!(key_action(Key::Character('x'), true, v, false), KeyAction::Proceed);
    assert_eq!(key_action(Key::Other, false, v, false), KeyAction::Proceed);
}

#[test]
fn keyboard_map_in_secrets_view_and_prompts() {
    let v = AppView::Secrets;
    assert_eq!(key_action(Key::Tab, false, v, false), KeyAction::SwitchView(AppView::Clipboard));
    assert_eq!(key_action(Key::Character('S'), true, v, false), KeyAction::CopySecret);
    assert_eq!(key_action(Key::Character('p'), true, v, false), KeyAction::Ignore);
    assert_eq!(key_action(Key::Character('E'), true, v, false), KeyAction::RenameSecret);
    assert_eq!(key_action(Key::Character('i'), true, v, false), KeyAction::Ignore);
    assert_eq!(key_action(Key::Escape, false, v, true), KeyAction::Proceed);
    assert_eq!(key_action(Key::Enter, false, AppView::Clipboard, true), KeyAction::Proceed);
}

#[test]
fn window_geometry_is_clamped() {
    let mut config = AppConfig::default();
    let g = window_geometry(&config.ui);
    assert_eq!((g.width, g.height, g.sidebar_width), (760, 480, 290));
    config.ui.window_width = 100;
    config.ui.window_height = 9_000;
    config.ui.sidebar_width = 1_000;
    let g = window_geometry(&config.ui);
    assert_eq!((g.width, g.height, g.sidebar_width), (320, 2160, 160));
    config.ui.window_width = 5_000;
    config.ui.sidebar_width = 10;
    let g = window_geometry(&config.ui);
    assert_eq!((g.width, g.sidebar_width), (3840, 160));
}

#[test]
fn fresh_state_uses_configured_defaults() {
    let mut config = AppConfig::default();
    config.ui.start_view = "secrets".to_string();
    config.ui.default_filter = "pinned".to_string();
    let state = UiState::from_config(&config);
    assert_eq!(state.view, AppView::Secrets);
    assert_eq!(state.filter, EntryFilter::Pinned);
    assert_eq!(state.sort, SortMode::Default);
    assert_eq!(state.query, "");
    assert_eq!(state.history_limit, 2000);
    assert_eq!(state.paste_method, "wtype");
}

#[test]
fn reloaded_defaults_follow_only_untouched_choices() {
    let config = AppConfig::default();
    let mut state = UiState::from_config(&config);
    state.sort = SortMode::Oldest;

    let mut next = AppConfig::default();
    next.ui.default_filter = "links".to_string();
    next.ui.default_sort = "type".to_string();
    let outcome = state.apply_live_config(&next);
    assert!(outcome.refresh_entries);
    assert!(!outcome.rerender_current_list);
    assert_eq!(state.filter, EntryFilter::Links);
    assert_eq!(state.sort, SortMode::Oldest);
    assert_eq!(state.default_sort, SortMode::Type);

    let again = state.apply_live_config(&next);
    assert!(!again.refresh_entries);
    assert!(!again.rerender_current_list);
}

#[test]
fn presentation_changes_only_redraw() {
    let config = AppConfig::default();
    let mut state = UiState::from_config(&config);
    let mut next = AppConfig::default();
    next.ui.show_footer_hints = false;
    next.ui.window_width = 1000;
    let outcome = state.apply_live_config(&next);
    assert!(!outcome.refresh_entries);
    assert!(outcome.rerender_current_list);
    assert_eq!(state.geometry.width, 1000);

    let mut limit = next.clone();
    limit.history.max_entries = 10;
    let outcome = state.apply_live_config(&limit);
    assert!(outcome.refresh_entries);
    assert!(!outcome.rerender_current_list);
}

#[test]
fn showing_resets_only_when_configured() {
    let mut config = AppConfig::default();
    let mut state = UiState::from_config(&config);
    state.switch_view(AppView::Secrets);
    state.set_query("abc");
    state.filter = EntryFilter::Images;
    state.reset_for_show();
    assert_eq!(state.view, AppView::Clipboard);
    assert_eq!(state.query, "");
    assert_eq!(state.filter, EntryFilter::All);

    config.ui.reset_on_show = false;
    let mut state = UiState::from_config(&config);
    state.set_query("abc");
    state.reset_for_show();
    assert_eq!(state.query, "abc");
}

#[test]
fn switching_views_and_queries() {
    let mut state = UiState::from_config(&AppConfig::default());
    assert!(state.set_query("needle"));
    assert!(!state.set_query("needle"));
    assert!(!state.switch_view(AppView::Clipboard));
    assert_eq!(state.query, "needle");
    assert!(state.switch_view(AppView::Secrets));
    assert_eq!(state.query, "");
    assert_eq!(state.search_placeholder_for(AppView::Secrets), "Search secrets by name...");
    assert_eq!(state.search_placeholder_for(AppView::Clipboard), "Search clipboard...");
}

#[test]
fn only_results_for_the_current_request_apply() {
    let mut state = UiState::from_config(&AppConfig::default());
    state.set_query("abc");
    let v = AppView::Clipboard;
    assert!(state.is_current(7, 7, v, "abc", EntryFilter::All, SortMode::Default));
    assert!(!state.is_current(8, 7, v, "abc", EntryFilter::All, SortMode::Default));
    assert!(!state.is_current(7, 7, AppView::Secrets, "abc", EntryFilter::All, SortMode::Default));
    assert!(!state.is_current(7, 7, v, "ab", EntryFilter::All, SortMode::Default));
    assert!(!state.is_current(7, 7, v, "abc", EntryFilter::Text, SortMode::Default));
    assert!(!state.is_current(7, 7, v, "abc", EntryFilter::All, SortMode::Recent));
}

#[test]
fn search_sizes_respect_history_and_window() {
    assert_eq!(search_plan(5_000, 2_000, 60), (2_000, 60));
    assert_eq!(search_plan(30, 2_000, 60), (30, 30));
    assert_eq!(search_plan(0, 2_000, 60), (0, 0));
    assert_eq!(search_plan(10, 0, 60), (0, 0));
}

#[test]
fn generations_wrap() {
    assert_eq!(next_generation(0), 1);
    assert_eq!(next_generation(u64::MAX), 0);
}

#[test]
fn footer_hints_follow_the_view_and_the_setting() {
    assert_eq!(
        footer_hints(AppView::Clipboard, true),
        "Tab: switch tab | Enter: paste | Ctrl+C: copy | Ctrl+S: secret | Ctrl+P: pin | Ctrl+D: delete | Esc: close"
    );
    assert_eq!(
        footer_hints(AppView::Secrets, true),
        "Tab: switch tab | Enter: copy | Ctrl+C: copy | Ctrl+E: rename | Ctrl+D: delete | Esc: close"
    );
    assert_eq!(footer_hints(AppView::Clipboard, false), "");
    assert_eq!(footer_hints(AppView::Secrets, false), "");
}

#[test]
fn count_label_names_the_view() {
    assert_eq!(count_label(AppView::Clipboard, 42), "Entries 42");
    assert_eq!(count_label(AppView::Secrets, 0), "Secrets 0");
    assert_eq!(count_label(AppView::Clipboard, 1000), "Entries 1000");
}

#[test]
fn reload_refreshes_visible_views_and_marks_hidden_ones() {
    let refresh = ApplyOutcome { refresh_entries: true, rerender_current_list: false };
    let rerender = ApplyOutcome { refresh_entries: false, rerender_current_list: true };
    let both = ApplyOutcome { refresh_entries: true, rerender_current_list: true };
    let none = ApplyOutcome { refresh_entries: false, rerender_current_list: false };
    assert_eq!(reload_action(true, refresh), ReloadAction::Refresh);
    assert_eq!(reload_action(true, both), ReloadAction::Refresh);
    assert_eq!(reload_action(true, rerender), ReloadAction::Rerender);
    assert_eq!(reload_action(true, none), ReloadAction::Nothing);
    assert_eq!(reload_action(false, refresh), ReloadAction::MarkDirty);
    assert_eq!(reload_action(false, rerender), ReloadAction::MarkDirty);
    assert_eq!(reload_action(false, none), ReloadAction::Nothing);
}

#[test]
fn config_reload_needs_a_contents_event_on_the_config_file() {
    let path = "/home/u/.config/rsclip/config.toml";
    assert!(should_reload_config(FileEvent::Changed, Some(path), None, path));
    assert!(should_reload_config(FileEvent::Renamed, Some("/tmp/x"), Some(path), path));
    assert!(should_reload_config(FileEvent::Created, Some(path), Some("/tmp/x"), path));
    assert!(!should_reload_config(FileEvent::Changed, Some("/tmp/x"), None, path));
    assert!(!should_reload_config(FileEvent::Changed, None, None, path));
    assert!(!should_reload_config(FileEvent::AttributeChanged, Some(path), None, path));
    assert!(!should_reload_config(FileEvent::PreUnmount, Some(path), None, path));
    assert!(!should_reload_config(FileEvent::Unmounted, Some(path), Some(path), path));
}
