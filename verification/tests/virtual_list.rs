use rsclip_core::virtual_list::{
    absolute_index_at_row, clamp_window_index, normalized_window_start, queued_window_start,
    row_in_window, row_index_for_absolute, row_relative_index, spacer_height, window_for_scroll,
    window_row_count_for, window_spacers, WindowRequest,
};

#[test]
fn result_window_is_bounded_for_large_history() {
    assert_eq!(window_row_count_for(20, usize::MAX), 60);
}

#[test]
fn result_window_never_exceeds_total() {
    assert_eq!(window_row_count_for(20, 12), 12);
    assert_eq!(window_row_count_for(20, 0), 0);
}

#[test]
fn requested_start_is_clamped_to_last_full_window() {
    assert_eq!(normalized_window_start(900, 1_000, 60), 900);
    assert_eq!(normalized_window_start(999, 1_000, 60), 940);
    assert_eq!(normalized_window_start(1_975, 2_000, 60), 1_940);
    assert_eq!(normalized_window_start(900, 12, 12), 0);
}

#[test]
fn window_index_clamps_into_rendered_window() {
    assert_eq!(clamp_window_index(100, 60, 1_000, Some(120)), Some(120));
    assert_eq!(clamp_window_index(100, 60, 1_000, Some(0)), Some(100));
    assert_eq!(clamp_window_index(100, 60, 1_000, Some(999)), Some(159));
    assert_eq!(clamp_window_index(100, 60, 1_000, None), Some(100));
    assert_eq!(clamp_window_index(0, 0, 1_000, Some(5)), None);
    assert_eq!(clamp_window_index(0, 60, 0, Some(5)), None);
}

#[test]
fn window_index_handles_saturating_edge() {
    assert_eq!(
        clamp_window_index(usize::MAX, 10, usize::MAX, Some(usize::MAX)),
        Some(usize::MAX.saturating_sub(1))
    );
}

#[test]
fn stale_window_past_the_end_selects_last_row() {
    assert_eq!(clamp_window_index(50, 10, 20, Some(3)), Some(19));
    assert_eq!(clamp_window_index(50, 10, 20, None), Some(19));
}

#[test]
fn spacer_height_is_rows_times_row_height_capped() {
    assert_eq!(spacer_height(0), 0);
    assert_eq!(spacer_height(3), 144);
    assert_eq!(spacer_height(44_739_242), 2_147_483_616);
    assert_eq!(spacer_height(44_739_243), i32::MAX);
    assert_eq!(spacer_height(usize::MAX), i32::MAX);
}

#[test]
fn list_children_map_to_window_rows_past_the_spacer() {
    // Without a top spacer the first child is the first row.
    assert_eq!(row_relative_index(0, 0, 5), Some(0));
    assert_eq!(row_relative_index(5, 0, 5), None);
    // With a top spacer the first child is the spacer.
    assert_eq!(row_relative_index(0, 10, 5), None);
    assert_eq!(row_relative_index(1, 10, 5), Some(0));
    assert_eq!(row_relative_index(-1, 10, 5), None);
    assert_eq!(absolute_index_at_row(3, 10, 5), Some(12));
}

#[test]
fn row_index_round_trips_through_list_children() {
    for (start, len) in [(0usize, 5usize), (10, 5), (100, 60)] {
        for absolute in start..start + len {
            let child = row_index_for_absolute(absolute, start, len).unwrap();
            assert_eq!(row_relative_index(child, start, len), Some(absolute - start));
        }
        assert_eq!(row_index_for_absolute(start + len, start, len), None);
    }
    assert_eq!(row_index_for_absolute(3, 10, 5), None);
}

#[test]
fn rows_in_window_and_queued_starts() {
    assert!(row_in_window(10, 10, 5));
    assert!(row_in_window(14, 10, 5));
    assert!(!row_in_window(15, 10, 5));
    assert!(!row_in_window(9, 10, 5));
    assert_eq!(queued_window_start(990, 1_000, 20), 940);
    assert_eq!(queued_window_start(990, 0, 20), 990);
}

#[test]
fn scrolling_inside_the_window_keeps_it() {
    assert_eq!(window_for_scroll(1_000, 25, 20, 5, 60, Some(30)), None);
    assert_eq!(window_for_scroll(0, 25, 20, 5, 60, Some(30)), None);
}

#[test]
fn scrolling_past_the_window_reloads_around_the_viewport() {
    assert_eq!(
        window_for_scroll(1_000, 200, 20, 0, 60, Some(210)),
        Some(WindowRequest { start: 180, selected_index: 210 })
    );
    assert_eq!(
        window_for_scroll(1_000, 200, 20, 0, 60, Some(5)),
        Some(WindowRequest { start: 180, selected_index: 200 })
    );
    // A viewport near the end loads the last full window.
    assert_eq!(
        window_for_scroll(1_000, 5_000, 20, 0, 60, None),
        Some(WindowRequest { start: 940, selected_index: 999 })
    );
}

#[test]
fn spacers_count_rows_before_and_after_the_window() {
    assert_eq!(window_spacers(0, 60, 100), (0, 40));
    assert_eq!(window_spacers(40, 60, 100), (40, 0));
    assert_eq!(window_spacers(10, 5, 12), (10, 0));
    assert_eq!(window_spacers(usize::MAX, 1, usize::MAX), (usize::MAX, 0));
}
