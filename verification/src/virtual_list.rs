//! The windowed history list: which slice of the history is rendered, where a
//! row sits among the list's children (a spacer row stands in for everything
//! above the slice), and how a selection is kept inside the slice.
use vstd::prelude::*;

verus! {

/// Rows kept rendered on each side of the viewport.
pub const WINDOW_PADDING_ROWS: usize = 20;

/// The fewest rows a viewport is assumed to show.
pub const MIN_VISIBLE_ROWS: usize = 20;

/// The height, in pixels, assumed for one row.
pub const ESTIMATED_ROW_HEIGHT: i32 = 48;

/// `a + b`, saturating at `usize::MAX`.
pub open spec fn sat_add(a: int, b: int) -> int {
    if a + b > usize::MAX {
        usize::MAX as int
    } else {
        a + b
    }
}

/// `a - b`, saturating at zero.
pub open spec fn sat_sub(a: int, b: int) -> int {
    if a >= b {
        a - b
    } else {
        0
    }
}

pub open spec fn min_int(a: int, b: int) -> int {
    if a <= b {
        a
    } else {
        b
    }
}

/// How many rows a window over `total` rows holds.
pub open spec fn window_rows(visible_rows: int, total: int) -> int {
    min_int(sat_add(visible_rows, 2 * WINDOW_PADDING_ROWS), total)
}

/// A requested window start, moved back so that a full window fits.
pub open spec fn window_start(requested_start: int, total: int, window_len: int) -> int {
    min_int(requested_start, sat_sub(total, window_len))
}

/// The index, among the rendered rows, of the list child at `list_index`.
pub open spec fn row_relative(list_index: int, window_start: int, window_len: int) -> Option<int> {
    let relative = list_index - (if window_start > 0 {
        1int
    } else {
        0int
    });
    if list_index < 0 || relative < 0 || relative >= window_len {
        None
    } else {
        Some(relative)
    }
}

/// The list child showing the history row `absolute_index`, before it is
/// narrowed to the toolkit's `i32`.
pub open spec fn row_for_absolute(absolute_index: int, window_start: int, window_len: int) -> Option<
    int,
> {
    if absolute_index < window_start || absolute_index - window_start >= window_len {
        None
    } else {
        Some(
            absolute_index - window_start + (if window_start > 0 {
                1int
            } else {
                0int
            }),
        )
    }
}

/// The bounds `[lo, hi]` that a selection is clamped into: the rendered window
/// intersected with the history, or the last row when they do not meet.
pub open spec fn clamp_bounds(start: int, len: int, total: int) -> (int, int) {
    let last = total - 1;
    let lo = min_int(start, last);
    let hi = min_int(sat_sub(sat_add(start, len), 1), last);
    if lo <= hi {
        (lo, hi)
    } else {
        (last, last)
    }
}

/// The selection clamped into the rendered window.
pub open spec fn clamped_index(start: int, len: int, total: int, selected: Option<int>) -> Option<
    int,
> {
    if total == 0 || len == 0 {
        None
    } else {
        let (lo, hi) = clamp_bounds(start, len, total);
        let s = min_int(
            match selected {
                Some(i) => i,
                None => lo,
            },
            total - 1,
        );
        Some(
            if s < lo {
                lo
            } else if s > hi {
                hi
            } else {
                s
            },
        )
    }
}

/// Calculate the number of rows requested for a window over `total` rows.
pub fn window_row_count_for(visible_rows: usize, total: usize) -> (r: usize)
    ensures
        r == window_rows(visible_rows as int, total as int),
        r <= total,
{
    let padded = visible_rows.saturating_add(WINDOW_PADDING_ROWS * 2);
    if padded < total {
        padded
    } else {
        total
    }
}

/// Moves a requested window start back so that a window of `window_len` rows
/// ends at or before `total`.
pub fn normalized_window_start(requested_start: usize, total: usize, window_len: usize) -> (r: usize)
    ensures
        r == window_start(requested_start as int, total as int, window_len as int),
{
    let last_start = total.saturating_sub(window_len);
    if requested_start < last_start {
        requested_start
    } else {
        last_start
    }
}

/// Clamp a requested index into the currently rendered window; `None` when
/// nothing is rendered.
pub fn clamp_window_index(start: usize, len: usize, total: usize, selected_index: Option<usize>) -> (r:
    Option<usize>)
    ensures
        r == (match clamped_index(
            start as int,
            len as int,
            total as int,
            match selected_index {
                Some(i) => Some(i as int),
                None => None,
            },
        ) {
            Some(i) => Some(i as usize),
            None => None,
        }),
{
    if total == 0 || len == 0 {
        return None;
    }
    let last = total - 1;
    let end = start.saturating_add(len);
    let lo0 = if start < last {
        start
    } else {
        last
    };
    let end_minus_one = end.saturating_sub(1);
    let hi0 = if end_minus_one < last {
        end_minus_one
    } else {
        last
    };
    let (lo, hi) = if lo0 <= hi0 {
        (lo0, hi0)
    } else {
        (last, last)
    };
    let wanted = match selected_index {
        Some(i) => i,
        None => lo,
    };
    let s = if wanted < last {
        wanted
    } else {
        last
    };
    Some(
        if s < lo {
            lo
        } else if s > hi {
            hi
        } else {
            s
        },
    )
}

/// The pixel height of a spacer standing in for `rows` rows.
pub fn spacer_height(rows: usize) -> (r: i32)
    ensures
        r == min_int(rows * ESTIMATED_ROW_HEIGHT, i32::MAX as int),
{
    if rows >= 44739243 {
        i32::MAX
    } else {
        (rows as i32) * ESTIMATED_ROW_HEIGHT
    }
}

/// The index among the rendered rows of the list child at `list_index`, or
/// `None` for a spacer or a child past the window.
pub fn row_relative_index(list_index: i32, window_start: usize, window_len: usize) -> (r: Option<
    usize,
>)
    ensures
        r == (match row_relative(list_index as int, window_start as int, window_len as int) {
            Some(i) => Some(i as usize),
            None => None,
        }),
{
    if list_index < 0 {
        return None;
    }
    let top_spacer_rows: i32 = if window_start > 0 {
        1
    } else {
        0
    };
    let relative_index = list_index - top_spacer_rows;
    if relative_index < 0 {
        return None;
    }
    let relative_index = relative_index as usize;
    if relative_index < window_len {
        Some(relative_index)
    } else {
        None
    }
}

/// The history index shown by the list child at `list_index`.
pub fn absolute_index_at_row(list_index: i32, window_start: usize, window_len: usize) -> (r: Option<
    usize,
>)
    requires
        row_relative(list_index as int, window_start as int, window_len as int) is Some ==> window_start
            + row_relative(list_index as int, window_start as int, window_len as int)->0
            <= usize::MAX,
    ensures
        r == (match row_relative(list_index as int, window_start as int, window_len as int) {
            Some(i) => Some((window_start + i) as usize),
            None => None,
        }),
{
    match row_relative_index(list_index, window_start, window_len) {
        Some(index) => Some(window_start + index),
        None => None,
    }
}

/// The list child that shows the history row `absolute_index`, or `None` when
/// the row is outside the rendered window.
pub fn row_index_for_absolute(absolute_index: usize, window_start: usize, window_len: usize) -> (r:
    Option<i32>)
    ensures
        r == (match row_for_absolute(absolute_index as int, window_start as int, window_len as int) {
            Some(i) => Some(i as i32),
            None => None,
        }),
{
    if absolute_index < window_start {
        return None;
    }
    let relative_index = absolute_index - window_start;
    if relative_index >= window_len {
        return None;
    }
    let spacer: usize = if window_start > 0 {
        1
    } else {
        0
    };
    Some((relative_index + spacer) as i32)
}

/// Whether the history row `index` is among the rendered rows.
pub open spec fn in_window(index: int, start: int, len: int) -> bool {
    index >= start && index < sat_add(start, len)
}

/// Whether the history row `index` is rendered; when it is not, the window is
/// reloaded starting `WINDOW_PADDING_ROWS` above it.
pub fn row_in_window(index: usize, start: usize, len: usize) -> (r: bool)
    ensures
        r == in_window(index as int, start as int, len as int),
{
    index >= start && index < start.saturating_add(len)
}

/// The window start to load for a requested start, once the history size is
/// known (an empty history keeps the request).
pub fn queued_window_start(requested_start: usize, total: usize, visible_rows: usize) -> (r: usize)
    ensures
        r == (if total == 0 {
            requested_start as int
        } else {
            window_start(
                requested_start as int,
                total as int,
                window_rows(visible_rows as int, total as int),
            )
        }),
{
    if total == 0 {
        requested_start
    } else {
        let window_len = window_row_count_for(visible_rows, total);
        normalized_window_start(requested_start, total, window_len)
    }
}

/// A window to load: its first row and the row to select in it.
#[derive(Clone, Copy, Debug, PartialEq, Eq, Structural)]
pub struct WindowRequest {
    pub start: usize,
    pub selected_index: usize,
}

/// Whether scrolling to `first_visible` leaves the rendered window: the window
/// is empty, the viewport runs past either end, or the ideal start has moved
/// by half the padding or more.
pub open spec fn scroll_needs_reload(
    first_visible: int,
    visible_rows: int,
    current_start: int,
    current_len: int,
) -> bool {
    let desired = sat_sub(first_visible, WINDOW_PADDING_ROWS as int);
    ||| current_len == 0
    ||| first_visible < current_start
    ||| sat_add(first_visible, visible_rows) > sat_add(current_start, current_len)
    ||| (if desired >= current_start {
        desired - current_start
    } else {
        current_start - desired
    }) >= WINDOW_PADDING_ROWS / 2
}

/// The window to load after the viewport scrolled to `first_visible`, or
/// `None` when the rendered window still covers it.
pub open spec fn scroll_request(
    total: int,
    first_visible: int,
    visible_rows: int,
    current_start: int,
    current_len: int,
    selected: Option<int>,
) -> Option<(int, int)> {
    let first = min_int(first_visible, sat_sub(total, 1));
    if total == 0 || !scroll_needs_reload(first, visible_rows, current_start, current_len) {
        None
    } else {
        let len = window_rows(visible_rows, total);
        let start = window_start(sat_sub(first, WINDOW_PADDING_ROWS as int), total, len);
        let end = sat_add(start, len);
        let keep = match selected {
            Some(i) => i >= start && i < end,
            None => false,
        };
        Some((start, if keep { selected->0 } else { first }))
    }
}

/// Decides whether a scroll must reload the window and, if so, which rows to
/// load and which to select (the current selection when it stays inside).
pub fn window_for_scroll(
    total: usize,
    first_visible: usize,
    visible_rows: usize,
    current_start: usize,
    current_len: usize,
    selected_index: Option<usize>,
) -> (r: Option<WindowRequest>)
    ensures
        r matches Some(w) ==> scroll_request(
            total as int,
            first_visible as int,
            visible_rows as int,
            current_start as int,
            current_len as int,
            match selected_index {
                Some(i) => Some(i as int),
                None => None,
            },
        ) == Some((w.start as int, w.selected_index as int)),
        r is None ==> scroll_request(
            total as int,
            first_visible as int,
            visible_rows as int,
            current_start as int,
            current_len as int,
            match selected_index {
                Some(i) => Some(i as int),
                None => None,
            },
        ) is None,
{
    if total == 0 {
        return None;
    }
    let last = total - 1;
    let first = if first_visible < last {
        first_visible
    } else {
        last
    };
    let desired = first.saturating_sub(WINDOW_PADDING_ROWS);
    let distance = if desired >= current_start {
        desired - current_start
    } else {
        current_start - desired
    };
    let needs_reload = current_len == 0 || first < current_start || first.saturating_add(
        visible_rows,
    ) > current_start.saturating_add(current_len) || distance >= WINDOW_PADDING_ROWS / 2;
    if !needs_reload {
        return None;
    }
    let window_len = window_row_count_for(visible_rows, total);
    let start = normalized_window_start(desired, total, window_len);
    let end = start.saturating_add(window_len);
    let selected = match selected_index {
        Some(i) => if i >= start && i < end {
            i
        } else {
            first
        },
        None => first,
    };
    Some(WindowRequest { start, selected_index: selected })
}

/// A clamped selection lies in the history and, when the rendered window
/// reaches into the history, inside the window; a selection already inside
/// both is kept.
pub proof fn lemma_clamped_index_in_window(start: int, len: int, total: int, selected: Option<int>)
    requires
        0 <= start <= usize::MAX,
        0 <= len <= usize::MAX,
        0 <= total <= usize::MAX,
        total > 0,
        len > 0,
    ensures
        ({
            let r = clamped_index(start, len, total, selected)->0;
            &&& clamped_index(start, len, total, selected) is Some
            &&& 0 <= r < total
            &&& start < total ==> start <= r < sat_add(start, len)
            &&& selected matches Some(i) ==> (start <= i < sat_add(start, len) && i < total ==> r
                == i)
        }),
{
}

/// The list child found for a history row leads back to that row: the two
/// index conversions are inverse on the rendered window (while the child's
/// index fits the toolkit's `i32`).
pub proof fn lemma_row_index_round_trip(absolute_index: int, window_start: int, window_len: int)
    requires
        0 <= window_start,
        window_start <= absolute_index < window_start + window_len,
        absolute_index - window_start + 1 <= i32::MAX,
    ensures
        row_for_absolute(absolute_index, window_start, window_len) is Some,
        row_relative(
            row_for_absolute(absolute_index, window_start, window_len)->0,
            window_start,
            window_len,
        ) == Some(absolute_index - window_start),
{
}

/// A normalized window fits: it starts no later than requested and, when the
/// window is no longer than the history, ends within it.
pub proof fn lemma_window_fits(requested_start: int, total: int, visible_rows: int)
    requires
        0 <= requested_start,
        0 <= total <= usize::MAX,
        0 <= visible_rows <= usize::MAX,
    ensures
        ({
            let len = window_rows(visible_rows, total);
            let start = window_start(requested_start, total, len);
            &&& 0 <= len <= total
            &&& len <= sat_add(visible_rows, 2 * WINDOW_PADDING_ROWS)
            &&& 0 <= start <= requested_start
            &&& start + len <= total
        }),
{
}

/// The rows the spacers stand for: everything above the rendered window, and
/// everything below it.
pub fn window_spacers(start: usize, len: usize, total: usize) -> (r: (usize, usize))
    ensures
        r.0 == start,
        r.1 == sat_sub(total as int, sat_add(start as int, len as int)),
{
    let loaded_end = start.saturating_add(len);
    (start, total.saturating_sub(loaded_end))
}

} // verus!
