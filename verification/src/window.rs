//! The visible window of a scrollable list: how many rows it has and where
//! it starts, given which of the listed rows is selected.

use vstd::prelude::*;

verus! {

/// The window used when the terminal does not say how many rows it has.
pub const FALLBACK_ROWS: usize = 5;

/// The rows of the terminal that a list can use once `reserved` of them
/// are taken by the prompt: never fewer than one, and `FALLBACK_ROWS` when
/// the terminal's size is unknown.
pub open spec fn available_rows(terminal_rows: Option<u16>, reserved: int) -> int {
    match terminal_rows {
        Some(rows) => if rows - reserved >= 1 {
            rows - reserved
        } else {
            1
        },
        None => FALLBACK_ROWS as int,
    }
}

/// The size of the window: the rows available, at most `cap`, at most one
/// row per entry, and at least one row while there is an entry.
pub open spec fn window_rows(total: int, available: int, cap: int) -> int {
    let bounded = if available < cap {
        available
    } else {
        cap
    };
    let fitted = if total < bounded {
        total
    } else {
        bounded
    };
    if fitted < 1 && total >= 1 {
        1
    } else {
        fitted
    }
}

/// How many rows stand above the selected one when it can be centred.
pub open spec fn lead_rows(window: int) -> int {
    if window < 2 {
        0
    } else {
        window / 2 - 1
    }
}

/// The last offset at which the window is still filled: `count - window`
/// when there are at least `window` rows, else zero.
pub open spec fn max_offset(count: int, window: int) -> int {
    if count >= window {
        count - window
    } else {
        0
    }
}

/// The first row shown when row `rank` of `count` is selected: the
/// selected row stands `lead_rows` below the top where that is possible,
/// and the window never starts before the first row nor runs past the last.
pub open spec fn scroll_offset(rank: int, count: int, window: int) -> int {
    let centred = if rank <= lead_rows(window) {
        0
    } else {
        rank - lead_rows(window)
    };
    if centred > max_offset(count, window) {
        max_offset(count, window)
    } else {
        centred
    }
}

/// The selected row is always inside the window, and the window stays
/// within the rows.
pub proof fn law_selected_row_is_visible(rank: int, count: int, window: int)
    requires
        0 <= rank < count,
        window >= 1,
    ensures
        0 <= scroll_offset(rank, count, window) <= max_offset(count, window),
        scroll_offset(rank, count, window) <= rank < scroll_offset(rank, count, window) + window,
{
}

/// With at least one entry, one row available and a cap of at least one,
/// the window is the least of the three.
pub proof fn law_window_is_the_least(total: int, available: int, cap: int)
    requires
        total >= 1,
        available >= 1,
        cap >= 1,
    ensures
        1 <= window_rows(total, available, cap),
        window_rows(total, available, cap) <= total,
        window_rows(total, available, cap) <= available,
        window_rows(total, available, cap) <= cap,
        window_rows(total, available, cap) == total || window_rows(total, available, cap)
            == available || window_rows(total, available, cap) == cap,
{
}

/// Where the rows allow it, the selected row stands `lead_rows` below the
/// top of the window: half a window, less one row, above it and the rest
/// below.
pub proof fn law_centred_where_possible(rank: int, count: int, window: int)
    requires
        0 <= rank < count,
        window >= 1,
        lead_rows(window) <= rank,
        rank - lead_rows(window) <= max_offset(count, window),
    ensures
        scroll_offset(rank, count, window) == rank - lead_rows(window),
        0 <= lead_rows(window) < window,
{
}

/// Computes `available_rows`.
pub fn rows_available(terminal_rows: Option<u16>, reserved: u16) -> (rows: usize)
    ensures
        rows == available_rows(terminal_rows, reserved as int),
        rows >= 1,
{
    match terminal_rows {
        Some(rows) => if rows > reserved {
            (rows - reserved) as usize
        } else {
            1
        },
        None => FALLBACK_ROWS,
    }
}

/// Computes `window_rows`.
pub fn window_size(total: usize, available: usize, cap: usize) -> (window: usize)
    ensures
        window == window_rows(total as int, available as int, cap as int),
        window <= total,
        total >= 1 ==> window >= 1,
{
    let mut window = if available < cap {
        available
    } else {
        cap
    };
    if total < window {
        window = total;
    }
    if window < 1 && total >= 1 {
        window = 1;
    }
    window
}

/// Computes `scroll_offset`.
pub fn offset_for(rank: usize, count: usize, window: usize) -> (offset: usize)
    ensures
        offset == scroll_offset(rank as int, count as int, window as int),
{
    let lead: usize = if window < 2 {
        0
    } else {
        window / 2 - 1
    };
    let centred: usize = if rank <= lead {
        0
    } else {
        rank - lead
    };
    let last: usize = if count >= window {
        count - window
    } else {
        0
    };
    if centred > last {
        last
    } else {
        centred
    }
}

} // verus!
