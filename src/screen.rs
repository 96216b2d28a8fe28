//! Where the terminal cursor goes inside the editing panes.

use vstd::prelude::*;

verus! {

pub open spec fn sat_sub(a: int, b: int) -> int {
    if a > b {
        a - b
    } else {
        0
    }
}

pub open spec fn min_int(a: int, b: int) -> int {
    if a < b {
        a
    } else {
        b
    }
}

/// The screen cell of the content cursor in a bordered pane at `(x, y)` of
/// size `width` by `height`: the cursor row less the scroll offset, and the
/// cursor column, each kept inside the pane's inner area. A row offset past
/// the range of a screen coordinate wraps as a conversion to `u16` does.
pub fn content_cursor_to_screen(
    x: u16,
    y: u16,
    width: u16,
    height: u16,
    cursor_row: usize,
    cursor_col: usize,
    scroll_y: usize,
) -> (r: (u16, u16))
    requires
        x as int + width as int + 1 <= u16::MAX,
        y as int + height as int + 1 <= u16::MAX,
    ensures
        r.0 == x + 1 + min_int(cursor_col as int % 0x10000, sat_sub(sat_sub(width as int, 2), 1)),
        r.1 == y + 1 + min_int(sat_sub(cursor_row as int, scroll_y as int) % 0x10000, sat_sub(sat_sub(height as int, 2), 1)),
{
    let inner_w: u16 = if width > 2 { width - 2 } else { 0 };
    let inner_h: u16 = if height > 2 { height - 2 } else { 0 };
    let visible_row: usize = if cursor_row > scroll_y { cursor_row - scroll_y } else { 0 };
    let max_dy: u16 = if inner_h > 1 { inner_h - 1 } else { 0 };
    let max_dx: u16 = if inner_w > 1 { inner_w - 1 } else { 0 };
    let dy: u16 = (visible_row % 0x10000) as u16;
    let dx: u16 = (cursor_col % 0x10000) as u16;
    let cy = y + 1 + if dy < max_dy { dy } else { max_dy };
    let cx = x + 1 + if dx < max_dx { dx } else { max_dx };
    (cx, cy)
}

/// The screen column of the title cursor in a bordered pane at `x` of width
/// `width`: after the border and the characters before the cursor, but not
/// past the last column before the right border.
pub fn title_cursor_to_screen(x: u16, width: u16, cursor: usize) -> (r: u16)
    requires
        x as int + width as int + 1 <= u16::MAX,
    ensures
        r == min_int(x + 1 + (cursor as int % 0x10000), sat_sub(x + width, 2)),
{
    let dx: u16 = (cursor % 0x10000) as u16;
    let right: u16 = x + width;
    let limit: u16 = if right > 2 { right - 2 } else { 0 };
    let want: u32 = x as u32 + 1 + dx as u32;
    if want < limit as u32 {
        want as u16
    } else {
        limit
    }
}

} // verus!
