//! Geometry and modes of the main window: size limits, the saved state, the
//! placement on start, and the extended-style bits that make the window
//! click-through or hide it from the task bar.

use crate::storage::AppData;
use vstd::prelude::*;

verus! {

/// Width used when no width was saved.
pub const DEFAULT_WINDOW_W: i32 = 320;

/// Height used when no height was saved.
pub const DEFAULT_WINDOW_H: i32 = 480;

/// Smallest width the window can be given.
pub const MIN_WINDOW_W: i32 = 280;

/// Smallest height the window can be given.
pub const MIN_WINDOW_H: i32 = 320;

/// Largest width the window can be given.
pub const MAX_WINDOW_W: i32 = 600;

/// Largest height the window can be given.
pub const MAX_WINDOW_H: i32 = 900;

/// `v` raised to `lo` and then lowered to `hi`.
pub open spec fn clamp_spec(v: int, lo: int, hi: int) -> int {
    if v < lo {
        lo
    } else if v > hi {
        hi
    } else {
        v
    }
}

/// Keeps the window size within the limits, so that dragging cannot make the
/// window too small or too large.
pub fn clamp_window_size(width: i32, height: i32) -> (r: (i32, i32))
    ensures
        r.0 == clamp_spec(width as int, MIN_WINDOW_W as int, MAX_WINDOW_W as int),
        r.1 == clamp_spec(height as int, MIN_WINDOW_H as int, MAX_WINDOW_H as int),
{
    let w = if width < MIN_WINDOW_W {
        MIN_WINDOW_W
    } else if width > MAX_WINDOW_W {
        MAX_WINDOW_W
    } else {
        width
    };
    let h = if height < MIN_WINDOW_H {
        MIN_WINDOW_H
    } else if height > MAX_WINDOW_H {
        MAX_WINDOW_H
    } else {
        height
    };
    (w, h)
}

/// A clamped size lies within the limits, a size within the limits is kept,
/// and clamping twice is clamping once.
pub proof fn law_clamp_window_size(width: int, height: int)
    ensures
        MIN_WINDOW_W <= clamp_spec(width, MIN_WINDOW_W as int, MAX_WINDOW_W as int)
            <= MAX_WINDOW_W,
        MIN_WINDOW_H <= clamp_spec(height, MIN_WINDOW_H as int, MAX_WINDOW_H as int)
            <= MAX_WINDOW_H,
        MIN_WINDOW_W <= width <= MAX_WINDOW_W ==> clamp_spec(
            width,
            MIN_WINDOW_W as int,
            MAX_WINDOW_W as int,
        ) == width,
        MIN_WINDOW_H <= height <= MAX_WINDOW_H ==> clamp_spec(
            height,
            MIN_WINDOW_H as int,
            MAX_WINDOW_H as int,
        ) == height,
        clamp_spec(
            clamp_spec(width, MIN_WINDOW_W as int, MAX_WINDOW_W as int),
            MIN_WINDOW_W as int,
            MAX_WINDOW_W as int,
        ) == clamp_spec(width, MIN_WINDOW_W as int, MAX_WINDOW_W as int),
        clamp_spec(
            clamp_spec(height, MIN_WINDOW_H as int, MAX_WINDOW_H as int),
            MIN_WINDOW_H as int,
            MAX_WINDOW_H as int,
        ) == clamp_spec(height, MIN_WINDOW_H as int, MAX_WINDOW_H as int),
{
}

/// Records the window's current position, size and pin state.
pub fn save_window_state(data: &mut AppData, x: i32, y: i32, width: u32, height: u32, is_pinned: bool)
    ensures
        final(data).window_x == x,
        final(data).window_y == y,
        final(data).window_w == width as i32,
        final(data).window_h == height as i32,
        final(data).is_pinned == is_pinned,
        final(data).is_click_through == old(data).is_click_through,
        final(data).notes@ == old(data).notes@,
        final(data).alarms@ == old(data).alarms@,
{
    data.window_x = x;
    data.window_y = y;
    data.window_w = width as i32;
    data.window_h = height as i32;
    data.is_pinned = is_pinned;
}

/// Records whether mouse input passes through the window.
pub fn set_click_through(data: &mut AppData, enabled: bool)
    ensures
        final(data).is_click_through == enabled,
        final(data).is_pinned == old(data).is_pinned,
        final(data).window_x == old(data).window_x,
        final(data).window_y == old(data).window_y,
        final(data).window_w == old(data).window_w,
        final(data).window_h == old(data).window_h,
        final(data).notes@ == old(data).notes@,
        final(data).alarms@ == old(data).alarms@,
{
    data.is_click_through = enabled;
}

/// Flips the click-through mode and answers the new mode.
pub fn toggle_click_through(data: &mut AppData) -> (enabled: bool)
    ensures
        enabled == !old(data).is_click_through,
        final(data).is_click_through == enabled,
        final(data).is_pinned == old(data).is_pinned,
        final(data).window_x == old(data).window_x,
        final(data).window_y == old(data).window_y,
        final(data).window_w == old(data).window_w,
        final(data).window_h == old(data).window_h,
        final(data).notes@ == old(data).notes@,
        final(data).alarms@ == old(data).alarms@,
{
    let enabled = !data.is_click_through;
    set_click_through(data, enabled);
    enabled
}

/// Records whether the window stays on top.
pub fn set_pinned(data: &mut AppData, pinned: bool)
    ensures
        final(data).is_pinned == pinned,
        final(data).is_click_through == old(data).is_click_through,
        final(data).window_x == old(data).window_x,
        final(data).window_y == old(data).window_y,
        final(data).window_w == old(data).window_w,
        final(data).window_h == old(data).window_h,
        final(data).notes@ == old(data).notes@,
        final(data).alarms@ == old(data).alarms@,
{
    data.is_pinned = pinned;
}

/// Flips the pin state that the window shows and answers the new state.
pub fn toggle_pinned(data: &mut AppData, shown_pinned: bool) -> (pinned: bool)
    ensures
        pinned == !shown_pinned,
        final(data).is_pinned == pinned,
        final(data).is_click_through == old(data).is_click_through,
        final(data).window_x == old(data).window_x,
        final(data).window_y == old(data).window_y,
        final(data).window_w == old(data).window_w,
        final(data).window_h == old(data).window_h,
        final(data).notes@ == old(data).notes@,
        final(data).alarms@ == old(data).alarms@,
{
    let pinned = !shown_pinned;
    set_pinned(data, pinned);
    pinned
}

/// How to bring the window back on start.
#[derive(Debug, Clone, Copy)]
pub struct WindowPlan {
    /// Width to apply.
    pub width: i32,
    /// Height to apply.
    pub height: i32,
    /// Saved position; `None` means: place at the top right of the screen.
    pub position: Option<(i32, i32)>,
    /// Whether to stay on top.
    pub is_pinned: bool,
    /// Whether mouse input passes through.
    pub is_click_through: bool,
}

/// The size to restore: the saved size, clamped, when both dimensions were
/// saved; the default size otherwise.
pub open spec fn restored_size(data: AppData) -> (int, int) {
    if data.window_w > 0 && data.window_h > 0 {
        (
            clamp_spec(data.window_w as int, MIN_WINDOW_W as int, MAX_WINDOW_W as int),
            clamp_spec(data.window_h as int, MIN_WINDOW_H as int, MAX_WINDOW_H as int),
        )
    } else {
        (DEFAULT_WINDOW_W as int, DEFAULT_WINDOW_H as int)
    }
}

/// Decides how to restore the window from the saved state: the saved
/// position when both coordinates are non-negative, the top right corner
/// otherwise.
pub fn restore_window_state(data: &AppData) -> (plan: WindowPlan)
    ensures
        plan.width == restored_size(*data).0,
        plan.height == restored_size(*data).1,
        plan.position == (if data.window_x >= 0 && data.window_y >= 0 {
            Some((data.window_x, data.window_y))
        } else {
            None
        }),
        plan.is_pinned == data.is_pinned,
        plan.is_click_through == data.is_click_through,
{
    let (width, height) = if data.window_w > 0 && data.window_h > 0 {
        clamp_window_size(data.window_w, data.window_h)
    } else {
        (DEFAULT_WINDOW_W, DEFAULT_WINDOW_H)
    };
    let position = if data.window_x >= 0 && data.window_y >= 0 {
        Some((data.window_x, data.window_y))
    } else {
        None
    };
    WindowPlan {
        width,
        height,
        position,
        is_pinned: data.is_pinned,
        is_click_through: data.is_click_through,
    }
}

/// A window saved on screen comes back where it was, at the size it had when
/// that size was within the limits, with the same pin and click-through modes.
pub proof fn law_save_then_restore(
    before: AppData,
    after: AppData,
    x: i32,
    y: i32,
    width: u32,
    height: u32,
    pinned: bool,
)
    requires
        after.window_x == x,
        after.window_y == y,
        after.window_w == width as i32,
        after.window_h == height as i32,
        after.is_pinned == pinned,
        after.is_click_through == before.is_click_through,
        x >= 0,
        y >= 0,
        MIN_WINDOW_W <= width <= MAX_WINDOW_W,
        MIN_WINDOW_H <= height <= MAX_WINDOW_H,
    ensures
        restored_size(after) == (width as int, height as int),
        after.window_x >= 0 && after.window_y >= 0,
        after.is_pinned == pinned,
        after.is_click_through == before.is_click_through,
{
}

/// With nothing saved (the default data), the window comes back at the
/// default size and goes to the top right corner.
pub proof fn law_fresh_window_goes_top_right(data: AppData)
    requires
        data.window_x == -1,
        data.window_y == -1,
        data.window_w == -1,
        data.window_h == -1,
    ensures
        restored_size(data) == (DEFAULT_WINDOW_W as int, DEFAULT_WINDOW_H as int),
        !(data.window_x >= 0 && data.window_y >= 0),
{
}

/// The default position at the top right: 30 pixels in from the right edge
/// of the work area and 30 from the top when the work area is known, and
/// (100, 100) otherwise.
pub fn calc_top_right(work_right: Option<i32>, window_width: i32) -> (r: (i32, i32))
    requires
        work_right matches Some(right) ==> i32::MIN <= right - window_width <= i32::MAX,
        work_right matches Some(right) ==> i32::MIN <= right - window_width - 30 <= i32::MAX,
    ensures
        r == (match work_right {
            Some(right) => ((right - window_width - 30) as i32, 30i32),
            None => (100i32, 100i32),
        }),
{
    match work_right {
        Some(right) => (right - window_width - 30, 30),
        None => (100, 100),
    }
}

/// The new size after a drag that changes the size by (dw, dh) pixels,
/// clamped to the limits; it is recorded as the saved size.
pub fn resize_window(data: &mut AppData, width: u32, height: u32, dw: i32, dh: i32) -> (r: (
    i32,
    i32,
))
    requires
        i32::MIN <= (width as i32) + dw <= i32::MAX,
        i32::MIN <= (height as i32) + dh <= i32::MAX,
    ensures
        r.0 == clamp_spec((width as i32) + dw, MIN_WINDOW_W as int, MAX_WINDOW_W as int),
        r.1 == clamp_spec((height as i32) + dh, MIN_WINDOW_H as int, MAX_WINDOW_H as int),
        final(data).window_w == r.0,
        final(data).window_h == r.1,
        final(data).window_x == old(data).window_x,
        final(data).window_y == old(data).window_y,
        final(data).is_pinned == old(data).is_pinned,
        final(data).is_click_through == old(data).is_click_through,
        final(data).notes@ == old(data).notes@,
        final(data).alarms@ == old(data).alarms@,
{
    let (new_w, new_h) = clamp_window_size(width as i32 + dw, height as i32 + dh);
    data.window_w = new_w;
    data.window_h = new_h;
    (new_w, new_h)
}

/// Whether a top-level window found while enumerating is the one sought: it
/// belongs to this process, has a title, and the title is exactly `wanted`.
/// Windows of other processes with the same title (such as a folder window
/// of that name) do not count.
pub fn is_own_window(window_pid: u32, our_pid: u32, title: &str, wanted: &str) -> (r: bool)
    ensures
        r == (window_pid == our_pid && title@.len() > 0 && title@ == wanted@),
{
    if window_pid != our_pid {
        return false;
    }
    if title.is_empty() {
        return false;
    }
    title.to_owned() == wanted.to_owned()
}

/// The extended window style with the click-through bits (`mask`) set when
/// `enabled`, cleared otherwise.
pub fn click_through_style(ex_style: u32, mask: u32, enabled: bool) -> (r: u32)
    ensures
        r == (if enabled {
            ex_style | mask
        } else {
            ex_style & !mask
        }),
{
    if enabled {
        ex_style | mask
    } else {
        ex_style & !mask
    }
}

/// Switching click-through touches only the bits of the mask: they are all
/// set when enabled and all clear when disabled, and switching it on and then
/// off again leaves the other bits as they were.
pub proof fn law_click_through_bits(ex_style: u32, mask: u32)
    ensures
        (ex_style | mask) & mask == mask,
        (ex_style & !mask) & mask == 0,
        (ex_style | mask) & !mask == ex_style & !mask,
        ((ex_style | mask) & !mask) | (ex_style & mask) == ex_style,
{
    assert((ex_style | mask) & mask == mask) by (bit_vector);
    assert((ex_style & !mask) & mask == 0) by (bit_vector);
    assert((ex_style | mask) & !mask == ex_style & !mask) by (bit_vector);
    assert(((ex_style | mask) & !mask) | (ex_style & mask) == ex_style) by (bit_vector);
}

/// The extended window style that keeps the window out of the task bar: the
/// tool-window bit set and the app-window bit cleared. The style is written
/// back only when it differs.
pub fn tray_only_style(ex_style: u32, tool_window: u32, app_window: u32) -> (r: (u32, bool))
    ensures
        r.0 == (ex_style | tool_window) & !app_window,
        r.1 == (r.0 != ex_style),
{
    let style = (ex_style | tool_window) & !app_window;
    (style, style != ex_style)
}

/// Once the window is tool-only, configuring it again changes nothing.
pub proof fn law_tray_only_stable(ex_style: u32, tool_window: u32, app_window: u32)
    ensures
        (((ex_style | tool_window) & !app_window) | tool_window) & !app_window == (ex_style
            | tool_window) & !app_window,
{
    assert((((ex_style | tool_window) & !app_window) | tool_window) & !app_window == (ex_style
        | tool_window) & !app_window) by (bit_vector);
}

} // verus!
