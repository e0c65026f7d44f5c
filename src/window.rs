//! Placement of the compact recording window: centred horizontally on the
//! monitor, a margin above its bottom edge, never above its top edge.

use vstd::prelude::*;
use crate::level::div_toward_zero;

verus! {

/// Gap between the compact window and the bottom of the monitor, in pixels.
pub const MINI_WINDOW_MARGIN_BOTTOM: i32 = 32;

/// Where the compact window goes, in exact arithmetic: x centres it (the
/// halved difference rounded toward zero), y leaves `margin` below it but not
/// above the monitor's top edge.
pub open spec fn mini_window_spot(
    monitor_x: int,
    monitor_y: int,
    monitor_width: int,
    monitor_height: int,
    window_width: int,
    window_height: int,
    margin: int,
) -> (int, int) {
    let x = monitor_x + div_toward_zero(monitor_width - window_width, 2);
    let bottom = monitor_y + monitor_height - window_height - margin;
    (x, if bottom > monitor_y { bottom } else { monitor_y })
}

/// The position of the compact window on a monitor at (`monitor_x`,
/// `monitor_y`) of the given size; `None` when it would not fit in `i32`
/// coordinates.
pub fn mini_window_position(
    monitor_x: i32,
    monitor_y: i32,
    monitor_width: u32,
    monitor_height: u32,
    window_width: u32,
    window_height: u32,
) -> (r: Option<(i32, i32)>)
    ensures
        ({
            let (x, y) = mini_window_spot(
                monitor_x as int,
                monitor_y as int,
                monitor_width as int,
                monitor_height as int,
                window_width as int,
                window_height as int,
                MINI_WINDOW_MARGIN_BOTTOM as int,
            );
            match r {
                Some((rx, ry)) => rx == x && ry == y,
                None => !(i32::MIN <= x <= i32::MAX && i32::MIN <= y <= i32::MAX),
            }
        }),
{
    let diff: i64 = monitor_width as i64 - window_width as i64;
    let half: i64 = if diff >= 0 {
        diff / 2
    } else {
        -((-diff) / 2)
    };
    let x: i64 = monitor_x as i64 + half;
    let bottom: i64 = monitor_y as i64 + monitor_height as i64 - window_height as i64
        - MINI_WINDOW_MARGIN_BOTTOM as i64;
    let y: i64 = if bottom > monitor_y as i64 {
        bottom
    } else {
        monitor_y as i64
    };
    if x < i32::MIN as i64 || x > i32::MAX as i64 || y > i32::MAX as i64 {
        None
    } else {
        Some((x as i32, y as i32))
    }
}

} // verus!
