//! Where the switcher window goes: over the whole monitor, or centred on it at
//! the size the settings ask for.
use vstd::prelude::*;
use crate::text::{owned, same_text};

verus! {

/// A monitor's area in physical pixels.
#[derive(Debug, Clone, Copy, PartialEq, Eq, Structural)]
pub struct MonitorArea {
    pub x: i32,
    pub y: i32,
    pub width: i32,
    pub height: i32,
}

/// A window position and size in physical pixels.
#[derive(Debug, Clone, Copy, PartialEq, Eq, Structural)]
pub struct WindowBounds {
    pub x: i32,
    pub y: i32,
    pub width: u32,
    pub height: u32,
}

/// The area of a monitor given by the edges of its rectangle.
pub fn monitor_area(left: i32, top: i32, right: i32, bottom: i32) -> (r: MonitorArea)
    requires
        i32::MIN <= right - left <= i32::MAX,
        i32::MIN <= bottom - top <= i32::MAX,
    ensures
        r == (MonitorArea { x: left, y: top, width: (right - left) as i32, height: (bottom - top) as i32 }),
{
    MonitorArea { x: left, y: top, width: right - left, height: bottom - top }
}

/// The bounds that cover a monitor: its position and extent (what
/// `SetWindowPos` receives in full-screen mode).
pub fn cover_monitor(left: i32, top: i32, right: i32, bottom: i32) -> (r: MonitorArea)
    requires
        i32::MIN <= right - left <= i32::MAX,
        i32::MIN <= bottom - top <= i32::MAX,
    ensures
        r.x == left,
        r.y == top,
        r.x + r.width == right,
        r.y + r.height == bottom,
{
    monitor_area(left, top, right, bottom)
}

/// The window mode that places a window of chosen size.
pub open spec fn custom_mode() -> Seq<char> {
    seq!['c', 'u', 's', 't', 'o', 'm']
}

/// Whether the settings' window mode asks for a window of chosen size; every
/// other mode covers the monitor.
pub fn is_custom_mode(window_mode: &str) -> (r: bool)
    ensures
        r == (window_mode@ == custom_mode()),
{
    let custom = owned("custom");
    proof {
        reveal_strlit("custom");
    }
    assert(custom@ =~= custom_mode());
    same_text(window_mode, custom.as_str())
}

pub const MIN_WINDOW_WIDTH: u32 = 720;

pub const MAX_WINDOW_WIDTH: u32 = 7680;

pub const MIN_WINDOW_HEIGHT: u32 = 460;

pub const MAX_WINDOW_HEIGHT: u32 = 4320;

pub open spec fn clamp(v: int, lo: int, hi: int) -> int {
    if v < lo {
        lo
    } else if v > hi {
        hi
    } else {
        v
    }
}

pub open spec fn saturating_sub(a: int, b: int) -> int {
    if a > b {
        a - b
    } else {
        0
    }
}

/// The offset that centres `size` in an extent: half of what the size leaves
/// over (the extent read as unsigned, as the monitor's size is).
pub open spec fn centre_offset(extent: i32, size: int) -> int {
    saturating_sub((extent as u32) as int, size) / 2
}

/// The bounds of a window of chosen size: the size clamped to 720..=7680 by
/// 460..=4320, centred on the monitor.
pub open spec fn spec_custom_bounds(width: u32, height: u32, m: MonitorArea) -> WindowBounds {
    let w = clamp(width as int, 720, 7680);
    let h = clamp(height as int, 460, 4320);
    WindowBounds {
        x: (m.x + centre_offset(m.width, w)) as i32,
        y: (m.y + centre_offset(m.height, h)) as i32,
        width: w as u32,
        height: h as u32,
    }
}

/// Whether the centred position stays within the range of `i32`.
pub open spec fn custom_bounds_fit(width: u32, height: u32, m: MonitorArea) -> bool {
    let w = clamp(width as int, 720, 7680);
    let h = clamp(height as int, 460, 4320);
    &&& m.x + centre_offset(m.width, w) <= i32::MAX
    &&& m.y + centre_offset(m.height, h) <= i32::MAX
}

/// Centres a window of the size the settings ask for on the monitor.
pub fn custom_window_bounds(width: u32, height: u32, monitor: MonitorArea) -> (r: WindowBounds)
    requires
        custom_bounds_fit(width, height, monitor),
    ensures
        r == spec_custom_bounds(width, height, monitor),
{
    let w = if width < MIN_WINDOW_WIDTH {
        MIN_WINDOW_WIDTH
    } else if width > MAX_WINDOW_WIDTH {
        MAX_WINDOW_WIDTH
    } else {
        width
    };
    let h = if height < MIN_WINDOW_HEIGHT {
        MIN_WINDOW_HEIGHT
    } else if height > MAX_WINDOW_HEIGHT {
        MAX_WINDOW_HEIGHT
    } else {
        height
    };
    let mw = monitor.width as u32;
    let mh = monitor.height as u32;
    let x_offset = (mw.saturating_sub(w) / 2) as i32;
    let y_offset = (mh.saturating_sub(h) / 2) as i32;
    WindowBounds { x: monitor.x + x_offset, y: monitor.y + y_offset, width: w, height: h }
}

/// The centred bounds, or `None` when the position would leave the range of
/// `i32`.
pub fn checked_custom_window_bounds(width: u32, height: u32, monitor: MonitorArea) -> (r: Option<
    WindowBounds,
>)
    ensures
        match r {
            Some(b) => custom_bounds_fit(width, height, monitor) && b == spec_custom_bounds(
                width,
                height,
                monitor,
            ),
            None => !custom_bounds_fit(width, height, monitor),
        },
{
    let w: u32 = if width < MIN_WINDOW_WIDTH {
        MIN_WINDOW_WIDTH
    } else if width > MAX_WINDOW_WIDTH {
        MAX_WINDOW_WIDTH
    } else {
        width
    };
    let h: u32 = if height < MIN_WINDOW_HEIGHT {
        MIN_WINDOW_HEIGHT
    } else if height > MAX_WINDOW_HEIGHT {
        MAX_WINDOW_HEIGHT
    } else {
        height
    };
    let x = monitor.x as i64 + ((monitor.width as u32).saturating_sub(w) / 2) as i64;
    let y = monitor.y as i64 + ((monitor.height as u32).saturating_sub(h) / 2) as i64;
    if x > i32::MAX as i64 || y > i32::MAX as i64 {
        return None;
    }
    Some(custom_window_bounds(width, height, monitor))
}

/// A window of chosen size lies within its monitor when the monitor is at
/// least that large, and its size is within the allowed range.
pub proof fn lemma_custom_bounds_inside_monitor(width: u32, height: u32, m: MonitorArea)
    requires
        custom_bounds_fit(width, height, m),
    ensures
        ({
            let b = spec_custom_bounds(width, height, m);
            &&& 720 <= b.width <= 7680
            &&& 460 <= b.height <= 4320
            &&& b.width <= m.width ==> m.x <= b.x && b.x + b.width <= m.x + m.width
            &&& b.height <= m.height ==> m.y <= b.y && b.y + b.height <= m.y + m.height
        }),
{
    let w = clamp(width as int, 720, 7680);
    let h = clamp(height as int, 460, 4320);
    if w <= m.width {
        assert((m.width as u32) as int == m.width);
    }
    if h <= m.height {
        assert((m.height as u32) as int == m.height);
    }
}

} // verus!
