//! The decisions behind the window operations offered on a listed window:
//! keeping it on top or not, maximizing or restoring it, and moving it to the
//! next monitor.
use vstd::prelude::*;
use crate::placement::MonitorArea;

verus! {

/// `WS_EX_TOPMOST`
pub const WS_EX_TOPMOST: u32 = 0x0000_0008;

/// Whether a window stays above the others after toggling: the opposite of
/// what its extended style says now.
pub fn topmost_after_toggle(ex_style: u32) -> (r: bool)
    ensures
        r == (ex_style & WS_EX_TOPMOST == 0),
{
    ex_style & WS_EX_TOPMOST == 0
}

/// What showing a window does to it.
#[derive(Debug, Clone, Copy, PartialEq, Eq, Structural)]
pub enum ShowCommand {
    Maximize,
    Restore,
}

/// A maximized window is restored, any other one maximized.
pub fn maximize_or_restore(zoomed: bool) -> (r: ShowCommand)
    ensures
        r == (if zoomed {
            ShowCommand::Restore
        } else {
            ShowCommand::Maximize
        }),
{
    if zoomed {
        ShowCommand::Restore
    } else {
        ShowCommand::Maximize
    }
}

/// The monitor after `current` among `count` monitors, the first after the
/// last.
pub open spec fn spec_next_monitor(current: int, count: int) -> int {
    (current + 1) % count
}

pub fn next_monitor(current: usize, count: usize) -> (r: usize)
    requires
        current < count,
    ensures
        r == spec_next_monitor(current as int, count as int),
        r < count,
{
    if current + 1 == count {
        assert((current + 1) % (count as int) == 0) by {
            vstd::arithmetic::div_mod::lemma_mod_self_0(count as int);
        }
        0
    } else {
        assert((current + 1) % (count as int) == current + 1) by {
            vstd::arithmetic::div_mod::lemma_small_mod((current + 1) as nat, count as nat);
        }
        current + 1
    }
}

/// The monitor reached from `current` after `steps` moves.
pub open spec fn monitor_after(current: int, count: int, steps: nat) -> int
    decreases steps,
{
    if steps == 0 {
        current
    } else {
        spec_next_monitor(monitor_after(current, count, (steps - 1) as nat), count)
    }
}

proof fn lemma_monitor_after(current: int, count: int, steps: nat)
    requires
        0 <= current < count,
    ensures
        monitor_after(current, count, steps) == (current + steps) % count,
    decreases steps,
{
    if steps == 0 {
        vstd::arithmetic::div_mod::lemma_small_mod(current as nat, count as nat);
    } else {
        lemma_monitor_after(current, count, (steps - 1) as nat);
        vstd::arithmetic::div_mod::lemma_add_mod_noop_right(1, current + steps - 1, count);
    }
}

/// Moving a window to the next monitor, again and again, goes round the
/// monitors in order and is back where it started after as many moves as
/// there are monitors.
pub proof fn lemma_next_monitor_cycles(current: int, count: int, steps: nat)
    requires
        0 <= current < count,
    ensures
        monitor_after(current, count, steps) == (current + steps) % count,
        monitor_after(current, count, count as nat) == current,
{
    lemma_monitor_after(current, count, steps);
    lemma_monitor_after(current, count, count as nat);
    vstd::arithmetic::div_mod::lemma_mod_add_multiples_vanish(current, count);
    vstd::arithmetic::div_mod::lemma_small_mod(current as nat, count as nat);
}

/// Where a window at (`x`, `y`) on monitor `from` goes on monitor `to`: at
/// the same offset from the monitor's top-left corner, or `None` when that
/// position is out of the `i32` range.
pub fn moved_origin(x: i32, y: i32, from: MonitorArea, to: MonitorArea) -> (r: Option<(i32, i32)>)
    ensures
        ({
            let nx = to.x + (x - from.x);
            let ny = to.y + (y - from.y);
            match r {
                Some((ax, ay)) => ax == nx && ay == ny,
                None => !(i32::MIN <= nx <= i32::MAX && i32::MIN <= ny <= i32::MAX),
            }
        }),
{
    let nx: i64 = to.x as i64 + (x as i64 - from.x as i64);
    let ny: i64 = to.y as i64 + (y as i64 - from.y as i64);
    if nx < i32::MIN as i64 || nx > i32::MAX as i64 || ny < i32::MIN as i64 || ny > i32::MAX as i64 {
        None
    } else {
        Some((nx as i32, ny as i32))
    }
}

} // verus!
