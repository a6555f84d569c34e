use grouped_alt_tab::placement::MonitorArea;
use grouped_alt_tab::window_ops::{
    maximize_or_restore, moved_origin, next_monitor, topmost_after_toggle, ShowCommand,
    WS_EX_TOPMOST,
};

#[test]
fn topmost_toggles() {
    assert!(topmost_after_toggle(0));
    assert!(!topmost_after_toggle(WS_EX_TOPMOST));
    assert!(!topmost_after_toggle(WS_EX_TOPMOST | 0x100));
    assert!(topmost_after_toggle(0x100));
}

#[test]
fn maximized_windows_are_restored() {
    assert_eq!(maximize_or_restore(true), ShowCommand::Restore);
    assert_eq!(maximize_or_restore(false), ShowCommand::Maximize);
}

#[test]
fn monitors_go_round() {
    assert_eq!(next_monitor(0, 3), 1);
    assert_eq!(next_monitor(2, 3), 0);
    assert_eq!(next_monitor(0, 1), 0);
    let mut m = 1;
    for _ in 0..4 {
        m = next_monitor(m, 4);
    }
    assert_eq!(m, 1);
}

#[test]
fn window_keeps_its_place_on_next_monitor() {
    let left = MonitorArea { x: 0, y: 0, width: 1920, height: 1080 };
    let right = MonitorArea { x: 1920, y: -200, width: 2560, height: 1440 };
    assert_eq!(moved_origin(100, 50, left, right), Some((2020, -150)));
    assert_eq!(moved_origin(2020, -150, right, left), Some((100, 50)));
    let far = MonitorArea { x: i32::MAX - 10, y: 0, width: 10, height: 10 };
    assert_eq!(moved_origin(100, 0, left, far), None);
}
