use grouped_alt_tab::hotkey::{
    classify_shortcut, fallback_hotkey, group_shortcut, hotkey_text, plan_hotkeys, Shortcut,
    ShortcutBindings, DEFAULT_HOTKEY, MOD_ALT, MOD_CONTROL, MOD_META, MOD_SHIFT, MOD_SUPER,
};
use grouped_alt_tab::session::{
    cycle_event, key_is_down, CycleKind, SwitcherSession, WatchStep, ALT_POLL_INTERVAL_MS,
    REPEAT_DELAY_MS, REPEAT_INTERVAL_MS,
};
use grouped_alt_tab::tray::{menu_action, tray_menu, MenuAction, MenuEntryKind};
use grouped_alt_tab::update::{SettingsCopy, SettingsUpdate, UpdateAction};

const BACKQUOTE: u32 = 41;
const KEY_Q: u32 = 16;

fn alt_backquote() -> Shortcut {
    Shortcut { modifiers: MOD_ALT, key: BACKQUOTE }
}

#[test]
fn group_shortcut_adds_shift() {
    let g = group_shortcut(alt_backquote());
    assert_eq!(g, Shortcut { modifiers: MOD_ALT | MOD_SHIFT, key: BACKQUOTE });
}

#[test]
fn group_shortcut_keeps_meta_and_super_apart() {
    let meta = Shortcut { modifiers: MOD_META, key: KEY_Q };
    assert_eq!(group_shortcut(meta).modifiers, MOD_META | MOD_SHIFT);
    let sup = Shortcut { modifiers: MOD_SUPER, key: KEY_Q };
    assert_eq!(group_shortcut(sup).modifiers, MOD_SUPER | MOD_SHIFT);
    assert_ne!(group_shortcut(meta), group_shortcut(sup));
}

#[test]
fn failed_hotkey_falls_back_to_default() {
    assert_eq!(fallback_hotkey(&Ok(())), None);
    assert_eq!(fallback_hotkey(&Err("taken".to_string())), Some("Alt+`"));
}

#[test]
fn repeat_and_poll_timings() {
    assert_eq!(REPEAT_DELAY_MS, 280);
    assert_eq!(REPEAT_INTERVAL_MS, 100);
    assert_eq!(ALT_POLL_INTERVAL_MS, 20);
}

#[test]
fn hotkey_text_is_trimmed() {
    assert_eq!(hotkey_text("  Ctrl+Alt+Q \n"), "Ctrl+Alt+Q");
    assert_eq!(DEFAULT_HOTKEY, "Alt+`");
}

#[test]
fn unreadable_hotkey_is_refused() {
    let err = plan_hotkeys("Ctrl+Nope", None, None).unwrap_err();
    assert_eq!(err, "无法识别热键 \"Ctrl+Nope\",示例:Ctrl+Alt+Q");
}

#[test]
fn hotkey_without_modifier_is_refused() {
    let err = plan_hotkeys("Q", Some(Shortcut { modifiers: 0, key: KEY_Q }), None).unwrap_err();
    assert_eq!(err, "热键 \"Q\" 需要至少一个修饰键(Ctrl/Alt/Shift/Win)");
}

#[test]
fn first_hotkey_registers_both() {
    let plan = plan_hotkeys("Alt+`", Some(alt_backquote()), None).unwrap();
    assert!(plan.register_main && plan.register_group);
    let commit = plan.commit();
    assert_eq!(commit.bindings.main, alt_backquote());
    assert_eq!(commit.bindings.group, group_shortcut(alt_backquote()));
    assert!(commit.unregister.is_empty());
}

#[test]
fn same_hotkey_changes_nothing() {
    let current = ShortcutBindings { main: alt_backquote(), group: group_shortcut(alt_backquote()) };
    let plan = plan_hotkeys("Alt+`", Some(alt_backquote()), Some(current)).unwrap();
    assert!(!plan.register_main && !plan.register_group);
    assert!(plan.commit().unregister.is_empty());
}

#[test]
fn new_hotkey_replaces_old() {
    let current = ShortcutBindings { main: alt_backquote(), group: group_shortcut(alt_backquote()) };
    let new_main = Shortcut { modifiers: MOD_CONTROL | MOD_ALT, key: KEY_Q };
    let plan = plan_hotkeys("Ctrl+Alt+Q", Some(new_main), Some(current)).unwrap();
    assert!(plan.register_main && plan.register_group);
    let commit = plan.commit();
    assert_eq!(commit.unregister, vec![current.main, current.group]);
    assert_eq!(plan.main_registration_failed(), "热键 Ctrl+Alt+Q 注册失败,可能已被其他程序占用");
    let failure = plan.group_registration_failed("already registered");
    assert_eq!(failure.unregister, Some(new_main));
    assert_eq!(failure.message, "组间切换热键(热键+Shift)注册失败:already registered");
}

#[test]
fn shortcut_events_are_classified() {
    let b = Some(ShortcutBindings { main: alt_backquote(), group: group_shortcut(alt_backquote()) });
    assert_eq!(classify_shortcut(&b, alt_backquote()), Some(CycleKind::Window));
    assert_eq!(classify_shortcut(&b, group_shortcut(alt_backquote())), Some(CycleKind::Group));
    assert_eq!(classify_shortcut(&b, Shortcut { modifiers: MOD_CONTROL, key: KEY_Q }), None);
    assert_eq!(classify_shortcut(&None, alt_backquote()), None);
}

#[test]
fn press_release_and_commit() {
    let mut s = SwitcherSession::new();
    let r = s.press(CycleKind::Window);
    assert_eq!(r.generation, 1);
    assert!(r.start_watch);
    assert!(s.repeat_continues(CycleKind::Window, r.generation));
    // a second press while Alt is held starts no second watch
    let r2 = s.press(CycleKind::Group);
    assert!(!r2.start_watch);
    assert!(s.repeat_continues(CycleKind::Window, r.generation));
    s.release(CycleKind::Window);
    assert!(!s.repeat_continues(CycleKind::Window, r.generation));
    assert_eq!(s.poll_alt(true), WatchStep::Continue);
    assert_eq!(s.poll_alt(false), WatchStep::Commit);
    assert!(!s.repeat_continues(CycleKind::Group, r2.generation));
    assert_eq!(s.poll_alt(false), WatchStep::Stop);
}

#[test]
fn cancel_prevents_commit() {
    let mut s = SwitcherSession::new();
    let r = s.press(CycleKind::Group);
    s.cancel();
    assert!(!s.repeat_continues(CycleKind::Group, r.generation));
    assert_eq!(s.poll_alt(false), WatchStep::Stop);
}

#[test]
fn generations_wrap() {
    let mut s = SwitcherSession { repeat_generation: u64::MAX, group_repeat_generation: 0, watch_active: true };
    let r = s.press(CycleKind::Window);
    assert_eq!(r.generation, 0);
    assert!(!r.start_watch);
}

#[test]
fn alt_state_bit() {
    assert!(key_is_down(i16::MIN));
    assert!(key_is_down(-32767));
    assert!(!key_is_down(0));
    assert!(!key_is_down(1));
    assert_eq!(cycle_event(CycleKind::Window), "switcher:cycle");
    assert_eq!(cycle_event(CycleKind::Group), "switcher:group-cycle");
}

#[test]
fn tray_menu_layout() {
    let menu = tray_menu(true);
    assert_eq!(menu.len(), 4);
    assert_eq!(menu[0].id, "show");
    assert_eq!(menu[0].label, "Show Switcher");
    assert_eq!(menu[1].kind, MenuEntryKind::Check { checked: true });
    assert_eq!(menu[1].label, "Start with Windows");
    assert_eq!(menu[2].kind, MenuEntryKind::Separator);
    assert_eq!(menu[3].label, "Exit");
    assert_eq!(tray_menu(false)[1].kind, MenuEntryKind::Check { checked: false });
    for entry in &menu {
        if entry.kind != MenuEntryKind::Separator {
            assert_ne!(menu_action(&entry.id), MenuAction::Ignore);
        }
    }
    assert_eq!(menu_action("show"), MenuAction::ShowSwitcher);
    assert_eq!(menu_action("auto_start"), MenuAction::ToggleAutoStart);
    assert_eq!(menu_action("quit"), MenuAction::Quit);
    assert_eq!(menu_action("other"), MenuAction::Ignore);
}

fn is_action(a: &UpdateAction, expected: &UpdateAction) -> bool {
    format!("{:?}", a) == format!("{:?}", expected)
}

#[test]
fn refused_hotkey_restores_previous_settings() {
    let (mut u, a) = SettingsUpdate::begin();
    assert!(is_action(&a, &UpdateAction::Save(SettingsCopy::Requested)));
    let a = u.step(Ok(()));
    assert!(is_action(&a, &UpdateAction::ApplyHotkey(SettingsCopy::Requested)));
    let a = u.step(Err("taken".to_string()));
    assert!(is_action(&a, &UpdateAction::Save(SettingsCopy::Previous)));
    let a = u.step(Err("disk full".to_string()));
    assert!(is_action(&a, &UpdateAction::ApplyHotkey(SettingsCopy::Previous)));
    let a = u.step(Ok(()));
    assert!(is_action(&a, &UpdateAction::Finish(Err("taken".to_string()))));
}

#[test]
fn accepted_update_refreshes_tray() {
    let (mut u, _) = SettingsUpdate::begin();
    u.step(Ok(()));
    let a = u.step(Ok(()));
    assert!(is_action(&a, &UpdateAction::RefreshTray));
    let a = u.step(Ok(()));
    assert!(is_action(&a, &UpdateAction::Finish(Ok(()))));
}

#[test]
fn failed_save_stops_update() {
    let (mut u, _) = SettingsUpdate::begin();
    let a = u.step(Err("denied".to_string()));
    assert!(is_action(&a, &UpdateAction::Finish(Err("denied".to_string()))));
}
