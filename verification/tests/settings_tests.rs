use grouped_alt_tab::settings::{
    default_show_current_desktop_only, default_window_height, default_window_mode,
    default_window_width, finish_delete, is_auto_start_enabled, load_settings, set_auto_start,
    settings_or_default, update_auto_start, DeleteOutcome, RunKeyChange, SwitcherSettings,
    RUN_KEY_PATH, RUN_VALUE_NAME,
};

#[test]
fn default_settings_match_v1_scope() {
    let settings = SwitcherSettings::default();
    assert_eq!(settings.hotkey, "Alt+`");
    assert_eq!(settings.group_by, "exe_path");
    assert_eq!(settings.preview_mode, "icons");
    assert_eq!(settings.window_mode, "fullscreen");
    assert_eq!(settings.window_width, 1280);
    assert_eq!(settings.window_height, 720);
    assert!(!settings.auto_start);
    assert!(settings.show_current_desktop_only);
    assert!(settings
        .excluded_processes
        .contains(&"grouped-alt-tab.exe".to_string()));
}

#[test]
fn default_settings_exclude_frame_host() {
    let settings = SwitcherSettings::default();
    assert_eq!(
        settings.excluded_processes,
        vec![
            "grouped-alt-tab.exe".to_string(),
            "ApplicationFrameHost.exe".to_string()
        ]
    );
}

#[test]
fn field_defaults_for_missing_values() {
    assert_eq!(default_window_mode(), "fullscreen");
    assert_eq!(default_window_width(), 1280);
    assert_eq!(default_window_height(), 720);
    assert!(default_show_current_desktop_only());
}

fn custom_settings() -> SwitcherSettings {
    SwitcherSettings {
        hotkey: "Ctrl+Alt+Q".to_string(),
        group_by: "exe_path".to_string(),
        preview_mode: "icons".to_string(),
        window_mode: "custom".to_string(),
        window_width: 900,
        window_height: 600,
        auto_start: false,
        show_current_desktop_only: false,
        excluded_processes: vec!["notepad.exe".to_string()],
    }
}

#[test]
fn loading_stored_settings_takes_auto_start_from_registry() {
    let loaded = load_settings(Some(custom_settings()), true);
    assert!(loaded.auto_start);
    assert_eq!(loaded.hotkey, "Ctrl+Alt+Q");
    assert_eq!(loaded.window_mode, "custom");
    assert_eq!(loaded.window_width, 900);
    assert_eq!(loaded.excluded_processes, vec!["notepad.exe".to_string()]);
}

#[test]
fn loading_without_stored_settings_gives_defaults() {
    let loaded = load_settings(None, true);
    assert!(loaded.auto_start);
    assert_eq!(loaded.hotkey, "Alt+`");
    assert_eq!(loaded.window_mode, "fullscreen");
    let loaded = load_settings(None, false);
    assert!(!loaded.auto_start);
}

#[test]
fn update_auto_start_changes_only_that_field() {
    let updated = update_auto_start(custom_settings(), true);
    assert!(updated.auto_start);
    assert_eq!(updated.hotkey, "Ctrl+Alt+Q");
    assert_eq!(updated.window_height, 600);
    assert!(!updated.show_current_desktop_only);
}

#[test]
fn auto_start_follows_run_key_value() {
    assert_eq!(
        is_auto_start_enabled(Ok(Some("\"C:\\app.exe\"".to_string()))),
        Ok(true)
    );
    assert_eq!(is_auto_start_enabled(Ok(None)), Ok(false));
    assert_eq!(
        is_auto_start_enabled(Err("failed to open Windows startup registry key".to_string())),
        Err("failed to open Windows startup registry key".to_string())
    );
}

#[test]
fn enabling_auto_start_writes_quoted_path() {
    match set_auto_start(true, "C:\\Program Files\\Grouped Alt-Tab\\grouped-alt-tab.exe") {
        RunKeyChange::Write { name, command } => {
            assert_eq!(name, "Grouped Alt-Tab");
            assert_eq!(
                command,
                "\"C:\\Program Files\\Grouped Alt-Tab\\grouped-alt-tab.exe\""
            );
        }
        other => panic!("unexpected change {:?}", other),
    }
}

#[test]
fn disabling_auto_start_deletes_value() {
    match set_auto_start(false, "ignored.exe") {
        RunKeyChange::Delete { name } => assert_eq!(name, RUN_VALUE_NAME),
        other => panic!("unexpected change {:?}", other),
    }
}

#[test]
fn deleting_missing_value_is_fine() {
    assert_eq!(finish_delete(DeleteOutcome::Deleted), Ok(()));
    assert_eq!(finish_delete(DeleteOutcome::NotFound), Ok(()));
    assert_eq!(
        finish_delete(DeleteOutcome::Failed("access denied".to_string())),
        Err("access denied".to_string())
    );
}

#[test]
fn run_key_location() {
    assert_eq!(
        RUN_KEY_PATH,
        "Software\\Microsoft\\Windows\\CurrentVersion\\Run"
    );
}

#[test]
fn startup_falls_back_to_defaults() {
    let s = settings_or_default(None);
    assert_eq!(s.hotkey, "Alt+`");
    let s = settings_or_default(Some(custom_settings()));
    assert_eq!(s.hotkey, "Ctrl+Alt+Q");
}

/// The run key as a map from value names to data, changed as the registry
/// applies a change.
fn apply(key: &mut std::collections::BTreeMap<String, String>, change: RunKeyChange) {
    match change {
        RunKeyChange::Write { name, command } => {
            key.insert(name, command);
        }
        RunKeyChange::Delete { name } => {
            key.remove(&name);
        }
    }
}

#[test]
fn auto_start_round_trips_through_run_key() {
    let mut key = std::collections::BTreeMap::new();
    key.insert("Other".to_string(), "\"C:\\other.exe\"".to_string());
    for enabled in [true, false, false, true, true] {
        apply(&mut key, set_auto_start(enabled, "C:\\switcher.exe"));
        let read = Ok(key.get(RUN_VALUE_NAME).cloned());
        assert_eq!(is_auto_start_enabled(read), Ok(enabled));
        if enabled {
            assert_eq!(key.get(RUN_VALUE_NAME).unwrap(), "\"C:\\switcher.exe\"");
        }
    }
    assert_eq!(key.get("Other").unwrap(), "\"C:\\other.exe\"");
}
