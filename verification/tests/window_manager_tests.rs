use grouped_alt_tab::grouping::{collect_windows, list_groups, window_groups};
use grouped_alt_tab::handle::{format_handle, parse_handle, HandleTextError};
use grouped_alt_tab::path_name::process_name_from_path;
use grouped_alt_tab::window_manager::{
    activate_hwnd, display_name, focus_result, inspect_window, is_switchable_window,
    process_path, window_title, ActivateError, WindowInfo, WindowProbe, WindowTraits, WS_EX_APPWINDOW,
    WS_EX_TOOLWINDOW,
};

fn sample_window(exe_path: &str, process_name: &str) -> WindowInfo {
    WindowInfo {
        hwnd: "1".to_string(),
        pid: 10,
        title: "Test".to_string(),
        process_name: process_name.to_string(),
        exe_path: exe_path.to_string(),
        icon: None,
        thumbnail: None,
        is_minimized: false,
        last_active_rank: 0,
    }
}

#[test]
fn process_name_comes_from_path() {
    assert_eq!(
        process_name_from_path(r"C:\Windows\explorer.exe"),
        "explorer.exe"
    );
}

#[test]
fn display_name_removes_exe_suffix() {
    let window = sample_window(r"C:\Windows\explorer.exe", "explorer.exe");
    assert_eq!(display_name(&window), "explorer");
}

#[test]
fn display_name_keeps_other_names() {
    assert_eq!(display_name(&sample_window("", "Unknown")), "Unknown");
    assert_eq!(display_name(&sample_window("", "APP.EXE")), "APP.EXE");
    assert_eq!(display_name(&sample_window("", "a.exe.exe")), "a.exe");
    assert_eq!(display_name(&sample_window("", ".exe")), "");
}

#[test]
fn process_name_edge_cases() {
    assert_eq!(process_name_from_path(""), "Unknown");
    assert_eq!(process_name_from_path("C:"), "Unknown");
    assert_eq!(process_name_from_path("C:\\"), "Unknown");
    assert_eq!(process_name_from_path("C:app.exe"), "app.exe");
    assert_eq!(process_name_from_path("C:/Tools/run.exe"), "run.exe");
    assert_eq!(process_name_from_path("C:\\dir\\sub\\"), "sub");
    assert_eq!(process_name_from_path("C:\\dir\\.\\"), "dir");
    assert_eq!(process_name_from_path("C:\\dir\\.."), "Unknown");
    assert_eq!(process_name_from_path("\\\\?\\C:\\long\\x.exe"), "x.exe");
    assert_eq!(process_name_from_path("plain.exe"), "plain.exe");
}

#[test]
fn process_name_of_prefixed_paths() {
    // UNC shares: the share is part of the prefix
    assert_eq!(process_name_from_path(r"\\server\share"), "Unknown");
    assert_eq!(process_name_from_path(r"\\server\share\"), "Unknown");
    assert_eq!(process_name_from_path(r"\\server\share\x.exe"), "x.exe");
    assert_eq!(process_name_from_path("//server/share/x.exe"), "x.exe");
    // no share: no prefix
    assert_eq!(process_name_from_path(r"\\server"), "server");
    assert_eq!(process_name_from_path(r"\\server\"), "server");
    // device namespace
    assert_eq!(process_name_from_path(r"\\.\COM1"), "Unknown");
    assert_eq!(process_name_from_path(r"\\.\pipe\x"), "x");
    // verbatim paths: only `\` separates, a final `.` is no file name
    assert_eq!(process_name_from_path(r"\\?\C:\a\."), "Unknown");
    assert_eq!(process_name_from_path(r"\\?\C:\a/b.exe"), "a/b.exe");
    assert_eq!(process_name_from_path(r"\\?\C:"), "Unknown");
    assert_eq!(process_name_from_path(r"\\?\UNC\srv\shr"), "Unknown");
    assert_eq!(process_name_from_path(r"\\?\UNC\srv\shr\f.exe"), "f.exe");
    assert_eq!(process_name_from_path(r"\\?\pictures\a.png"), "a.png");
    assert_eq!(process_name_from_path(r"\\?\pictures"), "Unknown");
    // a verbatim-looking prefix written with `/` is a UNC share
    assert_eq!(process_name_from_path(r"//?/C:/x.exe"), "x.exe");
}

#[test]
fn process_paths_are_decoded() {
    assert_eq!(process_path(&utf16(r"C:\Program Files\a.exe")), r"C:\Program Files\a.exe");
    assert_eq!(process_path(&[0x43, 0xDC00, 0xD83D, 0xDE00]), "C\u{FFFD}\u{1F600}");
    assert_eq!(process_path(&[]), "");
}

#[test]
fn handle_text_round_trips() {
    for h in [0isize, 7, -1, 123456, isize::MAX, isize::MIN] {
        let text = format_handle(h);
        assert_eq!(text, h.to_string());
        assert_eq!(parse_handle(&text), Ok(h));
    }
}

#[test]
fn handle_text_errors_follow_parse() {
    assert_eq!(parse_handle(""), Err(HandleTextError::Empty));
    assert_eq!(parse_handle("-"), Err(HandleTextError::InvalidDigit));
    assert_eq!(parse_handle("+"), Err(HandleTextError::InvalidDigit));
    assert_eq!(parse_handle("12a"), Err(HandleTextError::InvalidDigit));
    assert_eq!(parse_handle(" 12"), Err(HandleTextError::InvalidDigit));
    assert_eq!(parse_handle("+42"), Ok(42));
    assert_eq!(parse_handle("-42"), Ok(-42));
    assert_eq!(
        parse_handle("99999999999999999999"),
        Err(HandleTextError::PosOverflow)
    );
    assert_eq!(
        parse_handle("-99999999999999999999"),
        Err(HandleTextError::NegOverflow)
    );
    assert_eq!(
        parse_handle("99999999999999999999x"),
        Err(HandleTextError::PosOverflow)
    );
}

#[test]
fn activating_invalid_handle_reports_it() {
    match activate_hwnd("abc") {
        Err(e) => {
            assert_eq!(e.message(), "invalid window handle: abc");
            assert!(matches!(
                e,
                ActivateError::InvalidHandle {
                    kind: HandleTextError::InvalidDigit,
                    ..
                }
            ));
        }
        Ok(h) => panic!("parsed {}", h),
    }
    assert!(matches!(activate_hwnd("65554"), Ok(65554)));
    assert!(focus_result(true).is_ok());
    assert_eq!(
        focus_result(false).unwrap_err().message(),
        "Windows did not allow this window to be focused"
    );
}

fn traits() -> WindowTraits {
    WindowTraits {
        visible: true,
        last_active_popup_is_self: true,
        last_active_popup_visible: true,
        ex_style: 0,
        has_owner: false,
    }
}

#[test]
fn switchable_windows() {
    assert!(is_switchable_window(&traits()));
    assert!(!is_switchable_window(&WindowTraits { visible: false, ..traits() }));
    assert!(!is_switchable_window(&WindowTraits {
        last_active_popup_is_self: false,
        ..traits()
    }));
    assert!(is_switchable_window(&WindowTraits {
        last_active_popup_is_self: false,
        last_active_popup_visible: false,
        ..traits()
    }));
    assert!(!is_switchable_window(&WindowTraits {
        ex_style: WS_EX_TOOLWINDOW,
        ..traits()
    }));
    assert!(!is_switchable_window(&WindowTraits { has_owner: true, ..traits() }));
    assert!(is_switchable_window(&WindowTraits {
        has_owner: true,
        ex_style: WS_EX_APPWINDOW,
        ..traits()
    }));
}

fn utf16(s: &str) -> Vec<u16> {
    s.encode_utf16().collect()
}

#[test]
fn titles_are_trimmed() {
    assert_eq!(window_title(&utf16("  Notes  \t")), Some("Notes".to_string()));
    assert_eq!(window_title(&utf16("   ")), None);
    assert_eq!(window_title(&[]), None);
    assert_eq!(window_title(&utf16("文档 - 记事本")), Some("文档 - 记事本".to_string()));
    assert_eq!(window_title(&[0xD800u16, 0x41]), Some("\u{FFFD}A".to_string()));
}

fn probe(hwnd: isize, pid: u32, title: Option<&str>, exe: Option<&str>) -> WindowProbe {
    WindowProbe {
        hwnd,
        traits: traits(),
        pid,
        title: title.map(|t| t.to_string()),
        exe_path: exe.map(|e| e.to_string()),
        is_minimized: true,
        icon: None,
        on_current_desktop: None,
    }
}

#[test]
fn inspecting_windows() {
    let excluded = vec!["grouped-alt-tab.exe".to_string()];
    let w = inspect_window(
        &probe(4242, 7, Some("Doc"), Some("C:\\Apps\\Word.EXE")),
        1,
        &excluded,
        true,
        3,
    )
    .unwrap();
    assert_eq!(w.hwnd, "4242");
    assert_eq!(w.pid, 7);
    assert_eq!(w.title, "Doc");
    assert_eq!(w.process_name, "Word.EXE");
    assert_eq!(w.exe_path, "C:\\Apps\\Word.EXE");
    assert!(w.is_minimized);
    assert_eq!(w.last_active_rank, 3);
    assert!(w.thumbnail.is_none() && w.icon.is_none());

    // unknown process path
    let w = inspect_window(&probe(5, 7, Some("X"), None), 1, &excluded, true, 0).unwrap();
    assert_eq!(w.process_name, "Unknown");
    assert_eq!(w.exe_path, "");

    // own process, no process, no title, excluded (case-insensitive)
    assert!(inspect_window(&probe(5, 1, Some("X"), Some("a.exe")), 1, &excluded, true, 0).is_none());
    assert!(inspect_window(&probe(5, 0, Some("X"), Some("a.exe")), 1, &excluded, true, 0).is_none());
    assert!(inspect_window(&probe(5, 7, None, Some("a.exe")), 1, &excluded, true, 0).is_none());
    assert!(inspect_window(
        &probe(5, 7, Some("X"), Some("D:\\x\\Grouped-Alt-Tab.EXE")),
        1,
        &excluded,
        true,
        0
    )
    .is_none());
}

#[test]
fn icons_are_carried_over() {
    let excluded = Vec::new();
    let mut p = probe(8, 7, Some("X"), Some("C:\\a.exe"));
    p.icon = Some("data:image/png;base64,AAAA".to_string());
    let w = inspect_window(&p, 1, &excluded, false, 0).unwrap();
    assert_eq!(w.icon.as_deref(), Some("data:image/png;base64,AAAA"));
}

#[test]
fn windows_on_other_desktops_are_hidden_when_asked() {
    let excluded = Vec::new();
    let mut p = probe(8, 7, Some("X"), Some("C:\\a.exe"));
    p.on_current_desktop = Some(false);
    assert!(inspect_window(&p, 1, &excluded, true, 0).is_none());
    assert!(inspect_window(&p, 1, &excluded, false, 0).is_some());
    p.on_current_desktop = Some(true);
    assert!(inspect_window(&p, 1, &excluded, true, 0).is_some());
    // unknown (no virtual desktop manager): the filter is off
    p.on_current_desktop = None;
    assert!(inspect_window(&p, 1, &excluded, true, 0).is_some());
}

#[test]
fn collected_windows_are_ranked_by_position() {
    let excluded = vec!["Skip.EXE".to_string()];
    let probes = vec![
        probe(1, 7, Some("a"), Some("C:\\a.exe")),
        probe(2, 1, Some("own"), Some("C:\\self.exe")),
        probe(3, 8, Some("b"), Some("C:\\skip.exe")),
        probe(4, 9, Some("c"), Some("C:\\c.exe")),
        probe(5, 0, Some("d"), Some("C:\\d.exe")),
        probe(6, 9, None, Some("C:\\c.exe")),
        probe(7, 9, Some("e"), Some("C:\\c.exe")),
    ];
    let ws = collect_windows(&probes, 1, &excluded, true);
    let listed: Vec<(&str, usize)> = ws.iter().map(|w| (w.hwnd.as_str(), w.last_active_rank)).collect();
    assert_eq!(listed, vec![("1", 0), ("4", 1), ("7", 2)]);
}

#[test]
fn window_groups_leave_out_own_and_excluded_processes() {
    let excluded = vec!["grouped-alt-tab.exe".to_string(), "ApplicationFrameHost.exe".to_string()];
    let probes = vec![
        probe(10, 7, Some("doc"), Some("C:\\Apps\\word.exe")),
        probe(11, 1, Some("switcher"), Some("C:\\Apps\\grouped-alt-tab.exe")),
        probe(12, 8, Some("frame"), Some("C:\\Windows\\applicationframehost.exe")),
        probe(13, 9, Some("other"), Some("C:\\Apps\\GROUPED-ALT-TAB.exe")),
        probe(14, 7, Some("doc 2"), Some("C:\\Apps\\Word.exe")),
        probe(15, 5, Some("main"), Some("C:\\Apps\\main.exe")),
        probe(16, 6, Some("notes"), Some("C:\\Apps\\notes.exe")),
    ];
    let groups = window_groups(&probes, 1, &excluded, true, Some("15".to_string()));
    let shown: Vec<(&str, Vec<(&str, usize)>)> = groups
        .iter()
        .map(|g| {
            (
                g.app_name.as_str(),
                g.windows.iter().map(|w| (w.hwnd.as_str(), w.last_active_rank)).collect(),
            )
        })
        .collect();
    assert_eq!(
        shown,
        vec![("word", vec![("10", 0), ("14", 1)]), ("notes", vec![("16", 3)])]
    );
    for g in &groups {
        for w in &g.windows {
            assert!(w.pid != 1 && w.pid != 0);
        }
    }
}

fn window(hwnd: &str, exe: &str, rank: usize) -> WindowInfo {
    WindowInfo {
        hwnd: hwnd.to_string(),
        pid: 1,
        title: format!("w{}", hwnd),
        process_name: process_name_from_path(exe),
        exe_path: exe.to_string(),
        icon: None,
        thumbnail: None,
        is_minimized: false,
        last_active_rank: rank,
    }
}

#[test]
fn windows_group_by_application() {
    let windows = vec![
        window("10", "C:\\Windows\\explorer.exe", 0),
        window("11", "C:\\Apps\\code.exe", 1),
        window("12", "C:\\WINDOWS\\Explorer.exe", 2),
        window("13", "C:\\Apps\\code.exe", 3),
        window("99", "C:\\Apps\\switcher.exe", 4),
    ];
    let groups = list_groups(windows, Some("99".to_string()));
    assert_eq!(groups.len(), 2);
    assert_eq!(groups[0].group_id, "c:\\windows\\explorer.exe");
    assert_eq!(groups[0].app_name, "explorer");
    assert_eq!(groups[0].exe_path, "C:\\Windows\\explorer.exe");
    assert_eq!(groups[0].active_window_hwnd.as_deref(), Some("10"));
    let hwnds: Vec<&str> = groups[0].windows.iter().map(|w| w.hwnd.as_str()).collect();
    assert_eq!(hwnds, vec!["10", "12"]);
    assert_eq!(groups[1].group_id, "c:\\apps\\code.exe");
    assert_eq!(groups[1].app_name, "code");
    let hwnds: Vec<&str> = groups[1].windows.iter().map(|w| w.hwnd.as_str()).collect();
    assert_eq!(hwnds, vec!["11", "13"]);
}

#[test]
fn groups_follow_recency_then_name() {
    let windows = vec![
        window("1", "C:\\b\\zeta.exe", 5),
        window("2", "C:\\a\\alpha.exe", 2),
        window("3", "C:\\b\\zeta.exe", 1),
        window("4", "C:\\c\\beta.exe", 2),
        window("5", "C:\\z\\beta.exe", 2),
    ];
    let groups = list_groups(windows, None);
    let names: Vec<(&str, &str)> = groups
        .iter()
        .map(|g| (g.app_name.as_str(), g.group_id.as_str()))
        .collect();
    assert_eq!(
        names,
        vec![
            ("zeta", "c:\\b\\zeta.exe"),
            ("alpha", "c:\\a\\alpha.exe"),
            ("beta", "c:\\c\\beta.exe"),
            ("beta", "c:\\z\\beta.exe"),
        ]
    );
    // the group points at its first window in enumeration order,
    // while its windows are ordered by rank
    assert_eq!(groups[0].active_window_hwnd.as_deref(), Some("1"));
    let hwnds: Vec<&str> = groups[0].windows.iter().map(|w| w.hwnd.as_str()).collect();
    assert_eq!(hwnds, vec!["3", "1"]);
}

#[test]
fn equal_ranks_keep_enumeration_order() {
    let windows = vec![
        window("1", "C:\\a.exe", 4),
        window("2", "C:\\a.exe", 4),
        window("3", "C:\\a.exe", 1),
    ];
    let groups = list_groups(windows, None);
    let hwnds: Vec<&str> = groups[0].windows.iter().map(|w| w.hwnd.as_str()).collect();
    assert_eq!(hwnds, vec!["3", "1", "2"]);
}

#[test]
fn no_windows_no_groups() {
    assert!(list_groups(Vec::new(), None).is_empty());
    let only_main = vec![window("7", "C:\\self.exe", 0)];
    assert!(list_groups(only_main, Some("7".to_string())).is_empty());
}
