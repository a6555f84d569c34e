//! The tray icon's menu and what its entries do.
use vstd::prelude::*;
use crate::text::{owned, same_text};

verus! {

/// The id of the tray icon.
pub const TRAY_ID: &'static str = "main";

/// The label of the switcher's window.
pub const MAIN_WINDOW_LABEL: &'static str = "main";

/// The tray icon's tooltip.
pub const TRAY_TOOLTIP: &'static str = "Grouped Alt-Tab";

/// What choosing a menu entry does.
#[derive(Debug, Clone, Copy, PartialEq, Eq, Structural)]
pub enum MenuAction {
    ShowSwitcher,
    ToggleAutoStart,
    Quit,
    Ignore,
}

pub open spec fn spec_menu_action(id: Seq<char>) -> MenuAction {
    if id == "show"@ {
        MenuAction::ShowSwitcher
    } else if id == "auto_start"@ {
        MenuAction::ToggleAutoStart
    } else if id == "quit"@ {
        MenuAction::Quit
    } else {
        MenuAction::Ignore
    }
}

/// The action of the menu entry with id `id`.
pub fn menu_action(id: &str) -> (r: MenuAction)
    ensures
        r == spec_menu_action(id@),
{
    if same_text(id, "show") {
        MenuAction::ShowSwitcher
    } else if same_text(id, "auto_start") {
        MenuAction::ToggleAutoStart
    } else if same_text(id, "quit") {
        MenuAction::Quit
    } else {
        MenuAction::Ignore
    }
}

/// The kind of a menu entry.
#[derive(Debug, Clone, Copy, PartialEq, Eq, Structural)]
pub enum MenuEntryKind {
    Text,
    Check { checked: bool },
    Separator,
}

/// One entry of the tray menu (a separator has empty id and label).
#[derive(Debug)]
pub struct MenuEntry {
    pub kind: MenuEntryKind,
    pub id: String,
    pub label: String,
}

fn entry(kind: MenuEntryKind, id: &str, label: &str) -> (r: MenuEntry)
    ensures
        r.kind == kind,
        r.id@ == id@,
        r.label@ == label@,
{
    MenuEntry { kind, id: owned(id), label: owned(label) }
}

/// The tray menu: show the switcher, start with Windows (checked when it
/// does), a separator, exit.
pub fn tray_menu(auto_start: bool) -> (r: Vec<MenuEntry>)
    ensures
        r.len() == 4,
        r[0].kind == MenuEntryKind::Text && r[0].id@ == "show"@ && r[0].label@ == "Show Switcher"@,
        r[1].kind == (MenuEntryKind::Check { checked: auto_start }) && r[1].id@ == "auto_start"@
            && r[1].label@ == "Start with Windows"@,
        r[2].kind == MenuEntryKind::Separator,
        r[3].kind == MenuEntryKind::Text && r[3].id@ == "quit"@ && r[3].label@ == "Exit"@,
{
    let mut r: Vec<MenuEntry> = Vec::new();
    r.push(entry(MenuEntryKind::Text, "show", "Show Switcher"));
    r.push(entry(MenuEntryKind::Check { checked: auto_start }, "auto_start", "Start with Windows"));
    r.push(entry(MenuEntryKind::Separator, "", ""));
    r.push(entry(MenuEntryKind::Text, "quit", "Exit"));
    r
}

/// Each entry of the tray menu triggers its own action: show, toggle the
/// start with Windows, exit.
pub proof fn lemma_menu_entries_dispatch(show: Seq<char>, toggle: Seq<char>, quit: Seq<char>)
    requires
        show == "show"@,
        toggle == "auto_start"@,
        quit == "quit"@,
    ensures
        spec_menu_action(show) == MenuAction::ShowSwitcher,
        spec_menu_action(toggle) == MenuAction::ToggleAutoStart,
        spec_menu_action(quit) == MenuAction::Quit,
{
    reveal_strlit("show");
    reveal_strlit("auto_start");
    reveal_strlit("quit");
    assert(toggle.len() != show.len());
    assert(quit.len() != toggle.len());
    assert(quit[0] != show[0]);
}

} // verus!
