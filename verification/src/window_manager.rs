//! The windows that the switcher offers: which top-level windows qualify, what
//! is recorded of each, and the names they are shown under.
use vstd::prelude::*;
use crate::handle::{format_handle, handle_text, parse_handle, parse_handle_text, HandleTextError};
use crate::path_name::{process_name_from_path, spec_process_name};
use crate::text::{
    ascii_lower, chars_of, contains_text, has_suffix, owned, string_of_range, to_ascii_lowercase,
    trim, trim_text,
};

verus! {

/// One window that the switcher lists.
#[derive(Debug)]
pub struct WindowInfo {
    /// The window handle as decimal text.
    pub hwnd: String,
    pub pid: u32,
    pub title: String,
    /// The file name of the process's executable.
    pub process_name: String,
    pub exe_path: String,
    /// A PNG data URL of the executable's icon.
    pub icon: Option<String>,
    /// A PNG data URL of the window's content.
    pub thumbnail: Option<String>,
    pub is_minimized: bool,
    /// Position in the system's window order (0 for the window in front).
    pub last_active_rank: usize,
}

/// The windows of one application.
#[derive(Debug)]
pub struct AppGroup {
    /// The executable path in ASCII lower case.
    pub group_id: String,
    pub app_name: String,
    pub exe_path: String,
    pub windows: Vec<WindowInfo>,
    pub active_window_hwnd: Option<String>,
}

// ---------------------------------------------------------------------------
// Display names
// ---------------------------------------------------------------------------

pub open spec fn exe_suffix() -> Seq<char> {
    seq!['.', 'e', 'x', 'e']
}

/// The process name without one trailing `.exe` (case-sensitive).
pub open spec fn spec_display_name(process_name: Seq<char>) -> Seq<char> {
    if has_suffix(process_name, exe_suffix()) {
        process_name.take(process_name.len() - 4)
    } else {
        process_name
    }
}

/// The name a window's application is shown under: its process name without
/// the `.exe` suffix.
pub fn display_name(window: &WindowInfo) -> (r: String)
    ensures
        r@ == spec_display_name(window.process_name@),
{
    let chars = chars_of(window.process_name.as_str());
    let n = chars.len();
    if n >= 4 && chars[n - 4] == '.' && chars[n - 3] == 'e' && chars[n - 2] == 'x' && chars[n
        - 1] == 'e' {
        assert(chars@.subrange(n - 4, n as int) =~= exe_suffix());
        let r = string_of_range(&chars, 0, n - 4);
        assert(chars@.subrange(0, n - 4) =~= chars@.take(n - 4));
        r
    } else {
        proof {
            if has_suffix(chars@, exe_suffix()) {
                let t = chars@.subrange(n - 4, n as int);
                assert(t[0] == chars@[n - 4]);
                assert(t[1] == chars@[n - 3]);
                assert(t[2] == chars@[n - 2]);
                assert(t[3] == chars@[n - 1]);
            }
        }
        let r = string_of_range(&chars, 0, n);
        assert(chars@.subrange(0, n as int) =~= chars@);
        r
    }
}

// ---------------------------------------------------------------------------
// Which windows can be switched to
// ---------------------------------------------------------------------------

/// `WS_EX_TOOLWINDOW`
pub const WS_EX_TOOLWINDOW: u32 = 0x0000_0080;

/// `WS_EX_APPWINDOW`
pub const WS_EX_APPWINDOW: u32 = 0x0004_0000;

/// What the system reports of a top-level window.
#[derive(Debug, Clone, Copy)]
pub struct WindowTraits {
    /// `IsWindowVisible` of the window.
    pub visible: bool,
    /// Whether the last active popup of the window's root owner is the window.
    pub last_active_popup_is_self: bool,
    /// `IsWindowVisible` of that popup.
    pub last_active_popup_visible: bool,
    /// The extended window style (`GWL_EXSTYLE`).
    pub ex_style: u32,
    /// Whether the window has an owner window.
    pub has_owner: bool,
}

pub open spec fn spec_is_switchable(t: WindowTraits) -> bool {
    &&& t.visible
    &&& (t.last_active_popup_is_self || !t.last_active_popup_visible)
    &&& t.ex_style & WS_EX_TOOLWINDOW == 0
    &&& (!t.has_owner || t.ex_style & WS_EX_APPWINDOW != 0)
}

/// A window is offered when it is visible, no other visible popup of its
/// owner chain is the active one, it is not a tool window, and it either has no
/// owner or asks to appear in the task bar.
pub fn is_switchable_window(t: &WindowTraits) -> (r: bool)
    ensures
        r == spec_is_switchable(*t),
{
    if !t.visible {
        return false;
    }
    if !t.last_active_popup_is_self && t.last_active_popup_visible {
        return false;
    }
    let is_tool = (t.ex_style & WS_EX_TOOLWINDOW) != 0;
    let is_app = (t.ex_style & WS_EX_APPWINDOW) != 0;
    if is_tool {
        return false;
    }
    !t.has_owner || is_app
}

// ---------------------------------------------------------------------------
// Titles
// ---------------------------------------------------------------------------

pub open spec fn is_surrogate(u: u16) -> bool {
    0xd800 <= u && u <= 0xdfff
}

pub open spec fn is_high_surrogate(u: u16) -> bool {
    0xd800 <= u && u <= 0xdbff
}

pub open spec fn is_low_surrogate(u: u16) -> bool {
    0xdc00 <= u && u <= 0xdfff
}

/// UTF-16 text decoded with U+FFFD in place of each surrogate that is not
/// part of a pair: a high surrogate followed by a low one stands for one
/// character beyond U+FFFF, and every other unit for the character with its
/// value.
pub open spec fn utf16_lossy(units: Seq<u16>) -> Seq<char>
    decreases units.len(),
{
    if units.len() == 0 {
        seq![]
    } else if units.len() >= 2 && is_high_surrogate(units[0]) && is_low_surrogate(units[1]) {
        seq![
            (0x10000 + (units[0] - 0xd800) * 0x400 + (units[1] - 0xdc00)) as char,
        ] + utf16_lossy(units.skip(2))
    } else if is_surrogate(units[0]) {
        seq!['\u{FFFD}'] + utf16_lossy(units.skip(1))
    } else {
        seq![units[0] as char] + utf16_lossy(units.skip(1))
    }
}

/// Decodes UTF-16 text with std's `String::from_utf16_lossy`, which replaces
/// each unpaired surrogate with U+FFFD.
#[verifier::external_body]
fn decode_utf16_lossy(units: &[u16]) -> (r: String)
    ensures
        r@ == utf16_lossy(units@),
{
    String::from_utf16_lossy(units)
}

/// The executable path that the system copied out for a process, decoded.
pub fn process_path(units: &[u16]) -> (r: String)
    ensures
        r@ == utf16_lossy(units@),
{
    decode_utf16_lossy(units)
}

/// The title of a window from the text the system copied out of it: decoded,
/// trimmed, and `None` when nothing is left.
pub open spec fn spec_window_title(units: Seq<u16>) -> Option<Seq<char>> {
    let t = trim(utf16_lossy(units));
    if t.len() == 0 {
        None
    } else {
        Some(t)
    }
}

pub fn window_title(units: &[u16]) -> (r: Option<String>)
    ensures
        match r {
            Some(t) => spec_window_title(units@) == Some(t@),
            None => spec_window_title(units@) is None,
        },
{
    let decoded = decode_utf16_lossy(units);
    let title = trim_text(decoded.as_str());
    let chars = chars_of(title.as_str());
    if chars.len() == 0 {
        None
    } else {
        Some(title)
    }
}

// ---------------------------------------------------------------------------
// Inspecting one window
// ---------------------------------------------------------------------------

/// What was read of one top-level window.
pub struct WindowProbe {
    pub hwnd: isize,
    pub traits: WindowTraits,
    /// The owning process (0 when it could not be read).
    pub pid: u32,
    /// The title as `window_title` reads it.
    pub title: Option<String>,
    /// The executable path, `None` when the process could not be read.
    pub exe_path: Option<String>,
    /// `IsIconic` of the window.
    pub is_minimized: bool,
    /// The icon of the executable as a PNG data URL, `None` when none could be
    /// extracted.
    pub icon: Option<String>,
    /// Whether the window is on the current virtual desktop; `None` when the
    /// system cannot tell (no virtual desktop manager, or the query failed).
    pub on_current_desktop: Option<bool>,
}

pub open spec fn probe_exe_path(p: WindowProbe) -> Seq<char> {
    match p.exe_path {
        Some(s) => s@,
        None => seq![],
    }
}

/// The process name of a probed window.
pub open spec fn probe_process_name(p: WindowProbe) -> Seq<char> {
    spec_process_name(probe_exe_path(p))
}

/// Whether an inspected window makes it into the list: it can be switched to,
/// belongs to a known process other than the switcher itself, has a title, its
/// process name in ASCII lower case is not among `excluded` (names already in
/// lower case), and, when only the current virtual desktop is shown, it is not
/// known to be on another one.
pub open spec fn window_admitted(
    p: WindowProbe,
    self_pid: u32,
    excluded: Seq<Seq<char>>,
    current_desktop_only: bool,
) -> bool {
    &&& spec_is_switchable(p.traits)
    &&& p.pid != 0
    &&& p.pid != self_pid
    &&& p.title is Some
    &&& !excluded.contains(ascii_lower(probe_process_name(p)))
    &&& !(current_desktop_only && p.on_current_desktop == Some(false))
}

/// `w` is the record of the probed window `p` at position `rank` of the list.
pub open spec fn records_probe(w: WindowInfo, p: WindowProbe, rank: int) -> bool {
    &&& w.hwnd@ == handle_text(p.hwnd as int)
    &&& w.pid == p.pid
    &&& Some(w.title) == p.title
    &&& w.exe_path@ == probe_exe_path(p)
    &&& w.process_name@ == probe_process_name(p)
    &&& w.icon == p.icon
    &&& w.thumbnail is None
    &&& w.is_minimized == p.is_minimized
    &&& w.last_active_rank == rank
}

/// The texts of a list of strings.
pub open spec fn texts(v: Seq<String>) -> Seq<Seq<char>> {
    v.map_values(|s: String| s@)
}

/// The record of an inspected window, or `None` when it is not offered.
/// `excluded` holds the excluded process names already in lower case; `rank`
/// is the number of windows listed before this one. The thumbnail is left
/// empty.
pub fn inspect_window(
    probe: &WindowProbe,
    self_pid: u32,
    excluded: &Vec<String>,
    current_desktop_only: bool,
    rank: usize,
) -> (r: Option<WindowInfo>)
    ensures
        r is Some <==> window_admitted(*probe, self_pid, texts(excluded@), current_desktop_only),
        r matches Some(w) ==> records_probe(w, *probe, rank as int),
{
    if !is_switchable_window(&probe.traits) {
        return None;
    }
    if probe.pid == 0 || probe.pid == self_pid {
        return None;
    }
    let title = match &probe.title {
        Some(t) => t.clone(),
        None => {
            return None;
        },
    };
    let exe_path = match &probe.exe_path {
        Some(p) => p.clone(),
        None => String::new(),
    };
    let process_name = process_name_from_path(exe_path.as_str());
    let lowered = to_ascii_lowercase(process_name.as_str());
    let found = contains_text(excluded, &lowered);
    proof {
        let ex = texts(excluded@);
        if found {
            let i = choose|i: int| 0 <= i < excluded.len() && #[trigger] excluded[i]@ == lowered@;
            assert(ex[i] == lowered@);
        } else if ex.contains(lowered@) {
            let i = choose|i: int| 0 <= i < ex.len() && ex[i] == lowered@;
            assert(excluded[i]@ == lowered@);
        }
    }
    if found {
        return None;
    }
    if current_desktop_only {
        if let Some(false) = probe.on_current_desktop {
            return None;
        }
    }
    let icon = match &probe.icon {
        Some(i) => Some(i.clone()),
        None => None,
    };
    Some(
        WindowInfo {
            hwnd: format_handle(probe.hwnd),
            pid: probe.pid,
            title,
            process_name,
            exe_path,
            icon,
            thumbnail: None,
            is_minimized: probe.is_minimized,
            last_active_rank: rank,
        },
    )
}

// ---------------------------------------------------------------------------
// Activating a window
// ---------------------------------------------------------------------------

/// Why a window could not be activated.
#[derive(Debug)]
pub enum ActivateError {
    /// The text is not a window handle.
    InvalidHandle { text: String, kind: HandleTextError },
    /// The system refused to bring the window to the foreground.
    FocusRefused,
}

impl ActivateError {
    /// The error as a sentence.
    pub fn message(&self) -> (r: String)
        ensures
            match self {
                ActivateError::InvalidHandle { text, .. } => r@ == "invalid window handle: "@
                    + text@,
                ActivateError::FocusRefused => r@
                    == "Windows did not allow this window to be focused"@,
            },
    {
        match self {
            ActivateError::InvalidHandle { text, .. } => {
                let mut r = owned("invalid window handle: ");
                let t = owned(text.as_str());
                r.append(t.as_str());
                r
            },
            ActivateError::FocusRefused => owned("Windows did not allow this window to be focused"),
        }
    }
}

/// The window to activate for the handle text that the list handed out:
/// the handle it reads as (see `parse_handle`), or why it is none. The window
/// is then restored if minimised and brought to the foreground.
pub fn activate_hwnd(hwnd: &str) -> (r: Result<isize, ActivateError>)
    ensures
        match parse_handle_text(hwnd@) {
            Ok(v) => r matches Ok(h) && h as int == v,
            Err(kind) => r matches Err(ActivateError::InvalidHandle { text, kind: k }) && text@
                == hwnd@ && k == kind,
        },
{
    match parse_handle(hwnd) {
        Ok(h) => Ok(h),
        Err(kind) => Err(ActivateError::InvalidHandle { text: owned(hwnd), kind }),
    }
}

/// The outcome of bringing a window to the foreground.
pub fn focus_result(focused: bool) -> (r: Result<(), ActivateError>)
    ensures
        focused <==> r is Ok,
        !focused ==> r matches Err(ActivateError::FocusRefused),
{
    if focused {
        Ok(())
    } else {
        Err(ActivateError::FocusRefused)
    }
}

// ---------------------------------------------------------------------------
// Laws
// ---------------------------------------------------------------------------

/// A process name ending in `.exe` is shown without exactly those four
/// characters, however long it is; any other name is shown as it is.
pub proof fn lemma_display_name_drops_exe(name: Seq<char>)
    ensures
        (name.len() >= 4 && name[name.len() - 4] == '.' && name[name.len() - 3] == 'e'
            && name[name.len() - 2] == 'x' && name[name.len() - 1] == 'e') ==> {
            &&& spec_display_name(name).len() == name.len() - 4
            &&& forall|i: int|
                0 <= i < name.len() - 4 ==> #[trigger] spec_display_name(name)[i] == name[i]
        },
        !(name.len() >= 4 && name[name.len() - 4] == '.' && name[name.len() - 3] == 'e'
            && name[name.len() - 2] == 'x' && name[name.len() - 1] == 'e')
            ==> spec_display_name(name) == name,
{
    let n = name.len() as int;
    if n >= 4 {
        let t = name.subrange(n - 4, n);
        if t == exe_suffix() {
            assert(t[0] == name[n - 4] && t[1] == name[n - 3] && t[2] == name[n - 2] && t[3]
                == name[n - 1]);
        }
        if name[n - 4] == '.' && name[n - 3] == 'e' && name[n - 2] == 'x' && name[n - 1] == 'e' {
            assert(t =~= exe_suffix());
        }
    }
}

/// Whether a window can be switched to depends on its extended style only
/// through the tool-window bit (`0x80`) and the app-window bit (`0x40000`):
/// two styles that agree on those bits decide alike.
pub proof fn lemma_switchable_reads_two_style_bits(t: WindowTraits, other_style: u32)
    requires
        t.ex_style & 0x80 == other_style & 0x80,
        t.ex_style & 0x40000 == other_style & 0x40000,
    ensures
        spec_is_switchable(t) == spec_is_switchable(WindowTraits { ex_style: other_style, ..t }),
{
    assert(WS_EX_TOOLWINDOW == 0x80 && WS_EX_APPWINDOW == 0x40000);
}

/// A visible window without an owner, that is its owner chain's active popup
/// (or whose active popup is hidden) and has no tool-window bit, is offered
/// whatever other extended-style bits it carries; a tool window never is.
pub proof fn lemma_plain_window_is_switchable(t: WindowTraits)
    ensures
        (t.visible && (t.last_active_popup_is_self || !t.last_active_popup_visible)
            && !t.has_owner && t.ex_style & 0x80 == 0) ==> spec_is_switchable(t),
        t.ex_style & 0x80 != 0 ==> !spec_is_switchable(t),
        !t.visible ==> !spec_is_switchable(t),
        (t.has_owner && t.ex_style & 0x40000 == 0) ==> !spec_is_switchable(t),
        (!t.last_active_popup_is_self && t.last_active_popup_visible) ==> !spec_is_switchable(t),
        (t.visible && (t.last_active_popup_is_self || !t.last_active_popup_visible) && t.has_owner
            && t.ex_style & 0x80 == 0 && t.ex_style & 0x40000 != 0) ==> spec_is_switchable(t),
{
    assert(WS_EX_TOOLWINDOW == 0x80 && WS_EX_APPWINDOW == 0x40000);
}

} // verus!
