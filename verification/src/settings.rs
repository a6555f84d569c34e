//! The switcher's settings: their defaults, how a stored copy is completed
//! when it is loaded, and the start-with-Windows entry in the registry.
use vstd::prelude::*;
use crate::text::owned;

verus! {

/// The registry key under `HKEY_CURRENT_USER` whose values start programs at
/// sign-in.
pub const RUN_KEY_PATH: &'static str = "Software\\Microsoft\\Windows\\CurrentVersion\\Run";

/// The name of the switcher's value under the run key.
pub const RUN_VALUE_NAME: &'static str = "Grouped Alt-Tab";

/// The name of the settings file in the application's configuration
/// directory.
pub const SETTINGS_FILE_NAME: &'static str = "settings.json";

/// The switcher's settings.
#[derive(Debug)]
pub struct SwitcherSettings {
    pub hotkey: String,
    pub group_by: String,
    pub preview_mode: String,
    /// `fullscreen`, or `custom` for a centred window of the given size.
    pub window_mode: String,
    pub window_width: u32,
    pub window_height: u32,
    pub auto_start: bool,
    pub show_current_desktop_only: bool,
    pub excluded_processes: Vec<String>,
}

/// The window mode of settings that do not name one.
pub fn default_window_mode() -> (r: String)
    ensures
        r@ == "fullscreen"@,
{
    owned("fullscreen")
}

/// The window width of settings that do not name one.
pub fn default_window_width() -> (r: u32)
    ensures
        r == 1280,
{
    1280
}

/// The window height of settings that do not name one.
pub fn default_window_height() -> (r: u32)
    ensures
        r == 720,
{
    720
}

/// Whether only the current virtual desktop is shown, for settings that do
/// not say.
pub fn default_show_current_desktop_only() -> (r: bool)
    ensures
        r == true,
{
    true
}

/// The settings a first start begins with.
pub open spec fn is_default_settings(s: SwitcherSettings) -> bool {
    &&& s.hotkey@ == "Alt+`"@
    &&& s.group_by@ == "exe_path"@
    &&& s.preview_mode@ == "icons"@
    &&& s.window_mode@ == "fullscreen"@
    &&& s.window_width == 1280
    &&& s.window_height == 720
    &&& !s.auto_start
    &&& s.show_current_desktop_only
    &&& s.excluded_processes@.len() == 2
    &&& s.excluded_processes@[0]@ == "grouped-alt-tab.exe"@
    &&& s.excluded_processes@[1]@ == "ApplicationFrameHost.exe"@
}

impl Default for SwitcherSettings {
    fn default() -> (r: Self)
        ensures
            is_default_settings(r),
    {
        let mut excluded: Vec<String> = Vec::new();
        excluded.push(owned("grouped-alt-tab.exe"));
        excluded.push(owned("ApplicationFrameHost.exe"));
        SwitcherSettings {
            hotkey: owned("Alt+`"),
            group_by: owned("exe_path"),
            preview_mode: owned("icons"),
            window_mode: default_window_mode(),
            window_width: default_window_width(),
            window_height: default_window_height(),
            auto_start: false,
            show_current_desktop_only: true,
            excluded_processes: excluded,
        }
    }
}

/// The settings in effect after loading: the stored settings, or the defaults
/// when none are stored, with `auto_start` taken from the registry, which is
/// where it really lives.
pub fn load_settings(stored: Option<SwitcherSettings>, auto_start_enabled: bool) -> (r:
    SwitcherSettings)
    ensures
        r.auto_start == auto_start_enabled,
        match stored {
            Some(s) => r == (SwitcherSettings { auto_start: auto_start_enabled, ..s }),
            None => is_default_settings(
                (SwitcherSettings { auto_start: false, ..r }),
            ),
        },
{
    let mut settings = match stored {
        Some(s) => s,
        None => SwitcherSettings::default(),
    };
    settings.auto_start = auto_start_enabled;
    settings
}

/// The settings with the start-with-Windows choice replaced.
pub fn update_auto_start(settings: SwitcherSettings, enabled: bool) -> (r: SwitcherSettings)
    ensures
        r == (SwitcherSettings { auto_start: enabled, ..settings }),
{
    let mut settings = settings;
    settings.auto_start = enabled;
    settings
}

/// The text of a value read from the run key, if there was one.
pub open spec fn value_text(v: Option<String>) -> Option<Seq<char>> {
    match v {
        Some(s) => Some(s@),
        None => None,
    }
}

/// The switcher starts with Windows when its value is under the run key.
pub open spec fn enabled_by(value: Option<Seq<char>>) -> bool {
    value is Some
}

/// Whether the switcher starts with Windows, from reading the run key: an
/// error when the key could not be opened, otherwise whether the switcher's
/// value could be read as a string.
pub fn is_auto_start_enabled(run_value: Result<Option<String>, String>) -> (r: Result<bool, String>)
    ensures
        match run_value {
            Ok(v) => r == Ok::<bool, String>(enabled_by(value_text(v))),
            Err(e) => r == Err::<bool, String>(e),
        },
{
    match run_value {
        Ok(v) => Ok(v.is_some()),
        Err(e) => Err(e),
    }
}

/// A change to the switcher's value under the run key.
#[derive(Debug)]
pub enum RunKeyChange {
    /// Store `command` under the switcher's value name.
    Write { name: String, command: String },
    /// Remove the switcher's value.
    Delete { name: String },
}

/// The command that starts the executable at `exe_path`: the path in double
/// quotes.
pub open spec fn startup_command(exe_path: Seq<char>) -> Seq<char> {
    seq!['"'] + exe_path + seq!['"']
}

/// The change that makes the switcher start with Windows (`enabled`) or not;
/// `exe_path` is the running executable and only read when enabling.
pub fn set_auto_start(enabled: bool, exe_path: &str) -> (r: RunKeyChange)
    ensures
        enabled ==> (r matches RunKeyChange::Write { name, command } && name@ == RUN_VALUE_NAME@
            && command@ == startup_command(exe_path@)),
        !enabled ==> (r matches RunKeyChange::Delete { name } && name@ == RUN_VALUE_NAME@),
{
    let name = owned(RUN_VALUE_NAME);
    if enabled {
        let mut command = String::new();
        crate::text::push_char(&mut command, '"');
        let path = owned(exe_path);
        command.append(path.as_str());
        crate::text::push_char(&mut command, '"');
        assert(command@ =~= startup_command(exe_path@));
        RunKeyChange::Write { name, command }
    } else {
        RunKeyChange::Delete { name }
    }
}

/// The run key after a change: value names mapped to their string data.
pub open spec fn apply_run_key_change(
    key: Map<Seq<char>, Seq<char>>,
    change: RunKeyChange,
) -> Map<Seq<char>, Seq<char>> {
    match change {
        RunKeyChange::Write { name, command } => key.insert(name@, command@),
        RunKeyChange::Delete { name } => key.remove(name@),
    }
}

/// The data of the value `name` under the run key, if it is there.
pub open spec fn run_value(key: Map<Seq<char>, Seq<char>>, name: Seq<char>) -> Option<Seq<char>> {
    if key.dom().contains(name) {
        Some(key[name])
    } else {
        None
    }
}

/// Applying the change that `set_auto_start` gives to the run key, whatever
/// it held, and reading the switcher's value back tells that the switcher
/// starts with Windows exactly when it was enabled, and then with the quoted
/// executable path.
pub proof fn lemma_auto_start_round_trip(
    key: Map<Seq<char>, Seq<char>>,
    enabled: bool,
    exe_path: Seq<char>,
    change: RunKeyChange,
)
    requires
        enabled ==> (change matches RunKeyChange::Write { name, command } && name@
            == RUN_VALUE_NAME@ && command@ == startup_command(exe_path)),
        !enabled ==> (change matches RunKeyChange::Delete { name } && name@ == RUN_VALUE_NAME@),
    ensures
        enabled_by(run_value(apply_run_key_change(key, change), RUN_VALUE_NAME@)) == enabled,
        enabled ==> run_value(apply_run_key_change(key, change), RUN_VALUE_NAME@) == Some(
            startup_command(exe_path),
        ),
{
}

/// How removing the run-key value went.
#[derive(Debug)]
pub enum DeleteOutcome {
    Deleted,
    NotFound,
    Failed(String),
}

/// Removing the value succeeds when it was removed or was not there.
pub fn finish_delete(outcome: DeleteOutcome) -> (r: Result<(), String>)
    ensures
        match outcome {
            DeleteOutcome::Failed(e) => r == Err::<(), String>(e),
            _ => r is Ok,
        },
{
    match outcome {
        DeleteOutcome::Failed(e) => Err(e),
        _ => Ok(()),
    }
}

/// The settings the switcher starts with: the loaded ones, or the defaults
/// when loading failed.
pub fn settings_or_default(loaded: Option<SwitcherSettings>) -> (r: SwitcherSettings)
    ensures
        match loaded {
            Some(s) => r == s,
            None => is_default_settings(r),
        },
{
    match loaded {
        Some(s) => s,
        None => SwitcherSettings::default(),
    }
}

} // verus!
