//! The switcher's two global shortcuts: the main one cycles through windows,
//! the same with Shift added cycles through groups. Replacing them registers
//! only what changed and, when a registration fails, leaves the shortcuts that
//! were in effect.
use vstd::prelude::*;
use crate::session::CycleKind;
use crate::text::{owned, trim, trim_text};

verus! {

/// The shortcut used when the configured one cannot be registered.
pub const DEFAULT_HOTKEY: &'static str = "Alt+`";

/// Modifier bits of a shortcut.
pub const MOD_ALT: u32 = 0x1;

pub const MOD_CONTROL: u32 = 0x2;

pub const MOD_SHIFT: u32 = 0x4;

pub const MOD_SUPER: u32 = 0x8;

pub const MOD_META: u32 = 0x10;

/// A key together with the modifiers held with it; `key` identifies the key
/// code.
#[derive(Debug, Clone, Copy, PartialEq, Eq, Structural)]
pub struct Shortcut {
    pub modifiers: u32,
    pub key: u32,
}

/// The shortcuts in effect.
#[derive(Debug, Clone, Copy, PartialEq, Eq, Structural)]
pub struct ShortcutBindings {
    pub main: Shortcut,
    pub group: Shortcut,
}

/// The group shortcut of a main shortcut: the same key with Shift added.
pub open spec fn spec_group_shortcut(main: Shortcut) -> Shortcut {
    Shortcut { modifiers: main.modifiers | MOD_SHIFT, key: main.key }
}

pub fn group_shortcut(main: Shortcut) -> (r: Shortcut)
    ensures
        r == spec_group_shortcut(main),
{
    Shortcut { modifiers: main.modifiers | MOD_SHIFT, key: main.key }
}

/// Which loop a shortcut event drives: the main shortcut cycles windows, the
/// group shortcut cycles groups, any other shortcut is not the switcher's.
pub fn classify_shortcut(bindings: &Option<ShortcutBindings>, event: Shortcut) -> (r: Option<CycleKind>)
    ensures
        r == match *bindings {
            Some(b) => if b.main == event {
                Some(CycleKind::Window)
            } else if b.group == event {
                Some(CycleKind::Group)
            } else {
                None
            },
            None => None,
        },
{
    match bindings {
        Some(b) => {
            if b.main == event {
                Some(CycleKind::Window)
            } else if b.group == event {
                Some(CycleKind::Group)
            } else {
                None
            }
        },
        None => None,
    }
}

/// The configured text of a shortcut, as it is read: without surrounding
/// white space.
pub fn hotkey_text(spec: &str) -> (r: String)
    ensures
        r@ == trim(spec@),
{
    trim_text(spec)
}

pub open spec fn msg_unrecognized(text: Seq<char>) -> Seq<char> {
    "无法识别热键 \""@ + text + "\",示例:Ctrl+Alt+Q"@
}

pub open spec fn msg_needs_modifier(text: Seq<char>) -> Seq<char> {
    "热键 \""@ + text + "\" 需要至少一个修饰键(Ctrl/Alt/Shift/Win)"@
}

pub open spec fn msg_main_taken(text: Seq<char>) -> Seq<char> {
    "热键 "@ + text + " 注册失败,可能已被其他程序占用"@
}

pub open spec fn msg_group_failed(error: Seq<char>) -> Seq<char> {
    "组间切换热键(热键+Shift)注册失败:"@ + error
}

fn wrap_text(prefix: &str, text: &str, suffix: &str) -> (r: String)
    ensures
        r@ == prefix@ + text@ + suffix@,
{
    let mut r = owned(prefix);
    let t = owned(text);
    r.append(t.as_str());
    let s = owned(suffix);
    r.append(s.as_str());
    r
}

/// What replacing the shortcuts involves.
#[derive(Debug)]
pub struct HotkeyPlan {
    /// The shortcut's text, for messages.
    pub text: String,
    pub main: Shortcut,
    pub group: Shortcut,
    /// Whether the main shortcut is new and must be registered.
    pub register_main: bool,
    /// Whether the group shortcut is new and must be registered.
    pub register_group: bool,
    /// The shortcuts in effect before.
    pub previous: Option<ShortcutBindings>,
}

pub open spec fn is_bound_main(current: Option<ShortcutBindings>, s: Shortcut) -> bool {
    current matches Some(b) && b.main == s
}

pub open spec fn is_bound_group(current: Option<ShortcutBindings>, s: Shortcut) -> bool {
    current matches Some(b) && b.group == s
}

/// Plans replacing the shortcuts in effect (`current`) by the shortcut
/// written `text`, which the shortcut parser read as `parsed` (`None` when it
/// could not). A shortcut without modifiers is refused.
pub fn plan_hotkeys(text: &str, parsed: Option<Shortcut>, current: Option<ShortcutBindings>) -> (r:
    Result<HotkeyPlan, String>)
    ensures
        match parsed {
            None => r matches Err(e) && e@ == msg_unrecognized(text@),
            Some(m) => if m.modifiers == 0 {
                r matches Err(e) && e@ == msg_needs_modifier(text@)
            } else {
                r matches Ok(p) && planned(text@, m, current, p)
            },
        },
{
    let main = match parsed {
        Some(m) => m,
        None => {
            return Err(wrap_text("无法识别热键 \"", text, "\",示例:Ctrl+Alt+Q"));
        },
    };
    if main.modifiers == 0 {
        return Err(wrap_text("热键 \"", text, "\" 需要至少一个修饰键(Ctrl/Alt/Shift/Win)"));
    }
    let group = group_shortcut(main);
    let same_main = match current {
        Some(b) => b.main == main,
        None => false,
    };
    let same_group = match current {
        Some(b) => b.group == group,
        None => false,
    };
    Ok(
        HotkeyPlan {
            text: owned(text),
            main,
            group,
            register_main: !same_main,
            register_group: !same_group,
            previous: current,
        },
    )
}

/// What to do when registering the group shortcut failed.
#[derive(Debug)]
pub struct GroupFailure {
    /// The main shortcut to unregister again, when it was newly registered.
    pub unregister: Option<Shortcut>,
    pub message: String,
}

/// The shortcuts in effect after a replacement, and the old ones to drop.
#[derive(Debug)]
pub struct HotkeyCommit {
    pub bindings: ShortcutBindings,
    pub unregister: Vec<Shortcut>,
}

impl HotkeyPlan {
    /// The error when the main shortcut could not be registered; nothing
    /// else changes.
    pub fn main_registration_failed(&self) -> (r: String)
        ensures
            r@ == msg_main_taken(self.text@),
    {
        wrap_text("热键 ", self.text.as_str(), " 注册失败,可能已被其他程序占用")
    }

    /// When the group shortcut could not be registered, the main shortcut is
    /// dropped again if it was registered for this change, and the change
    /// fails with the registration error.
    pub fn group_registration_failed(&self, error: &str) -> (r: GroupFailure)
        ensures
            r.unregister == (if self.register_main {
                Some(self.main)
            } else {
                None
            }),
            r.message@ == msg_group_failed(error@),
    {
        let unregister = if self.register_main {
            Some(self.main)
        } else {
            None
        };
        let message = wrap_text("组间切换热键(热键+Shift)注册失败:", error, "");
        proof {
            reveal_strlit("");
        }
        assert(message@ =~= msg_group_failed(error@));
        GroupFailure { unregister, message }
    }

    /// Both registrations succeeded: the new shortcuts take effect and the
    /// old ones that were replaced are dropped.
    pub fn commit(&self) -> (r: HotkeyCommit)
        ensures
            r.bindings == (ShortcutBindings { main: self.main, group: self.group }),
            r.unregister@ == commit_drops(*self),
    {
        let mut unregister: Vec<Shortcut> = Vec::new();
        if let Some(old) = self.previous {
            if self.register_main {
                unregister.push(old.main);
            }
            if self.register_group {
                unregister.push(old.group);
            }
        }
        let r = HotkeyCommit {
            bindings: ShortcutBindings { main: self.main, group: self.group },
            unregister,
        };
        assert(r.unregister@ =~= commit_drops(*self));
        r
    }
}

/// The old shortcuts that a commit drops: those of the previous bindings
/// that were replaced, main first.
pub open spec fn commit_drops(p: HotkeyPlan) -> Seq<Shortcut> {
    match p.previous {
        Some(old) => (if p.register_main {
            seq![old.main]
        } else {
            seq![]
        }) + (if p.register_group {
            seq![old.group]
        } else {
            seq![]
        }),
        None => seq![],
    }
}

/// The plan of a shortcut that was read.
pub open spec fn planned(text: Seq<char>, m: Shortcut, current: Option<ShortcutBindings>, p: HotkeyPlan) -> bool {
    &&& p.text@ == text
    &&& p.main == m
    &&& p.group == spec_group_shortcut(m)
    &&& p.register_main == !is_bound_main(current, m)
    &&& p.register_group == !is_bound_group(current, spec_group_shortcut(m))
    &&& p.previous == current
}

/// Replacing the shortcuts by the ones in effect registers nothing and drops
/// nothing.
pub proof fn lemma_same_shortcut_is_no_change(text: Seq<char>, m: Shortcut, p: HotkeyPlan)
    requires
        planned(text, m, Some(ShortcutBindings { main: m, group: spec_group_shortcut(m) }), p),
    ensures
        !p.register_main,
        !p.register_group,
{
}

/// A committed change drops only old shortcuts that differ from the new
/// ones, provided the old and new shortcuts do not trade places.
pub proof fn lemma_commit_keeps_new_shortcuts(
    text: Seq<char>,
    m: Shortcut,
    old: ShortcutBindings,
    p: HotkeyPlan,
    dropped: Seq<Shortcut>,
)
    requires
        planned(text, m, Some(old), p),
        old.main != p.group,
        old.group != p.main,
        dropped == (if p.register_main {
            seq![old.main]
        } else {
            seq![]
        }) + (if p.register_group {
            seq![old.group]
        } else {
            seq![]
        }),
    ensures
        forall|i: int| 0 <= i < dropped.len() ==> #[trigger] dropped[i] != p.main && dropped[i] != p.group,
{
}

/// The shortcut to fall back on after applying the configured one: the
/// default shortcut when that failed, none when it took effect.
pub fn fallback_hotkey(applied: &Result<(), String>) -> (r: Option<&'static str>)
    ensures
        match applied {
            Ok(()) => r is None,
            Err(_) => r matches Some(h) && h@ == DEFAULT_HOTKEY@,
        },
{
    match applied {
        Ok(()) => None,
        Err(_) => Some(DEFAULT_HOTKEY),
    }
}

/// Replacing shortcuts compares whole shortcuts, modifiers and key: a main
/// (or group) shortcut in effect that differs from the new one in either is
/// registered anew and its old one dropped on commit, main before group; one
/// that equals it in both is left alone.
pub proof fn lemma_changed_shortcut_is_replaced(
    text: Seq<char>,
    m: Shortcut,
    b: ShortcutBindings,
    p: HotkeyPlan,
)
    requires
        planned(text, m, Some(b), p),
    ensures
        (b.main.modifiers != m.modifiers || b.main.key != m.key) ==> p.register_main
            && commit_drops(p).len() >= 1 && commit_drops(p)[0] == b.main,
        (b.main.modifiers == m.modifiers && b.main.key == m.key) ==> !p.register_main,
        (b.group.modifiers != (m.modifiers | 4) || b.group.key != m.key) ==> p.register_group
            && commit_drops(p).len() >= 1 && commit_drops(p).last() == b.group,
        (b.group.modifiers == (m.modifiers | 4) && b.group.key == m.key) ==> !p.register_group,
        commit_drops(p).len() == (if p.register_main {
            1int
        } else {
            0
        }) + (if p.register_group {
            1int
        } else {
            0
        }),
{
    assert(MOD_SHIFT == 4);
}

/// Without shortcuts in effect, a plan registers both and a commit drops
/// nothing.
pub proof fn lemma_first_shortcut_registers_both(text: Seq<char>, m: Shortcut, p: HotkeyPlan)
    requires
        planned(text, m, None, p),
    ensures
        p.register_main,
        p.register_group,
        commit_drops(p).len() == 0,
{
}

} // verus!
