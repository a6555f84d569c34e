//! One switching session of the hot key, as a state machine.
//!
//! Holding the hot key opens the switcher and cycles through windows (or
//! groups, with Shift) every 100 ms after an initial delay; releasing the key
//! stops the cycling; releasing Alt commits the selection. Each running
//! repetition loop carries the generation it was started with and stops as
//! soon as the generation of its kind has moved on. A watch loop polls Alt and
//! commits once per session.
use vstd::prelude::*;

verus! {

/// Which shortcut drives a repetition loop.
#[derive(Debug, Clone, Copy, PartialEq, Eq, Structural)]
pub enum CycleKind {
    /// The main shortcut: cycle through windows.
    Window,
    /// The main shortcut with Shift: cycle through groups.
    Group,
}

/// The state shared by the shortcut handler and its loops.
#[derive(Debug, Clone, Copy, PartialEq, Eq, Structural)]
pub struct SwitcherSession {
    pub repeat_generation: u64,
    pub group_repeat_generation: u64,
    /// Whether a loop watching for the release of Alt is running.
    pub watch_active: bool,
}

/// What the handler does when a shortcut is pressed.
#[derive(Debug, Clone, Copy, PartialEq, Eq, Structural)]
pub struct PressResponse {
    /// The generation the new repetition loop carries.
    pub generation: u64,
    /// Whether to start the loop that watches Alt.
    pub start_watch: bool,
}

/// What the watch loop does after one look at Alt.
#[derive(Debug, Clone, Copy, PartialEq, Eq, Structural)]
pub enum WatchStep {
    /// Alt is still down: look again.
    Continue,
    /// Alt is up: commit the selection and stop.
    Commit,
    /// The session was ended elsewhere: stop without committing.
    Stop,
}

/// `u64::wrapping_add(g, 1)`.
pub open spec fn next_generation(g: u64) -> u64 {
    if g == u64::MAX {
        0
    } else {
        (g + 1) as u64
    }
}

impl SwitcherSession {
    pub open spec fn generation_of(self, kind: CycleKind) -> u64 {
        match kind {
            CycleKind::Window => self.repeat_generation,
            CycleKind::Group => self.group_repeat_generation,
        }
    }

    /// The session with the generation of `kind` moved on.
    pub open spec fn advanced(self, kind: CycleKind) -> SwitcherSession {
        match kind {
            CycleKind::Window => SwitcherSession {
                repeat_generation: next_generation(self.repeat_generation),
                ..self
            },
            CycleKind::Group => SwitcherSession {
                group_repeat_generation: next_generation(self.group_repeat_generation),
                ..self
            },
        }
    }

    /// Both generations moved on and no watch running.
    pub open spec fn ended(self) -> SwitcherSession {
        SwitcherSession {
            repeat_generation: next_generation(self.repeat_generation),
            group_repeat_generation: next_generation(self.group_repeat_generation),
            watch_active: false,
        }
    }

    pub open spec fn spec_press(self, kind: CycleKind) -> (SwitcherSession, PressResponse) {
        let s = self.advanced(kind);
        (
            SwitcherSession { watch_active: true, ..s },
            PressResponse { generation: s.generation_of(kind), start_watch: !self.watch_active },
        )
    }

    pub open spec fn spec_poll_alt(self, alt_down: bool) -> (SwitcherSession, WatchStep) {
        if !self.watch_active {
            (self, WatchStep::Stop)
        } else if !alt_down {
            (self.ended(), WatchStep::Commit)
        } else {
            (self, WatchStep::Continue)
        }
    }

    /// A session in which nothing has happened yet.
    pub fn new() -> (r: SwitcherSession)
        ensures
            r == (SwitcherSession {
                repeat_generation: 0,
                group_repeat_generation: 0,
                watch_active: false,
            }),
    {
        SwitcherSession { repeat_generation: 0, group_repeat_generation: 0, watch_active: false }
    }

    fn advance(&mut self, kind: CycleKind)
        ensures
            *final(self) == old(self).advanced(kind),
    {
        match kind {
            CycleKind::Window => {
                self.repeat_generation = self.repeat_generation.wrapping_add(1);
            },
            CycleKind::Group => {
                self.group_repeat_generation = self.group_repeat_generation.wrapping_add(1);
            },
        }
    }

    /// The shortcut of `kind` went down: a new repetition loop starts with a
    /// fresh generation, and the Alt watch starts unless it is running.
    pub fn press(&mut self, kind: CycleKind) -> (r: PressResponse)
        ensures
            (*final(self), r) == old(self).spec_press(kind),
    {
        self.advance(kind);
        let generation = match kind {
            CycleKind::Window => self.repeat_generation,
            CycleKind::Group => self.group_repeat_generation,
        };
        let start_watch = !self.watch_active;
        self.watch_active = true;
        PressResponse { generation, start_watch }
    }

    /// The shortcut of `kind` went up: its repetition stops; the switcher
    /// stays open until Alt is released.
    pub fn release(&mut self, kind: CycleKind)
        ensures
            *final(self) == old(self).advanced(kind),
    {
        self.advance(kind);
    }

    /// Whether a repetition loop of `kind` started with `generation` goes on.
    pub fn repeat_continues(&self, kind: CycleKind, generation: u64) -> (r: bool)
        ensures
            r == (self.generation_of(kind) == generation),
    {
        match kind {
            CycleKind::Window => self.repeat_generation == generation,
            CycleKind::Group => self.group_repeat_generation == generation,
        }
    }

    /// One look of the watch loop at Alt.
    pub fn poll_alt(&mut self, alt_down: bool) -> (r: WatchStep)
        ensures
            (*final(self), r) == old(self).spec_poll_alt(alt_down),
    {
        if !self.watch_active {
            return WatchStep::Stop;
        }
        if !alt_down {
            self.end();
            return WatchStep::Commit;
        }
        WatchStep::Continue
    }

    fn end(&mut self)
        ensures
            *final(self) == old(self).ended(),
    {
        self.repeat_generation = self.repeat_generation.wrapping_add(1);
        self.group_repeat_generation = self.group_repeat_generation.wrapping_add(1);
        self.watch_active = false;
    }

    /// The user cancelled the switch: all repetition stops and releasing Alt
    /// commits nothing.
    pub fn cancel(&mut self)
        ensures
            *final(self) == old(self).ended(),
    {
        self.end();
    }
}

/// Whether `GetAsyncKeyState` reports the key as down: the most significant
/// bit of the state.
pub fn key_is_down(state: i16) -> (r: bool)
    ensures
        r == (state < 0),
{
    let bits = state as u16;
    let down = bits & 0x8000u16 != 0;
    assert(down == (state < 0)) by (bit_vector)
        requires
            bits == state as u16,
            down == (bits & 0x8000u16 != 0),
    ;
    down
}

/// A repetition loop started by a press runs until the next press or
/// release of its kind, or until the session ends.
pub proof fn lemma_repetition_stops(s: SwitcherSession, kind: CycleKind)
    ensures
        ({
            let (s1, r) = s.spec_press(kind);
            &&& s1.generation_of(kind) == r.generation
            &&& s1.advanced(kind).generation_of(kind) != r.generation
            &&& s1.spec_press(kind).0.generation_of(kind) != r.generation
            &&& s1.ended().generation_of(kind) != r.generation
        }),
{
}

/// Pressing the other shortcut leaves a running repetition loop alone.
pub proof fn lemma_other_kind_untouched(s: SwitcherSession, kind: CycleKind, other: CycleKind)
    requires
        kind != other,
    ensures
        s.spec_press(other).0.generation_of(kind) == s.generation_of(kind),
        s.advanced(other).generation_of(kind) == s.generation_of(kind),
{
}

/// After a cancel the watch loop stops without committing, whatever Alt
/// does.
pub proof fn lemma_cancel_prevents_commit(s: SwitcherSession, alt_down: bool)
    ensures
        s.ended().spec_poll_alt(alt_down).1 == WatchStep::Stop,
{
}

/// A session commits at most once: after a commit the watch loop stops until
/// a shortcut is pressed again, and a press after it starts a new watch.
pub proof fn lemma_commit_once(s: SwitcherSession, alt_down: bool, kind: CycleKind)
    requires
        s.spec_poll_alt(false).1 == WatchStep::Commit,
    ensures
        s.spec_poll_alt(false).0.spec_poll_alt(alt_down).1 == WatchStep::Stop,
        s.spec_poll_alt(false).0.spec_press(kind).1.start_watch,
{
}

/// While a watch runs, further presses start no second one.
pub proof fn lemma_single_watch(s: SwitcherSession, k1: CycleKind, k2: CycleKind)
    ensures
        !s.spec_press(k1).0.spec_press(k2).1.start_watch,
{
}

/// The session after `n` looks at Alt, each finding it down.
pub open spec fn after_alt_down_polls(s: SwitcherSession, n: nat) -> SwitcherSession
    decreases n,
{
    if n == 0 {
        s
    } else {
        after_alt_down_polls(s, (n - 1) as nat).spec_poll_alt(true).0
    }
}

/// A look at Alt that finds it down changes nothing, and the watch goes on
/// while it runs.
pub proof fn lemma_alt_down_changes_nothing(s: SwitcherSession)
    ensures
        s.spec_poll_alt(true).0 == s,
        s.watch_active ==> s.spec_poll_alt(true).1 == WatchStep::Continue,
        !s.watch_active ==> s.spec_poll_alt(true).1 == WatchStep::Stop,
{
}

/// After a press, the repetition loop it starts goes on through any number of
/// looks at Alt that find it down: its generation is still that of its kind.
pub proof fn lemma_held_shortcut_keeps_repeating(s: SwitcherSession, kind: CycleKind, n: nat)
    ensures
        after_alt_down_polls(s.spec_press(kind).0, n).generation_of(kind)
            == s.spec_press(kind).1.generation,
        after_alt_down_polls(s.spec_press(kind).0, n).watch_active,
    decreases n,
{
    if n > 0 {
        lemma_held_shortcut_keeps_repeating(s, kind, (n - 1) as nat);
    }
}

/// A repetition loop stops once its kind is pressed or released again, Alt
/// is released, or the switch is cancelled: each moves the generation of the
/// kind on; a press or release of the other kind leaves it.
pub proof fn lemma_generation_moves_on(s: SwitcherSession, kind: CycleKind, other: CycleKind)
    requires
        other != kind,
    ensures
        s.advanced(kind).generation_of(kind) != s.generation_of(kind),
        s.spec_press(kind).0.generation_of(kind) != s.generation_of(kind),
        s.ended().generation_of(kind) != s.generation_of(kind),
        s.watch_active ==> s.spec_poll_alt(false).0.generation_of(kind) != s.generation_of(kind),
        s.advanced(other).generation_of(kind) == s.generation_of(kind),
        s.spec_press(other).0.generation_of(kind) == s.generation_of(kind),
{
}

/// Releasing Alt while the watch runs commits once: the watch ends, every
/// repetition stops, and the next look stops without committing again.
pub proof fn lemma_alt_release_commits_once(s: SwitcherSession)
    requires
        s.watch_active,
    ensures
        s.spec_poll_alt(false).1 == WatchStep::Commit,
        !s.spec_poll_alt(false).0.watch_active,
        s.spec_poll_alt(false).0.spec_poll_alt(false).1 == WatchStep::Stop,
        s.spec_poll_alt(false).0.spec_poll_alt(true).1 == WatchStep::Stop,
{
}

/// How long a held shortcut waits before it repeats, in milliseconds.
pub const REPEAT_DELAY_MS: u64 = 280;

/// The time between two repeats of a held shortcut, in milliseconds.
pub const REPEAT_INTERVAL_MS: u64 = 100;

/// The time between two reads of the Alt key while a watch runs, in
/// milliseconds.
pub const ALT_POLL_INTERVAL_MS: u64 = 20;

/// The event that tells the interface to show the switcher.
pub const OPEN_EVENT: &'static str = "switcher:open";

/// The event that tells the interface to commit the selection.
pub const COMMIT_EVENT: &'static str = "switcher:commit";

/// The event that reports a failure to place the window.
pub const WINDOW_ERROR_EVENT: &'static str = "window:error";

/// The event that reports a failure to change the settings.
pub const SETTINGS_ERROR_EVENT: &'static str = "settings:error";

/// The event each step of a repetition loop of `kind` sends.
pub fn cycle_event(kind: CycleKind) -> (r: &'static str)
    ensures
        r@ == match kind {
            CycleKind::Window => "switcher:cycle"@,
            CycleKind::Group => "switcher:group-cycle"@,
        },
{
    match kind {
        CycleKind::Window => "switcher:cycle",
        CycleKind::Group => "switcher:group-cycle",
    }
}

} // verus!
