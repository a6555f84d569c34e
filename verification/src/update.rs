//! Applying new settings from the user interface: save them, register their
//! shortcut, refresh the tray; when the shortcut is refused, put the previous
//! settings and shortcut back and report why.
use vstd::prelude::*;

verus! {

/// Which of the two settings an action concerns.
#[derive(Debug, Clone, Copy, PartialEq, Eq, Structural)]
pub enum SettingsCopy {
    /// The settings the user asked for.
    Requested,
    /// The settings in effect before.
    Previous,
}

/// The next thing to do.
#[derive(Debug)]
pub enum UpdateAction {
    Save(SettingsCopy),
    ApplyHotkey(SettingsCopy),
    RefreshTray,
    Finish(Result<(), String>),
}

#[derive(Debug, Clone, Copy, PartialEq, Eq, Structural)]
pub enum UpdatePhase {
    SavingRequested,
    ApplyingRequested,
    RestoringPrevious,
    ApplyingPrevious,
    RefreshingTray,
    Finished,
}

/// The progress of one update.
#[derive(Debug)]
pub struct SettingsUpdate {
    pub phase: UpdatePhase,
    /// Why the requested shortcut was refused.
    pub failure: Option<String>,
}

pub open spec fn spec_begin() -> (SettingsUpdate, UpdateAction) {
    (
        SettingsUpdate { phase: UpdatePhase::SavingRequested, failure: None },
        UpdateAction::Save(SettingsCopy::Requested),
    )
}

/// The update after the outcome of the last action.
pub open spec fn spec_step(u: SettingsUpdate, outcome: Result<(), String>) -> (SettingsUpdate, UpdateAction) {
    match u.phase {
        UpdatePhase::SavingRequested => match outcome {
            Ok(()) => (
                SettingsUpdate { phase: UpdatePhase::ApplyingRequested, ..u },
                UpdateAction::ApplyHotkey(SettingsCopy::Requested),
            ),
            Err(e) => (
                SettingsUpdate { phase: UpdatePhase::Finished, ..u },
                UpdateAction::Finish(Err(e)),
            ),
        },
        UpdatePhase::ApplyingRequested => match outcome {
            Ok(()) => (
                SettingsUpdate { phase: UpdatePhase::RefreshingTray, ..u },
                UpdateAction::RefreshTray,
            ),
            Err(e) => (
                SettingsUpdate { phase: UpdatePhase::RestoringPrevious, failure: Some(e) },
                UpdateAction::Save(SettingsCopy::Previous),
            ),
        },
        UpdatePhase::RestoringPrevious => (
            SettingsUpdate { phase: UpdatePhase::ApplyingPrevious, ..u },
            UpdateAction::ApplyHotkey(SettingsCopy::Previous),
        ),
        UpdatePhase::ApplyingPrevious => (
            SettingsUpdate { phase: UpdatePhase::Finished, ..u },
            UpdateAction::Finish(Err(u.failure.unwrap())),
        ),
        UpdatePhase::RefreshingTray => (
            SettingsUpdate { phase: UpdatePhase::Finished, ..u },
            UpdateAction::Finish(Ok(())),
        ),
        UpdatePhase::Finished => (u, UpdateAction::Finish(Ok(()))),
    }
}

impl SettingsUpdate {
    /// The phases in which a refusal is being reported carry its reason.
    pub open spec fn well_formed(&self) -> bool {
        (self.phase == UpdatePhase::RestoringPrevious || self.phase == UpdatePhase::ApplyingPrevious)
            ==> self.failure is Some
    }

    /// Starts an update: the requested settings are saved first.
    pub fn begin() -> (r: (SettingsUpdate, UpdateAction))
        ensures
            r == spec_begin(),
            r.0.well_formed(),
    {
        (
            SettingsUpdate { phase: UpdatePhase::SavingRequested, failure: None },
            UpdateAction::Save(SettingsCopy::Requested),
        )
    }

    /// The next action, given how the last one went.
    pub fn step(&mut self, outcome: Result<(), String>) -> (r: UpdateAction)
        requires
            old(self).well_formed(),
            old(self).phase != UpdatePhase::Finished,
        ensures
            (*final(self), r) == spec_step(*old(self), outcome),
            final(self).well_formed(),
    {
        match self.phase {
            UpdatePhase::SavingRequested => match outcome {
                Ok(()) => {
                    self.phase = UpdatePhase::ApplyingRequested;
                    UpdateAction::ApplyHotkey(SettingsCopy::Requested)
                },
                Err(e) => {
                    self.phase = UpdatePhase::Finished;
                    UpdateAction::Finish(Err(e))
                },
            },
            UpdatePhase::ApplyingRequested => match outcome {
                Ok(()) => {
                    self.phase = UpdatePhase::RefreshingTray;
                    UpdateAction::RefreshTray
                },
                Err(e) => {
                    self.phase = UpdatePhase::RestoringPrevious;
                    self.failure = Some(e);
                    UpdateAction::Save(SettingsCopy::Previous)
                },
            },
            UpdatePhase::RestoringPrevious => {
                self.phase = UpdatePhase::ApplyingPrevious;
                UpdateAction::ApplyHotkey(SettingsCopy::Previous)
            },
            UpdatePhase::ApplyingPrevious => {
                self.phase = UpdatePhase::Finished;
                let reason = match &self.failure {
                    Some(e) => e.clone(),
                    None => String::new(),
                };
                UpdateAction::Finish(Err(reason))
            },
            UpdatePhase::RefreshingTray => {
                self.phase = UpdatePhase::Finished;
                UpdateAction::Finish(Ok(()))
            },
            UpdatePhase::Finished => UpdateAction::Finish(Ok(())),
        }
    }
}

/// A refused shortcut leaves the previous settings saved and their shortcut
/// registered, whatever those two steps report, and the update fails with
/// the reason of the refusal.
pub proof fn lemma_refused_shortcut_restores_previous(
    refusal: String,
    restore_saved: Result<(), String>,
    restore_applied: Result<(), String>,
)
    ensures
        ({
            let (u0, a0) = spec_begin();
            let (u1, a1) = spec_step(u0, Ok(()));
            let (u2, a2) = spec_step(u1, Err(refusal));
            let (u3, a3) = spec_step(u2, restore_saved);
            let (u4, a4) = spec_step(u3, restore_applied);
            &&& a0 == UpdateAction::Save(SettingsCopy::Requested)
            &&& a1 == UpdateAction::ApplyHotkey(SettingsCopy::Requested)
            &&& a2 == UpdateAction::Save(SettingsCopy::Previous)
            &&& a3 == UpdateAction::ApplyHotkey(SettingsCopy::Previous)
            &&& a4 == UpdateAction::Finish(Err(refusal))
            &&& u4.phase == UpdatePhase::Finished
        }),
{
}

/// An accepted shortcut refreshes the tray and the update succeeds.
pub proof fn lemma_accepted_update_succeeds(refreshed: Result<(), String>)
    ensures
        ({
            let (u0, a0) = spec_begin();
            let (u1, a1) = spec_step(u0, Ok(()));
            let (u2, a2) = spec_step(u1, Ok(()));
            let (u3, a3) = spec_step(u2, refreshed);
            &&& a2 == UpdateAction::RefreshTray
            &&& a3 == UpdateAction::Finish(Ok(()))
        }),
{
}

/// When the requested settings cannot be saved, nothing else is attempted and
/// the update fails with the save error.
pub proof fn lemma_failed_save_changes_nothing(error: String)
    ensures
        spec_step(spec_begin().0, Err(error)).1 == UpdateAction::Finish(Err(error)),
{
}

} // verus!
