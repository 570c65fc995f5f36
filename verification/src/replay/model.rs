//! What the replay surfaces show: the snapshot of the replay lifecycle and
//! of the global shortcut's registration.
use vstd::prelude::*;

verus! {

/// Where the replay lifecycle stands, as the bar renders it.
#[derive(Debug, Clone, Copy, PartialEq, Eq, Structural)]
pub enum ReplayState {
    Unavailable,
    Preparing,
    Saved,
    Failed,
}

/// Whether the global replay shortcut is bound.
#[derive(Debug, Clone, Copy, PartialEq, Eq, Structural)]
pub enum ShortcutRegistrationState {
    Unavailable,
    Registered,
}

/// The shortcut's registration and, when it failed, why.
#[derive(Debug, Clone, PartialEq, Eq)]
pub struct ShortcutRegistrationSnapshot {
    pub state: ShortcutRegistrationState,
    pub error_code: Option<String>,
}

/// The replay being exported (or waiting for a retry), without any path.
#[derive(Debug, Clone, PartialEq, Eq)]
pub struct PendingReplaySnapshot {
    pub id: String,
    pub created_at_unix_ms: u64,
    pub segment_count: u64,
    pub total_bytes: u64,
    pub evidence_start_unix_ms: u64,
    pub evidence_end_unix_ms: u64,
}

/// The last replay that was saved, by its session id and folder name.
#[derive(Debug, Clone, PartialEq, Eq)]
pub struct SavedReplaySnapshot {
    pub id: String,
    pub display_name: String,
}

/// Everything the replay surfaces render.
#[derive(Debug, Clone, PartialEq, Eq)]
pub struct ReplaySnapshot {
    pub state: ReplayState,
    pub pending: Option<PendingReplaySnapshot>,
    pub saved: Option<SavedReplaySnapshot>,
    pub error_code: Option<String>,
    pub shortcut: ShortcutRegistrationSnapshot,
}

impl ShortcutRegistrationSnapshot {
    /// The same snapshot, copied.
    pub fn duplicate(&self) -> (r: ShortcutRegistrationSnapshot)
        ensures
            r == *self,
    {
        ShortcutRegistrationSnapshot {
            state: self.state,
            error_code: crate::text::copy_opt_string(&self.error_code),
        }
    }
}

impl Default for ShortcutRegistrationSnapshot {
    /// Not registered yet, with no error.
    fn default() -> (r: ShortcutRegistrationSnapshot)
        ensures
            r.state == ShortcutRegistrationState::Unavailable,
            r.error_code is None,
    {
        ShortcutRegistrationSnapshot { state: ShortcutRegistrationState::Unavailable, error_code: None }
    }
}

impl PendingReplaySnapshot {
    /// The same snapshot, copied.
    pub fn duplicate(&self) -> (r: PendingReplaySnapshot)
        ensures
            r == *self,
    {
        PendingReplaySnapshot {
            id: self.id.clone(),
            created_at_unix_ms: self.created_at_unix_ms,
            segment_count: self.segment_count,
            total_bytes: self.total_bytes,
            evidence_start_unix_ms: self.evidence_start_unix_ms,
            evidence_end_unix_ms: self.evidence_end_unix_ms,
        }
    }
}

/// The shortcut snapshot for a registration outcome: registered with no
/// error, or unavailable with the outcome's error code.
pub open spec fn registration_outcome(
    r: ShortcutRegistrationSnapshot,
    outcome: Result<(), Seq<char>>,
) -> bool {
    match outcome {
        Ok(()) => r.state == ShortcutRegistrationState::Registered && r.error_code is None,
        Err(code) => r.state == ShortcutRegistrationState::Unavailable && (r.error_code matches Some(
            c,
        ) && c@ == code),
    }
}

/// The shortcut snapshot for a registration outcome (see
/// [`registration_outcome`]).
pub fn registration_snapshot(result: &Result<(), String>) -> (r: ShortcutRegistrationSnapshot)
    ensures
        registration_outcome(
            r,
            match result {
                Ok(()) => Ok(()),
                Err(c) => Err(c@),
            },
        ),
{
    match result {
        Ok(()) => ShortcutRegistrationSnapshot {
            state: ShortcutRegistrationState::Registered,
            error_code: None,
        },
        Err(code) => ShortcutRegistrationSnapshot {
            state: ShortcutRegistrationState::Unavailable,
            error_code: Some(code.clone()),
        },
    }
}

/// The snapshot for whether the replay shortcut could be bound: a failure
/// carries the stable code `shortcut_registration_failed`.
pub fn shortcut_registration(registered: bool) -> (r: ShortcutRegistrationSnapshot)
    ensures
        registration_outcome(
            r,
            if registered { Ok(()) } else { Err("shortcut_registration_failed"@) },
        ),
{
    if registered {
        ShortcutRegistrationSnapshot { state: ShortcutRegistrationState::Registered, error_code: None }
    } else {
        ShortcutRegistrationSnapshot {
            state: ShortcutRegistrationState::Unavailable,
            error_code: Some("shortcut_registration_failed".to_owned()),
        }
    }
}

} // verus!
