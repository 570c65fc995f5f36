//! The replay service's transitions. The service that owns the state, the
//! clock, the rolling store and the packager calls these with what they
//! produced; each transition is stated by a `*_post` predicate over the
//! state before and after.
use vstd::prelude::*;
use crate::capture::EvidenceCaptureFacts;
use crate::packager::model::SavedReplay;
use crate::replay::model::{ReplaySnapshot, ReplayState, ShortcutRegistrationSnapshot};
use crate::replay::state::{
    describes_replay, pending_snapshot, record_failure, replay_id_text, replay_state_of, snapshot,
    snapshot_of, PendingReplay, ReplayServiceState,
};
use crate::retention::SegmentLease;

verus! {

/// A wall-clock reading.
#[derive(Debug, Clone, Copy, PartialEq, Eq)]
pub struct ReplayTime {
    pub unix_ms: u64,
}

/// What a trigger or retry answers: the snapshot to broadcast and, when an
/// export should start, the id of the replay to export.
pub struct ReplayDispatch {
    pub snapshot: ReplaySnapshot,
    pub replay_id: Option<String>,
}

/// Everything the packager needs to export the pending replay.
pub struct PackageTask {
    pub replay_id: String,
    pub created_at_unix_ms: u64,
    pub lease: SegmentLease,
    pub capture: EvidenceCaptureFacts,
}

/// `new` is `old` with only its error code set, to `code`, and `r` is that
/// code as an error.
pub open spec fn failed_post(
    old: ReplayServiceState,
    new: ReplayServiceState,
    r: Result<ReplayDispatch, String>,
    code: Seq<char>,
) -> bool {
    &&& new.error_code matches Some(c) && c@ == code
    &&& new == ReplayServiceState { error_code: new.error_code, ..old }
    &&& r matches Err(e) && e@ == code
}

/// A request while an export is in flight changes nothing and starts
/// nothing: it answers the current snapshot.
pub open spec fn coalesced_post(
    old: ReplayServiceState,
    new: ReplayServiceState,
    r: Result<ReplayDispatch, String>,
) -> bool {
    &&& new == old
    &&& r matches Ok(d) && d.snapshot == snapshot_of(old) && d.replay_id is None
}

/// A trigger. While an export is in flight it coalesces. Otherwise it fails
/// with `replay_trigger_failed` when the clock cannot be read,
/// `replay_retention_failed` when the segments cannot be leased,
/// `replay_unavailable` when the lease holds no segment, and
/// `replay_trigger_failed` when the id counter is exhausted. Else the lease
/// becomes the pending replay `replay-{next_id}` (replacing any earlier
/// one), its export starts, the saved replay and the error are cleared, and
/// the id counter moves on.
pub open spec fn trigger_post(
    old: ReplayServiceState,
    now: Result<ReplayTime, ()>,
    lease: Result<SegmentLease, ()>,
    capture: EvidenceCaptureFacts,
    new: ReplayServiceState,
    r: Result<ReplayDispatch, String>,
) -> bool {
    if old.exporting_id is Some {
        coalesced_post(old, new, r)
    } else {
        match now {
            Err(()) => failed_post(old, new, r, "replay_trigger_failed"@),
            Ok(t) => match lease {
                Err(()) => failed_post(old, new, r, "replay_retention_failed"@),
                Ok(l) => if l.segments@.len() == 0 {
                    failed_post(old, new, r, "replay_unavailable"@)
                } else if old.next_id == u64::MAX {
                    failed_post(old, new, r, "replay_trigger_failed"@)
                } else {
                    &&& new.next_id == old.next_id + 1
                    &&& new.pending matches Some(p) && {
                        &&& p.lease == l
                        &&& p.capture == capture
                        &&& describes_replay(p.snapshot, l.segments@, old.next_id, t.unix_ms)
                        &&& new.exporting_id == Some(p.snapshot.id)
                        &&& r matches Ok(d) && d.snapshot == snapshot_of(new) && d.replay_id == Some(
                            p.snapshot.id,
                        )
                    }
                    &&& new.saved is None
                    &&& new.error_code is None
                    &&& new.shortcut == old.shortcut
                },
            },
        }
    }
}

/// A retry. While an export is in flight it coalesces; with nothing pending
/// it fails with `replay_unavailable`; otherwise the pending replay's export
/// starts again and the error is cleared.
pub open spec fn retry_post(
    old: ReplayServiceState,
    new: ReplayServiceState,
    r: Result<ReplayDispatch, String>,
) -> bool {
    if old.exporting_id is Some {
        coalesced_post(old, new, r)
    } else {
        match old.pending {
            None => failed_post(old, new, r, "replay_unavailable"@),
            Some(p) => {
                &&& new == ReplayServiceState {
                    exporting_id: Some(p.snapshot.id),
                    error_code: None,
                    ..old
                }
                &&& r matches Ok(d) && d.snapshot == snapshot_of(new) && d.replay_id == Some(
                    p.snapshot.id,
                )
            },
        }
    }
}

/// Whether `replay_id` names the export in flight.
pub open spec fn is_exporting(s: ReplayServiceState, replay_id: Seq<char>) -> bool {
    s.exporting_id matches Some(e) && e@ == replay_id
}

/// Whether `replay_id` names the pending replay.
pub open spec fn is_pending(s: ReplayServiceState, replay_id: Seq<char>) -> bool {
    s.pending matches Some(p) && p.snapshot.id@ == replay_id
}

/// The end of export `replay_id`. A completion for anything but the export
/// in flight changes nothing. Otherwise the export is over: a failure keeps
/// the pending replay (and its lease) for a retry and records the
/// packager's code; a success releases the pending replay and records the
/// saved one, unless the pending replay is no longer the exported one, in
/// which case the save is dropped with `replay_trigger_failed`.
pub open spec fn finish_post(
    old: ReplayServiceState,
    replay_id: Seq<char>,
    result: Result<SavedReplay, String>,
    new: ReplayServiceState,
) -> bool {
    if !is_exporting(old, replay_id) {
        new == old
    } else {
        match result {
            Err(code) => new == ReplayServiceState {
                exporting_id: None,
                error_code: Some(code),
                ..old
            },
            Ok(saved) => if is_pending(old, replay_id) {
                new == ReplayServiceState {
                    exporting_id: None,
                    pending: None,
                    saved: Some(saved),
                    error_code: None,
                    ..old
                }
            } else {
                &&& new.error_code matches Some(c) && c@ == "replay_trigger_failed"@
                &&& new == ReplayServiceState {
                    exporting_id: None,
                    pending: None,
                    error_code: new.error_code,
                    ..old
                }
            },
        }
    }
}

/// A reveal of saved replay `replay_id`, given whether revealing its file
/// succeeded: it succeeds (clearing the error) only when `replay_id` is the
/// saved replay's id and the reveal worked; otherwise it fails with
/// `export_reveal_failed`.
pub open spec fn reveal_post(
    old: ReplayServiceState,
    replay_id: Seq<char>,
    revealed: bool,
    new: ReplayServiceState,
    r: Result<ReplaySnapshot, String>,
) -> bool {
    if (old.saved matches Some(v) && v.id@ == replay_id) && revealed {
        &&& new == ReplayServiceState { error_code: None, ..old }
        &&& r == Ok::<ReplaySnapshot, String>(snapshot_of(new))
    } else {
        &&& new.error_code matches Some(c) && c@ == "export_reveal_failed"@
        &&& new == ReplayServiceState { error_code: new.error_code, ..old }
        &&& r matches Err(e) && e@ == "export_reveal_failed"@
    }
}

/// Law: while an export is in flight, a trigger is answered from the state
/// alone. Whatever the clock and the store answered, the state is left as
/// it was and the answer is the coalesced dispatch (see
/// [`ReplayServiceState::coalesced_dispatch`]).
pub proof fn lemma_trigger_during_export_reads_neither_clock_nor_store(
    old: ReplayServiceState,
    now: Result<ReplayTime, ()>,
    lease: Result<SegmentLease, ()>,
    capture: EvidenceCaptureFacts,
    new: ReplayServiceState,
    r: Result<ReplayDispatch, String>,
)
    requires
        old.exporting_id is Some,
        trigger_post(old, now, lease, capture, new, r),
    ensures
        new == old,
        r matches Ok(d) && d.snapshot == snapshot_of(old) && d.replay_id is None,
{
}

/// The state a new service starts in: id 1 next, nothing pending, in
/// flight or saved, no error, shortcut not registered.
pub open spec fn initial_state(s: ReplayServiceState) -> bool {
    &&& s.next_id == 1
    &&& s.pending is None
    &&& s.exporting_id is None
    &&& s.saved is None
    &&& s.error_code is None
    &&& s.shortcut.state == crate::replay::model::ShortcutRegistrationState::Unavailable
    &&& s.shortcut.error_code is None
}

fn failure(state: &mut ReplayServiceState, code: &str) -> (r: Result<ReplayDispatch, String>)
    ensures
        failed_post(*old(state), *final(state), r, code@),
{
    let code = record_failure(state, code);
    Err(code)
}

impl ReplayServiceState {
    /// A service with nothing triggered yet (see [`initial_state`]).
    pub fn new() -> (s: ReplayServiceState)
        ensures
            initial_state(s),
    {
        ReplayServiceState {
            next_id: 1,
            pending: None,
            exporting_id: None,
            saved: None,
            error_code: None,
            shortcut: ShortcutRegistrationSnapshot::default(),
        }
    }

    /// The answer to a trigger that needs neither the clock nor the store:
    /// while an export is in flight, a trigger joins it, answering the
    /// current snapshot and no new replay id. `None` when no export is in
    /// flight, so that a trigger has to read both.
    pub fn coalesced_dispatch(&self) -> (r: Option<ReplayDispatch>)
        ensures
            r is Some <==> self.exporting_id is Some,
            r matches Some(d) ==> d.snapshot == snapshot_of(*self) && d.replay_id is None,
    {
        if self.exporting_id.is_some() {
            Some(ReplayDispatch { snapshot: snapshot(self), replay_id: None })
        } else {
            None
        }
    }

    /// Triggers a replay from the clock reading `now` and the store's
    /// `lease` (see [`trigger_post`]).
    pub fn trigger_for_export(
        &mut self,
        now: Result<ReplayTime, ()>,
        lease: Result<SegmentLease, ()>,
        capture: EvidenceCaptureFacts,
    ) -> (r: Result<ReplayDispatch, String>)
        ensures
            trigger_post(*old(self), now, lease, capture, *final(self), r),
    {
        if self.exporting_id.is_some() {
            return Ok(ReplayDispatch { snapshot: snapshot(self), replay_id: None });
        }
        let now = match now {
            Ok(now) => now,
            Err(()) => return failure(self, "replay_trigger_failed"),
        };
        let lease = match lease {
            Ok(lease) => lease,
            Err(()) => return failure(self, "replay_retention_failed"),
        };
        let replay = match pending_snapshot(&lease, self.next_id, now.unix_ms) {
            Some(replay) => replay,
            None => return failure(self, "replay_unavailable"),
        };
        let next_id = match self.next_id.checked_add(1) {
            Some(next_id) => next_id,
            None => return failure(self, "replay_trigger_failed"),
        };
        self.next_id = next_id;
        let replay_id = replay.id.clone();
        self.pending = Some(PendingReplay { lease, snapshot: replay, capture });
        self.exporting_id = Some(replay_id.clone());
        self.saved = None;
        self.error_code = None;
        Ok(ReplayDispatch { snapshot: snapshot(self), replay_id: Some(replay_id) })
    }

    /// A trigger, answering only its snapshot.
    pub fn trigger(
        &mut self,
        now: Result<ReplayTime, ()>,
        lease: Result<SegmentLease, ()>,
        capture: EvidenceCaptureFacts,
    ) -> (r: Result<ReplaySnapshot, String>)
        ensures
            exists|d: Result<ReplayDispatch, String>|
                {
                    &&& trigger_post(*old(self), now, lease, capture, *final(self), d)
                    &&& match d {
                        Ok(x) => r == Ok::<ReplaySnapshot, String>(x.snapshot),
                        Err(e) => r == Err::<ReplaySnapshot, String>(e),
                    }
                },
    {
        let d = self.trigger_for_export(now, lease, capture);
        match d {
            Ok(x) => Ok(x.snapshot),
            Err(e) => Err(e),
        }
    }

    /// Retries the pending replay's export (see [`retry_post`]).
    pub fn retry_for_export(&mut self) -> (r: Result<ReplayDispatch, String>)
        ensures
            retry_post(*old(self), *final(self), r),
    {
        if self.exporting_id.is_some() {
            return Ok(ReplayDispatch { snapshot: snapshot(self), replay_id: None });
        }
        let replay_id = match &self.pending {
            Some(pending) => pending.snapshot.id.clone(),
            None => return failure(self, "replay_unavailable"),
        };
        self.exporting_id = Some(replay_id.clone());
        self.error_code = None;
        Ok(ReplayDispatch { snapshot: snapshot(self), replay_id: Some(replay_id) })
    }

    /// What the packager needs to export `replay_id`: present only while
    /// that export is in flight and it is still the pending replay.
    pub fn package_task(&self, replay_id: &str) -> (r: Option<PackageTask>)
        ensures
            r is Some <==> is_exporting(*self, replay_id@) && is_pending(*self, replay_id@),
            r matches Some(t) ==> {
                &&& t.replay_id@ == replay_id@
                &&& self.pending matches Some(p) && {
                    &&& t.created_at_unix_ms == p.snapshot.created_at_unix_ms
                    &&& t.lease.segments@ == p.lease.segments@
                    &&& t.capture == p.capture
                }
            },
    {
        let exporting = match &self.exporting_id {
            Some(e) => crate::text::same_text(e.as_str(), replay_id),
            None => false,
        };
        if !exporting {
            return None;
        }
        let pending = match &self.pending {
            Some(p) => p,
            None => return None,
        };
        if !crate::text::same_text(pending.snapshot.id.as_str(), replay_id) {
            return None;
        }
        Some(PackageTask {
            replay_id: replay_id.to_owned(),
            created_at_unix_ms: pending.snapshot.created_at_unix_ms,
            lease: pending.lease.duplicate(),
            capture: pending.capture.duplicate(),
        })
    }

    /// Records how export `replay_id` ended and answers the new snapshot
    /// (see [`finish_post`]).
    pub fn finish_export(&mut self, replay_id: &str, result: Result<SavedReplay, String>) -> (r:
        ReplaySnapshot)
        ensures
            finish_post(*old(self), replay_id@, result, *final(self)),
            r == snapshot_of(*final(self)),
    {
        let exporting = match &self.exporting_id {
            Some(e) => crate::text::same_text(e.as_str(), replay_id),
            None => false,
        };
        if !exporting {
            return snapshot(self);
        }
        self.exporting_id = None;
        match result {
            Ok(saved) => {
                let matches = match &self.pending {
                    Some(p) => crate::text::same_text(p.snapshot.id.as_str(), replay_id),
                    None => false,
                };
                self.pending = None;
                if matches {
                    self.saved = Some(saved);
                    self.error_code = None;
                } else {
                    self.error_code = Some("replay_trigger_failed".to_owned());
                }
            },
            Err(code) => {
                self.error_code = Some(code);
            },
        }
        snapshot(self)
    }

    /// The file of saved replay `replay_id`, when it is the saved replay.
    pub fn saved_replay_file(&self, replay_id: &str) -> (r: Option<String>)
        ensures
            r is Some <==> (self.saved matches Some(v) && v.id@ == replay_id@),
            r matches Some(f) ==> (self.saved matches Some(v) && f == v.replay_file),
    {
        match &self.saved {
            Some(v) => if crate::text::same_text(v.id.as_str(), replay_id) {
                Some(v.replay_file.clone())
            } else {
                None
            },
            None => None,
        }
    }

    /// Records the reveal of saved replay `replay_id`, given whether
    /// revealing its file worked (see [`reveal_post`]).
    pub fn reveal_saved(&mut self, replay_id: &str, revealed: bool) -> (r: Result<
        ReplaySnapshot,
        String,
    >)
        ensures
            reveal_post(*old(self), replay_id@, revealed, *final(self), r),
    {
        let target = match &self.saved {
            Some(v) => crate::text::same_text(v.id.as_str(), replay_id),
            None => false,
        };
        if !target || !revealed {
            let code = record_failure(self, "export_reveal_failed");
            return Err(code);
        }
        self.error_code = None;
        Ok(snapshot(self))
    }

    /// Records the global shortcut's registration; nothing else changes.
    pub fn set_shortcut_registration(&mut self, shortcut: ShortcutRegistrationSnapshot)
        ensures
            *final(self) == (ReplayServiceState { shortcut: shortcut, ..*old(self) }),
    {
        self.shortcut = shortcut;
    }
}

/// The bar shows "preparing" exactly while an export is in flight.
pub proof fn lemma_preparing_exactly_while_exporting(s: ReplayServiceState)
    ensures
        (snapshot_of(s).state == ReplayState::Preparing) <==> s.exporting_id is Some,
{
}

/// Triggers coalesce: once a trigger has started an export, a second
/// trigger changes nothing and answers the first replay's pending snapshot.
pub proof fn lemma_triggers_coalesce_into_the_first_replay(
    s0: ReplayServiceState,
    now1: Result<ReplayTime, ()>,
    lease1: Result<SegmentLease, ()>,
    capture1: EvidenceCaptureFacts,
    s1: ReplayServiceState,
    r1: Result<ReplayDispatch, String>,
    now2: Result<ReplayTime, ()>,
    lease2: Result<SegmentLease, ()>,
    capture2: EvidenceCaptureFacts,
    s2: ReplayServiceState,
    r2: Result<ReplayDispatch, String>,
)
    requires
        trigger_post(s0, now1, lease1, capture1, s1, r1),
        r1 matches Ok(d) && d.replay_id is Some,
        trigger_post(s1, now2, lease2, capture2, s2, r2),
    ensures
        s2 == s1,
        r1 matches Ok(d1) && r2 matches Ok(d2) && d2.replay_id is None && d2.snapshot.pending
            == d1.snapshot.pending && d2.snapshot.state == ReplayState::Preparing,
{
}

/// A failed export keeps its replay: the bar shows "failed", the pending
/// replay (and the lease on its segments) is untouched, and a retry
/// re-exports that same replay id.
pub proof fn lemma_failed_export_is_retried_with_the_same_replay(
    s0: ReplayServiceState,
    replay_id: Seq<char>,
    code: String,
    s1: ReplayServiceState,
    s2: ReplayServiceState,
    r2: Result<ReplayDispatch, String>,
)
    requires
        is_exporting(s0, replay_id),
        is_pending(s0, replay_id),
        finish_post(s0, replay_id, Err(code), s1),
        retry_post(s1, s2, r2),
    ensures
        snapshot_of(s1).state == ReplayState::Failed,
        s1.pending == s0.pending,
        r2 matches Ok(d) && (d.replay_id matches Some(x) && x@ == replay_id),
        snapshot_of(s2).state == ReplayState::Preparing,
        s2.pending == s0.pending,
{
}

/// A successful export of the pending replay is shown as saved, under the
/// packager's folder name, and releases the pending replay.
pub proof fn lemma_successful_export_is_saved(
    s0: ReplayServiceState,
    replay_id: Seq<char>,
    saved: SavedReplay,
    s1: ReplayServiceState,
)
    requires
        is_exporting(s0, replay_id),
        is_pending(s0, replay_id),
        finish_post(s0, replay_id, Ok(saved), s1),
    ensures
        snapshot_of(s1).state == ReplayState::Saved,
        snapshot_of(s1).pending is None,
        snapshot_of(s1).saved matches Some(v) && v.id == saved.id && v.display_name
            == saved.display_name,
{
}

/// Replay ids are never reused: the ids of two different id numbers differ.
pub proof fn lemma_replay_ids_are_distinct(a: u64, b: u64)
    requires
        a != b,
    ensures
        replay_id_text(a) != replay_id_text(b),
{
    crate::text::lemma_decimal_digits(a as nat);
    crate::text::lemma_decimal_digits(b as nat);
    if replay_id_text(a) == replay_id_text(b) {
        let p = "replay-"@;
        assert(replay_id_text(a).skip(p.len() as int) =~= crate::text::decimal(a as nat));
        assert(replay_id_text(b).skip(p.len() as int) =~= crate::text::decimal(b as nat));
    }
}

/// Law: when the store cannot lease the retained segments, a trigger with
/// no export in flight records `replay_retention_failed` and answers it;
/// with nothing pending and nothing saved the replay then shows as failed.
pub proof fn lemma_trigger_retention_failure_shows_failed(
    old: ReplayServiceState,
    t: ReplayTime,
    capture: EvidenceCaptureFacts,
    new: ReplayServiceState,
    r: Result<ReplayDispatch, String>,
)
    requires
        trigger_post(old, Ok(t), Err(()), capture, new, r),
        old.exporting_id is None,
    ensures
        r matches Err(e) && e@ == "replay_retention_failed"@,
        new.error_code matches Some(c) && c@ == "replay_retention_failed"@,
        old.pending is None && old.saved is None ==> snapshot_of(new).state == ReplayState::Failed,
{
    reveal_strlit("replay_retention_failed");
    reveal_strlit("replay_unavailable");
    assert("replay_retention_failed"@.len() != "replay_unavailable"@.len());
}

} // verus!
