//! The replay service's state and the snapshot it is rendered as.
use vstd::prelude::*;
use crate::capture::EvidenceCaptureFacts;
use crate::packager::model::SavedReplay;
use crate::replay::model::{
    PendingReplaySnapshot, ReplaySnapshot, ReplayState, SavedReplaySnapshot,
    ShortcutRegistrationSnapshot,
};
use crate::retention::{LeasedSegment, SegmentLease};
use crate::text::decimal;

verus! {

/// The replay service's state.
pub struct ReplayServiceState {
    /// Number of the next replay id.
    pub next_id: u64,
    /// The replay being exported or waiting for a retry, with the lease that
    /// keeps its segments on disk.
    pub pending: Option<PendingReplay>,
    /// Id of the replay whose export is in flight.
    pub exporting_id: Option<String>,
    /// The last replay saved.
    pub saved: Option<SavedReplay>,
    /// Stable code of the last failure, cleared by the next success.
    pub error_code: Option<String>,
    /// Registration of the global replay shortcut.
    pub shortcut: ShortcutRegistrationSnapshot,
}

/// A triggered replay: its snapshot, its segments and the capture facts of
/// the moment it was triggered.
pub struct PendingReplay {
    pub lease: SegmentLease,
    pub snapshot: PendingReplaySnapshot,
    pub capture: EvidenceCaptureFacts,
}

/// `a + b`, saturating at `u64::MAX`.
pub open spec fn sat_add(a: u64, b: u64) -> u64 {
    if a + b > u64::MAX { u64::MAX } else { (a + b) as u64 }
}

/// Sum of the segments' byte sizes, saturating at `u64::MAX`.
pub open spec fn total_bytes_of(s: Seq<LeasedSegment>) -> u64
    decreases s.len(),
{
    if s.len() == 0 {
        0
    } else {
        sat_add(total_bytes_of(s.drop_last()), s.last().byte_size)
    }
}

/// Earliest evidence start among non-empty `s`.
pub open spec fn earliest_start(s: Seq<LeasedSegment>) -> u64
    decreases s.len(),
{
    if s.len() <= 1 {
        s[0].evidence_start_unix_ms
    } else {
        let rest = earliest_start(s.drop_last());
        if s.last().evidence_start_unix_ms < rest { s.last().evidence_start_unix_ms } else { rest }
    }
}

/// Latest evidence end among non-empty `s`.
pub open spec fn latest_end(s: Seq<LeasedSegment>) -> u64
    decreases s.len(),
{
    if s.len() <= 1 {
        s[0].evidence_end_unix_ms
    } else {
        let rest = latest_end(s.drop_last());
        if s.last().evidence_end_unix_ms > rest { s.last().evidence_end_unix_ms } else { rest }
    }
}

/// The text of replay id number `n`: `replay-{n}`.
pub open spec fn replay_id_text(n: u64) -> Seq<char> {
    "replay-"@ + decimal(n as nat)
}

/// Whether `p` describes a replay numbered `next_id`, created at
/// `created_at_unix_ms`, over the non-empty `segments`: its count, total
/// bytes (saturating) and evidence window (earliest start to latest end).
pub open spec fn describes_replay(
    p: PendingReplaySnapshot,
    segments: Seq<LeasedSegment>,
    next_id: u64,
    created_at_unix_ms: u64,
) -> bool {
    &&& p.id@ == replay_id_text(next_id)
    &&& p.created_at_unix_ms == created_at_unix_ms
    &&& p.segment_count == segments.len()
    &&& p.total_bytes == total_bytes_of(segments)
    &&& p.evidence_start_unix_ms == earliest_start(segments)
    &&& p.evidence_end_unix_ms == latest_end(segments)
}

/// The pending snapshot for a lease: `None` when it holds no segment, else
/// the replay it describes (see [`describes_replay`]).
pub fn pending_snapshot(lease: &SegmentLease, next_id: u64, created_at_unix_ms: u64) -> (r: Option<
    PendingReplaySnapshot,
>)
    ensures
        r is None <==> lease.segments@.len() == 0,
        r matches Some(p) ==> describes_replay(p, lease.segments@, next_id, created_at_unix_ms),
{
    let segments = &lease.segments;
    if segments.len() == 0 {
        return None;
    }
    let mut start: u64 = segments[0].evidence_start_unix_ms;
    let mut end: u64 = segments[0].evidence_end_unix_ms;
    let mut total: u64 = segments[0].byte_size;
    let mut i: usize = 1;
    proof {
        let one = segments@.take(1);
        assert(one.drop_last() =~= Seq::<LeasedSegment>::empty());
        assert(total_bytes_of(Seq::<LeasedSegment>::empty()) == 0);
        assert(one.last() == segments@[0]);
    }
    while i < segments.len()
        invariant
            1 <= i <= segments@.len(),
            start == earliest_start(segments@.take(i as int)),
            end == latest_end(segments@.take(i as int)),
            total == total_bytes_of(segments@.take(i as int)),
        decreases segments@.len() - i,
    {
        let s = &segments[i];
        proof {
            let next = segments@.take(i + 1);
            assert(next.drop_last() =~= segments@.take(i as int));
            assert(next.last() == segments@[i as int]);
        }
        if s.evidence_start_unix_ms < start {
            start = s.evidence_start_unix_ms;
        }
        if s.evidence_end_unix_ms > end {
            end = s.evidence_end_unix_ms;
        }
        total = total.saturating_add(s.byte_size);
        i = i + 1;
    }
    proof {
        assert(segments@.take(segments@.len() as int) =~= segments@);
    }
    let id = crate::text::join_text("replay-", crate::text::u64_decimal(next_id).as_str());
    Some(PendingReplaySnapshot {
        id,
        created_at_unix_ms,
        segment_count: segments.len() as u64,
        total_bytes: total,
        evidence_start_unix_ms: start,
        evidence_end_unix_ms: end,
    })
}

/// Records failure `code` as the state's error and returns it.
pub fn record_failure(state: &mut ReplayServiceState, code: &str) -> (r: String)
    ensures
        r@ == code@,
        final(state).error_code == Some(r),
        final(state).next_id == old(state).next_id,
        final(state).pending == old(state).pending,
        final(state).exporting_id == old(state).exporting_id,
        final(state).saved == old(state).saved,
        final(state).shortcut == old(state).shortcut,
{
    let code: String = code.to_owned();
    state.error_code = Some(code.clone());
    code
}

/// How the bar classifies the state: preparing while an export is in
/// flight; unavailable when nothing is pending and the last error is
/// `replay_unavailable`; failed while a pending replay carries an error;
/// saved once a replay is saved; failed on any other error; unavailable
/// otherwise.
pub open spec fn replay_state_of(s: ReplayServiceState) -> ReplayState {
    if s.exporting_id is Some {
        ReplayState::Preparing
    } else if s.pending is None && (s.error_code matches Some(c) && c@ == "replay_unavailable"@) {
        ReplayState::Unavailable
    } else if s.pending is Some && s.error_code is Some {
        ReplayState::Failed
    } else if s.saved is Some {
        ReplayState::Saved
    } else if s.error_code is Some {
        ReplayState::Failed
    } else {
        ReplayState::Unavailable
    }
}

/// The snapshot of a state: its classification, the pending replay's
/// snapshot, the saved replay's id and folder name, the error and the
/// shortcut registration.
pub open spec fn snapshot_of(s: ReplayServiceState) -> ReplaySnapshot {
    ReplaySnapshot {
        state: replay_state_of(s),
        pending: match s.pending {
            Some(p) => Some(p.snapshot),
            None => None,
        },
        saved: match s.saved {
            Some(v) => Some(SavedReplaySnapshot { id: v.id, display_name: v.display_name }),
            None => None,
        },
        error_code: s.error_code,
        shortcut: s.shortcut,
    }
}

/// The snapshot of `state` (see [`snapshot_of`]).
pub fn snapshot(state: &ReplayServiceState) -> (r: ReplaySnapshot)
    ensures
        r == snapshot_of(*state),
{
    let pending = match &state.pending {
        Some(p) => Some(p.snapshot.duplicate()),
        None => None,
    };
    let saved = match &state.saved {
        Some(v) => Some(SavedReplaySnapshot { id: v.id.clone(), display_name: v.display_name.clone() }),
        None => None,
    };
    let unavailable_code = match &state.error_code {
        Some(c) => crate::text::same_text(c.as_str(), "replay_unavailable"),
        None => false,
    };
    let replay_state = if state.exporting_id.is_some() {
        ReplayState::Preparing
    } else if pending.is_none() && unavailable_code {
        ReplayState::Unavailable
    } else if pending.is_some() && state.error_code.is_some() {
        ReplayState::Failed
    } else if saved.is_some() {
        ReplayState::Saved
    } else if state.error_code.is_some() {
        ReplayState::Failed
    } else {
        ReplayState::Unavailable
    };
    ReplaySnapshot {
        state: replay_state,
        pending,
        saved,
        error_code: crate::text::copy_opt_string(&state.error_code),
        shortcut: state.shortcut.duplicate(),
    }
}

/// Law: while an export is in flight the replay shows as preparing,
/// whatever else is recorded.
pub proof fn lemma_snapshot_preparing_while_exporting(s: ReplayServiceState)
    requires
        s.exporting_id is Some,
    ensures
        snapshot_of(s).state == ReplayState::Preparing,
{
}

/// Law: with no export in flight, nothing pending and nothing saved, a
/// recorded failure other than `replay_unavailable` shows as failed, with
/// its code.
pub proof fn lemma_snapshot_failed_without_replay(s: ReplayServiceState)
    requires
        s.exporting_id is None,
        s.pending is None,
        s.saved is None,
        s.error_code matches Some(c) && c@ != "replay_unavailable"@,
    ensures
        snapshot_of(s).state == ReplayState::Failed,
        snapshot_of(s).error_code == s.error_code,
{
}

/// Law: a pending replay whose export failed shows as failed, even when an
/// earlier replay was saved.
pub proof fn lemma_snapshot_failed_while_pending(s: ReplayServiceState)
    requires
        s.exporting_id is None,
        s.pending is Some,
        s.error_code is Some,
    ensures
        snapshot_of(s).state == ReplayState::Failed,
{
}

/// Law: `replay_unavailable` with nothing pending and no export in flight
/// shows as unavailable, even after an earlier save.
pub proof fn lemma_snapshot_unavailable_code(s: ReplayServiceState)
    requires
        s.exporting_id is None,
        s.pending is None,
        s.error_code matches Some(c) && c@ == "replay_unavailable"@,
    ensures
        snapshot_of(s).state == ReplayState::Unavailable,
{
}

/// Law: a saved replay with no failure recorded and no export in flight
/// shows as saved, with its id and folder name.
pub proof fn lemma_snapshot_saved(s: ReplayServiceState)
    requires
        s.exporting_id is None,
        s.error_code is None,
        s.saved is Some,
    ensures
        snapshot_of(s).state == ReplayState::Saved,
        snapshot_of(s).saved matches Some(v) && v.id == s.saved->Some_0.id && v.display_name == s.saved->Some_0.display_name,
{
}

/// Law: with nothing in flight, nothing saved and no failure recorded there
/// is nothing to show: the replay is unavailable.
pub proof fn lemma_snapshot_idle(s: ReplayServiceState)
    requires
        s.exporting_id is None,
        s.error_code is None,
        s.saved is None,
    ensures
        snapshot_of(s).state == ReplayState::Unavailable,
{
}

/// Law: a snapshot shows a state other than preparing only when no export
/// is in flight, and shows failed only when a failure is recorded.
pub proof fn lemma_snapshot_state_needs_cause(s: ReplayServiceState)
    ensures
        snapshot_of(s).state == ReplayState::Preparing <==> s.exporting_id is Some,
        snapshot_of(s).state == ReplayState::Failed ==> s.error_code is Some,
        snapshot_of(s).state == ReplayState::Saved ==> s.saved is Some,
{
}

} // verus!
