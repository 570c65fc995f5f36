use encore::capture::EvidenceCaptureFacts;
use encore::packager::model::SavedReplay;
use encore::replay::after_save_choice::{action_for, AfterSaveAction};
use encore::replay::model::{
    shortcut_registration, ReplayState, ShortcutRegistrationSnapshot, ShortcutRegistrationState,
};
use encore::replay::service::ReplayTime;
use encore::replay::state::{snapshot, ReplayServiceState};
use encore::retention::{LeasedSegment, SegmentLease};

fn facts() -> EvidenceCaptureFacts {
    EvidenceCaptureFacts {
        source_kind: None,
        geometry: None,
        capture_state: "recording".into(),
        encoder_state: "running".into(),
        retention_minutes: 5,
        dropped_frames: 0,
        evidence_gap_count: 0,
        retry_count: 0,
    }
}

/// Segments as the rolling store leases them: ordered by evidence start,
/// each covering ten seconds from its start time.
fn lease_of(times: &[(u64, u64)]) -> SegmentLease {
    let mut segments: Vec<LeasedSegment> = times
        .iter()
        .enumerate()
        .map(|(sequence, (time_ms, byte_size))| LeasedSegment {
            path: format!("/tmp/encore-replay-test/segment-{time_ms}-{sequence:06}.mp4"),
            source_id: Some("display:1".into()),
            byte_size: *byte_size,
            evidence_start_unix_ms: *time_ms,
            evidence_end_unix_ms: time_ms + 10_000,
        })
        .collect();
    segments.sort_by_key(|segment| segment.evidence_start_unix_ms);
    SegmentLease { segments }
}

fn at(unix_ms: u64) -> Result<ReplayTime, ()> {
    Ok(ReplayTime { unix_ms })
}

fn saved(id: &str) -> SavedReplay {
    SavedReplay {
        id: id.into(),
        display_name: "Encore Replay 2024-08-30 06.40.00".into(),
        bundle_directory: "/exports/Encore Replay 2024-08-30 06.40.00".into(),
        replay_file: "/exports/Encore Replay 2024-08-30 06.40.00/replay.mp4".into(),
        metadata_file: "/exports/Encore Replay 2024-08-30 06.40.00/metadata.json".into(),
    }
}

#[test]
fn every_persisted_choice_routes_to_its_own_action() {
    assert_eq!(action_for("reveal"), AfterSaveAction::Reveal);
    assert_eq!(action_for("open_editor"), AfterSaveAction::OpenEditor);
    assert_eq!(action_for("preview"), AfterSaveAction::Preview);
    assert_eq!(action_for("nothing"), AfterSaveAction::Nothing);
}

#[test]
fn an_unrecognized_choice_falls_back_to_doing_nothing() {
    for choice in ["", "delete", "Preview", "open editor"] {
        assert_eq!(action_for(choice), AfterSaveAction::Nothing);
    }
}

#[test]
fn empty_retention_returns_the_stable_unavailable_code() {
    let mut service = ReplayServiceState::new();

    assert_eq!(
        service.trigger(at(1_000), Ok(SegmentLease::empty()), facts()),
        Err("replay_unavailable".into())
    );
    assert_eq!(snapshot(&service).state, ReplayState::Unavailable);
    assert_eq!(
        snapshot(&service).error_code.as_deref(),
        Some("replay_unavailable")
    );
}

#[test]
fn shortcut_registration_failure_is_typed_without_blocking_manual_replay() {
    let mut service = ReplayServiceState::new();

    service.set_shortcut_registration(ShortcutRegistrationSnapshot {
        state: ShortcutRegistrationState::Unavailable,
        error_code: Some("shortcut_registration_failed".into()),
    });
    let unavailable = snapshot(&service);
    assert_eq!(
        unavailable.shortcut.state,
        ShortcutRegistrationState::Unavailable
    );
    assert_eq!(
        unavailable.shortcut.error_code.as_deref(),
        Some("shortcut_registration_failed")
    );

    let replay = service
        .trigger(at(1_000), Ok(lease_of(&[(10_000, 16)])), facts())
        .unwrap();
    assert_eq!(replay.state, ReplayState::Preparing);
    assert_eq!(
        replay.shortcut.error_code.as_deref(),
        Some("shortcut_registration_failed")
    );

    service.set_shortcut_registration(ShortcutRegistrationSnapshot {
        state: ShortcutRegistrationState::Registered,
        error_code: None,
    });
    let registered = snapshot(&service);
    assert_eq!(
        registered.shortcut.state,
        ShortcutRegistrationState::Registered
    );
    assert_eq!(registered.shortcut.error_code, None);
}

#[test]
fn trigger_creates_an_ordered_privacy_safe_snapshot() {
    let lease = lease_of(&[(30_000, 4), (10_000, 16), (20_000, 8)]);
    assert_eq!(
        lease
            .segments
            .iter()
            .map(|segment| segment.evidence_start_unix_ms)
            .collect::<Vec<_>>(),
        vec![10_000, 20_000, 30_000]
    );
    let mut service = ReplayServiceState::new();

    let replay = service.trigger(at(1_000), Ok(lease), facts()).unwrap();
    let pending = replay.pending.clone().unwrap();

    assert_eq!(replay.state, ReplayState::Preparing);
    assert_eq!(pending.id, "replay-1");
    assert_eq!(pending.created_at_unix_ms, 1_000);
    assert_eq!(pending.segment_count, 3);
    assert_eq!(pending.total_bytes, 28);
    assert_eq!(pending.evidence_start_unix_ms, 10_000);
    assert_eq!(pending.evidence_end_unix_ms, 40_000);
    let described = format!("{replay:?}");
    assert!(!described.contains("segment-"));
    assert!(!described.contains("display:1"));
    assert!(!described.contains("encore-replay-test"));
}

#[test]
fn triggers_coalesce_while_an_export_is_active() {
    let mut service = ReplayServiceState::new();

    let first = service
        .trigger(at(1_000), Ok(lease_of(&[(10_000, 16)])), facts())
        .unwrap();
    let coalesced = service
        .trigger(at(1_000), Ok(lease_of(&[(10_000, 16)])), facts())
        .unwrap();

    assert_eq!(first.pending.as_ref().unwrap().id, "replay-1");
    assert_eq!(coalesced.pending.as_ref().unwrap().id, "replay-1");
    assert_eq!(coalesced.state, ReplayState::Preparing);
}

#[test]
fn failed_export_preserves_the_lease_and_retry_releases_it() {
    let mut service = ReplayServiceState::new();
    let first_id = service
        .trigger_for_export(at(1_000), Ok(lease_of(&[(0, 16), (10_000, 16), (20_000, 16)])), facts())
        .unwrap()
        .replay_id
        .unwrap();
    let task = service.package_task(&first_id).unwrap();
    assert_eq!(task.lease.segments.len(), 3);

    let failed = service.finish_export(&first_id, Err("export_concat_failed".into()));

    assert_eq!(failed.state, ReplayState::Failed);
    assert_eq!(failed.error_code.as_deref(), Some("export_concat_failed"));
    assert_eq!(failed.pending.unwrap().id, first_id);
    assert_eq!(service.pending.as_ref().unwrap().lease.segments.len(), 3);

    let retry = service.retry_for_export().unwrap();
    assert_eq!(retry.snapshot.state, ReplayState::Preparing);
    assert_eq!(retry.replay_id.as_deref(), Some(first_id.as_str()));
    let saved_snapshot = service.finish_export(&first_id, Ok(saved(&first_id)));
    assert_eq!(saved_snapshot.state, ReplayState::Saved);
    assert_eq!(saved_snapshot.pending, None);
    assert!(service.pending.is_none());
}

#[test]
fn internal_clock_failures_are_stable_and_preserve_pending_evidence() {
    let mut service = ReplayServiceState::new();
    let first = service
        .trigger_for_export(at(1_000), Ok(lease_of(&[(10_000, 16)])), facts())
        .unwrap()
        .replay_id
        .unwrap();
    service.finish_export(&first, Err("export_concat_failed".into()));

    assert_eq!(
        service.trigger(Err(()), Ok(lease_of(&[(10_000, 16)])), facts()),
        Err("replay_trigger_failed".into())
    );
    let current = snapshot(&service);
    assert_eq!(current.pending.unwrap().id, first);
    assert_eq!(current.error_code.as_deref(), Some("replay_trigger_failed"));
}

#[test]
fn finder_reveal_uses_an_opaque_saved_id_without_emitting_paths() {
    let mut service = ReplayServiceState::new();
    let id = service
        .trigger_for_export(at(1_000), Ok(lease_of(&[(10_000, 16)])), facts())
        .unwrap()
        .replay_id
        .unwrap();
    let saved_snapshot = service.finish_export(&id, Ok(saved(&id)));

    assert_eq!(saved_snapshot.state, ReplayState::Saved);
    assert_eq!(
        saved_snapshot.saved.as_ref().map(|saved| saved.id.as_str()),
        Some(id.as_str())
    );
    let described = format!("{saved_snapshot:?}");
    assert!(!described.contains("segment-"));
    assert!(!described.contains("/exports"));

    let file = service.saved_replay_file(&id).unwrap();
    assert!(file.ends_with("/replay.mp4"));
    assert_eq!(service.reveal_saved(&id, true).unwrap().state, ReplayState::Saved);
    assert_eq!(service.saved_replay_file("caller-provided-path"), None);
    assert_eq!(
        service.reveal_saved("caller-provided-path", true),
        Err("export_reveal_failed".into())
    );
}

#[test]
fn a_completion_for_a_stale_export_changes_nothing() {
    let mut service = ReplayServiceState::new();
    service
        .trigger_for_export(at(1_000), Ok(lease_of(&[(10_000, 16)])), facts())
        .unwrap();
    let before = snapshot(&service);

    let after = service.finish_export("replay-9", Ok(saved("replay-9")));

    assert_eq!(after, before);
    assert_eq!(after.state, ReplayState::Preparing);
}

#[test]
fn the_shortcut_failure_code_is_stable() {
    let failed = shortcut_registration(false);
    assert_eq!(failed.state, ShortcutRegistrationState::Unavailable);
    assert_eq!(
        failed.error_code.as_deref(),
        Some("shortcut_registration_failed")
    );
    assert_eq!(
        shortcut_registration(true).state,
        ShortcutRegistrationState::Registered
    );
}

#[test]
fn ids_count_up_across_saves() {
    let mut service = ReplayServiceState::new();
    let first = service
        .trigger_for_export(at(1_000), Ok(lease_of(&[(10_000, 16)])), facts())
        .unwrap()
        .replay_id
        .unwrap();
    service.finish_export(&first, Ok(saved(&first)));
    let second = service
        .trigger_for_export(at(2_000), Ok(lease_of(&[(10_000, 16), (20_000, 8)])), facts())
        .unwrap()
        .replay_id
        .unwrap();
    assert_eq!(first, "replay-1");
    assert_eq!(second, "replay-2");
    assert_eq!(snapshot(&service).saved, None);
}

#[test]
fn a_trigger_during_an_export_is_answered_without_the_clock_or_the_store() {
    let mut service = ReplayServiceState::new();
    assert!(service.coalesced_dispatch().is_none());
    service
        .trigger_for_export(at(1_000), Ok(lease_of(&[(10_000, 16)])), facts())
        .unwrap();
    let dispatch = service.coalesced_dispatch().unwrap();
    assert_eq!(dispatch.replay_id, None);
    assert_eq!(dispatch.snapshot.state, ReplayState::Preparing);
    assert_eq!(dispatch.snapshot.pending.as_ref().unwrap().id, "replay-1");
    let joined = service.trigger_for_export(Err(()), Err(()), facts()).unwrap();
    assert_eq!(joined.replay_id, None);
    assert_eq!(joined.snapshot.pending.unwrap().id, "replay-1");
}
