use encore::capture::{CaptureGeometry, EvidenceCaptureFacts};
use encore::packager::files::{FsError, LoggedFiles, PackageFileSystem};
use encore::packager::manifest::{escape_path, manifest_text};
use encore::packager::model::{BundleMediaDescription, BundleStreamDescription};
use encore::packager::package::{
    bundle_metadata, display_name, display_name_from, EnvironmentFacts, PackageRequest, ReplayPackager,
};
use encore::packager::publish::{lock_name_for, partial_name_for};
use encore::packager::runner::{resolve_sidecar_path, FfmpegRunner, RunnerFailure};
use encore::packager::workspace::{
    clean_entry, cleanup_action, interrupted_workspace_pid, CleanupAction, LoggedProcesses, ProcessTable,
};
use encore::replay::model::ReplayState;
use encore::replay::service::ReplayTime;
use encore::replay::state::ReplayServiceState;
use encore::retention::{LeasedSegment, SegmentLease};
use std::cell::RefCell;
use std::collections::{BTreeMap, BTreeSet, VecDeque};
use std::rc::Rc;

#[derive(Default)]
struct FsState {
    files: BTreeMap<String, Vec<u8>>,
    dirs: BTreeSet<String>,
    fail_metadata: bool,
    fail_create: bool,
}

/// An in-memory filesystem shared by the packager and the fake runner.
#[derive(Clone, Default)]
struct MemFs(Rc<RefCell<FsState>>);

impl MemFs {
    fn children(&self, dir: &str) -> Vec<String> {
        let state = self.0.borrow();
        let prefix = format!("{dir}/");
        let mut names: BTreeSet<String> = BTreeSet::new();
        for path in state.files.keys().chain(state.dirs.iter()) {
            if let Some(rest) = path.strip_prefix(&prefix) {
                if !rest.is_empty() {
                    names.insert(rest.split('/').next().unwrap().to_string());
                }
            }
        }
        names.into_iter().collect()
    }

    fn read(&self, path: &str) -> Option<Vec<u8>> {
        self.0.borrow().files.get(path).cloned()
    }

    fn holds(&self, path: &str) -> bool {
        let state = self.0.borrow();
        state.files.contains_key(path) || state.dirs.contains(path)
    }

    fn write(&self, path: &str, bytes: &[u8]) {
        self.0.borrow_mut().files.insert(path.to_string(), bytes.to_vec());
    }

    fn mkdir(&self, path: &str) {
        self.0.borrow_mut().dirs.insert(path.to_string());
    }
}

impl PackageFileSystem for MemFs {
    fn create_dir_all(&mut self, path: &str) -> Result<(), FsError> {
        if self.0.borrow().fail_create {
            return Err(FsError::Other);
        }
        self.mkdir(path);
        Ok(())
    }
    fn create_dir(&mut self, path: &str) -> Result<(), FsError> {
        if self.holds(path) {
            return Err(FsError::AlreadyExists);
        }
        self.mkdir(path);
        Ok(())
    }
    fn create_lock(&mut self, path: &str) -> Result<(), FsError> {
        if self.holds(path) {
            return Err(FsError::AlreadyExists);
        }
        self.write(path, b"");
        Ok(())
    }
    fn try_exists(&mut self, path: &str) -> Result<bool, FsError> {
        Ok(self.holds(path))
    }
    fn read_dir(&mut self, path: &str) -> Result<Vec<String>, FsError> {
        if !self.0.borrow().dirs.contains(path) {
            return Err(FsError::Other);
        }
        Ok(self.children(path))
    }
    fn write_synced(&mut self, path: &str, bytes: &[u8]) -> Result<(), FsError> {
        if self.0.borrow().fail_metadata && path.ends_with("/metadata.json") {
            return Err(FsError::Other);
        }
        self.write(path, bytes);
        Ok(())
    }
    fn file_len(&mut self, path: &str) -> Result<u64, FsError> {
        self.read(path).map(|b| b.len() as u64).ok_or(FsError::Other)
    }
    fn sync_file(&mut self, path: &str) -> Result<(), FsError> {
        if self.holds(path) { Ok(()) } else { Err(FsError::Other) }
    }
    fn sync_dir(&mut self, _path: &str) -> Result<(), FsError> {
        Ok(())
    }
    fn rename(&mut self, from: &str, to: &str) -> Result<(), FsError> {
        let mut state = self.0.borrow_mut();
        if state.files.contains_key(to) || state.dirs.contains(to) {
            return Err(FsError::Other);
        }
        if let Some(bytes) = state.files.remove(from) {
            state.files.insert(to.to_string(), bytes);
            return Ok(());
        }
        if !state.dirs.remove(from) {
            return Err(FsError::Other);
        }
        state.dirs.insert(to.to_string());
        let prefix = format!("{from}/");
        let moved: Vec<(String, Vec<u8>)> = state
            .files
            .iter()
            .filter(|(k, _)| k.starts_with(&prefix))
            .map(|(k, v)| (k.clone(), v.clone()))
            .collect();
        for (k, v) in moved {
            state.files.remove(&k);
            state.files.insert(format!("{to}/{}", &k[prefix.len()..]), v);
        }
        Ok(())
    }
    fn remove_dir_all(&mut self, path: &str) -> Result<(), FsError> {
        let mut state = self.0.borrow_mut();
        let prefix = format!("{path}/");
        state.files.retain(|k, _| !k.starts_with(&prefix));
        state.dirs.retain(|k| k != path && !k.starts_with(&prefix));
        Ok(())
    }
    fn remove_file(&mut self, path: &str) -> Result<(), FsError> {
        self.0.borrow_mut().files.remove(path).map(|_| ()).ok_or(FsError::Other)
    }
}

struct FakeRunner {
    fs: MemFs,
    inspections: RefCell<VecDeque<Result<BundleMediaDescription, RunnerFailure>>>,
    concat_result: Result<(), RunnerFailure>,
    manifest: RefCell<Option<String>>,
}

impl FakeRunner {
    fn compatible(fs: &MemFs, segment_count: usize) -> Self {
        FakeRunner {
            fs: fs.clone(),
            inspections: RefCell::new((0..segment_count).map(|_| Ok(h264_media())).collect()),
            concat_result: Ok(()),
            manifest: RefCell::new(None),
        }
    }
}

impl FfmpegRunner for FakeRunner {
    fn inspect(&mut self, _input: &str) -> Result<BundleMediaDescription, RunnerFailure> {
        self.inspections.borrow_mut().pop_front().unwrap()
    }
    fn concat(&mut self, manifest: &str, output: &str) -> Result<(), RunnerFailure> {
        *self.manifest.borrow_mut() = Some(String::from_utf8(self.fs.read(manifest).unwrap()).unwrap());
        self.concat_result?;
        self.fs.write(output, b"golden-h264-mp4");
        Ok(())
    }
}

struct NoProcesses;

impl ProcessTable for NoProcesses {
    fn is_running(&self, _pid: u32) -> bool {
        false
    }
}

fn h264_media() -> BundleMediaDescription {
    BundleMediaDescription {
        streams: vec![BundleStreamDescription {
            kind: "video".into(),
            codec: "h264".into(),
            width: Some(1920),
            height: Some(1080),
            pixel_format: Some("yuv420p".into()),
        }],
    }
}

fn capture_facts() -> EvidenceCaptureFacts {
    EvidenceCaptureFacts {
        source_kind: Some("display".into()),
        geometry: Some(CaptureGeometry { width: 1920, height: 1080 }),
        capture_state: "capturing".into(),
        encoder_state: "encoding".into(),
        retention_minutes: 10,
        dropped_frames: 3,
        evidence_gap_count: 2,
        retry_count: 1,
    }
}

fn environment() -> EnvironmentFacts {
    EnvironmentFacts {
        app_version: "0.1.0".into(),
        os_name: "macos".into(),
        os_version: "15.0".into(),
        architecture: "aarch64".into(),
    }
}

fn lease_with(fs: &MemFs, source_ids: &[Option<&str>]) -> SegmentLease {
    fs.mkdir("/segments");
    let segments = source_ids
        .iter()
        .enumerate()
        .map(|(index, source)| {
            let time = 10_000 + index as u64 * 10_000;
            let path = format!("/segments/segment-{time}-{index:06}.mp4");
            fs.write(&path, b"segment bytes");
            LeasedSegment {
                path,
                source_id: source.map(|s| s.to_string()),
                byte_size: 13,
                evidence_start_unix_ms: time,
                evidence_end_unix_ms: time + 10_000,
            }
        })
        .collect();
    SegmentLease { segments }
}

fn packager(fs: &MemFs, runner: FakeRunner) -> ReplayPackager<FakeRunner, MemFs> {
    fs.mkdir("/dest");
    ReplayPackager::with_files(runner, fs.clone(), 4242)
}

#[test]
fn compatible_segments_publish_one_complete_schema_v1_bundle() {
    let fs = MemFs::default();
    let lease = lease_with(&fs, &[Some("display:1"), Some("display:1")]);
    let capture = capture_facts();
    let request = PackageRequest {
        replay_id: "replay-19",
        created_at_unix_ms: 1_725_000_000_000,
        lease: &lease,
        capture: &capture,
    };
    let metadata = bundle_metadata(&request, &environment()).unwrap();
    assert_eq!(metadata.schema_version, 1);
    assert_eq!(metadata.replay_id, "replay-19");
    assert_eq!(metadata.evidence.segment_count, 2);
    assert_eq!(metadata.evidence.input_bytes, 26);
    assert_eq!(metadata.evidence.start_unix_ms, 10_000);
    assert_eq!(metadata.evidence.end_unix_ms, 30_000);
    assert_eq!(metadata.video_filename, "replay.mp4");
    assert_eq!(metadata.capture.encoder.codec, "h264");
    assert_eq!(metadata.capture.encoder.keyframe_interval_seconds, 1);
    assert_eq!(metadata.counters.dropped_frames, 3);

    let mut packager = packager(&fs, FakeRunner::compatible(&fs, 2));
    let saved = packager.package(&mut LoggedProcesses::new(NoProcesses), "/dest", &request, b"{\"schemaVersion\":1}").unwrap();

    assert_eq!(fs.read(&saved.replay_file).unwrap(), b"golden-h264-mp4");
    assert!(fs.read(&saved.metadata_file).is_some());
    assert_eq!(fs.children(&saved.bundle_directory).len(), 2);
    assert_eq!(saved.bundle_directory, format!("/dest/{}", saved.display_name));
    assert_eq!(saved.id, "replay-19");
    let manifest = packager.runner.inner.manifest.borrow().clone().unwrap();
    assert!(manifest.contains("segment-10000-000000.mp4"));
    assert!(manifest.contains("segment-20000-000001.mp4"));
    assert_eq!(fs.children("/dest").len(), 1);
    assert!(fs.holds("/segments/segment-10000-000000.mp4"));
}

#[test]
fn source_or_media_mismatch_fails_without_consuming_the_caller_lease() {
    let fs = MemFs::default();
    let lease = lease_with(&fs, &[Some("display:1"), Some("display:2")]);
    let capture = capture_facts();
    let request = PackageRequest {
        replay_id: "replay-20",
        created_at_unix_ms: 1_725_000_000_000,
        lease: &lease,
        capture: &capture,
    };
    let mut packager = packager(&fs, FakeRunner::compatible(&fs, 2));
    assert_eq!(
        packager.package(&mut LoggedProcesses::new(NoProcesses), "/dest", &request, b"{}"),
        Err("export_incompatible_segments".into())
    );
    assert!(fs.holds("/segments/segment-10000-000000.mp4"));
    assert_eq!(fs.children("/dest").len(), 0);
}

#[test]
fn recovered_segments_with_unknown_source_ids_package_when_media_matches() {
    let fs = MemFs::default();
    let lease = lease_with(&fs, &[None, None]);
    let capture = capture_facts();
    let request = PackageRequest {
        replay_id: "recovered-replay",
        created_at_unix_ms: 1_725_000_000_000,
        lease: &lease,
        capture: &capture,
    };
    let mut packager = packager(&fs, FakeRunner::compatible(&fs, 2));
    let saved = packager.package(&mut LoggedProcesses::new(NoProcesses), "/dest", &request, b"{}").unwrap();
    assert!(fs.read(&saved.replay_file).is_some());
}

#[test]
fn codec_geometry_or_stream_layout_mismatch_fails_before_concat() {
    let fs = MemFs::default();
    let lease = lease_with(&fs, &[Some("display:1"), Some("display:1")]);
    let capture = capture_facts();
    let mut changed = h264_media();
    changed.streams[0].width = Some(1280);
    let runner = FakeRunner {
        fs: fs.clone(),
        inspections: RefCell::new(VecDeque::from([Ok(h264_media()), Ok(changed)])),
        concat_result: Ok(()),
        manifest: RefCell::new(None),
    };
    let request = PackageRequest {
        replay_id: "replay-20-media",
        created_at_unix_ms: 1_725_000_000_000,
        lease: &lease,
        capture: &capture,
    };
    let mut packager = packager(&fs, runner);
    assert_eq!(
        packager.package(&mut LoggedProcesses::new(NoProcesses), "/dest", &request, b"{}"),
        Err("export_incompatible_segments".into())
    );
    assert!(packager.runner.inner.manifest.borrow().is_none());
    assert_eq!(fs.children("/dest").len(), 0);
}

#[test]
fn sidecar_failures_are_typed_and_leave_no_partial_bundle() {
    let fs = MemFs::default();
    let lease = lease_with(&fs, &[Some("display:1")]);
    let capture = capture_facts();
    let request = PackageRequest {
        replay_id: "replay-21",
        created_at_unix_ms: 1_725_000_000_000,
        lease: &lease,
        capture: &capture,
    };
    let missing = FakeRunner {
        fs: fs.clone(),
        inspections: RefCell::new(VecDeque::from([Err(RunnerFailure::Unavailable)])),
        concat_result: Ok(()),
        manifest: RefCell::new(None),
    };
    assert_eq!(
        packager(&fs, missing).package(&mut LoggedProcesses::new(NoProcesses), "/dest", &request, b"{}"),
        Err("export_ffmpeg_unavailable".into())
    );
    let failed_concat = FakeRunner {
        fs: fs.clone(),
        inspections: RefCell::new(VecDeque::from([Ok(h264_media())])),
        concat_result: Err(RunnerFailure::Failed),
        manifest: RefCell::new(None),
    };
    assert_eq!(
        packager(&fs, failed_concat).package(&mut LoggedProcesses::new(NoProcesses), "/dest", &request, b"{}"),
        Err("export_concat_failed".into())
    );
    assert_eq!(fs.children("/dest").len(), 0);
}

#[test]
fn collisions_get_a_suffix_without_overwriting_a_completed_bundle() {
    let fs = MemFs::default();
    let lease = lease_with(&fs, &[Some("display:1")]);
    let capture = capture_facts();
    let created = 1_725_000_000_000;
    let existing = format!("/dest/{}", display_name(created, 0).unwrap());
    fs.mkdir(&existing);
    fs.write(&format!("{existing}/keep.txt"), b"existing evidence");
    let request = PackageRequest {
        replay_id: "replay-22",
        created_at_unix_ms: created,
        lease: &lease,
        capture: &capture,
    };
    let mut packager = packager(&fs, FakeRunner::compatible(&fs, 1));
    let saved = packager.package(&mut LoggedProcesses::new(NoProcesses), "/dest", &request, b"{}").unwrap();
    assert_eq!(saved.display_name, display_name(created, 1).unwrap());
    assert_eq!(fs.read(&format!("{existing}/keep.txt")).unwrap(), b"existing evidence");
}

#[test]
fn injected_metadata_write_failure_cleans_the_hidden_workspace() {
    let fs = MemFs::default();
    fs.0.borrow_mut().fail_metadata = true;
    let lease = lease_with(&fs, &[Some("display:1")]);
    let capture = capture_facts();
    let request = PackageRequest {
        replay_id: "replay-23",
        created_at_unix_ms: 1_725_000_000_000,
        lease: &lease,
        capture: &capture,
    };
    let mut packager = packager(&fs, FakeRunner::compatible(&fs, 1));
    assert_eq!(
        packager.package(&mut LoggedProcesses::new(NoProcesses), "/dest", &request, b"{}"),
        Err("export_metadata_failed".into())
    );
    assert_eq!(fs.children("/dest").len(), 0);
}

#[test]
fn next_export_removes_only_dead_generated_partial_workspaces_and_locks() {
    let fs = MemFs::default();
    fs.mkdir("/dest");
    let stale = "/dest/.Encore Replay 2026-08-12 10.20.30.partial-999999-1";
    let stale_lock = "/dest/.Encore Replay 2026-08-12 10.20.30.lock-999999";
    let unrelated = "/dest/.Encore Replay notes.lock-999999";
    fs.mkdir(stale);
    fs.write(&format!("{stale}/replay.mp4"), b"partial");
    fs.write(stale_lock, b"lock");
    fs.write(unrelated, b"keep");
    let lease = lease_with(&fs, &[Some("display:1")]);
    let capture = capture_facts();
    let request = PackageRequest {
        replay_id: "cleanup-replay",
        created_at_unix_ms: 1_725_000_000_000,
        lease: &lease,
        capture: &capture,
    };
    let mut packager = packager(&fs, FakeRunner::compatible(&fs, 1));
    packager.package(&mut LoggedProcesses::new(NoProcesses), "/dest", &request, b"{}").unwrap();
    assert!(!fs.holds(stale));
    assert!(!fs.holds(stale_lock));
    assert_eq!(fs.read(unrelated).unwrap(), b"keep");
}

#[test]
fn an_empty_lease_has_no_metadata_and_is_not_packaged() {
    let fs = MemFs::default();
    let lease = SegmentLease { segments: Vec::new() };
    let capture = capture_facts();
    let request = PackageRequest { replay_id: "r", created_at_unix_ms: 1, lease: &lease, capture: &capture };
    assert_eq!(bundle_metadata(&request, &environment()), Err("export_incompatible_segments".into()));
    let mut packager = packager(&fs, FakeRunner::compatible(&fs, 0));
    assert_eq!(
        packager.package(&mut LoggedProcesses::new(NoProcesses), "/dest", &request, b"{}"),
        Err("export_incompatible_segments".into())
    );
}

#[test]
fn cleanup_accepts_only_generated_workspace_names() {
    assert_eq!(interrupted_workspace_pid(".Encore Replay 2026-08-12 10.20.30.partial-42-9"), Some(42));
    assert_eq!(interrupted_workspace_pid(".Encore Replay 2026-08-12 10.20.30 2.lock-42"), Some(42));
    assert_eq!(interrupted_workspace_pid(".Encore Replay notes.lock-42"), None);
    assert_eq!(interrupted_workspace_pid(".Encore Replay 2026-08-12 10.20.30.lock"), None);
}

#[test]
fn a_lock_never_carries_a_nonce_and_a_live_process_keeps_its_entries() {
    assert_eq!(interrupted_workspace_pid(".Encore Replay 2026-08-12 10.20.30.lock-42-9"), None);
    assert_eq!(
        cleanup_action(".Encore Replay 2026-08-12 10.20.30.partial-42-9", false),
        CleanupAction::RemoveWorkspace
    );
    assert_eq!(cleanup_action(".Encore Replay 2026-08-12 10.20.30.lock-42", false), CleanupAction::RemoveLock);
    assert_eq!(cleanup_action(".Encore Replay 2026-08-12 10.20.30.lock-42", true), CleanupAction::Keep);
    assert_eq!(cleanup_action("Encore Replay 2026-08-12 10.20.30", false), CleanupAction::Keep);
}

#[test]
fn generated_workspace_and_lock_names_are_recognised_by_cleanup() {
    let name = display_name_from("2026-08-12 10.20.30", 3);
    assert_eq!(name, "Encore Replay 2026-08-12 10.20.30 3");
    let lock = lock_name_for(&name, 77);
    let partial = partial_name_for(&name, 77, 5);
    assert_eq!(lock, ".Encore Replay 2026-08-12 10.20.30 3.lock-77");
    assert_eq!(partial, ".Encore Replay 2026-08-12 10.20.30 3.partial-77-5");
    assert_eq!(interrupted_workspace_pid(&lock), Some(77));
    assert_eq!(interrupted_workspace_pid(&partial), Some(77));
}

#[test]
fn manifest_entries_quote_backslashes_and_single_quotes() {
    assert_eq!(escape_path("/a/it's\\x"), "/a/it'\\\\''s\\\\x");
    assert_eq!(
        manifest_text(&vec!["/s/one.mp4".to_string(), "/s/two.mp4".to_string()]),
        "file '/s/one.mp4'\nfile '/s/two.mp4'\n"
    );
}

#[test]
fn packaged_macos_executable_resolves_to_its_bundled_sidecar() {
    let executable = "/Applications/Encore.app/Contents/MacOS/Encore";
    assert_eq!(
        resolve_sidecar_path(executable, "ffmpeg", Some("aarch64-apple-darwin"), "/repo").unwrap(),
        "/Applications/Encore.app/Contents/MacOS/ffmpeg"
    );
    assert_eq!(
        resolve_sidecar_path(executable, "ffprobe", Some("aarch64-apple-darwin"), "/repo").unwrap(),
        "/Applications/Encore.app/Contents/MacOS/ffprobe"
    );
}

#[test]
fn development_executable_keeps_the_target_specific_source_sidecar() {
    let target = "aarch64-apple-darwin";
    let manifest_dir = "/repo/src-tauri";
    let path = resolve_sidecar_path("/repo/target/debug/encore", "ffmpeg", Some(target), manifest_dir).unwrap();
    assert_eq!(path, format!("{manifest_dir}/binaries/ffmpeg-{target}"));
}

#[test]
fn sidecar_names_are_fixed() {
    assert_eq!(
        resolve_sidecar_path("/repo/target/debug/encore", "../../open", Some("x86_64-apple-darwin"), "/repo"),
        Err("export_ffmpeg_unavailable".into())
    );
}

fn export_through_state(fs: &MemFs, lease: SegmentLease) -> encore::replay::model::ReplaySnapshot {
    let mut state = ReplayServiceState::new();
    let dispatch = state
        .trigger_for_export(Ok(ReplayTime { unix_ms: 1_000 }), Ok(lease), capture_facts())
        .unwrap();
    let id = dispatch.replay_id.unwrap();
    let task = state.package_task(&id).unwrap();
    let request = PackageRequest {
        replay_id: &task.replay_id,
        created_at_unix_ms: task.created_at_unix_ms,
        lease: &task.lease,
        capture: &task.capture,
    };
    let mut packager = ReplayPackager::with_files(FakeRunner::compatible(fs, 1), fs.clone(), 9);
    let result = packager.package(&mut LoggedProcesses::new(NoProcesses), "/dest/bundles", &request, b"{}");
    state.finish_export(&id, result)
}

#[test]
fn unusable_destination_fails_the_save_with_the_actionable_error_code() {
    let fs = MemFs::default();
    let lease = lease_with(&fs, &[Some("display:1")]);
    fs.0.borrow_mut().fail_create = true;
    let result = export_through_state(&fs, lease);
    assert_eq!(result.state, ReplayState::Failed);
    assert_eq!(result.error_code.as_deref(), Some("export_destination_unavailable"));
}

#[test]
fn a_packaged_export_is_saved_under_its_display_name() {
    let fs = MemFs::default();
    let lease = lease_with(&fs, &[Some("display:1")]);
    let result = export_through_state(&fs, lease);
    assert_eq!(result.state, ReplayState::Saved);
    let saved = result.saved.unwrap();
    assert_eq!(saved.id, "replay-1");
    assert!(saved.display_name.starts_with("Encore Replay "));
}

#[test]
fn clean_entry_removes_only_what_a_dead_process_left() {
    let mut fs = MemFs::default();
    let workspace = ".Encore Replay 2026-08-12 10.20.30.partial-999999-1";
    let lock = ".Encore Replay 2026-08-12 10.20.30.lock-999999";
    fs.mkdir(&format!("/dest/{workspace}"));
    fs.write(&format!("/dest/{lock}"), b"");
    fs.write("/dest/.Encore Replay notes.lock-999999", b"keep");
    assert_eq!(clean_entry(&mut LoggedFiles::new(fs.clone()), "/dest", workspace, 1, true), Ok(()));
    assert!(fs.holds(&format!("/dest/{workspace}")));
    assert_eq!(clean_entry(&mut LoggedFiles::new(fs.clone()), "/dest", lock, 999999, false), Ok(()));
    assert!(fs.holds(&format!("/dest/{lock}")));
    assert_eq!(clean_entry(&mut LoggedFiles::new(fs.clone()), "/dest", workspace, 1, false), Ok(()));
    assert!(!fs.holds(&format!("/dest/{workspace}")));
    assert_eq!(clean_entry(&mut LoggedFiles::new(fs.clone()), "/dest", lock, 1, false), Ok(()));
    assert!(!fs.holds(&format!("/dest/{lock}")));
    assert_eq!(clean_entry(&mut LoggedFiles::new(fs.clone()), "/dest", ".Encore Replay notes.lock-999999", 1, false), Ok(()));
    assert_eq!(fs.read("/dest/.Encore Replay notes.lock-999999"), Some(b"keep".to_vec()));
}
