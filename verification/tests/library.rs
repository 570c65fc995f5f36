use chrono::{Datelike, Local, NaiveDate, TimeZone};
use encore::library::actions::{delete_bundle, desktop_result, open_replay_file, reveal_bundle, LoggedTrash, TrashMover};
use encore::library::group::group_by_day;
use encore::library::guard::{resolve_bundle_dir, resolve_replay_file};
use encore::library::index;
use encore::library::scan::{duration_from_metadata, scan, scan_bundle, BundleFolder, ScannedEntry};
use encore::library::thumbnail::{
    cache_key, failed_marker_path, hex16_text, jpeg_path, thumbnail_bytes, LoggedExtractor, ThumbnailExtractor,
    ThumbnailFailure,
};
use encore::library::{LibraryDisk, LoggedDisk};
use std::cell::{Cell, RefCell};
use std::collections::BTreeMap;

/// An in-memory disk: files by path, directories by path.
#[derive(Default)]
struct MemoryDisk {
    files: RefCell<BTreeMap<String, (Vec<u8>, u64)>>,
    dirs: RefCell<Vec<String>>,
    touched: Cell<u32>,
}

impl MemoryDisk {
    fn with_bundle(root: &str, name: &str, video: &[u8], metadata: Option<&str>) -> MemoryDisk {
        let disk = MemoryDisk::default();
        disk.add_bundle(root, name, video, metadata);
        disk
    }

    fn add_bundle(&self, root: &str, name: &str, video: &[u8], metadata: Option<&str>) {
        let bundle = format!("{root}/{name}");
        self.dirs.borrow_mut().push(bundle.clone());
        self.files
            .borrow_mut()
            .insert(format!("{bundle}/replay.mp4"), (video.to_vec(), 1_723_536_000_000));
        if let Some(m) = metadata {
            self.files
                .borrow_mut()
                .insert(format!("{bundle}/metadata.json"), (m.as_bytes().to_vec(), 0));
        }
    }

    fn touch(&self) {
        self.touched.set(self.touched.get() + 1);
    }
}

impl LibraryDisk for MemoryDisk {
    fn is_file(&self, path: &str) -> bool {
        self.touch();
        self.files.borrow().contains_key(path)
    }
    fn is_dir(&self, path: &str) -> bool {
        self.touch();
        self.dirs.borrow().iter().any(|d| d == path)
    }
    fn file_stamp(&self, path: &str) -> Option<(u64, u64)> {
        self.touch();
        if let Some((bytes, modified)) = self.files.borrow().get(path) {
            return Some((bytes.len() as u64, *modified));
        }
        if self.dirs.borrow().iter().any(|d| d == path) {
            return Some((0, 1_700_000_000_000));
        }
        None
    }
    fn read_file(&self, path: &str) -> Option<Vec<u8>> {
        self.touch();
        self.files.borrow().get(path).map(|(b, _)| b.clone())
    }
    fn write_file(&self, path: &str, bytes: &[u8]) -> bool {
        self.touch();
        self.files.borrow_mut().insert(path.to_string(), (bytes.to_vec(), 0));
        true
    }
    fn create_dir_all(&self, path: &str) -> bool {
        self.touch();
        self.dirs.borrow_mut().push(path.to_string());
        true
    }
    fn remove_file(&self, path: &str) -> bool {
        self.touch();
        self.files.borrow_mut().remove(path).is_some()
    }
}

impl LibraryDisk for &MemoryDisk {
    fn is_file(&self, path: &str) -> bool {
        (**self).is_file(path)
    }
    fn is_dir(&self, path: &str) -> bool {
        (**self).is_dir(path)
    }
    fn file_stamp(&self, path: &str) -> Option<(u64, u64)> {
        (**self).file_stamp(path)
    }
    fn read_file(&self, path: &str) -> Option<Vec<u8>> {
        (**self).read_file(path)
    }
    fn write_file(&self, path: &str, bytes: &[u8]) -> bool {
        (**self).write_file(path, bytes)
    }
    fn create_dir_all(&self, path: &str) -> bool {
        (**self).create_dir_all(path)
    }
    fn remove_file(&self, path: &str) -> bool {
        (**self).remove_file(path)
    }
}

/// Moves a bundle out of the disk, recording what it was asked to move.
struct RecordingMover<'a> {
    disk: &'a MemoryDisk,
    calls: RefCell<Vec<String>>,
}

impl TrashMover for RecordingMover<'_> {
    fn move_to_trash(&mut self, path: &str) -> Result<(), String> {
        self.calls.borrow_mut().push(path.to_string());
        self.disk.dirs.borrow_mut().retain(|d| d != path);
        let prefix = format!("{path}/");
        self.disk.files.borrow_mut().retain(|f, _| !f.starts_with(&prefix));
        Ok(())
    }
}

struct FakeExtractor<'a> {
    succeeds: bool,
    calls: Cell<u32>,
    disk: &'a MemoryDisk,
}

impl ThumbnailExtractor for FakeExtractor<'_> {
    fn extract(&mut self, _input: &str, output: &str) -> Result<(), ThumbnailFailure> {
        self.calls.set(self.calls.get() + 1);
        if self.succeeds {
            self.disk
                .files
                .borrow_mut()
                .insert(output.to_string(), (b"fake-jpeg-bytes".to_vec(), 0));
            Ok(())
        } else {
            Err(ThumbnailFailure::Unavailable)
        }
    }
}

const ESCAPING_IDS: [&str; 7] = ["..", ".", "", "../escape", "a/b", "a\\b", "/etc/passwd"];

#[test]
fn resolves_a_plain_id_inside_the_destination() {
    let resolved = resolve_replay_file("/tmp/encore-exports", "Encore Replay 2026-08-13 09.00.00").unwrap();
    assert_eq!(resolved, "/tmp/encore-exports/Encore Replay 2026-08-13 09.00.00/replay.mp4");
}

#[test]
fn guard_rejects_ids_that_could_escape_the_destination() {
    for id in ESCAPING_IDS {
        assert!(
            resolve_replay_file("/tmp/encore-exports", id).is_err(),
            "expected {id:?} to be rejected"
        );
    }
}

#[test]
fn bundle_dir_of_a_plain_id_joins_the_destination() {
    assert_eq!(resolve_bundle_dir("/exports/", "A").unwrap(), "/exports/A");
    assert_eq!(resolve_bundle_dir("/exports", "..").unwrap_err(), "library_invalid_id");
}

#[test]
fn reveal_rejects_ids_that_could_escape_the_destination() {
    let disk = MemoryDisk::default();
    for id in ESCAPING_IDS {
        assert_eq!(
            reveal_bundle(&mut LoggedDisk::new(&disk), "/tmp/encore-exports-does-not-exist", id),
            Err("library_invalid_id".to_string()),
            "expected {id:?} to be rejected"
        );
    }
    assert_eq!(disk.touched.get(), 0);
}

#[test]
fn reports_a_missing_bundle_instead_of_revealing_nothing() {
    let disk = MemoryDisk::default();
    assert_eq!(
        reveal_bundle(&mut LoggedDisk::new(&disk), "/tmp/encore-reveal", "Encore Replay 2026-08-14 10.00.00"),
        Err("library_replay_missing".to_string())
    );
}

#[test]
fn reveal_selects_the_replay_file_and_reports_a_finder_failure() {
    let disk = MemoryDisk::with_bundle("/d", "A", b"video", None);
    assert_eq!(reveal_bundle(&mut LoggedDisk::new(&disk), "/d", "A"), Ok("/d/A/replay.mp4".to_string()));
    assert_eq!(desktop_result(true, "library_reveal_failed"), Ok(()));
    assert_eq!(
        desktop_result(false, "library_reveal_failed"),
        Err("library_reveal_failed".to_string())
    );
}

#[test]
fn open_replay_file_rejects_traversal_before_touching_disk() {
    let disk = MemoryDisk::default();
    let result = open_replay_file(&mut LoggedDisk::new(&disk), "/tmp/root", "../escape");
    assert_eq!(result, Err("library_invalid_id".to_string()));
    assert_eq!(disk.touched.get(), 0);
}

#[test]
fn open_replay_file_reports_a_missing_video_without_a_crash() {
    let disk = MemoryDisk::default();
    disk.dirs.borrow_mut().push("/root/Encore Replay 2026-08-13 09.00.00".to_string());
    let result = open_replay_file(&mut LoggedDisk::new(&disk), "/root", "Encore Replay 2026-08-13 09.00.00");
    assert_eq!(result, Err("library_replay_missing".to_string()));
}

#[test]
fn open_replay_file_names_the_video_and_reports_a_player_that_cannot_start() {
    let disk = MemoryDisk::with_bundle("/root", "A", b"v", None);
    assert_eq!(open_replay_file(&mut LoggedDisk::new(&disk), "/root", "A"), Ok("/root/A/replay.mp4".to_string()));
    assert_eq!(
        desktop_result(false, "library_open_failed"),
        Err("library_open_failed".to_string())
    );
}

#[test]
fn rejects_traversal_ids_without_calling_the_mover() {
    let disk = MemoryDisk::default();
    let mut mover = LoggedTrash::new(RecordingMover { disk: &disk, calls: RefCell::new(Vec::new()) });
    let result = delete_bundle(&mut LoggedDisk::new(&disk), "/root", None, "../escape", &mut mover);
    assert_eq!(result, Err("library_invalid_id".to_string()));
    assert!(mover.inner.calls.borrow().is_empty());
}

#[test]
fn reports_a_missing_bundle_without_calling_the_mover() {
    let disk = MemoryDisk::default();
    let mut mover = LoggedTrash::new(RecordingMover { disk: &disk, calls: RefCell::new(Vec::new()) });
    let result = delete_bundle(&mut LoggedDisk::new(&disk), "/root", None, "nonexistent", &mut mover);
    assert_eq!(result, Err("library_replay_missing".to_string()));
    assert!(mover.inner.calls.borrow().is_empty());
}

#[test]
fn moves_an_existing_bundle_out_of_the_destination() {
    let name = "Encore Replay 2026-08-13 09.00.00";
    let disk = MemoryDisk::with_bundle("/root", name, b"video-bytes", Some("{}"));
    let mut mover = LoggedTrash::new(RecordingMover { disk: &disk, calls: RefCell::new(Vec::new()) });
    let result = delete_bundle(&mut LoggedDisk::new(&disk), "/root", None, name, &mut mover);
    assert!(result.is_ok());
    assert!(!disk.is_dir(&format!("/root/{name}")));
    assert_eq!(mover.inner.calls.borrow().len(), 1);
    assert_eq!(mover.inner.calls.borrow()[0], format!("/root/{name}"));
}

#[test]
fn forgets_the_thumbnail_cache_entry_on_success() {
    let name = "Encore Replay 2026-08-13 09.00.00";
    let disk = MemoryDisk::with_bundle("/root", name, b"video-bytes", Some("{}"));
    let mut extractor = LoggedExtractor::new(FakeExtractor { succeeds: true, calls: Cell::new(0), disk: &disk });
    let jpeg = thumbnail_bytes(&mut LoggedDisk::new(&disk), "/root", "/cache", name, &mut extractor);
    assert!(jpeg.is_ok());
    let mut mover = LoggedTrash::new(RecordingMover { disk: &disk, calls: RefCell::new(Vec::new()) });
    let result = delete_bundle(&mut LoggedDisk::new(&disk), "/root", Some("/cache"), name, &mut mover);
    assert!(result.is_ok());
    let remaining: Vec<String> = disk
        .files
        .borrow()
        .keys()
        .filter(|k| k.starts_with("/cache/thumbnails/"))
        .cloned()
        .collect();
    assert!(remaining.is_empty(), "expected the cache entry to be forgotten, found {remaining:?}");
}

#[test]
fn cache_key_is_stable_for_the_same_file_and_changes_when_mtime_moves() {
    let replay = "/exports/Encore Replay/replay.mp4";
    let first = cache_key(replay, 1024, 1_723_536_000_000);
    let repeat = cache_key(replay, 1024, 1_723_536_000_000);
    let touched = cache_key(replay, 1024, 1_723_536_100_000);
    assert_eq!(first, repeat);
    assert_ne!(first, touched);
}

#[test]
fn cache_key_changes_when_size_moves_even_with_the_same_mtime() {
    let replay = "/exports/Encore Replay/replay.mp4";
    let smaller = cache_key(replay, 1024, 1_723_536_000_000);
    let larger = cache_key(replay, 2048, 1_723_536_000_000);
    assert_ne!(smaller, larger);
}

#[test]
fn cache_keys_are_sixteen_lowercase_hex_digits() {
    let key = cache_key("/x/replay.mp4", 1, 2);
    assert_eq!(key.len(), 16);
    assert!(key.chars().all(|c| c.is_ascii_hexdigit() && !c.is_ascii_uppercase()));
    assert_eq!(hex16_text(0xdead_beef), "00000000deadbeef");
    assert_eq!(hex16_text(u64::MAX), "ffffffffffffffff");
}

#[test]
fn cache_paths_live_under_the_thumbnail_directory() {
    assert_eq!(jpeg_path("/cache", "abc"), "/cache/thumbnails/abc.jpg");
    assert_eq!(failed_marker_path("/cache", "abc"), "/cache/thumbnails/abc.failed");
}

#[test]
fn generates_on_miss_and_reads_from_cache_on_a_second_call() {
    let disk = MemoryDisk::with_bundle("/dest", "Encore Replay A", b"video-bytes", None);
    let mut extractor = LoggedExtractor::new(FakeExtractor { succeeds: true, calls: Cell::new(0), disk: &disk });
    let first = thumbnail_bytes(&mut LoggedDisk::new(&disk), "/dest", "/cache", "Encore Replay A", &mut extractor).unwrap();
    let second = thumbnail_bytes(&mut LoggedDisk::new(&disk), "/dest", "/cache", "Encore Replay A", &mut extractor).unwrap();
    assert_eq!(first, b"fake-jpeg-bytes".to_vec());
    assert_eq!(second, first);
    assert_eq!(extractor.inner.calls.get(), 1, "second call should hit the cache, not re-extract");
}

#[test]
fn a_failed_extraction_writes_a_marker_and_never_retries_for_that_key() {
    let disk = MemoryDisk::with_bundle("/dest", "Encore Replay B", b"corrupt-video", None);
    let mut extractor = LoggedExtractor::new(FakeExtractor { succeeds: false, calls: Cell::new(0), disk: &disk });
    let first = thumbnail_bytes(&mut LoggedDisk::new(&disk), "/dest", "/cache", "Encore Replay B", &mut extractor);
    let second = thumbnail_bytes(&mut LoggedDisk::new(&disk), "/dest", "/cache", "Encore Replay B", &mut extractor);
    assert!(first.is_err());
    assert!(second.is_err());
    assert_eq!(extractor.inner.calls.get(), 1, "a failed key must short-circuit, not retry in a loop");
}

#[test]
fn nothing_is_written_next_to_the_bundle_only_under_the_cache_dir() {
    let disk = MemoryDisk::with_bundle("/dest", "Encore Replay C", b"video-bytes", None);
    let mut extractor = LoggedExtractor::new(FakeExtractor { succeeds: true, calls: Cell::new(0), disk: &disk });
    thumbnail_bytes(&mut LoggedDisk::new(&disk), "/dest", "/cache", "Encore Replay C", &mut extractor).unwrap();
    let bundle_entries: Vec<String> = disk
        .files
        .borrow()
        .keys()
        .filter(|k| k.starts_with("/dest/Encore Replay C/"))
        .cloned()
        .collect();
    assert_eq!(bundle_entries, vec!["/dest/Encore Replay C/replay.mp4".to_string()]);
    assert!(disk.is_dir("/cache/thumbnails"));
}

#[test]
fn tests_an_invalid_id_is_rejected_before_touching_the_filesystem() {
    let disk = MemoryDisk::default();
    let mut extractor = LoggedExtractor::new(FakeExtractor { succeeds: true, calls: Cell::new(0), disk: &disk });
    let result = thumbnail_bytes(&mut LoggedDisk::new(&disk), "/dest", "/cache", "../escape", &mut extractor);
    assert!(result.is_err());
    assert_eq!(extractor.inner.calls.get(), 0);
}

#[test]
fn a_missing_replay_file_has_no_thumbnail() {
    let disk = MemoryDisk::default();
    let mut extractor = LoggedExtractor::new(FakeExtractor { succeeds: true, calls: Cell::new(0), disk: &disk });
    assert_eq!(
        thumbnail_bytes(&mut LoggedDisk::new(&disk), "/dest", "/cache", "Encore Replay Z", &mut extractor),
        Err("library_thumbnail_missing".to_string())
    );
}

fn folder(name: &str, metadata: Option<&str>, modified: u64, total_bytes: u64) -> BundleFolder {
    BundleFolder {
        name: name.to_string(),
        metadata: metadata.map(|m| m.as_bytes().to_vec()),
        modified_unix_ms: modified,
        total_bytes,
    }
}

#[test]
fn scans_bundles_with_metadata_newest_first_and_sums_folder_bytes() {
    let folders = vec![
        folder(
            "Encore Replay 2026-08-13 09.00.00",
            Some(r#"{"createdAtUnixMs":1723536000000,"evidence":{"startUnixMs":1723535940000,"endUnixMs":1723536000000}}"#),
            5,
            "video-bytes".len() as u64 + 130,
        ),
        folder(
            "Encore Replay 2026-08-13 10.00.00",
            Some(r#"{"createdAtUnixMs":1723539600000,"trimmed":true}"#),
            5,
            40,
        ),
    ];
    let entries = scan(&folders);
    assert_eq!(entries.len(), 2);
    assert_eq!(entries[0].id, "Encore Replay 2026-08-13 10.00.00");
    assert_eq!(entries[0].saved_at_unix_ms, 1723539600000);
    assert!(entries[0].trimmed);
    assert_eq!(entries[0].duration_seconds, None);
    assert_eq!(entries[1].duration_seconds, Some(60));
    assert_eq!(entries[1].total_bytes, "video-bytes".len() as u64 + 130);
    assert!(!entries[1].trimmed);
}

#[test]
fn corrupt_or_missing_metadata_degrades_instead_of_erroring() {
    let folders = vec![
        folder("Encore Replay corrupt", Some("not json"), 1_700_000_000_000, 5),
        folder("Encore Replay missing", None, 1_600_000_000_000, 7),
    ];
    let entries = scan(&folders);
    assert_eq!(entries.len(), 2);
    assert_eq!(entries[0].id, "Encore Replay corrupt");
    assert_eq!(entries[0].saved_at_unix_ms, 1_700_000_000_000);
    assert_eq!(entries[0].duration_seconds, None);
    assert_eq!(entries[1].saved_at_unix_ms, 1_600_000_000_000);
    assert!(!entries[1].trimmed);
}

#[test]
fn hidden_workspace_entries_are_skipped() {
    let folders = vec![
        folder(".Encore Replay 2026-08-13 09.00.00.partial-1-1", None, 1, 1),
        folder("Encore Replay 2026-08-13 09.00.00", None, 2, 1),
    ];
    let entries = scan(&folders);
    assert_eq!(entries.len(), 1);
    assert_eq!(entries[0].id, "Encore Replay 2026-08-13 09.00.00");
    assert_eq!(scan_bundle(&folders[0]), None);
}

#[test]
fn missing_destination_scans_as_empty() {
    assert!(scan(&Vec::new()).is_empty());
}

#[test]
fn equal_saved_times_keep_their_folder_order() {
    let folders = vec![folder("b", None, 7, 1), folder("a", None, 7, 1), folder("c", None, 9, 1)];
    let ids: Vec<String> = scan(&folders).into_iter().map(|e| e.id).collect();
    assert_eq!(ids, vec!["c", "b", "a"]);
}

#[test]
fn an_evidence_window_that_runs_backwards_has_no_duration() {
    let m = br#"{"evidence":{"startUnixMs":5000,"endUnixMs":1000}}"#.to_vec();
    assert_eq!(duration_from_metadata(&m), None);
    let m = br#"{"evidence":{"startUnixMs":1000,"endUnixMs":3999}}"#.to_vec();
    assert_eq!(duration_from_metadata(&m), Some(2));
}

fn entry(id: &str, saved_at_unix_ms: u64, total_bytes: u64) -> ScannedEntry {
    ScannedEntry {
        id: id.to_string(),
        display_name: id.to_string(),
        saved_at_unix_ms,
        duration_seconds: None,
        total_bytes,
        trimmed: false,
    }
}

fn unix_ms(y: i32, m: u32, d: u32, h: u32, min: u32) -> u64 {
    let naive = NaiveDate::from_ymd_opt(y, m, d).unwrap().and_hms_opt(h, min, 0).unwrap();
    let local = Local.from_local_datetime(&naive).single().unwrap();
    u64::try_from(local.timestamp_millis()).unwrap()
}

#[test]
fn groups_same_day_entries_together_with_labels_and_rollups() {
    let today = NaiveDate::from_ymd_opt(2026, 8, 13).unwrap().num_days_from_ce();
    let entries = vec![
        entry("today-2", unix_ms(2026, 8, 13, 16, 0), 200),
        entry("today-1", unix_ms(2026, 8, 13, 9, 0), 100),
        entry("yesterday-1", unix_ms(2026, 8, 12, 10, 0), 50),
        entry("older-1", unix_ms(2026, 8, 10, 10, 0), 300),
    ];
    let groups = group_by_day(entries, today);
    assert_eq!(groups.len(), 3);
    assert_eq!(groups[0].label, "Today");
    assert_eq!(groups[0].count, 2);
    assert_eq!(groups[0].total_bytes, 300);
    assert_eq!(groups[1].label, "Yesterday");
    assert_eq!(groups[1].count, 1);
    assert_eq!(groups[2].label, "Mon, Aug 10");
    assert_eq!(groups[2].count, 1);
}

#[test]
fn empty_entries_produce_no_groups() {
    let today = NaiveDate::from_ymd_opt(2026, 8, 13).unwrap().num_days_from_ce();
    assert!(group_by_day(Vec::new(), today).is_empty());
}

#[test]
fn index_reports_totals_across_every_group() {
    let folders = vec![
        folder(
            "Encore Replay 2026-08-13 09.00.00",
            Some(r#"{"createdAtUnixMs":1723536000000,"evidence":{"startUnixMs":0,"endUnixMs":3000}}"#),
            0,
            11 + 80,
        ),
        folder(
            "Encore Replay 2026-08-13 10.00.00",
            Some(r#"{"createdAtUnixMs":1723539600000,"evidence":{"startUnixMs":0,"endUnixMs":8000}}"#),
            0,
            11 + 80,
        ),
    ];
    let index = index(&folders);
    assert_eq!(index.total_count, 2);
    assert_eq!(
        index.total_bytes,
        index.groups.iter().flat_map(|g| &g.entries).map(|e| e.total_bytes).sum::<u64>()
    );
    assert_eq!(index.groups.iter().map(|g| g.entries.len()).sum::<usize>(), 2);
}

#[test]
fn index_of_a_missing_destination_is_empty() {
    let index = index(&Vec::new());
    assert_eq!(index.total_count, 0);
    assert!(index.groups.is_empty());
}
