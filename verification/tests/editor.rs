use encore::editor::clipboard::{clipboard_result, clipboard_script, guard_within_destination};
use encore::editor::export::{
    export_gif_from, publish_gif, publish_trimmed, trimmed_display_name, trimmed_gif_display_name,
    ExportRunner, GifRunner, KeptRange, LoggedExport, LoggedGif, GIF_FILTER,
};
use encore::editor::header::{build as header_from_reads, read_bundle, title_from, EditorHeader};
use encore::library::{LibraryDisk, LoggedDisk};
use encore::packager::files::{FsError, LoggedFiles, PackageFileSystem};
use encore::packager::runner::RunnerFailure;
use encore::preview::payload::build as payload_from_reads;
use encore::preview::window::PreviewPayload;
use chrono::{Datelike, NaiveDate};
use std::cell::{Cell, RefCell};
use std::collections::{BTreeMap, BTreeSet};
use std::rc::Rc;

#[derive(Default)]
struct MemoryDisk {
    files: RefCell<BTreeMap<String, Vec<u8>>>,
    dirs: RefCell<BTreeSet<String>>,
    touched: Cell<u32>,
}

impl MemoryDisk {
    fn write_bundle(&self, root: &str, name: &str, metadata: Option<&str>, video: &[u8]) {
        let bundle = format!("{root}/{name}");
        self.dirs.borrow_mut().insert(bundle.clone());
        self.files.borrow_mut().insert(format!("{bundle}/replay.mp4"), video.to_vec());
        if let Some(m) = metadata {
            self.files.borrow_mut().insert(format!("{bundle}/metadata.json"), m.as_bytes().to_vec());
        }
    }
}

impl LibraryDisk for MemoryDisk {
    fn is_file(&self, path: &str) -> bool {
        self.touched.set(self.touched.get() + 1);
        self.files.borrow().contains_key(path)
    }
    fn is_dir(&self, path: &str) -> bool {
        self.touched.set(self.touched.get() + 1);
        self.dirs.borrow().contains(path)
    }
    fn file_stamp(&self, path: &str) -> Option<(u64, u64)> {
        self.touched.set(self.touched.get() + 1);
        if let Some(b) = self.files.borrow().get(path) {
            return Some((b.len() as u64, 1_723_536_000_000));
        }
        if self.dirs.borrow().contains(path) {
            return Some((0, 1_723_536_000_000));
        }
        None
    }
    fn read_file(&self, path: &str) -> Option<Vec<u8>> {
        self.touched.set(self.touched.get() + 1);
        self.files.borrow().get(path).cloned()
    }
    fn write_file(&self, path: &str, bytes: &[u8]) -> bool {
        self.files.borrow_mut().insert(path.to_string(), bytes.to_vec());
        true
    }
    fn create_dir_all(&self, path: &str) -> bool {
        self.dirs.borrow_mut().insert(path.to_string());
        true
    }
    fn remove_file(&self, path: &str) -> bool {
        self.files.borrow_mut().remove(path).is_some()
    }
}

impl LibraryDisk for &MemoryDisk {
    fn is_file(&self, path: &str) -> bool {
        (**self).is_file(path)
    }
    fn is_dir(&self, path: &str) -> bool {
        (**self).is_dir(path)
    }
    fn file_stamp(&self, path: &str) -> Option<(u64, u64)> {
        (**self).file_stamp(path)
    }
    fn read_file(&self, path: &str) -> Option<Vec<u8>> {
        (**self).read_file(path)
    }
    fn write_file(&self, path: &str, bytes: &[u8]) -> bool {
        (**self).write_file(path, bytes)
    }
    fn create_dir_all(&self, path: &str) -> bool {
        (**self).create_dir_all(path)
    }
    fn remove_file(&self, path: &str) -> bool {
        (**self).remove_file(path)
    }
}

/// The editor header of bundle `id`, from what `disk` holds of it.
fn build_header(disk: &MemoryDisk, root: &str, id: &str) -> Result<EditorHeader, String> {
    header_from_reads(root, id, &read_bundle(&mut LoggedDisk::new(disk), root, id))
}

/// The preview payload of bundle `id`, from what `disk` holds of it.
fn build_payload(disk: &MemoryDisk, root: &str, id: &str) -> Result<PreviewPayload, String> {
    payload_from_reads(root, id, &read_bundle(&mut LoggedDisk::new(disk), root, id))
}

#[test]
fn publish_suffix_zero_has_no_trailing_number() {
    assert_eq!(trimmed_display_name("Encore Replay X", 0), "Encore Replay X (trimmed)");
}

#[test]
fn later_suffixes_dedupe_like_the_packager() {
    assert_eq!(trimmed_display_name("Encore Replay X", 2), "Encore Replay X (trimmed) 2");
}

#[test]
fn gif_publish_suffix_zero_has_no_trailing_number() {
    assert_eq!(trimmed_gif_display_name("Encore Replay X", 0), "Encore Replay X (trimmed).gif");
}

#[test]
fn later_suffixes_dedupe_before_the_extension() {
    assert_eq!(trimmed_gif_display_name("Encore Replay X", 2), "Encore Replay X (trimmed) 2.gif");
}

#[test]
fn reads_geometry_and_size_from_a_real_bundle() {
    let disk = MemoryDisk::default();
    let metadata = r#"{"createdAtUnixMs":1723536000000,"capture":{"geometry":{"width":1920,"height":1080}}}"#;
    disk.write_bundle("/root", "Encore Replay A", Some(metadata), b"video-bytes");
    let header = build_header(&disk, "/root", "Encore Replay A").unwrap();
    assert_eq!(header.width, Some(1920));
    assert_eq!(header.height, Some(1080));
    assert_eq!(header.total_bytes, "video-bytes".len() as u64);
    assert_eq!(header.video_path, "/root/Encore Replay A/replay.mp4");
}

#[test]
fn missing_or_corrupt_metadata_omits_geometry_instead_of_failing() {
    let disk = MemoryDisk::default();
    disk.write_bundle("/root", "Encore Replay B", Some("not json"), b"video");
    let header = build_header(&disk, "/root", "Encore Replay B").unwrap();
    assert_eq!(header.width, None);
    assert_eq!(header.height, None);
    assert!(!header.title.is_empty());
}

#[test]
fn a_geometry_that_does_not_fit_is_omitted() {
    let disk = MemoryDisk::default();
    let metadata = r#"{"capture":{"geometry":{"width":4294967296,"height":-1}}}"#;
    disk.write_bundle("/root", "G", Some(metadata), b"v");
    let header = build_header(&disk, "/root", "G").unwrap();
    assert_eq!(header.width, None);
    assert_eq!(header.height, None);
}

#[test]
fn a_missing_replay_file_is_rejected() {
    let disk = MemoryDisk::default();
    disk.dirs.borrow_mut().insert("/root/Encore Replay C".to_string());
    assert_eq!(build_header(&disk, "/root", "Encore Replay C").unwrap_err(), "editor_replay_missing");
}

#[test]
fn header_an_invalid_id_is_rejected_before_touching_the_filesystem() {
    let disk = MemoryDisk::default();
    assert!(build_header(&disk, "/root", "../escape").is_err());
    assert_eq!(disk.touched.get(), 0);
}

#[test]
fn titles_name_today_yesterday_or_the_date() {
    let today = NaiveDate::from_ymd_opt(2026, 8, 13).unwrap().num_days_from_ce();
    assert_eq!(title_from(today, today, "4:32 PM"), "Today, 4:32 PM");
    assert_eq!(title_from(today - 1, today, "9:01 AM"), "Yesterday, 9:01 AM");
    assert_eq!(title_from(today - 3, today, "9:01 AM"), "Mon, Aug 10, 9:01 AM");
}

#[test]
fn reports_name_duration_size_and_video_path_from_a_real_bundle() {
    let disk = MemoryDisk::default();
    let metadata = r#"{"createdAtUnixMs":1723536000000,"evidence":{"startUnixMs":1723535940000,"endUnixMs":1723536000000}}"#;
    disk.write_bundle("/root", "Encore Replay A", Some(metadata), b"video-bytes");
    let payload = build_payload(&disk, "/root", "Encore Replay A").unwrap();
    assert_eq!(payload.id, "Encore Replay A");
    assert_eq!(payload.duration_seconds, Some(60));
    assert_eq!(payload.total_bytes, "video-bytes".len() as u64);
    assert_eq!(payload.video_path, "/root/Encore Replay A/replay.mp4");
    assert!(!payload.display_name.is_empty());
}

#[test]
fn the_display_name_matches_the_editor_header_title() {
    let disk = MemoryDisk::default();
    let metadata = r#"{"createdAtUnixMs":1723536000000,"evidence":{"startUnixMs":0,"endUnixMs":5000}}"#;
    disk.write_bundle("/root", "Encore Replay B", Some(metadata), b"video");
    let payload = build_payload(&disk, "/root", "Encore Replay B").unwrap();
    let header = build_header(&disk, "/root", "Encore Replay B").unwrap();
    assert_eq!(payload.display_name, header.title);
}

#[test]
fn missing_or_corrupt_metadata_omits_duration_instead_of_inventing_it() {
    let disk = MemoryDisk::default();
    disk.write_bundle("/root", "Encore Replay C", Some("not json"), b"video");
    disk.write_bundle("/root", "Encore Replay D", None, b"video");
    disk.write_bundle("/root", "Encore Replay E", Some(r#"{"createdAtUnixMs":1723536000000}"#), b"video");
    for id in ["Encore Replay C", "Encore Replay D", "Encore Replay E"] {
        let payload = build_payload(&disk, "/root", id).unwrap();
        assert_eq!(payload.duration_seconds, None, "expected {id} to omit duration");
        assert_eq!(payload.total_bytes, "video".len() as u64);
    }
}

#[test]
fn an_id_outside_the_destination_is_rejected_with_a_stable_error_code() {
    let disk = MemoryDisk::default();
    for id in ["..", ".", "", "../escape", "a/b", "a\\b", "/etc/passwd"] {
        assert_eq!(
            build_payload(&disk, "/root", id).unwrap_err(),
            "library_invalid_id",
            "expected {id:?} to be rejected"
        );
    }
}

#[test]
fn a_bundle_without_a_replay_file_is_rejected() {
    let disk = MemoryDisk::default();
    disk.dirs.borrow_mut().insert("/root/Encore Replay F".to_string());
    assert_eq!(build_payload(&disk, "/root", "Encore Replay F").unwrap_err(), "editor_replay_missing");
}

#[test]
fn accepts_a_file_directly_inside_the_destination() {
    let file = "/private/tmp/inside/Encore Replay X (trimmed).gif";
    assert_eq!(guard_within_destination("/private/tmp/inside", file).unwrap(), file);
}

#[test]
fn accepts_a_file_inside_a_bundle_subdirectory() {
    assert!(guard_within_destination(
        "/private/tmp/bundle",
        "/private/tmp/bundle/Encore Replay X (trimmed)/replay.mp4"
    )
    .is_ok());
}

#[test]
fn rejects_a_file_outside_the_destination() {
    let result = guard_within_destination("/private/tmp/outside-dest", "/private/tmp/outside-file/not-an-export.mp4");
    assert_eq!(result.err(), Some("clipboard_path_invalid".to_string()));
    let sibling = guard_within_destination("/private/tmp/dest", "/private/tmp/destination/x.mp4");
    assert_eq!(sibling.err(), Some("clipboard_path_invalid".to_string()));
}

#[test]
fn clipboard_script_quotes_the_path() {
    assert_eq!(
        clipboard_script("/a/b \"c\"\\d.gif"),
        "set the clipboard to POSIX file \"/a/b \\\"c\\\"\\\\d.gif\""
    );
    assert_eq!(clipboard_result(false, false), Err("clipboard_unavailable".to_string()));
    assert_eq!(clipboard_result(true, false), Err("clipboard_failed".to_string()));
    assert_eq!(clipboard_result(true, true), Ok(()));
}

#[derive(Default)]
struct FsState {
    files: BTreeMap<String, Vec<u8>>,
    dirs: BTreeSet<String>,
}

#[derive(Clone, Default)]
struct MemFs(Rc<RefCell<FsState>>);

impl MemFs {
    fn entries(&self, dir: &str) -> Vec<String> {
        let state = self.0.borrow();
        let prefix = format!("{dir}/");
        let mut names = BTreeSet::new();
        for path in state.files.keys().chain(state.dirs.iter()) {
            if let Some(rest) = path.strip_prefix(&prefix) {
                names.insert(rest.split('/').next().unwrap().to_string());
            }
        }
        names.into_iter().collect()
    }
    fn read(&self, path: &str) -> Option<Vec<u8>> {
        self.0.borrow().files.get(path).cloned()
    }
    fn write(&self, path: &str, bytes: &[u8]) {
        self.0.borrow_mut().files.insert(path.to_string(), bytes.to_vec());
    }
    fn holds(&self, path: &str) -> bool {
        let s = self.0.borrow();
        s.files.contains_key(path) || s.dirs.contains(path)
    }
}

impl PackageFileSystem for MemFs {
    fn create_dir_all(&mut self, path: &str) -> Result<(), FsError> {
        self.0.borrow_mut().dirs.insert(path.to_string());
        Ok(())
    }
    fn create_dir(&mut self, path: &str) -> Result<(), FsError> {
        if self.holds(path) {
            return Err(FsError::AlreadyExists);
        }
        self.0.borrow_mut().dirs.insert(path.to_string());
        Ok(())
    }
    fn create_lock(&mut self, path: &str) -> Result<(), FsError> {
        if self.holds(path) {
            return Err(FsError::AlreadyExists);
        }
        self.write(path, b"");
        Ok(())
    }
    fn try_exists(&mut self, path: &str) -> Result<bool, FsError> {
        Ok(self.holds(path))
    }
    fn read_dir(&mut self, path: &str) -> Result<Vec<String>, FsError> {
        Ok(self.entries(path))
    }
    fn write_synced(&mut self, path: &str, bytes: &[u8]) -> Result<(), FsError> {
        self.write(path, bytes);
        Ok(())
    }
    fn file_len(&mut self, path: &str) -> Result<u64, FsError> {
        self.read(path).map(|b| b.len() as u64).ok_or(FsError::Other)
    }
    fn sync_file(&mut self, _path: &str) -> Result<(), FsError> {
        Ok(())
    }
    fn sync_dir(&mut self, _path: &str) -> Result<(), FsError> {
        Ok(())
    }
    fn rename(&mut self, from: &str, to: &str) -> Result<(), FsError> {
        let mut s = self.0.borrow_mut();
        if s.files.contains_key(to) || s.dirs.contains(to) {
            return Err(FsError::Other);
        }
        if let Some(b) = s.files.remove(from) {
            s.files.insert(to.to_string(), b);
            return Ok(());
        }
        if !s.dirs.remove(from) {
            return Err(FsError::Other);
        }
        s.dirs.insert(to.to_string());
        let prefix = format!("{from}/");
        let moved: Vec<(String, Vec<u8>)> =
            s.files.iter().filter(|(k, _)| k.starts_with(&prefix)).map(|(k, v)| (k.clone(), v.clone())).collect();
        for (k, v) in moved {
            s.files.remove(&k);
            s.files.insert(format!("{to}/{}", &k[prefix.len()..]), v);
        }
        Ok(())
    }
    fn remove_dir_all(&mut self, path: &str) -> Result<(), FsError> {
        let mut s = self.0.borrow_mut();
        let prefix = format!("{path}/");
        s.files.retain(|k, _| !k.starts_with(&prefix));
        s.dirs.retain(|k| k != path && !k.starts_with(&prefix));
        Ok(())
    }
    fn remove_file(&mut self, path: &str) -> Result<(), FsError> {
        self.0.borrow_mut().files.remove(path).map(|_| ()).ok_or(FsError::Other)
    }
}

struct FakeExportRunner {
    fs: MemFs,
    trims: RefCell<Vec<(f64, f64, String)>>,
    concat_calls: Cell<u32>,
    manifest: RefCell<String>,
    trim_result: Result<(), RunnerFailure>,
}

impl FakeExportRunner {
    fn new(fs: &MemFs) -> Self {
        FakeExportRunner {
            fs: fs.clone(),
            trims: RefCell::new(Vec::new()),
            concat_calls: Cell::new(0),
            manifest: RefCell::new(String::new()),
            trim_result: Ok(()),
        }
    }
}

impl ExportRunner for FakeExportRunner {
    fn trim(&mut self, _input: &str, range: KeptRange, output: &str) -> Result<(), RunnerFailure> {
        self.trim_result?;
        self.trims.borrow_mut().push((
            f64::from_bits(range.start_bits),
            f64::from_bits(range.end_bits),
            output.to_string(),
        ));
        self.fs.write(output, b"trimmed-segment");
        Ok(())
    }
    fn concat(&mut self, manifest: &str, output: &str) -> Result<(), RunnerFailure> {
        self.concat_calls.set(self.concat_calls.get() + 1);
        *self.manifest.borrow_mut() = String::from_utf8(self.fs.read(manifest).unwrap()).unwrap();
        self.fs.write(output, b"joined");
        Ok(())
    }
}

struct FakeGifRunner {
    fs: MemFs,
    filters: RefCell<Vec<String>>,
    palettes: RefCell<Vec<String>>,
    palettegen_result: Result<(), RunnerFailure>,
}

impl GifRunner for FakeGifRunner {
    fn palettegen(&mut self, _input: &str, filter: &str, palette: &str) -> Result<(), RunnerFailure> {
        self.palettegen_result?;
        self.filters.borrow_mut().push(filter.to_string());
        self.palettes.borrow_mut().push(palette.to_string());
        self.fs.write(palette, b"palette");
        Ok(())
    }
    fn paletteuse(&mut self, _input: &str, palette: &str, filter: &str, output: &str) -> Result<(), RunnerFailure> {
        self.filters.borrow_mut().push(filter.to_string());
        self.palettes.borrow_mut().push(palette.to_string());
        self.fs.write(output, b"GIF89a-fake-gif-bytes");
        Ok(())
    }
}

fn range(start: f64, end: f64) -> KeptRange {
    KeptRange { start_bits: start.to_bits(), end_bits: end.to_bits() }
}

fn source_fs() -> MemFs {
    let mut fs = MemFs::default();
    fs.create_dir_all("/root").unwrap();
    fs.create_dir_all("/root/Encore Replay A").unwrap();
    fs.write("/root/Encore Replay A/replay.mp4", b"source-video");
    fs
}

#[test]
fn exports_a_single_kept_segment_as_a_trimmed_sibling_bundle() {
    let mut fs = source_fs();
    let mut runner = LoggedExport::new(FakeExportRunner::new(&fs));
    let mut nonce = 1;
    let published = publish_trimmed(
        &mut runner,
        &mut LoggedFiles::new(fs.clone()),
        "/root",
        "Encore Replay A",
        "/root/Encore Replay A/replay.mp4",
        &vec![range(1.0, 3.0)],
        b"{\"trimmed\":true}",
        7,
        &mut nonce,
    )
    .unwrap();
    assert_eq!(published, "/root/Encore Replay A (trimmed)");
    assert_eq!(fs.read("/root/Encore Replay A (trimmed)/replay.mp4").unwrap(), b"trimmed-segment");
    assert_eq!(fs.read("/root/Encore Replay A (trimmed)/metadata.json").unwrap(), b"{\"trimmed\":true}");
    assert_eq!(runner.inner.concat_calls.get(), 0);
    assert_eq!(fs.entries("/root").len(), 2);
    assert_eq!(fs.read("/root/Encore Replay A/replay.mp4").unwrap(), b"source-video");
}

#[test]
fn two_kept_segments_are_trimmed_in_order_then_concatenated() {
    let mut fs = source_fs();
    let mut runner = LoggedExport::new(FakeExportRunner::new(&fs));
    let mut nonce = 1;
    publish_trimmed(
        &mut runner,
        &mut LoggedFiles::new(fs.clone()),
        "/root",
        "Encore Replay A",
        "/root/Encore Replay A/replay.mp4",
        &vec![range(0.0, 1.0), range(2.0, 3.0)],
        b"{}",
        7,
        &mut nonce,
    )
    .unwrap();
    let trims = runner.inner.trims.borrow();
    assert_eq!(trims.len(), 2);
    assert_eq!((trims[0].0, trims[0].1), (0.0, 1.0));
    assert_eq!((trims[1].0, trims[1].1), (2.0, 3.0));
    assert_eq!(runner.inner.concat_calls.get(), 1);
    let manifest = runner.inner.manifest.borrow();
    assert!(manifest.contains("segment-0.mp4"));
    assert!(manifest.contains("segment-1.mp4"));
    assert_eq!(fs.entries("/root/Encore Replay A (trimmed)"), vec!["metadata.json", "replay.mp4"]);
}

#[test]
fn a_second_export_of_the_same_source_dedupes_its_name() {
    let mut fs = source_fs();
    let mut runner = LoggedExport::new(FakeExportRunner::new(&fs));
    let mut nonce = 1;
    let ranges = vec![range(1.0, 3.0)];
    let first = publish_trimmed(&mut runner, &mut LoggedFiles::new(fs.clone()), "/root", "Encore Replay A", "/root/Encore Replay A/replay.mp4", &ranges, b"{}", 7, &mut nonce).unwrap();
    let second = publish_trimmed(&mut runner, &mut LoggedFiles::new(fs.clone()), "/root", "Encore Replay A", "/root/Encore Replay A/replay.mp4", &ranges, b"{}", 7, &mut nonce).unwrap();
    assert_eq!(first, "/root/Encore Replay A (trimmed)");
    assert_eq!(second, "/root/Encore Replay A (trimmed) 1");
    assert_eq!(nonce, 3);
}

#[test]
fn a_trim_failure_leaves_no_partial_bundle_behind() {
    let mut fs = source_fs();
    let mut runner = LoggedExport::new(FakeExportRunner::new(&fs));
    runner.inner.trim_result = Err(RunnerFailure::Failed);
    let mut nonce = 1;
    let result = publish_trimmed(&mut runner, &mut LoggedFiles::new(fs.clone()), "/root", "Encore Replay A", "/root/Encore Replay A/replay.mp4", &vec![range(1.0, 3.0)], b"{}", 7, &mut nonce);
    assert_eq!(result.err(), Some("export_trim_failed".to_string()));
    assert_eq!(fs.entries("/root"), vec!["Encore Replay A".to_string()]);
}

#[test]
fn gif_export_runs_palettegen_then_paletteuse_with_the_shared_640_10fps_filter() {
    let mut fs = source_fs();
    let mut runner = LoggedExport::new(FakeExportRunner::new(&fs));
    let mut gif = LoggedGif::new(FakeGifRunner { fs: fs.clone(), filters: RefCell::new(Vec::new()), palettes: RefCell::new(Vec::new()), palettegen_result: Ok(()) });
    let mut nonce = 1;
    let published = export_gif_from(&mut runner, &mut gif, &mut LoggedFiles::new(fs.clone()), "/root", "Encore Replay A", "/root/Encore Replay A/replay.mp4", &vec![range(1.0, 3.0)], 7, &mut nonce).unwrap();
    assert_eq!(published, "/root/Encore Replay A (trimmed).gif");
    assert_eq!(fs.read(&published).unwrap(), b"GIF89a-fake-gif-bytes");
    let filters = gif.inner.filters.borrow();
    assert_eq!(filters.len(), 2);
    assert!(filters.iter().all(|f| f == GIF_FILTER && f.contains("fps=10") && f.contains("scale=640:-2")));
    let palettes = gif.inner.palettes.borrow();
    assert_eq!(palettes[0], palettes[1]);
    assert_eq!(fs.entries("/root").len(), 2);
}

#[test]
fn gif_export_of_two_kept_ranges_first_builds_a_trimmed_intermediate() {
    let mut fs = source_fs();
    let mut runner = LoggedExport::new(FakeExportRunner::new(&fs));
    let mut gif = LoggedGif::new(FakeGifRunner { fs: fs.clone(), filters: RefCell::new(Vec::new()), palettes: RefCell::new(Vec::new()), palettegen_result: Ok(()) });
    let mut nonce = 1;
    export_gif_from(&mut runner, &mut gif, &mut LoggedFiles::new(fs.clone()), "/root", "Encore Replay A", "/root/Encore Replay A/replay.mp4", &vec![range(0.0, 1.0), range(2.0, 3.0)], 7, &mut nonce).unwrap();
    assert_eq!(runner.inner.trims.borrow().len(), 2);
    assert_eq!(runner.inner.concat_calls.get(), 1);
    assert_eq!(gif.inner.filters.borrow().len(), 2);
}

#[test]
fn a_gif_palettegen_failure_leaves_no_scratch_workspace_behind() {
    let mut fs = source_fs();
    let mut runner = LoggedExport::new(FakeExportRunner::new(&fs));
    let mut gif = LoggedGif::new(FakeGifRunner { fs: fs.clone(), filters: RefCell::new(Vec::new()), palettes: RefCell::new(Vec::new()), palettegen_result: Err(RunnerFailure::Failed) });
    let mut nonce = 1;
    let result = export_gif_from(&mut runner, &mut gif, &mut LoggedFiles::new(fs.clone()), "/root", "Encore Replay A", "/root/Encore Replay A/replay.mp4", &vec![range(1.0, 3.0)], 7, &mut nonce);
    assert_eq!(result.err(), Some("export_gif_failed".to_string()));
    assert_eq!(fs.entries("/root"), vec!["Encore Replay A".to_string()]);
}

#[test]
fn writes_the_built_file_at_the_deduped_target() {
    let mut fs = MemFs::default();
    fs.create_dir_all("/root").unwrap();
    fs.write("/root/scratch.gif", b"GIF89a-fake");
    let published = publish_gif(&mut LoggedFiles::new(fs.clone()), "/root", "Encore Replay X", "/root/scratch.gif").unwrap();
    assert_eq!(published, "/root/Encore Replay X (trimmed).gif");
    assert_eq!(fs.read(&published).unwrap(), b"GIF89a-fake");
    assert!(!fs.holds("/root/scratch.gif"));
}

#[test]
fn dedupes_a_second_export_of_the_same_source() {
    let mut fs = MemFs::default();
    fs.create_dir_all("/root").unwrap();
    fs.write("/root/first.gif", b"first");
    fs.write("/root/second.gif", b"second");
    let first = publish_gif(&mut LoggedFiles::new(fs.clone()), "/root", "Encore Replay Y", "/root/first.gif").unwrap();
    let second = publish_gif(&mut LoggedFiles::new(fs.clone()), "/root", "Encore Replay Y", "/root/second.gif").unwrap();
    assert_eq!(first, "/root/Encore Replay Y (trimmed).gif");
    assert_eq!(second, "/root/Encore Replay Y (trimmed) 1.gif");
}

#[test]
fn the_source_bundle_is_never_modified() {
    let mut fs = source_fs();
    fs.write("/root/Encore Replay A/metadata.json", b"{\"schemaVersion\":1}");
    let mut runner = LoggedExport::new(FakeExportRunner::new(&fs));
    let mut nonce = 1;
    publish_trimmed(
        &mut runner,
        &mut LoggedFiles::new(fs.clone()),
        "/root",
        "Encore Replay A",
        "/root/Encore Replay A/replay.mp4",
        &vec![range(0.0, 1.0), range(2.0, 3.0)],
        b"{\"trimmed\":true}",
        7,
        &mut nonce,
    )
    .unwrap();
    assert_eq!(fs.read("/root/Encore Replay A/replay.mp4").unwrap(), b"source-video");
    assert_eq!(fs.read("/root/Encore Replay A/metadata.json").unwrap(), b"{\"schemaVersion\":1}");
    assert_eq!(fs.entries("/root/Encore Replay A"), vec!["metadata.json", "replay.mp4"]);
    assert_eq!(fs.entries("/root").len(), 2);
}
