//! The Editor window's header: the replay's title, geometry, size and
//! video path, read from its bundle.
use vstd::prelude::*;
use crate::json::{json_u64_at, u64_at};
use crate::library::group::{day_caption, label_of, local_day, local_text_of, near_day, now_text, today_local, day_label, LocalText, CHRONO_SAFE_MS};
use crate::library::guard::{is_safe_component, resolve_bundle_dir};
use crate::library::scan::metadata_view;
use crate::library::{DiskCall, LibraryDisk, LoggedDisk};
use crate::packager::model::{METADATA_FILENAME, REPLAY_FILENAME};
use crate::paths::{join, path_join};
use crate::text::{err_text, join_text};

verus! {

/// What the Editor's title row and spec line show about one replay.
#[derive(Debug, Clone, PartialEq, Eq)]
pub struct EditorHeader {
    pub id: String,
    /// `Today, 4:32 PM`, `Yesterday, 9:01 AM` or `Mon, Aug 10, 9:01 AM`.
    pub title: String,
    pub width: Option<u32>,
    pub height: Option<u32>,
    pub total_bytes: u64,
    /// The replay file's path.
    pub video_path: String,
}

/// The format of a header's time of day, such as `4:32 PM`.
pub const CLOCK_FORMAT: &'static str = "%-I:%M %p";

/// The local time of day of a Unix time in milliseconds (see
/// [`CLOCK_FORMAT`]): that of the single local time the machine's time
/// zone gives it, else (a time past `i64`, an ambiguous or missing local
/// time) that of now. The text itself rests on the time zone; a format
/// chrono could not render would leave it empty.
pub fn local_time(unix_ms: u64) -> String {
    if unix_ms <= i64::MAX as u64 {
        if let LocalText::Single(text) = local_text_of(unix_ms as i64, CLOCK_FORMAT) {
            return match text {
                Some(t) => t,
                None => String::new(),
            };
        }
    }
    match now_text(CLOCK_FORMAT) {
        Some(t) => t,
        None => String::new(),
    }
}

/// A header title: the day's label (see [`label_of`]), a comma and a
/// space, then the time of day.
pub open spec fn title_of(day: i32, today: i32, time: Seq<char>) -> Seq<char> {
    label_of(day, today) + ", "@ + time
}

/// The title for `day`, seen on `today`, at `time` (see [`title_of`]).
pub fn title_from(day: i32, today: i32, time: &str) -> (r: String)
    requires
        day_caption(day) is Some,
    ensures
        r@ == title_of(day, today, time@),
{
    let label = day_label(day, today);
    let a = join_text(label.as_str(), ", ");
    join_text(a.as_str(), time)
}

/// The title of a replay saved at `saved_at_unix_ms`, read in the
/// machine's time zone against today's date (see [`title_of`]).
pub fn title(saved_at_unix_ms: u64) -> (r: String)
    ensures
        exists|day: i32, today: i32, time: Seq<char>|
            #![trigger title_of(day, today, time)]
            r@ == title_of(day, today, time) && day_caption(day) is Some && day_caption(today) is Some && (saved_at_unix_ms
                <= CHRONO_SAFE_MS ==> near_day(day as int, saved_at_unix_ms as int)),
{
    let today = today_local();
    let day = local_day(saved_at_unix_ms);
    let time = local_time(saved_at_unix_ms);
    title_from(day, today, time.as_str())
}

/// A geometry field of a metadata document: the unsigned integer at
/// `pointer` when it fits a `u32`.
pub open spec fn geometry_of(metadata: Option<Seq<u8>>, pointer: Seq<char>) -> Option<u32> {
    match metadata {
        Some(m) => match json_u64_at(m, pointer) {
            Some(v) => if v <= u32::MAX {
                Some(v as u32)
            } else {
                None
            },
            None => None,
        },
        None => None,
    }
}

/// The geometry field at `pointer` of `metadata` (see [`geometry_of`]).
pub fn geometry_field(metadata: &Option<Vec<u8>>, pointer: &str) -> (r: Option<u32>)
    ensures
        r == geometry_of(crate::library::scan::metadata_view(*metadata), pointer@),
{
    match metadata {
        Some(m) => match u64_at(m.as_slice(), pointer) {
            Some(v) => if v <= u32::MAX as u64 {
                Some(v as u32)
            } else {
                None
            },
            None => None,
        },
        None => None,
    }
}

/// What the disk answered about one bundle, read by the caller before
/// building its header.
pub struct BundleReads {
    /// The replay file's size and modification time, when it can be
    /// stat'ed.
    pub replay_stamp: Option<(u64, u64)>,
    /// The bytes of `metadata.json`, when it can be read.
    pub metadata: Option<Vec<u8>>,
    /// The bundle folder's size and modification time, when it can be
    /// stat'ed.
    pub folder_stamp: Option<(u64, u64)>,
}

/// Reads what a header needs of bundle `id` inside `destination` from
/// `disk`: the replay file's stamp, the metadata and the folder's stamp.
/// An id that could leave the destination reads nothing.
pub fn read_bundle<D: LibraryDisk>(disk: &mut LoggedDisk<D>, destination: &str, id: &str) -> (r: BundleReads)
    ensures
        !is_safe_component(id@) ==> r.replay_stamp is None && r.metadata is None && r.folder_stamp is None && final(disk).log()
            == old(disk).log(),
        is_safe_component(id@) ==> final(disk).log() == old(disk).log().push(
            DiskCall::FileStamp { path: path_join(path_join(destination@, id@), REPLAY_FILENAME@), answer: r.replay_stamp },
        ).push(
            DiskCall::ReadFile {
                path: path_join(path_join(destination@, id@), METADATA_FILENAME@),
                answer: crate::library::scan::metadata_view(r.metadata),
            },
        ).push(DiskCall::FileStamp { path: path_join(destination@, id@), answer: r.folder_stamp }),
{
    let bundle = match resolve_bundle_dir(destination, id) {
        Ok(b) => b,
        Err(_) => return BundleReads { replay_stamp: None, metadata: None, folder_stamp: None },
    };
    let replay_stamp = disk.file_stamp(join(bundle.as_str(), REPLAY_FILENAME).as_str());
    let metadata = disk.read_file(join(bundle.as_str(), METADATA_FILENAME).as_str());
    let folder_stamp = disk.file_stamp(bundle.as_str());
    BundleReads { replay_stamp, metadata, folder_stamp }
}

/// The time a bundle was saved, as its header reads it: the metadata's
/// `createdAtUnixMs`, else the folder's modification time, else 0.
pub open spec fn saved_time_of(metadata: Option<Seq<u8>>, folder_stamp: Option<(u64, u64)>) -> u64 {
    let created = match metadata {
        Some(m) => json_u64_at(m, "/createdAtUnixMs"@),
        None => None,
    };
    match created {
        Some(t) => t,
        None => match folder_stamp {
            Some(stamp) => stamp.1,
            None => 0,
        },
    }
}

/// Whether `r` is the header of bundle `id` inside `destination` for what
/// the disk answered: an unsafe id is `library_invalid_id`; a replay file
/// that could not be stat'ed is `editor_replay_missing`; otherwise the
/// header carries the id, the replay file's size and path, the capture
/// geometry the metadata records (see [`geometry_of`]) and a title (see
/// [`title_of`]) for the local day and time of the save (the metadata's
/// creation time, else the folder's modification time), which rest on the
/// time zone: the title's day is within a day of the save's UTC date
/// (see [`near_day`]).
pub open spec fn header_fits(
    destination: Seq<char>,
    id: Seq<char>,
    replay_stamp: Option<(u64, u64)>,
    metadata: Option<Seq<u8>>,
    folder_stamp: Option<(u64, u64)>,
    r: Result<EditorHeader, String>,
) -> bool {
    if !is_safe_component(id) {
        err_text(r) == Some("library_invalid_id"@)
    } else {
        match replay_stamp {
            None => err_text(r) == Some("editor_replay_missing"@),
            Some(stamp) => r matches Ok(h) && {
                &&& h.id@ == id
                &&& h.total_bytes == stamp.0
                &&& h.width == geometry_of(metadata, "/capture/geometry/width"@)
                &&& h.height == geometry_of(metadata, "/capture/geometry/height"@)
                &&& h.video_path@ == path_join(path_join(destination, id), REPLAY_FILENAME@)
                &&& exists|day: i32, today: i32, time: Seq<char>|
                    #![trigger title_of(day, today, time)]
                    h.title@ == title_of(day, today, time) && day_caption(day) is Some && (saved_time_of(metadata, folder_stamp)
                        <= CHRONO_SAFE_MS ==> near_day(day as int, saved_time_of(metadata, folder_stamp) as int))
            },
        }
    }
}

/// The header of bundle `id` inside `destination` for what the disk
/// answered (see [`header_fits`] and [`read_bundle`]). The id is guarded
/// (see [`crate::library::guard::bundle_dir_for`]) before anything read is
/// looked at.
pub fn build(destination: &str, id: &str, reads: &BundleReads) -> (r: Result<EditorHeader, String>)
    ensures
        header_fits(destination@, id@, reads.replay_stamp, metadata_view(reads.metadata), reads.folder_stamp, r),
{
    let bundle = match resolve_bundle_dir(destination, id) {
        Ok(b) => b,
        Err(e) => return Err(e),
    };
    let replay_file = join(bundle.as_str(), REPLAY_FILENAME);
    let total_bytes = match reads.replay_stamp {
        Some((size, _)) => size,
        None => return Err("editor_replay_missing".to_string()),
    };
    let created = match &reads.metadata {
        Some(m) => u64_at(m.as_slice(), "/createdAtUnixMs"),
        None => None,
    };
    let saved_at_unix_ms = match created {
        Some(t) => t,
        None => match reads.folder_stamp {
            Some((_, modified)) => modified,
            None => 0,
        },
    };
    let width = geometry_field(&reads.metadata, "/capture/geometry/width");
    let height = geometry_field(&reads.metadata, "/capture/geometry/height");
    Ok(EditorHeader {
        id: id.to_string(),
        title: title(saved_at_unix_ms),
        width,
        height,
        total_bytes,
        video_path: replay_file,
    })
}

} // verus!
