//! Lazily generated, cached thumbnails of saved replays. The cache lives
//! under the app's cache directory and is keyed by the replay file's path,
//! size and modification time; a failed extraction leaves a marker so the
//! same key is never retried.
use vstd::prelude::*;
use crate::text::err_text;
use std::collections::hash_map::DefaultHasher;
use std::hash::Hasher;
use vstd::std_specs::hash::DefaultHasherAdditionalSpecFns;
use crate::library::guard::{is_safe_component, resolve_replay_file};
use crate::library::{DiskCall, LibraryDisk, LoggedDisk};
use crate::paths::{join, path_join};
use crate::text::join_text;

verus! {

pub const THUMBNAIL_SUBDIR: &'static str = "thumbnails";
pub const JPEG_SUFFIX: &'static str = ".jpg";
pub const FAILED_SUFFIX: &'static str = ".failed";

/// Why a thumbnail could not be extracted.
#[derive(Debug, Clone, Copy, PartialEq, Eq)]
pub enum ThumbnailFailure {
    Unavailable,
}

/// Extracts one JPEG frame from the video at `input` into `output`: the
/// media tool behind thumbnails, driven through [`LoggedExtractor`].
pub trait ThumbnailExtractor {
    fn extract(&mut self, input: &str, output: &str) -> Result<(), ThumbnailFailure>;
}

/// A frame extractor and the history of the requests made through this
/// handle, each with whether it succeeded, in order.
pub struct LoggedExtractor<X> {
    pub inner: X,
    history: Ghost<Seq<(Seq<char>, Seq<char>, bool)>>,
}

impl<X: ThumbnailExtractor> LoggedExtractor<X> {
    /// The requests made so far through this handle, in order.
    pub closed spec fn extractions(&self) -> Seq<(Seq<char>, Seq<char>, bool)> {
        self.history@
    }

    /// A handle on `inner` with no request made yet.
    pub fn new(inner: X) -> (r: Self)
        ensures
            r.extractions() == Seq::<(Seq<char>, Seq<char>, bool)>::empty(),
    {
        LoggedExtractor { inner, history: Ghost(Seq::empty()) }
    }

    /// Extracts a frame of `input` into `output` (see
    /// [`ThumbnailExtractor::extract`]).
    pub fn extract(&mut self, input: &str, output: &str) -> (r: Result<(), ThumbnailFailure>)
        ensures
            final(self).extractions() == old(self).extractions().push((input@, output@, r is Ok)),
    {
        let r = self.inner.extract(input, output);
        self.history = Ghost(self.history@.push((input@, output@, r is Ok)));
        r
    }
}

/// The lowercase hexadecimal digit for `d` in `0..16`.
pub open spec fn hex_char(d: int) -> char {
    if d < 10 {
        crate::text::digit_char(d)
    } else if d == 10 {
        'a'
    } else if d == 11 {
        'b'
    } else if d == 12 {
        'c'
    } else if d == 13 {
        'd'
    } else if d == 14 {
        'e'
    } else {
        'f'
    }
}

/// `h` divided by 16, `j` times.
pub open spec fn shifted(h: nat, j: nat) -> nat
    decreases j,
{
    if j == 0 {
        h
    } else {
        shifted(h, (j - 1) as nat) / 16
    }
}

/// `h` as exactly 16 lowercase hexadecimal digits, most significant first,
/// as `format!("{:016x}")` writes it.
pub open spec fn hex16(h: u64) -> Seq<char> {
    Seq::new(16, |i: int| hex_char((shifted(h as nat, (15 - i) as nat) % 16) as int))
}

fn hex_digit(d: u64) -> (c: char)
    requires
        d < 16,
    ensures
        c == hex_char(d as int),
{
    if d == 0 { '0' }
    else if d == 1 { '1' }
    else if d == 2 { '2' }
    else if d == 3 { '3' }
    else if d == 4 { '4' }
    else if d == 5 { '5' }
    else if d == 6 { '6' }
    else if d == 7 { '7' }
    else if d == 8 { '8' }
    else if d == 9 { '9' }
    else if d == 10 { 'a' }
    else if d == 11 { 'b' }
    else if d == 12 { 'c' }
    else if d == 13 { 'd' }
    else if d == 14 { 'e' }
    else { 'f' }
}

/// `h` as 16 hexadecimal digits (see [`hex16`]).
pub fn hex16_text(h: u64) -> (r: String)
    ensures
        r@ == hex16(h),
{
    let mut digits: Vec<char> = Vec::new();
    let mut v: u64 = h;
    let mut k: usize = 0;
    while k < 16
        invariant
            k <= 16,
            digits@.len() == k,
            v == shifted(h as nat, k as nat),
            forall|j: int| 0 <= j < k ==> #[trigger] digits@[j] == hex_char((shifted(h as nat, j as nat) % 16) as int),
        decreases 16 - k,
    {
        digits.push(hex_digit(v % 16));
        v = v / 16;
        k = k + 1;
    }
    let mut r = String::new();
    let mut i: usize = 0;
    while i < 16
        invariant
            i <= 16,
            digits@.len() == 16,
            forall|j: int| 0 <= j < 16 ==> #[trigger] digits@[j] == hex_char((shifted(h as nat, j as nat) % 16) as int),
            r@ == hex16(h).take(i as int),
        decreases 16 - i,
    {
        let ghost before = r@;
        crate::text::push_char(&mut r, digits[15 - i]);
        proof {
            assert(hex16(h).take(i + 1) =~= before.push(digits@[15 - i]));
        }
        i = i + 1;
    }
    proof {
        assert(hex16(h).take(16) =~= hex16(h));
    }
    r
}

/// The writes that hashing `std::path::Path` makes into a hasher: a
/// function of the path alone on a given platform.
pub uninterp spec fn path_hash_writes(path: Seq<char>) -> Seq<Seq<u8>>;

/// The writes that hashing a `u64` makes into a hasher: a function of the
/// value alone on a given platform.
pub uninterp spec fn u64_hash_writes(value: u64) -> Seq<Seq<u8>>;

/// Calls `Hash::hash` for `std::path::Path` on `hasher`. Trusted: the
/// hasher's writes grow by the named [`path_hash_writes`] of the path.
#[verifier::external_body]
fn hash_path(hasher: &mut DefaultHasher, path: &str)
    ensures
        final(hasher)@ == old(hasher)@ + path_hash_writes(path@),
{
    std::hash::Hash::hash(std::path::Path::new(path), hasher)
}

/// Calls `Hash::hash` for `u64` on `hasher`. Trusted: the hasher's writes
/// grow by the named [`u64_hash_writes`] of the value.
#[verifier::external_body]
fn hash_u64(hasher: &mut DefaultHasher, value: u64)
    ensures
        final(hasher)@ == old(hasher)@ + u64_hash_writes(value),
{
    std::hash::Hash::hash(&value, hasher)
}

/// The digest behind a cache key: `DefaultHasher` (created unseeded)
/// finishing the writes of the path, the size and the modification time.
pub open spec fn cache_digest(replay_file: Seq<char>, size: u64, modified_unix_ms: u64) -> u64 {
    DefaultHasher::spec_finish(
        path_hash_writes(replay_file) + u64_hash_writes(size) + u64_hash_writes(modified_unix_ms),
    )
}

/// The cache key of one replay file: its path, size and modification time
/// hashed by `DefaultHasher` and written as 16 hexadecimal digits (see
/// [`cache_digest`]).
pub fn cache_key(replay_file: &str, size: u64, modified_unix_ms: u64) -> (r: String)
    ensures
        r@ == hex16(cache_digest(replay_file@, size, modified_unix_ms)),
        r@.len() == 16,
{
    let mut hasher = DefaultHasher::new();
    hash_path(&mut hasher, replay_file);
    hash_u64(&mut hasher, size);
    hash_u64(&mut hasher, modified_unix_ms);
    let h = hasher.finish();
    proof {
        assert(hasher@ =~= path_hash_writes(replay_file@) + u64_hash_writes(size) + u64_hash_writes(modified_unix_ms));
    }
    hex16_text(h)
}

/// The cached JPEG of `key`: `<cache_dir>/thumbnails/<key>.jpg`.
pub fn jpeg_path(cache_dir: &str, key: &str) -> (r: String)
    ensures
        r@ == path_join(path_join(cache_dir@, THUMBNAIL_SUBDIR@), key@ + JPEG_SUFFIX@),
{
    let dir = join(cache_dir, THUMBNAIL_SUBDIR);
    let name = join_text(key, JPEG_SUFFIX);
    join(dir.as_str(), name.as_str())
}

/// The marker of a failed extraction for `key`:
/// `<cache_dir>/thumbnails/<key>.failed`.
pub fn failed_marker_path(cache_dir: &str, key: &str) -> (r: String)
    ensures
        r@ == path_join(path_join(cache_dir@, THUMBNAIL_SUBDIR@), key@ + FAILED_SUFFIX@),
{
    let dir = join(cache_dir, THUMBNAIL_SUBDIR);
    let name = join_text(key, FAILED_SUFFIX);
    join(dir.as_str(), name.as_str())
}

/// What a thumbnail request comes to for what the disk and the extractor
/// answered: no stat of the replay file means `library_thumbnail_missing`;
/// cached bytes are returned as they are; a failure marker, a cache
/// directory that cannot be made, or an extraction that fails or leaves
/// nothing readable means `library_thumbnail_unavailable`; else the
/// extracted bytes.
pub open spec fn thumbnail_outcome(
    stamped: bool,
    cached: Option<Seq<u8>>,
    marked: bool,
    dir_ready: bool,
    extracted: bool,
    reread: Option<Seq<u8>>,
) -> Result<Seq<u8>, Seq<char>> {
    if !stamped {
        Err("library_thumbnail_missing"@)
    } else if cached is Some {
        Ok(cached->0)
    } else if marked || !dir_ready {
        Err("library_thumbnail_unavailable"@)
    } else if extracted && reread is Some {
        Ok(reread->0)
    } else {
        Err("library_thumbnail_unavailable"@)
    }
}

/// The view of a thumbnail result.
pub open spec fn thumbnail_view(r: Result<Vec<u8>, String>) -> Result<Seq<u8>, Seq<char>> {
    match r {
        Ok(b) => Ok(b@),
        Err(e) => Err(e@),
    }
}

/// The view of bytes that may be absent.
pub open spec fn bytes_view(b: Option<Vec<u8>>) -> Option<Seq<u8>> {
    match b {
        Some(v) => Some(v@),
        None => None,
    }
}

/// What a thumbnail request comes to for the disk's and the extractor's
/// answers (see [`thumbnail_outcome`]).
pub fn thumbnail_result(
    stamped: bool,
    cached: Option<Vec<u8>>,
    marked: bool,
    dir_ready: bool,
    extracted: bool,
    reread: Option<Vec<u8>>,
) -> (r: Result<Vec<u8>, String>)
    ensures
        thumbnail_view(r) == thumbnail_outcome(stamped, bytes_view(cached), marked, dir_ready, extracted, bytes_view(reread)),
{
    if !stamped {
        return Err("library_thumbnail_missing".to_string());
    }
    if let Some(bytes) = cached {
        return Ok(bytes);
    }
    if marked || !dir_ready {
        return Err("library_thumbnail_unavailable".to_string());
    }
    if extracted {
        if let Some(bytes) = reread {
            return Ok(bytes);
        }
    }
    Err("library_thumbnail_unavailable".to_string())
}

/// Whether a thumbnail request gets as far as extracting: the replay file
/// is stamped, nothing is cached, no failure is marked and the cache
/// directory is ready. A cached thumbnail or a failure marker never leads
/// to an extraction.
pub open spec fn extraction_due(stamped: bool, cached: Option<Seq<u8>>, marked: bool, dir_ready: bool) -> bool {
    stamped && cached is None && !marked && dir_ready
}

/// The replay file of bundle `id` inside `destination`.
pub open spec fn replay_file_of(destination: Seq<char>, id: Seq<char>) -> Seq<char> {
    path_join(path_join(destination, id), crate::packager::model::REPLAY_FILENAME@)
}

/// The cached JPEG of a replay file with the given size and modification
/// time (see [`cache_key`] and [`jpeg_path`]).
pub open spec fn cached_jpeg_of(cache_dir: Seq<char>, replay_file: Seq<char>, size: u64, modified: u64) -> Seq<char> {
    path_join(path_join(cache_dir, THUMBNAIL_SUBDIR@), hex16(cache_digest(replay_file, size, modified)) + JPEG_SUFFIX@)
}

/// The failure marker of a replay file with the given size and
/// modification time (see [`cache_key`] and [`failed_marker_path`]).
pub open spec fn failed_marker_of(cache_dir: Seq<char>, replay_file: Seq<char>, size: u64, modified: u64) -> Seq<char> {
    path_join(path_join(cache_dir, THUMBNAIL_SUBDIR@), hex16(cache_digest(replay_file, size, modified)) + FAILED_SUFFIX@)
}

/// Whether the calls of `log` from `start` on forget the cached thumbnail
/// of `replay_file` with the given size and modification time: its JPEG is
/// removed, then its failure marker.
pub open spec fn cache_forgotten(
    log: Seq<DiskCall>,
    start: int,
    cache_dir: Seq<char>,
    replay_file: Seq<char>,
    size: u64,
    modified: u64,
) -> bool {
    &&& log.len() == start + 2
    &&& log[start] matches DiskCall::RemoveFile { path, .. } && path == cached_jpeg_of(cache_dir, replay_file, size, modified)
    &&& log[start + 1] matches DiskCall::RemoveFile { path, .. } && path == failed_marker_of(
        cache_dir,
        replay_file,
        size,
        modified,
    )
}

/// Whether a thumbnail request for `replay_file` came to `r`, with the
/// extractor's history going from `before` to `after`, for these answers:
/// the replay file's stamp (whether there is one, its size and
/// modification time), what the cache held (the JPEG, a failure marker,
/// whether its directory was ready) and what extracting gave. The result
/// is [`thumbnail_outcome`]; the extractor got exactly one request, from
/// the replay file into its cached JPEG, when [`extraction_due`], and none
/// otherwise.
pub open spec fn thumbnail_handled(
    replay_file: Seq<char>,
    cache_dir: Seq<char>,
    before: Seq<(Seq<char>, Seq<char>, bool)>,
    after: Seq<(Seq<char>, Seq<char>, bool)>,
    r: Result<Vec<u8>, String>,
    stamp: (bool, u64, u64),
    cache: (Option<Seq<u8>>, bool, bool),
    extraction: (bool, Option<Seq<u8>>),
) -> bool {
    let (stamped, size, modified) = stamp;
    let (cached, marked, dir_ready) = cache;
    let (extracted, reread) = extraction;
    &&& thumbnail_view(r) == thumbnail_outcome(stamped, cached, marked, dir_ready, extracted, reread)
    &&& after == if extraction_due(stamped, cached, marked, dir_ready) {
        before.push((replay_file, cached_jpeg_of(cache_dir, replay_file, size, modified), extracted))
    } else {
        before
    }
}

/// Whether the disk calls of `log` from `start` on are those of serving
/// the thumbnail of `replay_file` for these answers (see
/// [`thumbnail_handled`]): the replay file's stamp is read; then the cached
/// JPEG; then, with nothing cached, whether a failure marker exists; then,
/// with none, the cache directory is created; then, once it is ready, the
/// extracted JPEG is read back, and when extraction failed or left nothing
/// to read an empty failure marker is written. Every path written lies in
/// the cache directory.
pub open spec fn thumbnail_disk_log(
    log: Seq<DiskCall>,
    start: int,
    replay_file: Seq<char>,
    cache_dir: Seq<char>,
    stamp: (bool, u64, u64),
    cache: (Option<Seq<u8>>, bool, bool),
    extraction: (bool, Option<Seq<u8>>),
) -> bool {
    let (stamped, size, modified) = stamp;
    let (cached, marked, dir_ready) = cache;
    let (extracted, reread) = extraction;
    let jpeg = cached_jpeg_of(cache_dir, replay_file, size, modified);
    let failed = failed_marker_of(cache_dir, replay_file, size, modified);
    let calls = log.skip(start);
    let marker_written = calls.last() matches DiskCall::WriteFile { path, bytes, .. } && path == failed && bytes.len() == 0;
    &&& 0 <= start <= log.len()
    &&& calls.len() >= 1
    &&& calls[0] == (DiskCall::FileStamp {
        path: replay_file,
        answer: if stamped {
            Some((size, modified))
        } else {
            None
        },
    })
    &&& !stamped ==> calls.len() == 1
    &&& stamped ==> calls.len() >= 2 && calls[1] == (DiskCall::ReadFile { path: jpeg, answer: cached })
    &&& stamped && cached is Some ==> calls.len() == 2
    &&& stamped && cached is None ==> calls.len() >= 3 && calls[2] == (DiskCall::IsFile { path: failed, answer: marked })
    &&& stamped && cached is None && marked ==> calls.len() == 3
    &&& stamped && cached is None && !marked ==> calls.len() >= 4 && calls[3] == (DiskCall::CreateDirAll {
        path: path_join(cache_dir, THUMBNAIL_SUBDIR@),
        answer: dir_ready,
    })
    &&& stamped && cached is None && !marked && !dir_ready ==> calls.len() == 4
    &&& extraction_due(stamped, cached, marked, dir_ready) && extracted ==> calls.len() >= 5 && calls[4] == (DiskCall::ReadFile {
        path: jpeg,
        answer: reread,
    }) && (reread is Some ==> calls.len() == 5) && (reread is None ==> calls.len() == 6 && marker_written)
    &&& extraction_due(stamped, cached, marked, dir_ready) && !extracted ==> reread is None && calls.len() == 5 && marker_written
}

/// Whether a thumbnail request for `replay_file` came to `r` for these
/// answers (see [`thumbnail_handled`]), the disk's log going from `before`
/// to `after` as [`thumbnail_disk_log`] says.
pub open spec fn thumbnail_served(
    replay_file: Seq<char>,
    cache_dir: Seq<char>,
    extractions_before: Seq<(Seq<char>, Seq<char>, bool)>,
    extractions_after: Seq<(Seq<char>, Seq<char>, bool)>,
    before: Seq<DiskCall>,
    after: Seq<DiskCall>,
    r: Result<Vec<u8>, String>,
    stamp: (bool, u64, u64),
    cache: (Option<Seq<u8>>, bool, bool),
    extraction: (bool, Option<Seq<u8>>),
) -> bool {
    &&& thumbnail_handled(replay_file, cache_dir, extractions_before, extractions_after, r, stamp, cache, extraction)
    &&& after.take(before.len() as int) == before
    &&& thumbnail_disk_log(after, before.len() as int, replay_file, cache_dir, stamp, cache, extraction)
}

/// The JPEG bytes of the thumbnail of bundle `id` inside `destination`:
/// read from the cache, else extracted into it. An id that could leave
/// the destination fails with `library_invalid_id` before the disk or the
/// extractor is touched; a missing replay file fails with
/// `library_thumbnail_missing`; a key whose extraction failed before, or
/// fails now, with `library_thumbnail_unavailable`.
pub fn thumbnail_bytes<D: LibraryDisk, E: ThumbnailExtractor>(
    disk: &mut LoggedDisk<D>,
    destination: &str,
    cache_dir: &str,
    id: &str,
    extractor: &mut LoggedExtractor<E>,
) -> (r: Result<Vec<u8>, String>)
    ensures
        !is_safe_component(id@) ==> err_text(r) == Some("library_invalid_id"@)
            && final(extractor).extractions() == old(extractor).extractions() && final(disk).log() == old(disk).log(),
        is_safe_component(id@) ==> exists|stamped: bool, size: u64, modified: u64, cached: Option<Seq<u8>>, marked: bool,
            dir_ready: bool, extracted: bool, reread: Option<Seq<u8>>|
            #[trigger] thumbnail_served(
                replay_file_of(destination@, id@),
                cache_dir@,
                old(extractor).extractions(),
                final(extractor).extractions(),
                old(disk).log(),
                final(disk).log(),
                r,
                (stamped, size, modified),
                (cached, marked, dir_ready),
                (extracted, reread),
            ),
{
    let replay_file = match resolve_replay_file(destination, id) {
        Ok(p) => p,
        Err(e) => return Err(e),
    };
    let ghost file = replay_file_of(destination@, id@);
    let ghost before = extractor.extractions();
    let ghost d0 = disk.log();
    let (size, modified) = match disk.file_stamp(replay_file.as_str()) {
        Some(stamp) => stamp,
        None => {
            let r = thumbnail_result(false, None, false, false, false, None);
            assert(disk.log().take(d0.len() as int) =~= d0);
        assert(thumbnail_served(file, cache_dir@, before, extractor.extractions(), d0, disk.log(), r, (false, 0u64, 0u64), (None, false, false), (false, None)));
            return r;
        },
    };
    let key = cache_key(replay_file.as_str(), size, modified);
    let jpeg = jpeg_path(cache_dir, key.as_str());
    let failed = failed_marker_path(cache_dir, key.as_str());
    assert(jpeg@ == cached_jpeg_of(cache_dir@, file, size, modified));
    let cached = disk.read_file(jpeg.as_str());
    if cached.is_some() {
        let r = thumbnail_result(true, cached, false, false, false, None);
        assert(disk.log().take(d0.len() as int) =~= d0);
        assert(thumbnail_served(file, cache_dir@, before, extractor.extractions(), d0, disk.log(), r, (true, size, modified), (bytes_view(cached), false, false), (false, None)));
        return r;
    }
    if disk.is_file(failed.as_str()) {
        let r = thumbnail_result(true, None, true, false, false, None);
        assert(disk.log().take(d0.len() as int) =~= d0);
        assert(thumbnail_served(file, cache_dir@, before, extractor.extractions(), d0, disk.log(), r, (true, size, modified), (None, true, false), (false, None)));
        return r;
    }
    let subdir = join(cache_dir, THUMBNAIL_SUBDIR);
    if !disk.create_dir_all(subdir.as_str()) {
        let r = thumbnail_result(true, None, false, false, false, None);
        assert(disk.log().take(d0.len() as int) =~= d0);
        assert(thumbnail_served(file, cache_dir@, before, extractor.extractions(), d0, disk.log(), r, (true, size, modified), (None, false, false), (false, None)));
        return r;
    }
    let extracted = extractor.extract(replay_file.as_str(), jpeg.as_str()).is_ok();
    let reread = if extracted {
        disk.read_file(jpeg.as_str())
    } else {
        None
    };
    if reread.is_some() {
        let r = thumbnail_result(true, None, false, true, extracted, reread);
        assert(disk.log().take(d0.len() as int) =~= d0);
        assert(thumbnail_served(file, cache_dir@, before, extractor.extractions(), d0, disk.log(), r, (true, size, modified), (None, false, true), (extracted, bytes_view(reread))));
        return r;
    }
    let empty: Vec<u8> = Vec::new();
    let _ = disk.write_file(failed.as_str(), empty.as_slice());
    let r = thumbnail_result(true, None, false, true, extracted, None);
    assert(disk.log().take(d0.len() as int) =~= d0);
        assert(thumbnail_served(file, cache_dir@, before, extractor.extractions(), d0, disk.log(), r, (true, size, modified), (None, false, true), (extracted, None)));
    r
}

/// Forgets the cached thumbnail of a replay file with the given size and
/// modification time: its JPEG and its failure marker are removed, when
/// present.
pub fn forget<D: LibraryDisk>(disk: &mut LoggedDisk<D>, cache_dir: &str, replay_file: &str, size: u64, modified_unix_ms: u64)
    ensures
        final(disk).log().take(old(disk).log().len() as int) == old(disk).log(),
        cache_forgotten(final(disk).log(), old(disk).log().len() as int, cache_dir@, replay_file@, size, modified_unix_ms),
{
    let ghost before = disk.log();
    let key = cache_key(replay_file, size, modified_unix_ms);
    let jpeg = jpeg_path(cache_dir, key.as_str());
    let failed = failed_marker_path(cache_dir, key.as_str());
    let _ = disk.remove_file(jpeg.as_str());
    let _ = disk.remove_file(failed.as_str());
    assert(disk.log().take(before.len() as int) =~= before);
}

} // verus!
