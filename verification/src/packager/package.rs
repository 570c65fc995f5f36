//! Packaging a leased set of segments into a published bundle: checking
//! that the segments can be stream-copied together, naming the bundle
//! after its creation time, and writing the concatenated video and its
//! metadata.
use vstd::prelude::*;
use std::fmt::Write;
use crate::capture::{CaptureGeometry, EvidenceCaptureFacts};
use crate::packager::files::{
    call_ok, calls_since, all_undone, creates_none, extends, lemma_undone_concat, lemma_undone_extends, FsCall, LoggedFiles, PackageFileSystem,
};
use crate::packager::confine::{call_within, lemma_join_within, lemma_spared_extend, lemma_spared_more, stays_within, visible_spared};
use crate::packager::manifest::{manifest_of, manifest_text};
use crate::packager::model::{
    is_usable_h264, video_streams, BundleMediaDescription, BundleStreamDescription, SavedReplay,
    METADATA_FILENAME, REPLAY_FILENAME,
};
use crate::packager::publish::{
    ends_with_publication, partial_name, publish, shown_taken, taken_below, BundleJob, MAX_NAME_SUFFIX,
};
use crate::packager::runner::{FfmpegRunner, LoggedFfmpeg, RunnerFailure};
use crate::packager::workspace::{cleanup_interrupted_workspaces, cleanup_log, lemma_cleanup_spared, LoggedProcesses, ProcessTable};
use crate::library::group::{date_text, near_day, utc_day};
use crate::paths::{join, path_join};
use crate::replay::state::{earliest_start, latest_end, pending_snapshot, total_bytes_of};
use crate::retention::{LeasedSegment, SegmentLease};
use crate::text::{decimal, err_text, join_text, u64_decimal, unit_view};

verus! {

/// What a replay is packaged from.
pub struct PackageRequest<'a> {
    pub replay_id: &'a str,
    pub created_at_unix_ms: u64,
    pub lease: &'a SegmentLease,
    pub capture: &'a EvidenceCaptureFacts,
}

/// Facts about the running application and machine a bundle records.
#[derive(Debug, Clone, PartialEq, Eq)]
pub struct EnvironmentFacts {
    pub app_version: String,
    pub os_name: String,
    pub os_version: String,
    pub architecture: String,
}

/// The evidence window a bundle covers.
#[derive(Debug, Clone, Copy, PartialEq, Eq)]
pub struct EvidenceMetadata {
    pub start_unix_ms: u64,
    pub end_unix_ms: u64,
    pub segment_count: u64,
    pub input_bytes: u64,
}

/// The encoder a bundle's segments came from.
#[derive(Debug, Clone, PartialEq, Eq)]
pub struct EncoderMetadata {
    pub codec: String,
    pub keyframe_interval_seconds: u8,
    pub state: String,
}

/// The capture a bundle's segments came from.
#[derive(Debug, Clone, PartialEq, Eq)]
pub struct CaptureMetadata {
    pub source_kind: Option<String>,
    pub geometry: Option<CaptureGeometry>,
    pub state: String,
    pub encoder: EncoderMetadata,
    pub retention_minutes: u8,
}

/// The capture counters a bundle records.
#[derive(Debug, Clone, Copy, PartialEq, Eq)]
pub struct CaptureCounters {
    pub dropped_frames: u64,
    pub evidence_gap_count: u64,
    pub retry_count: u8,
}

/// The contents of a bundle's `metadata.json` (schema version 1).
#[derive(Debug, Clone, PartialEq, Eq)]
pub struct BundleMetadata {
    pub schema_version: u8,
    pub replay_id: String,
    pub created_at_unix_ms: u64,
    pub evidence: EvidenceMetadata,
    pub app_name: String,
    pub app_version: String,
    pub os_name: String,
    pub os_version: String,
    pub architecture: String,
    pub capture: CaptureMetadata,
    pub counters: CaptureCounters,
    pub video_filename: String,
}

/// Whether `m` is the metadata of a bundle packaged from `request` (with
/// its non-empty segments) on `environment`: schema 1, the request's id and
/// creation time, the segments' evidence window (earliest start, latest
/// end, count, saturating byte total), the application and machine, the
/// capture facts with an H.264 encoder at one keyframe a second, and the
/// replay file's name.
pub open spec fn metadata_describes(m: BundleMetadata, request: PackageRequest, environment: EnvironmentFacts) -> bool {
    let s = request.lease.segments@;
    let c = *request.capture;
    &&& m.schema_version == 1
    &&& m.replay_id@ == request.replay_id@
    &&& m.created_at_unix_ms == request.created_at_unix_ms
    &&& m.evidence == EvidenceMetadata {
        start_unix_ms: earliest_start(s),
        end_unix_ms: latest_end(s),
        segment_count: s.len() as u64,
        input_bytes: total_bytes_of(s),
    }
    &&& m.app_name@ == "Encore"@
    &&& m.app_version@ == environment.app_version@
    &&& m.os_name@ == environment.os_name@
    &&& m.os_version@ == environment.os_version@
    &&& m.architecture@ == environment.architecture@
    &&& m.capture.source_kind == c.source_kind
    &&& m.capture.geometry == c.geometry
    &&& m.capture.state@ == c.capture_state@
    &&& m.capture.encoder.codec@ == "h264"@
    &&& m.capture.encoder.keyframe_interval_seconds == 1
    &&& m.capture.encoder.state@ == c.encoder_state@
    &&& m.capture.retention_minutes == c.retention_minutes
    &&& m.counters == CaptureCounters {
        dropped_frames: c.dropped_frames,
        evidence_gap_count: c.evidence_gap_count,
        retry_count: c.retry_count,
    }
    &&& m.video_filename@ == REPLAY_FILENAME@
}

/// The metadata of the bundle packaged from `request` (see
/// [`metadata_describes`]); a request without segments fails with
/// `export_incompatible_segments`.
pub fn bundle_metadata(request: &PackageRequest, environment: &EnvironmentFacts) -> (r: Result<BundleMetadata, String>)
    ensures
        r is Err <==> request.lease.segments@.len() == 0,
        r matches Ok(m) ==> metadata_describes(m, *request, *environment),
        r is Err ==> err_text(r) == Some("export_incompatible_segments"@),
{
    let window = match pending_snapshot(request.lease, 0, request.created_at_unix_ms) {
        Some(p) => p,
        None => return Err("export_incompatible_segments".to_string()),
    };
    let c = request.capture;
    Ok(BundleMetadata {
        schema_version: 1,
        replay_id: request.replay_id.to_string(),
        created_at_unix_ms: request.created_at_unix_ms,
        evidence: EvidenceMetadata {
            start_unix_ms: window.evidence_start_unix_ms,
            end_unix_ms: window.evidence_end_unix_ms,
            segment_count: window.segment_count,
            input_bytes: window.total_bytes,
        },
        app_name: "Encore".to_string(),
        app_version: environment.app_version.clone(),
        os_name: environment.os_name.clone(),
        os_version: environment.os_version.clone(),
        architecture: environment.architecture.clone(),
        capture: CaptureMetadata {
            source_kind: crate::text::copy_opt_string(&c.source_kind),
            geometry: c.geometry,
            state: c.capture_state.clone(),
            encoder: EncoderMetadata {
                codec: "h264".to_string(),
                keyframe_interval_seconds: 1,
                state: c.encoder_state.clone(),
            },
            retention_minutes: c.retention_minutes,
        },
        counters: CaptureCounters {
            dropped_frames: c.dropped_frames,
            evidence_gap_count: c.evidence_gap_count,
            retry_count: c.retry_count,
        },
        video_filename: REPLAY_FILENAME.to_string(),
    })
}

/// The format of a bundle's time stamp, such as `2026-08-12 10.20.30`.
pub const STAMP_FORMAT: &'static str = "%Y-%m-%d %H.%M.%S";

/// The date part of [`STAMP_FORMAT`], such as `2026-08-12`.
pub const STAMP_DATE_FORMAT: &'static str = "%Y-%m-%d";

/// Calls `chrono::DateTime::<Utc>::from_timestamp_millis`, converts the
/// time to the machine's time zone with `with_timezone(&Local)` and writes
/// it with `format` into a string; `None` when chrono cannot represent the
/// time or the format does not render. Trusted: the text rests on the time
/// zone, so what is claimed is what holds in every zone, for the bundle
/// stamp's format (see [`STAMP_FORMAT`]). chrono renders a format item by
/// item, so the text begins with the local date rendered with the date
/// part of the format (what [`date_text`] names), then a space and the
/// time; and the local date is the UTC date moved by the zone's offset, a
/// `FixedOffset` of less than a day (see `FixedOffset::east_opt`), so it is
/// within a day of the UTC date (`from_timestamp` takes
/// `secs.div_euclid(86_400) + 719_163` days).
#[verifier::external_body]
fn local_stamp(millis: i64, format: &str) -> (r: Option<String>)
    ensures
        format@ == STAMP_FORMAT@ ==> (r matches Some(s) ==> stamp_of_creation(millis as int, s@)),
{
    let created_at = chrono::DateTime::<chrono::Utc>::from_timestamp_millis(millis)?.with_timezone(&chrono::Local);
    let mut text = String::new();
    write!(text, "{}", created_at.format(format)).ok()?;
    Some(text)
}

/// Whether `stamp` is a bundle stamp of a creation at `created_at_unix_ms`:
/// the caption of a date within a day of the creation's UTC date (see
/// [`near_day`] and [`STAMP_DATE_FORMAT`]), a space, then the time of day.
pub open spec fn stamp_of_creation(created_at_unix_ms: int, stamp: Seq<char>) -> bool {
    exists|day: i32, time: Seq<char>|
        #![trigger date_text(day, STAMP_DATE_FORMAT@), stamp_time(stamp, time)]
        near_day(day as int, created_at_unix_ms) && date_text(day, STAMP_DATE_FORMAT@) is Some && stamp_time(stamp, time)
            && stamp == date_text(day, STAMP_DATE_FORMAT@)->Some_0 + " "@ + time
}

/// Whether `time` is the part of `stamp` after its date and space.
pub open spec fn stamp_time(stamp: Seq<char>, time: Seq<char>) -> bool {
    time.len() <= stamp.len() && stamp.skip(stamp.len() - time.len()) == time
}

/// Law: a bundle's stamp names its creation date as some time zone reads
/// it: the stamp begins with the caption of a date on the creation's UTC
/// date or the day before or after it, never a date further away.
pub proof fn lemma_stamp_names_the_creation_date(created_at_unix_ms: int, stamp: Seq<char>)
    requires
        stamp_of_creation(created_at_unix_ms, stamp),
    ensures
        exists|day: i32|
            #![trigger date_text(day, STAMP_DATE_FORMAT@)]
            utc_day(created_at_unix_ms) - 1 <= day <= utc_day(created_at_unix_ms) + 1 && date_text(day, STAMP_DATE_FORMAT@)
                is Some && stamp.take(date_text(day, STAMP_DATE_FORMAT@)->Some_0.len() as int) == date_text(
                day,
                STAMP_DATE_FORMAT@,
            )->Some_0,
{
    let (day, time) = choose|day: i32, time: Seq<char>|
        #![trigger date_text(day, STAMP_DATE_FORMAT@), stamp_time(stamp, time)]
        near_day(day as int, created_at_unix_ms) && date_text(day, STAMP_DATE_FORMAT@) is Some && stamp_time(stamp, time)
            && stamp == date_text(day, STAMP_DATE_FORMAT@)->Some_0 + " "@ + time;
    let date = date_text(day, STAMP_DATE_FORMAT@)->Some_0;
    assert(stamp.take(date.len() as int) =~= date);
}

/// The time stamp of a bundle created at `created_at_unix_ms`, in the
/// machine's time zone (see [`STAMP_FORMAT`] and [`stamp_of_creation`]);
/// `None` for a time past `i64` or one chrono cannot represent.
pub fn display_stamp(created_at_unix_ms: u64) -> (r: Option<String>)
    ensures
        created_at_unix_ms > i64::MAX ==> r is None,
        r matches Some(s) ==> stamp_of_creation(created_at_unix_ms as int, s@),
{
    if created_at_unix_ms > i64::MAX as u64 {
        return None;
    }
    local_stamp(created_at_unix_ms as i64, STAMP_FORMAT)
}

/// A bundle's display name: `Encore Replay <stamp>`, followed by a space
/// and the suffix when the suffix is not 0.
pub open spec fn display_name_of(stamp: Seq<char>, suffix: u32) -> Seq<char> {
    if suffix == 0 {
        "Encore Replay "@ + stamp
    } else {
        "Encore Replay "@ + stamp + " "@ + decimal(suffix as nat)
    }
}

/// The display name for `stamp` and `suffix` (see [`display_name_of`]).
pub fn display_name_from(stamp: &str, suffix: u32) -> (r: String)
    ensures
        r@ == display_name_of(stamp@, suffix),
{
    let base = join_text("Encore Replay ", stamp);
    if suffix == 0 {
        base
    } else {
        let spaced = join_text(base.as_str(), " ");
        join_text(spaced.as_str(), u64_decimal(suffix as u64).as_str())
    }
}

/// The display name of a bundle created at `created_at_unix_ms`, stamped
/// with that time in the machine's time zone (see [`display_name_of`]); a
/// time chrono cannot represent fails with
/// `export_destination_unavailable`.
pub fn display_name(created_at_unix_ms: u64, suffix: u32) -> (r: Result<String, String>)
    ensures
        match r {
            Ok(n) => exists|stamp: Seq<char>| n@ == display_name_of(stamp, suffix) && stamp_of_creation(created_at_unix_ms as int, stamp),
            Err(e) => e@ == "export_destination_unavailable"@,
        },
        created_at_unix_ms > i64::MAX ==> r is Err,
{
    match display_stamp(created_at_unix_ms) {
        Some(stamp) => Ok(display_name_from(stamp.as_str(), suffix)),
        None => Err("export_destination_unavailable".to_string()),
    }
}

/// Whether every two segments whose capture source is known agree on it.
pub open spec fn sources_agree(s: Seq<LeasedSegment>) -> bool {
    forall|i: int, j: int|
        0 <= i < s.len() && 0 <= j < s.len() && (#[trigger] s[i]).source_id is Some && (#[trigger] s[j]).source_id is Some
            ==> s[i].source_id->0@ == s[j].source_id->0@
}

/// Whether the segments of a request can be packaged at all, before any
/// of them is probed: there is at least one, and their known sources agree.
pub open spec fn segments_packageable(s: Seq<LeasedSegment>) -> bool {
    s.len() > 0 && sources_agree(s)
}

fn known_sources_agree(segments: &Vec<LeasedSegment>) -> (r: bool)
    ensures
        r == sources_agree(segments@),
{
    let mut known: Option<usize> = None;
    let mut i: usize = 0;
    while i < segments.len()
        invariant
            i <= segments@.len(),
            match known {
                None => forall|k: int| 0 <= k < i ==> (#[trigger] segments@[k]).source_id is None,
                Some(f) => f < i && segments@[f as int].source_id is Some && forall|k: int|
                    0 <= k < i && (#[trigger] segments@[k]).source_id is Some ==> segments@[k].source_id->0@
                        == segments@[f as int].source_id->0@,
            },
        decreases segments@.len() - i,
    {
        match &segments[i].source_id {
            None => {},
            Some(candidate) => {
                match known {
                    None => {
                        known = Some(i);
                    },
                    Some(f) => {
                        let first = match &segments[f].source_id {
                            Some(s) => s,
                            None => return false,
                        };
                        if !crate::text::same_text(candidate.as_str(), first.as_str()) {
                            proof {
                                assert(segments@[i as int].source_id is Some && segments@[f as int].source_id is Some);
                            }
                            return false;
                        }
                    },
                }
            },
        }
        i = i + 1;
    }
    true
}

/// Whether two probed streams are the same: kind, codec, geometry and
/// pixel format.
pub open spec fn same_stream(a: BundleStreamDescription, b: BundleStreamDescription) -> bool {
    &&& a.kind@ == b.kind@
    &&& a.codec@ == b.codec@
    &&& a.width == b.width
    &&& a.height == b.height
    &&& match (a.pixel_format, b.pixel_format) {
        (None, None) => true,
        (Some(x), Some(y)) => x@ == y@,
        _ => false,
    }
}

/// Whether two probed files have the same streams, in the same order.
pub open spec fn same_media(a: BundleMediaDescription, b: BundleMediaDescription) -> bool {
    a.streams@.len() == b.streams@.len() && forall|i: int|
        0 <= i < a.streams@.len() ==> same_stream(#[trigger] a.streams@[i], b.streams@[i])
}

fn streams_equal(a: &BundleStreamDescription, b: &BundleStreamDescription) -> (r: bool)
    ensures
        r == same_stream(*a, *b),
{
    let pixel = match (&a.pixel_format, &b.pixel_format) {
        (None, None) => true,
        (Some(x), Some(y)) => crate::text::same_text(x.as_str(), y.as_str()),
        _ => false,
    };
    crate::text::same_text(a.kind.as_str(), b.kind.as_str()) && crate::text::same_text(a.codec.as_str(), b.codec.as_str())
        && a.width == b.width && a.height == b.height && pixel
}

/// Whether two probed files have the same streams (see [`same_media`]).
pub fn media_equal(a: &BundleMediaDescription, b: &BundleMediaDescription) -> (r: bool)
    ensures
        r == same_media(*a, *b),
{
    if a.streams.len() != b.streams.len() {
        return false;
    }
    let mut i: usize = 0;
    while i < a.streams.len()
        invariant
            i <= a.streams@.len(),
            a.streams@.len() == b.streams@.len(),
            forall|k: int| 0 <= k < i ==> same_stream(#[trigger] a.streams@[k], b.streams@[k]),
        decreases a.streams@.len() - i,
    {
        if !streams_equal(&a.streams[i], &b.streams[i]) {
            return false;
        }
        i = i + 1;
    }
    true
}

/// The error a failed probe is reported as.
pub open spec fn inspect_error(f: RunnerFailure) -> Seq<char> {
    match f {
        RunnerFailure::Unavailable => "export_ffmpeg_unavailable"@,
        RunnerFailure::Failed => "export_incompatible_segments"@,
    }
}

/// The error a failed concat is reported as.
pub open spec fn concat_error_of(f: RunnerFailure) -> Seq<char> {
    match f {
        RunnerFailure::Unavailable => "export_ffmpeg_unavailable"@,
        RunnerFailure::Failed => "export_concat_failed"@,
    }
}

/// Whether `r` is what a probe that answered `x` comes to: the description
/// as it came, or the failure's code (see [`inspect_error`]).
pub open spec fn inspected(r: Result<BundleMediaDescription, String>, x: Result<BundleMediaDescription, RunnerFailure>) -> bool {
    match x {
        Ok(d) => r == Ok::<BundleMediaDescription, String>(d),
        Err(f) => r is Err && r->Err_0@ == inspect_error(f),
    }
}

/// What a probe that answered `x` comes to (see [`inspected`]).
pub fn inspect_result(x: Result<BundleMediaDescription, RunnerFailure>) -> (r: Result<BundleMediaDescription, String>)
    ensures
        inspected(r, x),
{
    match x {
        Ok(d) => Ok(d),
        Err(RunnerFailure::Unavailable) => Err("export_ffmpeg_unavailable".to_string()),
        Err(RunnerFailure::Failed) => Err("export_incompatible_segments".to_string()),
    }
}

fn inspect<R: FfmpegRunner>(runner: &mut LoggedFfmpeg<R>, path: &str) -> (r: Result<BundleMediaDescription, String>)
    ensures
        final(runner).probes() == old(runner).probes().push(path@),
        final(runner).probe_answers().len() == old(runner).probe_answers().len() + 1,
        final(runner).probe_answers() == old(runner).probe_answers().push(final(runner).probe_answers().last()),
        inspected(r, final(runner).probe_answers().last()),
        final(runner).concats() == old(runner).concats(),
        r is Err ==> r->Err_0@ == "export_ffmpeg_unavailable"@ || r->Err_0@ == "export_incompatible_segments"@,
{
    inspect_result(runner.inspect(path))
}

/// Whether a probed file is a supported H.264 video: exactly one video
/// stream, usable as H.264 (see [`BundleMediaDescription::is_supported_h264_video`]).
pub open spec fn supported_h264(d: BundleMediaDescription) -> bool {
    video_streams(d.streams@).len() == 1 && is_usable_h264(video_streams(d.streams@)[0])
}

/// Whether the probe answer `a[k]` of segment `k` passes: the first is a
/// supported H.264 video, any other has the first one's streams.
pub open spec fn probe_passes(a: Seq<Result<BundleMediaDescription, RunnerFailure>>, k: int) -> bool {
    if k == 0 {
        a[0] is Ok && supported_h264(a[0]->Ok_0)
    } else {
        a[k] is Ok && a[0] is Ok && same_media(a[k]->Ok_0, a[0]->Ok_0)
    }
}

/// Whether the probe answers `a` of `n` segments, in lease order, allow
/// stream-copying them: there is one for each segment and each passes
/// (see [`probe_passes`]).
pub open spec fn probes_pass(a: Seq<Result<BundleMediaDescription, RunnerFailure>>, n: nat) -> bool {
    &&& a.len() == n
    &&& forall|k: int| 0 <= k < n ==> #[trigger] probe_passes(a, k)
}

/// Whether probing, with answers `a`, stopped at the first segment whose
/// answer does not pass, the `m`th: all before it passed.
pub open spec fn stopped_at_first_failure(a: Seq<Result<BundleMediaDescription, RunnerFailure>>, m: int) -> bool {
    &&& 1 <= m == a.len()
    &&& !probe_passes(a, m - 1)
    &&& forall|k: int| 0 <= k < m - 1 ==> #[trigger] probe_passes(a, k)
}

/// The code that a probe answer that does not pass fails with: the
/// prober's failure's (see [`inspect_error`]), or
/// `export_incompatible_segments` for streams that do not fit.
pub open spec fn probe_failure_code(x: Result<BundleMediaDescription, RunnerFailure>) -> Seq<char> {
    match x {
        Err(f) => inspect_error(f),
        Ok(_) => "export_incompatible_segments"@,
    }
}

/// The answers of the probes made through `after` since it was `before`.
pub open spec fn fresh_answers<R: FfmpegRunner>(before: LoggedFfmpeg<R>, after: LoggedFfmpeg<R>) -> Seq<
    Result<BundleMediaDescription, RunnerFailure>,
> {
    after.probe_answers().skip(before.probe_answers().len() as int)
}

/// Checks that the request's segments can be stream-copied into one file:
/// there is at least one, their known sources agree, the first is a
/// supported H.264 video, and every other one probes the same. A request
/// that fails before probing (see [`segments_packageable`]) fails with
/// `export_incompatible_segments` without running the prober; a probe
/// that cannot start fails with `export_ffmpeg_unavailable`.
pub fn validate_inputs<R: FfmpegRunner>(runner: &mut LoggedFfmpeg<R>, request: &PackageRequest) -> (r: Result<(), String>)
    ensures
        !segments_packageable(request.lease.segments@) ==> err_text(r) == Some("export_incompatible_segments"@),
        final(runner).concats() == old(runner).concats(),
        final(runner).probe_answers().take(old(runner).probe_answers().len() as int) == old(runner).probe_answers(),
        r is Ok <==> segments_packageable(request.lease.segments@) && probes_pass(
            fresh_answers(*old(runner), *final(runner)),
            request.lease.segments@.len(),
        ),
        exists|m: int|
            0 <= m <= request.lease.segments@.len() && final(runner).probes() == old(runner).probes() + #[trigger] segment_paths(
                request.lease.segments@,
            ).take(m) && fresh_answers(*old(runner), *final(runner)).len() == m && (r is Ok ==> m
                == request.lease.segments@.len()) && (!segments_packageable(request.lease.segments@) ==> m == 0) && (r is Err
                && segments_packageable(request.lease.segments@) ==> stopped_at_first_failure(
                fresh_answers(*old(runner), *final(runner)),
                m,
            ) && r->Err_0@ == probe_failure_code(fresh_answers(*old(runner), *final(runner))[m - 1])),
        r is Err ==> r->Err_0@ == "export_incompatible_segments"@ || r->Err_0@ == "export_ffmpeg_unavailable"@,
{
    let segments = &request.lease.segments;
    let ghost s = segments@;
    let ghost paths = segment_paths(s);
    let ghost before = old(runner).probes();
    let ghost answers0 = old(runner).probe_answers();
    proof {
        assert(before + paths.take(0) =~= before);
        assert(runner.probe_answers().skip(answers0.len() as int) =~= Seq::<Result<BundleMediaDescription, RunnerFailure>>::empty());
        assert(runner.probe_answers().take(answers0.len() as int) =~= answers0);
    }
    if segments.len() == 0 {
        return Err("export_incompatible_segments".to_string());
    }
    if !known_sources_agree(segments) {
        return Err("export_incompatible_segments".to_string());
    }
    let first = inspect(runner, segments[0].path.as_str());
    let ghost fresh = runner.probe_answers().skip(answers0.len() as int);
    proof {
        assert(fresh =~= seq![runner.probe_answers().last()]);
        assert(runner.probes() =~= before + paths.take(1));
        assert(runner.probe_answers().take(answers0.len() as int) =~= answers0);
    }
    let expected = match first {
        Ok(d) => d,
        Err(e) => {
            assert(!probe_passes(fresh, 0));
            return Err(e);
        },
    };
    if !expected.is_supported_h264_video() {
        assert(!probe_passes(fresh, 0));
        return Err("export_incompatible_segments".to_string());
    }
    let mut i: usize = 1;
    while i < segments.len()
        invariant
            1 <= i <= segments@.len(),
            segments@ == request.lease.segments@,
            s == segments@,
            paths == segment_paths(s),
            before == old(runner).probes(),
            answers0 == old(runner).probe_answers(),
            segments_packageable(request.lease.segments@),
            runner.concats() == old(runner).concats(),
            runner.probes() == before + paths.take(i as int),
            runner.probe_answers().take(answers0.len() as int) == answers0,
            runner.probe_answers().len() == answers0.len() + i,
            fresh_answers(*old(runner), *runner)[0] == Ok::<BundleMediaDescription, RunnerFailure>(expected),
            supported_h264(expected),
            forall|k: int| 0 <= k < i ==> #[trigger] probe_passes(fresh_answers(*old(runner), *runner), k),
        decreases segments@.len() - i,
    {
        let ghost prev = runner.probe_answers();
        let next = inspect(runner, segments[i].path.as_str());
        let ghost now = fresh_answers(*old(runner), *runner);
        proof {
            assert(runner.probes() =~= before + paths.take(i + 1));
            assert(runner.probe_answers().take(answers0.len() as int) =~= answers0);
            assert(now =~= prev.skip(answers0.len() as int).push(runner.probe_answers().last()));
            assert forall|k: int| 0 <= k < i implies #[trigger] probe_passes(now, k) by {
                assert(now[k] == prev.skip(answers0.len() as int)[k]);
                assert(now[0] == prev.skip(answers0.len() as int)[0]);
                assert(probe_passes(prev.skip(answers0.len() as int), k));
            }
        }
        let actual = match next {
            Ok(d) => d,
            Err(e) => {
                assert(!probe_passes(now, i as int));
                return Err(e);
            },
        };
        if !media_equal(&actual, &expected) {
            assert(!probe_passes(now, i as int));
            return Err("export_incompatible_segments".to_string());
        }
        i = i + 1;
    }
    proof {
        assert(paths.take(s.len() as int) =~= paths);
    }
    Ok(())
}

/// The paths of the segments, in lease order.
pub open spec fn segment_paths(s: Seq<LeasedSegment>) -> Seq<Seq<char>> {
    s.map_values(|x: LeasedSegment| x.path@)
}

/// The concat manifest of a request: its segments' paths in lease order
/// (see [`manifest_of`]).
pub fn concat_manifest(request: &PackageRequest) -> (r: String)
    ensures
        r@ == manifest_of(segment_paths(request.lease.segments@)),
{
    let segments = &request.lease.segments;
    let mut paths: Vec<String> = Vec::new();
    let mut i: usize = 0;
    while i < segments.len()
        invariant
            i <= segments@.len(),
            paths@.len() == i,
            forall|k: int| 0 <= k < i ==> (#[trigger] paths@[k])@ == segments@[k].path@,
        decreases segments@.len() - i,
    {
        paths.push(segments[i].path.clone());
        i = i + 1;
    }
    let r = manifest_text(&paths);
    proof {
        assert(paths@.map_values(|p: String| p@) =~= segment_paths(segments@));
    }
    r
}

/// Whether `e` is one of the codes writing a bundle fails with.
pub open spec fn is_bundle_write_error(e: Seq<char>) -> bool {
    e == "export_destination_unavailable"@ || e == "export_ffmpeg_unavailable"@ || e == "export_concat_failed"@
        || e == "export_metadata_failed"@
}

/// What writing a bundle comes to for what the disk and the concat
/// answered, step by step: writing the manifest, the concat, removing the
/// manifest, the video's length, syncing the video, writing the metadata,
/// syncing the directory. The first step that fails decides the error.
pub open spec fn bundle_write_outcome(
    manifest_written: bool,
    concat: Result<(), RunnerFailure>,
    manifest_removed: bool,
    video_len: Option<u64>,
    video_synced: bool,
    metadata_written: bool,
    dir_synced: bool,
) -> Result<(), Seq<char>> {
    if !manifest_written {
        Err("export_destination_unavailable"@)
    } else if concat is Err {
        Err(concat_error_of(concat->Err_0))
    } else if !manifest_removed {
        Err("export_destination_unavailable"@)
    } else if video_len is None || video_len == Some(0u64) {
        Err("export_concat_failed"@)
    } else if !video_synced {
        Err("export_destination_unavailable"@)
    } else if !metadata_written {
        Err("export_metadata_failed"@)
    } else if !dir_synced {
        Err("export_destination_unavailable"@)
    } else {
        Ok(())
    }
}

/// What writing a bundle comes to for the answers of the disk and the
/// concat (see [`bundle_write_outcome`]).
pub fn bundle_write_result(
    manifest_written: bool,
    concat: Result<(), RunnerFailure>,
    manifest_removed: bool,
    video_len: Option<u64>,
    video_synced: bool,
    metadata_written: bool,
    dir_synced: bool,
) -> (r: Result<(), String>)
    ensures
        unit_view(r) == bundle_write_outcome(
            manifest_written,
            concat,
            manifest_removed,
            video_len,
            video_synced,
            metadata_written,
            dir_synced,
        ),
{
    if !manifest_written {
        Err("export_destination_unavailable".to_string())
    } else if let Err(f) = concat {
        match f {
            RunnerFailure::Unavailable => Err("export_ffmpeg_unavailable".to_string()),
            RunnerFailure::Failed => Err("export_concat_failed".to_string()),
        }
    } else if !manifest_removed {
        Err("export_destination_unavailable".to_string())
    } else if video_len.is_none() || video_len == Some(0u64) {
        Err("export_concat_failed".to_string())
    } else if !video_synced {
        Err("export_destination_unavailable".to_string())
    } else if !metadata_written {
        Err("export_metadata_failed".to_string())
    } else if !dir_synced {
        Err("export_destination_unavailable".to_string())
    } else {
        Ok(())
    }
}

/// Whether `call`, the `i`th filesystem call of writing a bundle into
/// `workspace`, is that step: writing the concat manifest with `manifest`,
/// removing it once the concat ran, reading the video's length, syncing
/// the video, writing `metadata.json` with `metadata`, syncing the folder.
pub open spec fn bundle_step(i: int, call: FsCall, workspace: Seq<char>, manifest: Seq<u8>, metadata: Seq<u8>) -> bool {
    let m = path_join(workspace, "concat.txt"@);
    let v = path_join(workspace, REPLAY_FILENAME@);
    if i == 0 {
        call matches FsCall::WriteSynced { path, bytes, .. } && path == m && bytes == manifest
    } else if i == 1 {
        call matches FsCall::RemoveFile { path, .. } && path == m
    } else if i == 2 {
        call matches FsCall::FileLen { path, .. } && path == v
    } else if i == 3 {
        call matches FsCall::SyncFile { path, .. } && path == v
    } else if i == 4 {
        call matches FsCall::WriteSynced { path, bytes, .. } && path == path_join(workspace, METADATA_FILENAME@) && bytes
            == metadata
    } else if i == 5 {
        call matches FsCall::SyncDir { path, .. } && path == workspace
    } else {
        false
    }
}

/// The length of the video as the `calls` of writing a bundle read it;
/// a length not read yet counts as not empty.
pub open spec fn logged_len(calls: Seq<FsCall>) -> Option<u64> {
    if calls.len() > 2 {
        match calls[2] {
            FsCall::FileLen { answer, .. } => match answer {
                Ok(n) => Some(n),
                Err(_) => None,
            },
            _ => None,
        }
    } else {
        Some(1u64)
    }
}

/// Whether the `i`th step of writing a bundle succeeded, as `calls` show
/// it: its call succeeded (for the video's length: read and not 0); a
/// step not reached counts as succeeding.
pub open spec fn bundle_step_ok(calls: Seq<FsCall>, i: int) -> bool {
    if i >= calls.len() {
        true
    } else if i == 2 {
        logged_len(calls) is Some && logged_len(calls) != Some(0u64)
    } else {
        call_ok(calls[i])
    }
}

/// Whether `calls` and `concats`, the filesystem calls and the concats of
/// writing a bundle into `workspace`, and its result `r` fit together: the
/// steps are made in order (see [`bundle_step`]), each only when the ones
/// before it succeeded; the one concat, of `concat.txt` into `replay.mp4`,
/// runs after the manifest is written; and `r` is what the answers come to
/// (see [`bundle_write_outcome`]), so the first failing step decides the
/// error.
pub open spec fn bundle_write_trace(
    calls: Seq<FsCall>,
    concats: Seq<(Seq<char>, Seq<char>, Result<(), RunnerFailure>)>,
    workspace: Seq<char>,
    manifest: Seq<u8>,
    metadata: Seq<u8>,
    r: Result<(), Seq<char>>,
) -> bool {
    let concat = if concats.len() > 0 {
        concats[0].2
    } else {
        Ok(())
    };
    &&& 1 <= calls.len() <= 6
    &&& forall|i: int| 0 <= i < calls.len() ==> #[trigger] bundle_step(i, calls[i], workspace, manifest, metadata)
    &&& forall|i: int| 0 <= i < calls.len() - 1 ==> #[trigger] bundle_step_ok(calls, i)
    &&& concats.len() == (if bundle_step_ok(calls, 0) { 1int } else { 0int })
    &&& concats.len() == 1 ==> concats[0].0 == path_join(workspace, "concat.txt"@) && concats[0].1 == path_join(
        workspace,
        REPLAY_FILENAME@,
    )
    &&& calls.len() > 1 ==> concat is Ok
    &&& calls.len() < 6 ==> !bundle_step_ok(calls, calls.len() - 1) || concat is Err
    &&& r == bundle_write_outcome(
        bundle_step_ok(calls, 0),
        concat,
        bundle_step_ok(calls, 1),
        logged_len(calls),
        bundle_step_ok(calls, 3),
        bundle_step_ok(calls, 4),
        bundle_step_ok(calls, 5),
    )
}

/// The bytes of the concat manifest of `segments`: the UTF-8 encoding of
/// the manifest listing their paths in lease order (see [`manifest_of`]).
pub open spec fn manifest_bytes(segments: Seq<LeasedSegment>) -> Seq<u8> {
    vstd::utf8::encode_utf8(manifest_of(segment_paths(segments)))
}

/// Whether a bundle was written into `workspace` with result `r`, the
/// filesystem's log going from `before` to `after` and the concats from
/// `concats_before` to `concats_after` (see [`bundle_write_trace`]).
pub open spec fn bundle_wrote(
    before: Seq<FsCall>,
    after: Seq<FsCall>,
    concats_before: Seq<(Seq<char>, Seq<char>, Result<(), RunnerFailure>)>,
    concats_after: Seq<(Seq<char>, Seq<char>, Result<(), RunnerFailure>)>,
    workspace: Seq<char>,
    manifest: Seq<u8>,
    metadata: Seq<u8>,
    r: Result<(), Seq<char>>,
) -> bool {
    &&& concats_after.take(concats_before.len() as int) == concats_before
    &&& bundle_write_trace(
        calls_since(before, after),
        concats_after.skip(concats_before.len() as int),
        workspace,
        manifest,
        metadata,
        r,
    )
}

/// Writes a packaged bundle into `workspace`: the concat manifest, the
/// concatenated `replay.mp4` (the manifest removed after), a check that
/// the video is not empty, and `metadata.json` holding `metadata`. Each
/// failure carries its stable code: `export_destination_unavailable` for
/// the disk, the concat's code (see [`concat_error_of`]),
/// `export_concat_failed` for an empty or unreadable video and
/// `export_metadata_failed` for the metadata.
pub fn write_bundle<R: FfmpegRunner, F: PackageFileSystem>(
    runner: &mut LoggedFfmpeg<R>,
    files: &mut LoggedFiles<F>,
    request: &PackageRequest,
    metadata: &[u8],
    workspace: &str,
) -> (r: Result<(), String>)
    ensures
        r is Err ==> is_bundle_write_error(r->Err_0@),
        extends(old(files).log(), final(files).log()),
        creates_none(final(files).log(), old(files).log().len() as int),
        final(runner).concats().take(old(runner).concats().len() as int) == old(runner).concats(),
        final(runner).probe_answers() == old(runner).probe_answers(),
        bundle_write_trace(
            calls_since(old(files).log(), final(files).log()),
            final(runner).concats().skip(old(runner).concats().len() as int),
            workspace@,
            manifest_bytes(request.lease.segments@),
            metadata@,
            unit_view(r),
        ),
{
    let ghost log0 = files.log();
    let ghost c0 = runner.concats();
    let ghost ms = manifest_bytes(request.lease.segments@);
    let manifest = join(workspace, "concat.txt");
    let text = concat_manifest(request);
    let bytes = text.as_str().as_bytes();
    assert(bytes@ == ms);
    let written = files.write_synced(manifest.as_str(), bytes);
    let ghost e0 = files.log().last();
    if written.is_err() {
        let r = bundle_write_result(false, Ok(()), true, Some(1), true, true, true);
        proof {
            assert(calls_since(log0, files.log()) =~= seq![e0]);
            assert(runner.concats().skip(c0.len() as int) =~= Seq::<(Seq<char>, Seq<char>, Result<(), RunnerFailure>)>::empty());
            assert(runner.concats().take(c0.len() as int) =~= c0);
        }
        return r;
    }
    let replay = join(workspace, REPLAY_FILENAME);
    let concat = runner.concat(manifest.as_str(), replay.as_str());
    let ghost cc = runner.concats().last();
    proof {
        assert(runner.concats().drop_last() =~= c0);
        assert(runner.concats().skip(c0.len() as int) =~= seq![cc]);
        assert(runner.concats().take(c0.len() as int) =~= c0);
    }
    if concat.is_err() {
        let r = bundle_write_result(true, concat, true, Some(1), true, true, true);
        proof {
            assert(calls_since(log0, files.log()) =~= seq![e0]);
        }
        return r;
    }
    let removed = files.remove_file(manifest.as_str());
    let ghost e1 = files.log().last();
    if removed.is_err() {
        let r = bundle_write_result(true, Ok(()), false, Some(1), true, true, true);
        proof {
            assert(calls_since(log0, files.log()) =~= seq![e0, e1]);
        }
        return r;
    }
    let len_answer = files.file_len(replay.as_str());
    let ghost e2 = files.log().last();
    let video_len = match len_answer {
        Ok(size) => Some(size),
        Err(_) => None,
    };
    if video_len.is_none() || video_len == Some(0u64) {
        let r = bundle_write_result(true, Ok(()), true, video_len, true, true, true);
        proof {
            assert(calls_since(log0, files.log()) =~= seq![e0, e1, e2]);
        }
        return r;
    }
    let synced_video = files.sync_file(replay.as_str());
    let ghost e3 = files.log().last();
    if synced_video.is_err() {
        let r = bundle_write_result(true, Ok(()), true, video_len, false, true, true);
        proof {
            assert(calls_since(log0, files.log()) =~= seq![e0, e1, e2, e3]);
        }
        return r;
    }
    let metadata_path = join(workspace, METADATA_FILENAME);
    let written_metadata = files.write_synced(metadata_path.as_str(), metadata);
    let ghost e4 = files.log().last();
    if written_metadata.is_err() {
        let r = bundle_write_result(true, Ok(()), true, video_len, true, false, true);
        proof {
            assert(calls_since(log0, files.log()) =~= seq![e0, e1, e2, e3, e4]);
        }
        return r;
    }
    let dir_synced = files.sync_dir(workspace).is_ok();
    let ghost e5 = files.log().last();
    let r = bundle_write_result(true, Ok(()), true, video_len, true, true, dir_synced);
    proof {
        assert(calls_since(log0, files.log()) =~= seq![e0, e1, e2, e3, e4, e5]);
    }
    r
}

/// Writing a bundle into a workspace names no path outside it.
proof fn lemma_bundle_stays_within(
    before: Seq<FsCall>,
    after: Seq<FsCall>,
    concats: Seq<(Seq<char>, Seq<char>, Result<(), RunnerFailure>)>,
    workspace: Seq<char>,
    manifest: Seq<u8>,
    metadata: Seq<u8>,
    r: Result<(), Seq<char>>,
)
    requires
        extends(before, after),
        workspace.len() > 0,
        workspace.last() != '/',
        bundle_write_trace(calls_since(before, after), concats, workspace, manifest, metadata, r),
    ensures
        stays_within(after, before.len() as int, workspace),
{
    reveal_strlit("concat.txt");
    reveal_strlit("replay.mp4");
    reveal_strlit("metadata.json");
    lemma_join_within(workspace, "concat.txt"@);
    lemma_join_within(workspace, REPLAY_FILENAME@);
    lemma_join_within(workspace, METADATA_FILENAME@);
    let calls = calls_since(before, after);
    assert forall|j: int| before.len() <= j < after.len() implies #[trigger] call_within(after[j], workspace) by {
        let i = j - before.len();
        assert(calls[i] == after[j]);
        assert(bundle_step(i, calls[i], workspace, manifest, metadata));
    }
}

/// Whether `log`, from `start` on, shows each display name with `stamp`
/// below `suffix` taken in `destination` (see [`shown_taken`]).
pub open spec fn display_names_taken_below(
    log: Seq<FsCall>,
    start: int,
    destination: Seq<char>,
    process_id: u32,
    stamp: Seq<char>,
    suffix: u32,
) -> bool {
    forall|k: u32| k < suffix ==> #[trigger] shown_taken(log, start, destination, display_name_of(stamp, k), process_id)
}

/// Whether the calls of `log` from index `a` to index `b` (with
/// `start <= a <= b`) wrote a bundle of `segments` holding `metadata` into
/// one of this process's workspaces for `name` in `destination`, with
/// result `r`, the concats going from `concats_before` to `concats_after`
/// (see [`bundle_wrote`]).
pub open spec fn bundle_in_workspace(
    log: Seq<FsCall>,
    start: int,
    a: int,
    b: int,
    concats_before: Seq<(Seq<char>, Seq<char>, Result<(), RunnerFailure>)>,
    concats_after: Seq<(Seq<char>, Seq<char>, Result<(), RunnerFailure>)>,
    destination: Seq<char>,
    name: Seq<char>,
    process_id: u32,
    nonce: u64,
    segments: Seq<LeasedSegment>,
    metadata: Seq<u8>,
    r: Result<(), Seq<char>>,
) -> bool {
    &&& start <= a <= b <= log.len()
    &&& bundle_wrote(
        log.take(a),
        log.take(b),
        concats_before,
        concats_after,
        path_join(destination, partial_name(name, process_id, nonce)),
        manifest_bytes(segments),
        metadata,
        r,
    )
}

/// Whether `log`, from `start` on, begins as packaging into `destination`
/// does once the inputs are valid: the destination is created; when that
/// fails nothing follows; else the calls up to some index `c` are a
/// cleanup of the destination (see [`cleanup_log`]), and when the cleanup
/// failed nothing follows it.
pub open spec fn packaging_begins(log: Seq<FsCall>, start: int, destination: Seq<char>, process_id: u32, failed: bool) -> bool {
    &&& start < log.len()
    &&& log[start] matches FsCall::CreateDirAll { path, .. } && path == destination
    &&& !call_ok(log[start]) ==> log.len() == start + 1 && failed
    &&& call_ok(log[start]) ==> exists|c: int|
        start + 1 < c <= log.len() && #[trigger] cleanup_log(log.take(c), start + 1, destination, process_id)
}

/// A replay bundle being published: named after its creation `stamp`.
struct ReplayBundleJob<'a> {
    request: &'a PackageRequest<'a>,
    metadata: &'a [u8],
    stamp: String,
}

impl<'a, F: PackageFileSystem, R: FfmpegRunner> BundleJob<F, LoggedFfmpeg<R>> for ReplayBundleJob<'a> {
    closed spec fn name_of(&self, suffix: u32) -> Result<Seq<char>, Seq<char>> {
        Ok(display_name_of(self.stamp@, suffix))
    }

    fn name(&self, suffix: u32) -> (r: Result<String, String>) {
        Ok(display_name_from(self.stamp.as_str(), suffix))
    }

    closed spec fn is_write_error(&self, e: Seq<char>) -> bool {
        is_bundle_write_error(e)
    }

    closed spec fn wrote(
        &self,
        before: Seq<FsCall>,
        after: Seq<FsCall>,
        tools_before: LoggedFfmpeg<R>,
        tools_after: LoggedFfmpeg<R>,
        workspace: Seq<char>,
        r: Result<(), Seq<char>>,
    ) -> bool {
        bundle_wrote(
            before,
            after,
            tools_before.concats(),
            tools_after.concats(),
            workspace,
            manifest_bytes(self.request.lease.segments@),
            self.metadata@,
            r,
        )
    }

    closed spec fn keeps(&self, before: LoggedFfmpeg<R>, after: LoggedFfmpeg<R>) -> bool {
        after.probe_answers() == before.probe_answers()
    }

    proof fn lemma_keeps_same(&self, tools: LoggedFfmpeg<R>) {
    }

    proof fn lemma_keeps_trans(&self, a: LoggedFfmpeg<R>, b: LoggedFfmpeg<R>, c: LoggedFfmpeg<R>) {
    }

    fn write(&self, tools: &mut LoggedFfmpeg<R>, files: &mut LoggedFiles<F>, workspace: &str) -> (r: Result<(), String>) {
        let ghost before = files.log();
        let ghost concats_before = tools.concats();
        let r = write_bundle(tools, files, self.request, self.metadata, workspace);
        proof {
            lemma_bundle_stays_within(
                before,
                files.log(),
                tools.concats().skip(concats_before.len() as int),
                workspace@,
                manifest_bytes(self.request.lease.segments@),
                self.metadata@,
                unit_view(r),
            );
        }
        r
    }
}

/// Packages leased segments into published bundles, in the destination
/// each request names.
pub struct ReplayPackager<R, F> {
    pub runner: LoggedFfmpeg<R>,
    pub files: LoggedFiles<F>,
    /// This process's id, carried by the names of its workspaces and locks.
    pub process_id: u32,
    /// The number of this process's next workspace.
    pub next_nonce: u64,
}

impl<R: FfmpegRunner, F: PackageFileSystem> ReplayPackager<R, F> {
    /// A packager working through `runner` and `files`, on behalf of
    /// process `process_id`.
    pub fn with_files(runner: R, files: F, process_id: u32) -> (r: Self)
        ensures
            r.process_id == process_id,
            r.next_nonce == 1,
    {
        ReplayPackager { runner: LoggedFfmpeg::new(runner), files: LoggedFiles::new(files), process_id, next_nonce: 1 }
    }

    /// Packages `request` into a new bundle in `destination`, read afresh
    /// by the caller for every export, whose
    /// `metadata.json` holds `metadata` (the serialised [`bundle_metadata`]
    /// of the request). The inputs are validated first (see
    /// [`validate_inputs`]); then the destination is created, the
    /// workspaces of dead exports are cleaned up (see
    /// [`cleanup_interrupted_workspaces`]), and the bundle is published
    /// under the first free display name (see [`publish`]). The saved
    /// replay records the request's id, that name, and the bundle's folder,
    /// video and metadata paths.
    #[verifier::spinoff_prover]
    #[verifier::rlimit(50)]
    pub fn package<P: ProcessTable>(
        &mut self,
        processes: &mut LoggedProcesses<P>,
        destination: &str,
        request: &PackageRequest,
        metadata: &[u8],
    ) -> (r: Result<
        SavedReplay,
        String,
    >)
        ensures
            !segments_packageable(request.lease.segments@) ==> err_text(r) == Some("export_incompatible_segments"@),
            match r {
                Ok(saved) => {
                    &&& segments_packageable(request.lease.segments@)
                    &&& probes_pass(fresh_answers(old(self).runner, final(self).runner), request.lease.segments@.len())
                    &&& saved.id@ == request.replay_id@
                    &&& exists|stamp: Seq<char>, suffix: u32|
                        suffix <= MAX_NAME_SUFFIX && #[trigger] display_name_of(stamp, suffix) == saved.display_name@
                            && display_names_taken_below(
                            final(self).files.log(),
                            old(self).files.log().len() as int,
                            destination@,
                            old(self).process_id,
                            stamp,
                            suffix,
                        ) && stamp_of_creation(request.created_at_unix_ms as int, stamp)
                    &&& ends_with_publication(final(self).files.log(), destination@, saved.display_name@, old(self).process_id)
                    &&& saved.bundle_directory@ == path_join(destination@, saved.display_name@)
                    &&& saved.replay_file@ == path_join(saved.bundle_directory@, REPLAY_FILENAME@)
                    &&& saved.metadata_file@ == path_join(saved.bundle_directory@, METADATA_FILENAME@)
                    &&& exists|a: int, concats_before: Seq<(Seq<char>, Seq<char>, Result<(), RunnerFailure>)>, nonce: u64|
                        #[trigger] bundle_in_workspace(
                            final(self).files.log(),
                            old(self).files.log().len() as int,
                            a,
                            final(self).files.log().len() - 4,
                            concats_before,
                            final(self).runner.concats(),
                            destination@,
                            saved.display_name@,
                            old(self).process_id,
                            nonce,
                            request.lease.segments@,
                            metadata@,
                            Ok(()),
                        ) && (final(self).files.log()[final(self).files.log().len() - 3] matches FsCall::Rename {
                            from,
                            ..
                        } && from == path_join(destination@, partial_name(saved.display_name@, old(self).process_id, nonce)))
                },
                Err(e) => {
                    ||| !(segments_packageable(request.lease.segments@) && probes_pass(fresh_answers(old(self).runner, final(self).runner), request.lease.segments@.len()))
                        && (e@ == "export_incompatible_segments"@ || e@ == "export_ffmpeg_unavailable"@)
                    ||| e@ == "export_destination_unavailable"@
                    ||| exists|
                        a: int,
                        b: int,
                        concats_before: Seq<(Seq<char>, Seq<char>, Result<(), RunnerFailure>)>,
                        name: Seq<char>,
                        nonce: u64,
                    |
                        #[trigger] bundle_in_workspace(
                            final(self).files.log(),
                            old(self).files.log().len() as int,
                            a,
                            b,
                            concats_before,
                            final(self).runner.concats(),
                            destination@,
                            name,
                            old(self).process_id,
                            nonce,
                            request.lease.segments@,
                            metadata@,
                            Err(e@),
                        )
                },
            },
            segments_packageable(request.lease.segments@) && probes_pass(fresh_answers(old(self).runner, final(self).runner), request.lease.segments@.len())
                ==> packaging_begins(
                final(self).files.log(),
                old(self).files.log().len() as int,
                destination@,
                old(self).process_id,
                r is Err,
            ),
            !(segments_packageable(request.lease.segments@) && probes_pass(fresh_answers(old(self).runner, final(self).runner), request.lease.segments@.len()))
                ==> final(self).files.log() == old(self).files.log(),
            !segments_packageable(request.lease.segments@) ==> final(self).runner.probes() == old(self).runner.probes(),
            extends(old(self).files.log(), final(self).files.log()),
            all_undone(final(self).files.log(), old(self).files.log().len() as int),
            visible_spared(final(self).files.log(), old(self).files.log().len() as int, destination@),
            final(self).process_id == old(self).process_id,
    {
        if let Err(e) = validate_inputs(&mut self.runner, request) {
            return Err(e);
        }
        let ghost start = self.files.log();
        let made = self.files.create_dir_all(destination);
        proof {
            lemma_undone_extends(start, self.files.log(), start.len() as int);
            lemma_spared_more(start, self.files.log(), start.len() as int, destination@);
        }
        if made.is_err() {
            return Err("export_destination_unavailable".to_string());
        }
        let ghost before_cleanup = self.files.log();
        let cleaned = cleanup_interrupted_workspaces(&mut self.files, processes, destination, self.process_id);
        let ghost after_cleanup = self.files.log();
        proof {
            assert(self.files.log().take(self.files.log().len() as int) =~= self.files.log());
            lemma_undone_extends(before_cleanup, self.files.log(), start.len() as int);
            crate::packager::files::lemma_extends_trans(start, before_cleanup, self.files.log());
            lemma_cleanup_spared(self.files.log(), before_cleanup.len() as int, destination@, self.process_id);
            lemma_spared_extend(before_cleanup, self.files.log(), start.len() as int, destination@);
        }
        if let Err(e) = cleaned {
            return Err(e);
        }
        let stamp = match display_stamp(request.created_at_unix_ms) {
            Some(s) => s,
            None => return Err("export_destination_unavailable".to_string()),
        };
        let job = ReplayBundleJob {
            request,
            metadata,
            stamp,
        };
        let mut nonce = self.next_nonce;
        let ghost before_publish = self.files.log();
        let published = publish(&mut self.files, destination, self.process_id, &mut nonce, &job, &mut self.runner);
        self.next_nonce = nonce;
        proof {
            assert(self.files.log().take(after_cleanup.len() as int) =~= after_cleanup);
            assert(packaging_begins(self.files.log(), start.len() as int, destination@, self.process_id, true)) by {
                assert(cleanup_log(self.files.log().take(after_cleanup.len() as int), start.len() + 1int, destination@, self.process_id));
            }
            crate::packager::files::lemma_extends_trans(start, before_publish, self.files.log());
            lemma_undone_concat(before_publish, self.files.log(), start.len() as int);
            lemma_spared_extend(before_publish, self.files.log(), start.len() as int, destination@);
        }
        let (display_name, bundle_directory) = match published {
            Ok(p) => p,
            Err(e) => {
                proof {
                    if e@ != "export_destination_unavailable"@ {
                        assert(forall|k: u32| BundleJob::<F, LoggedFfmpeg<R>>::name_of(&job, k) is Ok);
                        let (a, b, t0, name, n0) = choose|a: int, b: int, t0: LoggedFfmpeg<R>, name: Seq<char>, n0: u64|
                            #[trigger] crate::packager::publish::wrote_workspace::<F, LoggedFfmpeg<R>, ReplayBundleJob>(
                                &job,
                                self.files.log(),
                                before_publish.len() as int,
                                a,
                                b,
                                t0,
                                self.runner,
                                destination@,
                                name,
                                self.process_id,
                                n0,
                                Err(e@),
                            );
                        assert(bundle_in_workspace(
                            self.files.log(),
                            start.len() as int,
                            a,
                            b,
                            t0.concats(),
                            self.runner.concats(),
                            destination@,
                            name,
                            self.process_id,
                            n0,
                            request.lease.segments@,
                            metadata@,
                            Err(e@),
                        ));
                    }
                }
                return Err(e);
            },
        };
        let ghost suffix = choose|suffix: u32|
                suffix <= MAX_NAME_SUFFIX && #[trigger] BundleJob::<F, LoggedFfmpeg<R>>::name_of(&job, suffix) == Ok::<Seq<char>, Seq<char>>(display_name@)
                    && taken_below::<F, LoggedFfmpeg<R>, ReplayBundleJob>(&job, self.files.log(), before_publish.len() as int, destination@, self.process_id, suffix);
        proof {
            assert(display_name_of(job.stamp@, suffix) == display_name@);
            assert forall|k: u32| k < suffix implies #[trigger] shown_taken(
                self.files.log(),
                start.len() as int,
                destination@,
                display_name_of(job.stamp@, k),
                self.process_id,
            ) by {
                assert(BundleJob::<F, LoggedFfmpeg<R>>::name_of(&job, k) is Ok);
                let i = choose|i: int|
                    before_publish.len() <= i < self.files.log().len() && #[trigger] crate::packager::publish::shows_taken(
                        self.files.log()[i],
                        destination@,
                        display_name_of(job.stamp@, k),
                        self.process_id,
                    );
                assert(start.len() <= before_publish.len());
            }
            assert(display_names_taken_below(self.files.log(), start.len() as int, destination@, self.process_id, job.stamp@, suffix));
        }
        let replay_file = join(bundle_directory.as_str(), REPLAY_FILENAME);
        let metadata_file = join(bundle_directory.as_str(), METADATA_FILENAME);
        proof {
            assert(ends_with_publication(self.files.log(), destination@, display_name@, self.process_id));
            let (a, t0, n0) = choose|a: int, t0: LoggedFfmpeg<R>, n0: u64|
                #[trigger] crate::packager::publish::wrote_workspace::<F, LoggedFfmpeg<R>, ReplayBundleJob>(
                    &job,
                    self.files.log(),
                    before_publish.len() as int,
                    a,
                    self.files.log().len() - 4,
                    t0,
                    self.runner,
                    destination@,
                    display_name@,
                    self.process_id,
                    n0,
                    Ok(()),
                ) && (self.files.log()[self.files.log().len() - 3] matches FsCall::Rename { from, .. } && from == path_join(
                    destination@,
                    partial_name(display_name@, self.process_id, n0),
                ));
            assert(bundle_in_workspace(
                self.files.log(),
                start.len() as int,
                a,
                self.files.log().len() - 4,
                t0.concats(),
                self.runner.concats(),
                destination@,
                display_name@,
                self.process_id,
                n0,
                request.lease.segments@,
                metadata@,
                Ok(()),
            ));
        }
        Ok(SavedReplay {
            id: request.replay_id.to_string(),
            display_name,
            bundle_directory,
            replay_file,
            metadata_file,
        })
    }
}

} // verus!
