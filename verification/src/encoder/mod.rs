//! Frame timing for the segment encoder: turning capture timestamps into a
//! strictly increasing per-segment media clock, and deciding where one
//! segment must end and the next begin.
pub mod worker;

use vstd::prelude::*;

verus! {

/// Length of one rolling segment, in microseconds.
pub const SEGMENT_MICROS: i64 = 10_000_000;

/// A jump between two consecutive frame clocks larger than this (either way)
/// is treated as a discontinuity (a sleep/wake gap or a clock reset).
pub const DISCONTINUITY_MICROS: i64 = 2_000_000;

/// Why a segment ended.
#[derive(Debug, Clone, Copy, PartialEq, Eq, Structural)]
pub enum SegmentBoundary {
    SourceChanged,
    GeometryChanged,
    ClockDiscontinuity,
    Duration,
    CaptureEnded,
}

/// The timing the encoder gives one captured frame.
#[derive(Debug, Clone, PartialEq, Eq)]
pub struct FrameStamp {
    /// Presentation time inside the current segment.
    pub media_micros: i64,
    /// Arrival time since the capture session began.
    pub session_micros: u64,
    /// Set when this frame opens a new segment, saying why the previous one
    /// ended.
    pub boundary: Option<SegmentBoundary>,
}

/// Commands the capture pipeline sends to the encoder worker.
#[derive(Debug, Clone, Copy, PartialEq, Eq, Structural)]
pub enum EncoderCommand {
    /// Finish the active segment and report that the encoder stopped.
    Stop,
    /// Finish the active segment and ignore frames from now on.
    Halt,
}

/// The per-segment media clock of the encoder.
pub struct Timeline {
    source_id: Option<String>,
    geometry: Option<(u32, u32)>,
    last_clock_micros: Option<i64>,
    segment_clock_start: i64,
    segment_session_start: u64,
    last_media_micros: i64,
}

/// The abstract state of a [`Timeline`].
pub struct TimelineModel {
    /// Source of the segment in progress; `None` before the first frame.
    pub source_id: Option<Seq<char>>,
    /// Encoded geometry of the segment in progress.
    pub geometry: Option<(u32, u32)>,
    /// Capture clock of the previous frame.
    pub last_clock_micros: Option<i64>,
    /// Capture clock of the segment's first frame.
    pub segment_clock_start: i64,
    /// Session arrival time of the segment's first frame.
    pub segment_session_start: u64,
    /// Media time given to the previous frame.
    pub last_media_micros: i64,
}

impl View for Timeline {
    type V = TimelineModel;

    closed spec fn view(&self) -> TimelineModel {
        TimelineModel {
            source_id: match &self.source_id {
                Some(s) => Some(s@),
                None => None,
            },
            geometry: self.geometry,
            last_clock_micros: self.last_clock_micros,
            segment_clock_start: self.segment_clock_start,
            segment_session_start: self.segment_session_start,
            last_media_micros: self.last_media_micros,
        }
    }
}

/// A timeline that has seen no frame yet.
pub open spec fn fresh_timeline() -> TimelineModel {
    TimelineModel {
        source_id: None,
        geometry: None,
        last_clock_micros: None,
        segment_clock_start: 0,
        segment_session_start: 0,
        last_media_micros: 0,
    }
}

/// `x` clamped into the range of `i64`, as the saturating operations of
/// `i64` compute.
pub open spec fn saturate(x: int) -> i64 {
    if x > i64::MAX {
        i64::MAX
    } else if x < i64::MIN {
        i64::MIN
    } else {
        x as i64
    }
}

/// A presentation timestamp `value / timescale` seconds in microseconds,
/// rounded toward zero; `None` when the timestamp is missing (negative
/// value or non-positive timescale) or does not fit in `i64`.
pub open spec fn pts_micros_of(value: i64, timescale: i32) -> Option<i64> {
    if value < 0 || timescale <= 0 {
        None
    } else if (value as int * 1_000_000) / (timescale as int) <= i64::MAX {
        Some(((value as int * 1_000_000) / (timescale as int)) as i64)
    } else {
        None
    }
}

/// The capture clock of a frame: its presentation timestamp, or its arrival
/// time (clamped into `i64`) when the timestamp is missing.
pub open spec fn frame_clock(value: i64, timescale: i32, arrival_micros: u64) -> i64 {
    match pts_micros_of(value, timescale) {
        Some(m) => m,
        None => if arrival_micros <= i64::MAX { arrival_micros as i64 } else { i64::MAX },
    }
}

/// Whether a frame with clock `candidate` from `source`/`geometry` ends the
/// segment in progress, and why. The checks apply in order: source, then
/// geometry, then a clock jump of more than [`DISCONTINUITY_MICROS`], then a
/// segment reaching [`SEGMENT_MICROS`].
pub open spec fn boundary_for(
    m: TimelineModel,
    source: Seq<char>,
    geometry: (u32, u32),
    candidate: i64,
) -> Option<SegmentBoundary> {
    match m.source_id {
        None => None,
        Some(current) => if current != source {
            Some(SegmentBoundary::SourceChanged)
        } else if m.geometry != Some(geometry) {
            Some(SegmentBoundary::GeometryChanged)
        } else {
            match m.last_clock_micros {
                None => None,
                Some(previous) => {
                    let delta = saturate(candidate - previous);
                    if delta > DISCONTINUITY_MICROS || delta < -DISCONTINUITY_MICROS {
                        Some(SegmentBoundary::ClockDiscontinuity)
                    } else if saturate(candidate - m.segment_clock_start) >= SEGMENT_MICROS {
                        Some(SegmentBoundary::Duration)
                    } else {
                        None
                    }
                },
            }
        },
    }
}

/// Whether a frame opens a new segment: the first frame ever, or any frame
/// that crosses a boundary.
pub open spec fn opens_segment(
    m: TimelineModel,
    source: Seq<char>,
    geometry: (u32, u32),
    candidate: i64,
) -> bool {
    boundary_for(m, source, geometry, candidate) is Some || m.source_id is None
}

/// The media time a frame gets: its clock measured from the segment's first
/// frame, bumped to one past the previous frame's media time whenever it
/// would not move forward (duplicate or slightly regressed timestamps).
pub open spec fn media_time(
    m: TimelineModel,
    source: Seq<char>,
    geometry: (u32, u32),
    candidate: i64,
) -> i64 {
    let opens = opens_segment(m, source, geometry, candidate);
    let start = if opens { candidate } else { m.segment_clock_start };
    let last = if opens { 0i64 } else { m.last_media_micros };
    let raw = saturate(candidate - start);
    if raw <= last && m.last_clock_micros is Some {
        saturate(last + 1)
    } else {
        raw
    }
}

/// The timeline after observing a frame.
pub open spec fn after_frame(
    m: TimelineModel,
    source: Seq<char>,
    geometry: (u32, u32),
    candidate: i64,
    arrival_micros: u64,
) -> TimelineModel {
    let opens = opens_segment(m, source, geometry, candidate);
    TimelineModel {
        source_id: if opens { Some(source) } else { m.source_id },
        geometry: if opens { Some(geometry) } else { m.geometry },
        last_clock_micros: Some(candidate),
        segment_clock_start: if opens { candidate } else { m.segment_clock_start },
        segment_session_start: if opens { arrival_micros } else { m.segment_session_start },
        last_media_micros: media_time(m, source, geometry, candidate),
    }
}

fn saturating_sub_i64(a: i64, b: i64) -> (r: i64)
    ensures
        r == saturate(a - b),
{
    let d: i128 = a as i128 - b as i128;
    if d > i64::MAX as i128 {
        i64::MAX
    } else if d < i64::MIN as i128 {
        i64::MIN
    } else {
        d as i64
    }
}

fn saturating_add_i64(a: i64, b: i64) -> (r: i64)
    ensures
        r == saturate(a + b),
{
    let d: i128 = a as i128 + b as i128;
    if d > i64::MAX as i128 {
        i64::MAX
    } else if d < i64::MIN as i128 {
        i64::MIN
    } else {
        d as i64
    }
}

/// A frame's presentation timestamp in microseconds (see
/// [`pts_micros_of`]).
pub fn pts_micros(value: i64, timescale: i32) -> (r: Option<i64>)
    ensures
        r == pts_micros_of(value, timescale),
{
    if value < 0 || timescale <= 0 {
        return None;
    }
    assert(0 <= value as int * 1_000_000 <= i64::MAX as int * 1_000_000) by (nonlinear_arith)
        requires
            0 <= value <= i64::MAX,
    ;
    let product: i128 = value as i128 * 1_000_000;
    let micros: i128 = product / (timescale as i128);
    if micros > i64::MAX as i128 {
        None
    } else {
        Some(micros as i64)
    }
}

impl Timeline {
    /// A timeline that has seen no frame yet.
    pub fn new() -> (t: Timeline)
        ensures
            t@ == fresh_timeline(),
    {
        Timeline {
            source_id: None,
            geometry: None,
            last_clock_micros: None,
            segment_clock_start: 0,
            segment_session_start: 0,
            last_media_micros: 0,
        }
    }

    /// Stamps one frame. The frame's clock is its presentation timestamp,
    /// or its arrival time when that is missing; the frame opens a new
    /// segment on the first frame or at a boundary (see [`boundary_for`]),
    /// and its media time is measured from the segment's first frame and
    /// forced to move strictly forward (see [`media_time`]).
    pub fn observe(
        &mut self,
        source_id: &str,
        geometry: (u32, u32),
        pts_value: i64,
        pts_timescale: i32,
        arrival_micros: u64,
    ) -> (stamp: FrameStamp)
        ensures
            ({
                let candidate = frame_clock(pts_value, pts_timescale, arrival_micros);
                &&& stamp.media_micros == media_time(old(self)@, source_id@, geometry, candidate)
                &&& stamp.session_micros == arrival_micros
                &&& stamp.boundary == boundary_for(old(self)@, source_id@, geometry, candidate)
                &&& final(self)@ == after_frame(old(self)@, source_id@, geometry, candidate, arrival_micros)
            }),
    {
        let candidate = match pts_micros(pts_value, pts_timescale) {
            Some(m) => m,
            None => if arrival_micros <= i64::MAX as u64 {
                arrival_micros as i64
            } else {
                i64::MAX
            },
        };
        let boundary = self.boundary(source_id, geometry, candidate);
        if boundary.is_some() || self.source_id.is_none() {
            self.source_id = Some(source_id.to_owned());
            self.geometry = Some(geometry);
            self.segment_clock_start = candidate;
            self.segment_session_start = arrival_micros;
            self.last_media_micros = 0;
        }
        let mut media_micros = saturating_sub_i64(candidate, self.segment_clock_start);
        if media_micros <= self.last_media_micros && self.last_clock_micros.is_some() {
            media_micros = saturating_add_i64(self.last_media_micros, 1);
        }
        self.last_clock_micros = Some(candidate);
        self.last_media_micros = media_micros;
        FrameStamp { media_micros, session_micros: arrival_micros, boundary }
    }

    /// Session arrival time of the first frame of the segment in progress.
    pub fn segment_session_start(&self) -> (r: u64)
        ensures
            r == self@.segment_session_start,
    {
        self.segment_session_start
    }

    fn boundary(&self, source_id: &str, geometry: (u32, u32), candidate: i64) -> (r: Option<
        SegmentBoundary,
    >)
        ensures
            r == boundary_for(self@, source_id@, geometry, candidate),
    {
        let current_source = match &self.source_id {
            Some(s) => s,
            None => return None,
        };
        let wanted: String = source_id.to_owned();
        if !(*current_source == wanted) {
            return Some(SegmentBoundary::SourceChanged);
        }
        let same_geometry = match self.geometry {
            Some(g) => g.0 == geometry.0 && g.1 == geometry.1,
            None => false,
        };
        if !same_geometry {
            return Some(SegmentBoundary::GeometryChanged);
        }
        let previous = match self.last_clock_micros {
            Some(p) => p,
            None => return None,
        };
        let delta = saturating_sub_i64(candidate, previous);
        if delta > DISCONTINUITY_MICROS || delta < -DISCONTINUITY_MICROS {
            return Some(SegmentBoundary::ClockDiscontinuity);
        }
        if saturating_sub_i64(candidate, self.segment_clock_start) >= SEGMENT_MICROS {
            return Some(SegmentBoundary::Duration);
        }
        None
    }
}

impl Default for Timeline {
    fn default() -> (t: Timeline)
        ensures
            t@ == fresh_timeline(),
    {
        Timeline::new()
    }
}

/// Law: inside one segment, media time moves strictly forward: a frame
/// that opens no segment gets a media time past the previous frame's,
/// whatever its timestamp (duplicated, regressed or missing), as long as
/// the previous media time has room to grow.
pub proof fn lemma_media_time_strictly_increases(
    m: TimelineModel,
    source: Seq<char>,
    geometry: (u32, u32),
    candidate: i64,
)
    requires
        !opens_segment(m, source, geometry, candidate),
        m.last_clock_micros is Some,
        m.last_media_micros < i64::MAX,
    ensures
        media_time(m, source, geometry, candidate) > m.last_media_micros,
{
}

/// Law: the frame that opens a segment starts its media clock: media time
/// 0 for the very first frame the timeline sees, 1 for the first frame of
/// every later segment.
pub proof fn lemma_a_new_segment_starts_its_media_clock(
    m: TimelineModel,
    source: Seq<char>,
    geometry: (u32, u32),
    candidate: i64,
)
    requires
        opens_segment(m, source, geometry, candidate),
    ensures
        media_time(m, source, geometry, candidate) == (if m.last_clock_micros is Some { 1i64 } else { 0i64 }),
        after_frame(m, source, geometry, candidate, 0).segment_clock_start == candidate,
{
}

/// Law: a frame that opens no segment keeps the segment's source,
/// geometry and start, so every frame of a segment shares them.
pub proof fn lemma_a_segment_keeps_its_source_and_geometry(
    m: TimelineModel,
    source: Seq<char>,
    geometry: (u32, u32),
    candidate: i64,
    arrival_micros: u64,
)
    requires
        !opens_segment(m, source, geometry, candidate),
    ensures
        after_frame(m, source, geometry, candidate, arrival_micros).source_id == Some(source),
        after_frame(m, source, geometry, candidate, arrival_micros).geometry == Some(geometry),
        after_frame(m, source, geometry, candidate, arrival_micros).segment_clock_start == m.segment_clock_start,
        after_frame(m, source, geometry, candidate, arrival_micros).segment_session_start == m.segment_session_start,
{
}

} // verus!
