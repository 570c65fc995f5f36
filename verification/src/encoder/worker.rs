//! The decisions of the encoder worker: for each control command and each
//! captured frame, which segment to complete, which to start, and at which
//! media time to append the frame. The worker's loop (channels, the
//! hardware writer, the clock) runs around these decisions.
use vstd::prelude::*;
use crate::encoder::{
    after_frame, boundary_for, frame_clock, fresh_timeline, media_time, opens_segment, EncoderCommand,
    SegmentBoundary, Timeline, TimelineModel,
};
use crate::text::{decimal, join_text, u64_decimal};

verus! {

/// The segment being written.
#[derive(Debug, Clone, PartialEq, Eq)]
pub struct ActiveSegment {
    pub source_id: String,
    pub width: u32,
    pub height: u32,
    pub started_session_micros: u64,
    pub last_session_micros: u64,
    pub last_media_micros: i64,
}

/// A completed segment, as the retention store records it.
#[derive(Debug, Clone, PartialEq, Eq)]
pub struct SegmentRecord {
    pub path: String,
    pub source_id: String,
    pub width: u32,
    pub height: u32,
    pub byte_size: u64,
    pub duration_micros: u64,
    pub session_start_micros: u64,
    pub session_end_micros: u64,
    pub completed_at_unix_ms: u64,
    pub boundary: SegmentBoundary,
}

/// One captured frame that carries pixels.
#[derive(Debug, Clone, PartialEq, Eq)]
pub struct CapturedFrame {
    pub source_id: String,
    pub width: u32,
    pub height: u32,
    pub pts_value: i64,
    pub pts_timescale: i32,
    pub arrival_micros: u64,
}

/// What the worker does with one frame, in order: report a clock
/// discontinuity, complete the segment in progress, start a new one, then
/// append the frame at `media_micros` and, when `report_started`, report
/// that the encoder started.
#[derive(Debug, Clone, PartialEq, Eq)]
pub struct FramePlan {
    pub discontinuity: bool,
    pub complete: Option<(ActiveSegment, SegmentBoundary)>,
    /// The sequence number of the segment to start, if one starts.
    pub start: Option<u64>,
    pub media_micros: i64,
    pub report_started: bool,
}

/// What the worker does on a control command: complete the segment in
/// progress (with [`SegmentBoundary::CaptureEnded`]) and, on a stop,
/// report that the encoder stopped.
#[derive(Debug, Clone, PartialEq, Eq)]
pub struct CommandPlan {
    pub complete: Option<(ActiveSegment, SegmentBoundary)>,
    pub report_stopped: bool,
}

/// The encoder worker's state between events.
pub struct EncoderWorker {
    pub timeline: Timeline,
    pub active: Option<ActiveSegment>,
    pub sequence: u64,
    pub encoder_started: bool,
    pub halted: bool,
}

/// `a + 1`, saturating at `u64::MAX`.
pub open spec fn next_sequence(a: u64) -> u64 {
    if a == u64::MAX { u64::MAX } else { (a + 1) as u64 }
}

/// The segment in progress after `frame` is appended to it: a fresh one
/// when `opens`, starting at the timeline's segment start, else `active`
/// carried forward; either way ending at the frame.
pub open spec fn active_after(
    active: Option<ActiveSegment>,
    opens: bool,
    frame: CapturedFrame,
    timeline: TimelineModel,
    media_micros: i64,
) -> ActiveSegment {
    if opens || active is None {
        ActiveSegment {
            source_id: frame.source_id,
            width: frame.width,
            height: frame.height,
            started_session_micros: timeline.segment_session_start,
            last_session_micros: frame.arrival_micros,
            last_media_micros: media_micros,
        }
    } else {
        ActiveSegment {
            last_session_micros: frame.arrival_micros,
            last_media_micros: media_micros,
            ..active.unwrap()
        }
    }
}

/// The record of `segment`, completed at `boundary` into the file at
/// `path` of `byte_size` bytes at `completed_at_unix_ms`: its source,
/// geometry and session span, its duration the last media time (0 when
/// that is negative).
pub fn segment_record(
    segment: ActiveSegment,
    boundary: SegmentBoundary,
    path: String,
    byte_size: u64,
    completed_at_unix_ms: u64,
) -> (r: SegmentRecord)
    ensures
        r == (SegmentRecord {
            path,
            source_id: segment.source_id,
            width: segment.width,
            height: segment.height,
            byte_size,
            duration_micros: if segment.last_media_micros < 0 { 0 } else { segment.last_media_micros as u64 },
            session_start_micros: segment.started_session_micros,
            session_end_micros: segment.last_session_micros,
            completed_at_unix_ms,
            boundary,
        }),
{
    let duration_micros: u64 = if segment.last_media_micros < 0 { 0 } else { segment.last_media_micros as u64 };
    SegmentRecord {
        path,
        source_id: segment.source_id,
        width: segment.width,
        height: segment.height,
        byte_size,
        duration_micros,
        session_start_micros: segment.started_session_micros,
        session_end_micros: segment.last_session_micros,
        completed_at_unix_ms,
        boundary,
    }
}

/// `digits` left-padded with zeros to at least six characters.
pub open spec fn pad6(digits: Seq<char>) -> Seq<char> {
    if digits.len() >= 6 {
        digits
    } else {
        Seq::new((6 - digits.len()) as nat, |i: int| '0') + digits
    }
}

/// The file name of segment number `sequence` started at `now_unix_ms`:
/// `segment-<now>-<sequence, six digits at least>.mp4`.
pub open spec fn segment_file_name_of(now_unix_ms: u64, sequence: u64) -> Seq<char> {
    "segment-"@ + decimal(now_unix_ms as nat) + "-"@ + pad6(decimal(sequence as nat)) + ".mp4"@
}

/// The file name of a new segment (see [`segment_file_name_of`]).
pub fn segment_file_name(now_unix_ms: u64, sequence: u64) -> (r: String)
    ensures
        r@ == segment_file_name_of(now_unix_ms, sequence),
{
    let digits = u64_decimal(sequence);
    let mut padded = String::new();
    let n = digits.as_str().unicode_len();
    let mut k: usize = n;
    while k < 6
        invariant
            n <= k,
            k <= 6 || k == n,
            n == digits@.len(),
            padded@ == Seq::new((k - n) as nat, |i: int| '0'),
        decreases 6 - k,
    {
        crate::text::push_char(&mut padded, '0');
        proof {
            assert(padded@ =~= Seq::new((k + 1 - n) as nat, |i: int| '0'));
        }
        k = k + 1;
    }
    let padded = join_text(padded.as_str(), digits.as_str());
    proof {
        if n >= 6 {
            assert(padded@ =~= digits@);
        } else {
            assert(padded@ =~= Seq::new((6 - n) as nat, |i: int| '0') + digits@);
        }
    }
    let a = join_text("segment-", u64_decimal(now_unix_ms).as_str());
    let b = join_text(a.as_str(), "-");
    let c = join_text(b.as_str(), padded.as_str());
    join_text(c.as_str(), ".mp4")
}

impl EncoderWorker {
    /// A worker that has seen nothing yet.
    pub fn new() -> (w: EncoderWorker)
        ensures
            w.timeline@ == fresh_timeline(),
            w.active is None,
            w.sequence == 0,
            !w.encoder_started,
            !w.halted,
    {
        EncoderWorker { timeline: Timeline::new(), active: None, sequence: 0, encoder_started: false, halted: false }
    }

    /// Handles a control command: the segment in progress is handed back
    /// to be completed with [`SegmentBoundary::CaptureEnded`], the
    /// timeline starts over and the encoder counts as not started; a stop
    /// is reported, a halt makes the worker ignore every later frame.
    pub fn on_command(&mut self, command: EncoderCommand) -> (plan: CommandPlan)
        ensures
            plan.complete == match old(self).active {
                Some(a) => Some((a, SegmentBoundary::CaptureEnded)),
                None => None,
            },
            plan.report_stopped == (command == EncoderCommand::Stop),
            final(self).active is None,
            final(self).timeline@ == fresh_timeline(),
            !final(self).encoder_started,
            final(self).halted == (old(self).halted || command == EncoderCommand::Halt),
            final(self).sequence == old(self).sequence,
    {
        let complete = match self.active.take() {
            Some(a) => Some((a, SegmentBoundary::CaptureEnded)),
            None => None,
        };
        self.timeline = Timeline::new();
        self.encoder_started = false;
        let report_stopped = match command {
            EncoderCommand::Stop => true,
            EncoderCommand::Halt => {
                self.halted = true;
                false
            },
        };
        CommandPlan { complete, report_stopped }
    }

    /// Handles a captured frame (see [`FramePlan`]). A halted worker
    /// ignores it. Otherwise the timeline stamps it (see
    /// [`Timeline::observe`]); a boundary completes the segment in
    /// progress, a clock discontinuity is also reported, and when the
    /// frame opens a segment or none is in progress a new one is started
    /// under the next sequence number, from the frame's source and
    /// geometry. The frame is appended at its media time, and the first
    /// frame since the encoder (re)started reports the start.
    pub fn on_frame(&mut self, frame: &CapturedFrame) -> (plan: Option<FramePlan>)
        ensures
            old(self).halted ==> plan is None && *final(self) == *old(self),
            !old(self).halted ==> ({
                let m = old(self).timeline@;
                let candidate = frame_clock(frame.pts_value, frame.pts_timescale, frame.arrival_micros);
                let boundary = boundary_for(m, frame.source_id@, (frame.width, frame.height), candidate);
                let media = media_time(m, frame.source_id@, (frame.width, frame.height), candidate);
                let timeline = after_frame(m, frame.source_id@, (frame.width, frame.height), candidate, frame.arrival_micros);
                let starts = boundary is Some || old(self).active is None;
                &&& plan is Some
                &&& plan->0.discontinuity == (boundary == Some(SegmentBoundary::ClockDiscontinuity))
                &&& plan->0.complete == match (boundary, old(self).active) {
                    (Some(b), Some(a)) => Some((a, b)),
                    _ => None,
                }
                &&& plan->0.start == (if starts { Some(next_sequence(old(self).sequence)) } else { None })
                &&& plan->0.media_micros == media
                &&& plan->0.report_started == !old(self).encoder_started
                &&& final(self).timeline@ == timeline
                &&& final(self).active == Some(active_after(old(self).active, boundary is Some, *frame, timeline, media))
                &&& final(self).sequence == (if starts { next_sequence(old(self).sequence) } else { old(self).sequence })
                &&& final(self).encoder_started
                &&& !final(self).halted
            }),
    {
        if self.halted {
            return None;
        }
        let stamp = self.timeline.observe(
            frame.source_id.as_str(),
            (frame.width, frame.height),
            frame.pts_value,
            frame.pts_timescale,
            frame.arrival_micros,
        );
        let discontinuity = match stamp.boundary {
            Some(SegmentBoundary::ClockDiscontinuity) => true,
            _ => false,
        };
        let complete = match stamp.boundary {
            Some(b) => match self.active.take() {
                Some(a) => Some((a, b)),
                None => None,
            },
            None => None,
        };
        let start = if self.active.is_none() {
            self.sequence = if self.sequence == u64::MAX { u64::MAX } else { self.sequence + 1 };
            self.active = Some(ActiveSegment {
                source_id: frame.source_id.clone(),
                width: frame.width,
                height: frame.height,
                started_session_micros: self.timeline.segment_session_start(),
                last_session_micros: frame.arrival_micros,
                last_media_micros: stamp.media_micros,
            });
            Some(self.sequence)
        } else {
            None
        };
        let active = match self.active.take() {
            Some(a) => ActiveSegment {
                last_session_micros: frame.arrival_micros,
                last_media_micros: stamp.media_micros,
                ..a
            },
            None => ActiveSegment {
                source_id: frame.source_id.clone(),
                width: frame.width,
                height: frame.height,
                started_session_micros: self.timeline.segment_session_start(),
                last_session_micros: frame.arrival_micros,
                last_media_micros: stamp.media_micros,
            },
        };
        self.active = Some(active);
        let report_started = !self.encoder_started;
        self.encoder_started = true;
        Some(FramePlan { discontinuity, complete, start, media_micros: stamp.media_micros, report_started })
    }

    /// Records whether the start report reached the pipeline; an
    /// undelivered report is sent again with the next frame.
    pub fn start_reported(&mut self, delivered: bool)
        ensures
            final(self).encoder_started == delivered,
            final(self).active == old(self).active,
            final(self).sequence == old(self).sequence,
            final(self).halted == old(self).halted,
            final(self).timeline@ == old(self).timeline@,
    {
        self.encoder_started = delivered;
    }

    /// Hands back the segment in progress when the frame channel closes,
    /// to be completed with [`SegmentBoundary::CaptureEnded`].
    pub fn finish(&mut self) -> (r: Option<(ActiveSegment, SegmentBoundary)>)
        ensures
            r == match old(self).active {
                Some(a) => Some((a, SegmentBoundary::CaptureEnded)),
                None => None,
            },
            final(self).active is None,
    {
        match self.active.take() {
            Some(a) => Some((a, SegmentBoundary::CaptureEnded)),
            None => None,
        }
    }
}

} // verus!
