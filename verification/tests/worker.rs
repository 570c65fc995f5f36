use encore::encoder::worker::{segment_file_name, segment_record, ActiveSegment, CapturedFrame, EncoderWorker};
use encore::encoder::{EncoderCommand, SegmentBoundary};

fn frame(source: &str, pts_millis: i64, arrival_micros: u64) -> CapturedFrame {
    CapturedFrame {
        source_id: source.to_string(),
        width: 1920,
        height: 1080,
        pts_value: pts_millis,
        pts_timescale: 1000,
        arrival_micros,
    }
}

#[test]
fn the_first_frame_starts_segment_one_and_reports_the_encoder_start() {
    let mut worker = EncoderWorker::new();
    let plan = worker.on_frame(&frame("display:1", 0, 0)).unwrap();
    assert_eq!(plan.start, Some(1));
    assert_eq!(plan.complete, None);
    assert!(!plan.discontinuity);
    assert_eq!(plan.media_micros, 0);
    assert!(plan.report_started);
    let next = worker.on_frame(&frame("display:1", 33, 33_000)).unwrap();
    assert_eq!(next.start, None);
    assert_eq!(next.media_micros, 33_000);
    assert!(!next.report_started);
    let active = worker.active.clone().unwrap();
    assert_eq!(active.last_media_micros, 33_000);
    assert_eq!(active.last_session_micros, 33_000);
}

#[test]
fn a_source_change_completes_the_segment_and_starts_the_next_number() {
    let mut worker = EncoderWorker::new();
    worker.on_frame(&frame("display:1", 0, 0));
    worker.on_frame(&frame("display:1", 100, 100_000));
    let plan = worker.on_frame(&frame("display:2", 200, 200_000)).unwrap();
    let (completed, boundary) = plan.complete.unwrap();
    assert_eq!(boundary, SegmentBoundary::SourceChanged);
    assert_eq!(completed.source_id, "display:1");
    assert_eq!(completed.last_media_micros, 100_000);
    assert_eq!(plan.start, Some(2));
    assert_eq!(worker.active.clone().unwrap().source_id, "display:2");
}

#[test]
fn a_clock_jump_is_reported_as_a_discontinuity() {
    let mut worker = EncoderWorker::new();
    worker.on_frame(&frame("display:1", 0, 0));
    let plan = worker.on_frame(&frame("display:1", 5_000, 5_000_000)).unwrap();
    assert!(plan.discontinuity);
    assert_eq!(plan.complete.unwrap().1, SegmentBoundary::ClockDiscontinuity);
}

#[test]
fn stop_completes_the_segment_and_starts_over() {
    let mut worker = EncoderWorker::new();
    worker.on_frame(&frame("display:1", 0, 0));
    let plan = worker.on_command(EncoderCommand::Stop);
    assert!(plan.report_stopped);
    let (segment, boundary) = plan.complete.unwrap();
    assert_eq!(segment.source_id, "display:1");
    assert_eq!(boundary, SegmentBoundary::CaptureEnded);
    assert!(worker.active.is_none());
    let again = worker.on_frame(&frame("display:1", 10, 10_000)).unwrap();
    assert_eq!(again.start, Some(2));
    assert!(again.report_started);
    assert_eq!(again.media_micros, 0);
}

#[test]
fn a_halted_worker_ignores_frames() {
    let mut worker = EncoderWorker::new();
    worker.on_frame(&frame("display:1", 0, 0));
    let plan = worker.on_command(EncoderCommand::Halt);
    assert!(!plan.report_stopped);
    assert!(plan.complete.is_some());
    assert!(worker.on_frame(&frame("display:1", 10, 10_000)).is_none());
    assert!(worker.finish().is_none());
}

#[test]
fn segment_files_are_named_by_time_and_padded_sequence() {
    assert_eq!(segment_file_name(1_725_000_000_000, 7), "segment-1725000000000-000007.mp4");
    assert_eq!(segment_file_name(5, 1_234_567), "segment-5-1234567.mp4");
}

#[test]
fn a_segment_record_clamps_a_negative_duration() {
    let segment = ActiveSegment {
        source_id: "display:1".into(),
        width: 10,
        height: 20,
        started_session_micros: 5,
        last_session_micros: 9,
        last_media_micros: -4,
    };
    let record = segment_record(segment, SegmentBoundary::Duration, "/s/a.mp4".into(), 77, 123);
    assert_eq!(record.duration_micros, 0);
    assert_eq!(record.session_start_micros, 5);
    assert_eq!(record.session_end_micros, 9);
    assert_eq!(record.byte_size, 77);
    assert_eq!(record.boundary, SegmentBoundary::Duration);
}

#[test]
fn closing_the_frame_channel_completes_the_segment_as_capture_ended() {
    let mut worker = EncoderWorker::new();
    worker.on_frame(&frame("display:1", 0, 0));
    let (segment, boundary) = worker.finish().unwrap();
    assert_eq!(segment.source_id, "display:1");
    assert_eq!(boundary, SegmentBoundary::CaptureEnded);
    assert!(worker.finish().is_none());
}
