use encore::encoder::{SegmentBoundary, Timeline, SEGMENT_MICROS};

#[test]
fn duplicate_and_small_regression_are_strictly_monotonic() {
    let mut timeline = Timeline::default();
    let first = timeline.observe("display:1", (1920, 1080), 10, 30, 0);
    let duplicate = timeline.observe("display:1", (1920, 1080), 10, 30, 1);
    let regression = timeline.observe("display:1", (1920, 1080), 9, 30, 2);
    assert_eq!(first.media_micros, 0);
    assert_eq!(duplicate.media_micros, 1);
    assert_eq!(regression.media_micros, 2);
    assert_eq!(regression.boundary, None);
}

#[test]
fn missing_pts_uses_monotonic_arrival_time() {
    let mut timeline = Timeline::default();
    assert_eq!(
        timeline
            .observe("display:1", (800, 600), -1, 0, 25_000)
            .media_micros,
        0
    );
    assert_eq!(
        timeline
            .observe("display:1", (800, 600), -1, 0, 58_000)
            .media_micros,
        33_000
    );
}

#[test]
fn variable_pacing_preserves_media_time() {
    let mut timeline = Timeline::default();
    for expected in [0, 33_333, 100_000, 116_667] {
        let stamp = timeline.observe(
            "display:1",
            (800, 600),
            expected,
            1_000_000,
            expected as u64,
        );
        assert_eq!(stamp.media_micros, expected);
        assert_eq!(stamp.boundary, None);
    }
}

#[test]
fn duration_source_geometry_and_clock_create_boundaries() {
    let mut timeline = Timeline::default();
    timeline.observe("display:1", (800, 600), 0, 1_000_000, 0);
    for second in 1..10 {
        timeline.observe(
            "display:1",
            (800, 600),
            second * 1_000_000,
            1_000_000,
            second as u64,
        );
    }
    let duration = timeline.observe("display:1", (800, 600), SEGMENT_MICROS, 1_000_000, 10);
    assert_eq!(duration.boundary, Some(SegmentBoundary::Duration));
    let source = timeline.observe("window:2", (800, 600), 10_100_000, 1_000_000, 20);
    assert_eq!(source.boundary, Some(SegmentBoundary::SourceChanged));
    let geometry = timeline.observe("window:2", (1024, 768), 10_200_000, 1_000_000, 30);
    assert_eq!(geometry.boundary, Some(SegmentBoundary::GeometryChanged));
    let regression = timeline.observe("window:2", (1024, 768), 7_900_000, 1_000_000, 40);
    assert_eq!(
        regression.boundary,
        Some(SegmentBoundary::ClockDiscontinuity)
    );
    let gap = timeline.observe("window:2", (1024, 768), 10_100_001, 1_000_000, 50);
    assert_eq!(gap.boundary, Some(SegmentBoundary::ClockDiscontinuity));
}
