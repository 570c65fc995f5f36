use encore::preview::placement::{bottom_right, Rect};
use encore::preview::window::{current, PreviewContext, PreviewPayload};

const MARGIN: i32 = 16;
const PREVIEW: (i32, i32) = (320, 250);
const BAR: (i32, i32) = (760, 84);

fn overlaps(a: &Rect, other: &Rect) -> bool {
    a.x < other.x + other.width
        && other.x < a.x + a.width
        && a.y < other.y + other.height
        && other.y < a.y + a.height
}

fn contains(a: &Rect, other: &Rect) -> bool {
    other.x >= a.x
        && other.y >= a.y
        && other.x + other.width <= a.x + a.width
        && other.y + other.height <= a.y + a.height
}

/// The floating bar's rectangle: horizontally centered in the work area,
/// one margin above its bottom edge.
fn bar_rect(work_area: Rect) -> Rect {
    Rect {
        x: work_area.x + (work_area.width - BAR.0).max(0) / 2,
        y: work_area.y + work_area.height - BAR.1 - MARGIN,
        width: BAR.0,
        height: BAR.1,
    }
}

fn preview_rect(work_area: Rect) -> Rect {
    let (x, y) = bottom_right(work_area, PREVIEW, MARGIN, BAR.1 + MARGIN);
    Rect {
        x,
        y,
        width: PREVIEW.0,
        height: PREVIEW.1,
    }
}

/// A laptop display, a wide external one, a monitor whose work area is
/// offset from the origin, and one narrow enough that the centered bar
/// reaches into the right-hand corner.
fn work_areas() -> [Rect; 4] {
    [
        Rect {
            x: 0,
            y: 25,
            width: 1440,
            height: 875,
        },
        Rect {
            x: 0,
            y: 25,
            width: 3440,
            height: 1415,
        },
        Rect {
            x: 1440,
            y: 0,
            width: 1920,
            height: 1080,
        },
        Rect {
            x: 0,
            y: 25,
            width: 1024,
            height: 743,
        },
    ]
}

#[test]
fn the_preview_sits_inside_the_work_area_with_its_margin() {
    for work_area in work_areas() {
        let preview = preview_rect(work_area);
        assert!(
            contains(&work_area, &preview),
            "{preview:?} escaped {work_area:?}"
        );
        assert_eq!(
            preview.x + preview.width,
            work_area.x + work_area.width - MARGIN,
            "right margin wrong for {work_area:?}"
        );
        assert!(
            preview.y > work_area.y,
            "preview hugged the top of {work_area:?}"
        );
    }
}

#[test]
fn the_preview_never_overlaps_the_floating_bar() {
    for work_area in work_areas() {
        let preview = preview_rect(work_area);
        let bar = bar_rect(work_area);
        assert!(
            !overlaps(&preview, &bar),
            "preview {preview:?} covered bar {bar:?} in {work_area:?}"
        );
    }
}

#[test]
fn a_narrow_work_area_would_collide_without_the_reserved_band() {
    let work_area = work_areas()[3];
    let (x, y) = bottom_right(work_area, PREVIEW, MARGIN, 0);
    let unreserved = Rect {
        x,
        y,
        width: PREVIEW.0,
        height: PREVIEW.1,
    };
    assert!(overlaps(&unreserved, &bar_rect(work_area)));
}

#[test]
fn a_window_larger_than_its_work_area_stays_at_the_work_area_origin() {
    let work_area = Rect {
        x: 100,
        y: 50,
        width: 200,
        height: 200,
    };
    assert_eq!(
        bottom_right(work_area, PREVIEW, MARGIN, 0),
        (work_area.x, work_area.y)
    );
}

#[test]
fn the_preview_corner_is_exact_for_a_laptop_display() {
    let work_area = work_areas()[0];
    assert_eq!(
        bottom_right(work_area, PREVIEW, MARGIN, BAR.1 + MARGIN),
        (1440 - 320 - 16, 25 + 875 - 250 - 16 - 100)
    );
}

fn payload(id: &str) -> PreviewPayload {
    PreviewPayload {
        id: id.to_string(),
        display_name: id.to_string(),
        duration_seconds: Some(12),
        total_bytes: 4096,
        video_path: format!("/tmp/{id}/replay.mp4"),
    }
}

#[test]
fn a_fresh_context_is_showing_nothing() {
    assert_eq!(current(&PreviewContext::new(None)), None);
}

#[test]
fn a_second_save_replaces_the_shown_replay_instead_of_stacking() {
    let mut context = PreviewContext::new(None);
    encore::preview::window::set(&mut context, Some(payload("2026-08-14_16-32-05")));
    encore::preview::window::set(&mut context, Some(payload("2026-08-14_16-32-11")));
    assert_eq!(
        current(&context).map(|shown| shown.id),
        Some("2026-08-14_16-32-11".to_string())
    );
}

#[test]
fn dismissing_clears_what_the_window_reads_on_its_next_mount() {
    let mut context = PreviewContext::new(None);
    encore::preview::window::set(&mut context, Some(payload("2026-08-14_16-32-05")));
    encore::preview::window::set(&mut context, None);
    assert_eq!(current(&context), None);
}
