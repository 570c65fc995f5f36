//! Where the post-save preview sits on screen, as pure geometry.
use vstd::prelude::*;

verus! {

/// A rectangle in physical screen pixels.
#[derive(Debug, Clone, Copy, PartialEq, Eq)]
pub struct Rect {
    pub x: i32,
    pub y: i32,
    pub width: i32,
    pub height: i32,
}

/// `v`, or 0 when negative.
pub open spec fn non_negative(v: int) -> int {
    if v < 0 { 0 } else { v }
}

/// Horizontal room left of a `width`-wide window placed `margin` from the
/// right edge of the work area.
pub open spec fn free_width(work_area: Rect, size: (i32, i32), margin: i32) -> int {
    work_area.width - size.0 - margin
}

/// Vertical room above a `height`-tall window placed `margin` from the
/// bottom edge and clear of a `reserved_bottom` band.
pub open spec fn free_height(work_area: Rect, size: (i32, i32), margin: i32, reserved_bottom: i32) -> int {
    work_area.height - size.1 - margin - reserved_bottom
}

/// Whether the placement's arithmetic stays within `i32`.
pub open spec fn placement_fits_i32(
    work_area: Rect,
    size: (i32, i32),
    margin: i32,
    reserved_bottom: i32,
) -> bool {
    &&& i32::MIN <= work_area.width - size.0 <= i32::MAX
    &&& i32::MIN <= free_width(work_area, size, margin) <= i32::MAX
    &&& i32::MIN <= work_area.height - size.1 <= i32::MAX
    &&& i32::MIN <= work_area.height - size.1 - margin <= i32::MAX
    &&& i32::MIN <= free_height(work_area, size, margin, reserved_bottom) <= i32::MAX
    &&& work_area.x + non_negative(free_width(work_area, size, margin)) <= i32::MAX
    &&& work_area.y + non_negative(free_height(work_area, size, margin, reserved_bottom)) <= i32::MAX
}

/// Places a `size`-sized window in the work area's bottom-right corner,
/// `margin` away from both edges and above a `reserved_bottom` band (the
/// floating bar's height plus its margin). Both offsets are clamped at the
/// work area's origin, so a window larger than the space available lands
/// at the work area's top-left rather than off-screen.
pub fn bottom_right(work_area: Rect, size: (i32, i32), margin: i32, reserved_bottom: i32) -> (r: (
    i32,
    i32,
))
    requires
        placement_fits_i32(work_area, size, margin, reserved_bottom),
    ensures
        r.0 == work_area.x + non_negative(free_width(work_area, size, margin)),
        r.1 == work_area.y + non_negative(free_height(work_area, size, margin, reserved_bottom)),
{
    let free_x: i32 = work_area.width - size.0 - margin;
    let free_y: i32 = work_area.height - size.1 - margin - reserved_bottom;
    let x = work_area.x + if free_x < 0 { 0 } else { free_x };
    let y = work_area.y + if free_y < 0 { 0 } else { free_y };
    (x, y)
}

/// When the window fits, it sits inside the work area with exactly
/// `margin` to the right edge, and its bottom edge sits `margin` above the
/// reserved band, so it never reaches into that band.
pub proof fn lemma_a_fitting_preview_keeps_its_margins(
    work_area: Rect,
    size: (i32, i32),
    margin: i32,
    reserved_bottom: i32,
    x: int,
    y: int,
)
    requires
        margin >= 0,
        reserved_bottom >= 0,
        size.0 >= 0,
        size.1 >= 0,
        free_width(work_area, size, margin) >= 0,
        free_height(work_area, size, margin, reserved_bottom) >= 0,
        x == work_area.x + non_negative(free_width(work_area, size, margin)),
        y == work_area.y + non_negative(free_height(work_area, size, margin, reserved_bottom)),
    ensures
        x >= work_area.x,
        y >= work_area.y,
        x + size.0 == work_area.x + work_area.width - margin,
        y + size.1 == work_area.y + work_area.height - margin - reserved_bottom,
        y + size.1 <= work_area.y + work_area.height - reserved_bottom,
{
}

/// A window too large for the work area in both directions lands at the
/// work area's origin.
pub proof fn lemma_an_oversized_preview_lands_at_the_origin(
    work_area: Rect,
    size: (i32, i32),
    margin: i32,
    reserved_bottom: i32,
    x: int,
    y: int,
)
    requires
        free_width(work_area, size, margin) <= 0,
        free_height(work_area, size, margin, reserved_bottom) <= 0,
        x == work_area.x + non_negative(free_width(work_area, size, margin)),
        y == work_area.y + non_negative(free_height(work_area, size, margin, reserved_bottom)),
    ensures
        x == work_area.x,
        y == work_area.y,
{
}

/// Whether two rectangles share any pixel.
pub open spec fn overlaps(a: Rect, b: Rect) -> bool {
    a.x < b.x + b.width && b.x < a.x + a.width && a.y < b.y + b.height && b.y < a.y + a.height
}

/// A preview placed clear of a band at least as tall as a bar standing
/// `margin` above the work area's bottom edge never overlaps that bar,
/// wherever the bar sits horizontally.
pub proof fn lemma_a_fitting_preview_never_overlaps_the_bar(
    work_area: Rect,
    size: (i32, i32),
    margin: i32,
    bar: Rect,
    x: int,
    y: int,
)
    requires
        margin >= 0,
        size.0 >= 0,
        size.1 >= 0,
        bar.height >= 0,
        bar.y == work_area.y + work_area.height - bar.height - margin,
        free_width(work_area, size, margin) >= 0,
        free_height(work_area, size, margin, (bar.height + margin) as i32) >= 0,
        bar.height + margin <= i32::MAX,
        x == work_area.x + non_negative(free_width(work_area, size, margin)),
        y == work_area.y + non_negative(
            free_height(work_area, size, margin, (bar.height + margin) as i32),
        ),
        x == x as i32,
        y == y as i32,
    ensures
        !overlaps(Rect { x: x as i32, y: y as i32, width: size.0, height: size.1 }, bar),
{
}

} // verus!
