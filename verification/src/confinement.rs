//! Keeping points inside the viewport: clamping a position, and turning a
//! heading around where a point has left the viewport.

use vstd::prelude::*;
use crate::vector::{lemma_flip_keeps_unit, Direction, Position};

verus! {

/// A coordinate lies outside the part of an axis that keeps a sprite of
/// the given half size wholly inside the viewport.
pub open spec fn breaches(v: int, half_extent: int, extent: int) -> bool {
    v < half_extent || v > extent - half_extent
}

/// A coordinate pulled into `[half_extent, extent - half_extent]`. Where
/// that range is empty the lower end wins.
pub open spec fn clamped(v: int, half_extent: int, extent: int) -> int {
    if v < half_extent {
        half_extent
    } else if v > extent - half_extent {
        extent - half_extent
    } else {
        v
    }
}

/// A position with each axis clamped on its own.
pub open spec fn confined(
    position: Position,
    half_extent: i32,
    viewport_width: u32,
    viewport_height: u32,
) -> Position {
    Position {
        x: clamped(position.x as int, half_extent as int, viewport_width as int) as i32,
        y: clamped(position.y as int, half_extent as int, viewport_height as int) as i32,
    }
}

/// A heading mirrored along each axis that the position breaches.
pub open spec fn reflected(
    position: Position,
    direction: Direction,
    half_extent: i32,
    viewport_width: u32,
    viewport_height: u32,
) -> Direction {
    let across = if breaches(position.x as int, half_extent as int, viewport_width as int) {
        direction.flipped_x()
    } else {
        direction
    };
    if breaches(position.y as int, half_extent as int, viewport_height as int) {
        across.flipped_y()
    } else {
        across
    }
}

/// Clamps one coordinate.
fn clamp_axis(v: i32, half_extent: i32, extent: u32) -> (r: i32)
    ensures
        r == clamped(v as int, half_extent as int, extent as int),
{
    let upper: i64 = extent as i64 - half_extent as i64;
    if v < half_extent {
        half_extent
    } else if v as i64 > upper {
        upper as i32
    } else {
        v
    }
}

/// Clamps a position so that a sprite of half size `half_extent` stays
/// inside the viewport: x into `[half_extent, viewport_width - half_extent]`
/// and y into `[half_extent, viewport_height - half_extent]`.
pub fn confine(
    position: Position,
    half_extent: i32,
    viewport_width: u32,
    viewport_height: u32,
) -> (r: Position)
    ensures
        r == confined(position, half_extent, viewport_width, viewport_height),
        r.x == clamped(position.x as int, half_extent as int, viewport_width as int),
        r.y == clamped(position.y as int, half_extent as int, viewport_height as int),
        !breaches(position.x as int, half_extent as int, viewport_width as int) ==> r.x
            == position.x,
        !breaches(position.y as int, half_extent as int, viewport_height as int) ==> r.y
            == position.y,
{
    Position {
        x: clamp_axis(position.x, half_extent, viewport_width),
        y: clamp_axis(position.y, half_extent, viewport_height),
    }
}

/// Tells whether a coordinate breaches its axis.
fn breaches_axis(v: i32, half_extent: i32, extent: u32) -> (b: bool)
    ensures
        b == breaches(v as int, half_extent as int, extent as int),
{
    v < half_extent || v as i64 > extent as i64 - half_extent as i64
}

/// Turns a heading around at the edges of the viewport. For each axis on
/// its own: where the position breaches the axis, the heading's component
/// on that axis changes sign. The flag tells whether either did. The
/// position is read as it is; nothing moves it back inside.
pub fn reflect(
    position: Position,
    direction: Direction,
    half_extent: i32,
    viewport_width: u32,
    viewport_height: u32,
) -> (r: (Direction, bool))
    ensures
        r.0 == reflected(position, direction, half_extent, viewport_width, viewport_height),
        r.1 == (breaches(position.x as int, half_extent as int, viewport_width as int)
            || breaches(position.y as int, half_extent as int, viewport_height as int)),
        direction.unit() ==> r.0.unit(),
{
    let mut turned = direction;
    let mut changed = false;
    if breaches_axis(position.x, half_extent, viewport_width) {
        turned = turned.flip_x();
        changed = true;
    }
    if breaches_axis(position.y, half_extent, viewport_height) {
        turned = turned.flip_y();
        changed = true;
    }
    proof {
        if direction.unit() {
            lemma_flip_keeps_unit(direction);
        }
    }
    (turned, changed)
}

/// A clamped coordinate fits a coordinate, whatever it was clamped to.
pub proof fn lemma_clamped_fits(v: i32, half_extent: i32, extent: u32)
    ensures
        i32::MIN <= clamped(v as int, half_extent as int, extent as int) <= i32::MAX,
{
}

/// Inside the viewport nothing is clamped: confining is the identity.
pub proof fn lemma_confine_inside(
    position: Position,
    half_extent: i32,
    viewport_width: u32,
    viewport_height: u32,
)
    requires
        half_extent <= position.x <= viewport_width - half_extent,
        half_extent <= position.y <= viewport_height - half_extent,
    ensures
        confined(position, half_extent, viewport_width, viewport_height) == position,
{
}

/// Outside the range of one axis, confining pins that axis to the nearer
/// end of its range and leaves the other axis, which is in range, as it
/// was.
pub proof fn lemma_confine_pins_one_axis(
    position: Position,
    half_extent: i32,
    viewport_width: u32,
    viewport_height: u32,
)
    requires
        half_extent <= viewport_width - half_extent,
        half_extent <= viewport_height - half_extent,
    ensures
        ({
            let r = confined(position, half_extent, viewport_width, viewport_height);
            let in_x = !breaches(position.x as int, half_extent as int, viewport_width as int);
            let in_y = !breaches(position.y as int, half_extent as int, viewport_height as int);
            &&& position.x < half_extent && in_y ==> r.x == half_extent && r.y == position.y
            &&& position.x > viewport_width - half_extent && in_y ==> r.x == viewport_width
                - half_extent && r.y == position.y
            &&& position.y < half_extent && in_x ==> r.y == half_extent && r.x == position.x
            &&& position.y > viewport_height - half_extent && in_x ==> r.y == viewport_height
                - half_extent && r.x == position.x
        }),
{
}

/// Confining twice is confining once, where the viewport has room for the
/// sprite.
pub proof fn lemma_confine_idempotent(
    position: Position,
    half_extent: i32,
    viewport_width: u32,
    viewport_height: u32,
)
    requires
        half_extent <= viewport_width - half_extent,
        half_extent <= viewport_height - half_extent,
    ensures
        ({
            let once = confined(position, half_extent, viewport_width, viewport_height);
            confined(once, half_extent, viewport_width, viewport_height) == once
        }),
{
}

/// Reflection changes the sign of exactly the breached axes: x alone where
/// only x breaches, y alone where only y breaches, both where both do, and
/// nothing inside the viewport. This holds of every heading whose
/// components have a negation, so of every heading of length one.
pub proof fn lemma_reflect_flips_breached_axes(
    position: Position,
    direction: Direction,
    half_extent: i32,
    viewport_width: u32,
    viewport_height: u32,
)
    requires
        direction.x > i32::MIN,
        direction.y > i32::MIN,
    ensures
        ({
            let r = reflected(position, direction, half_extent, viewport_width, viewport_height);
            let out_x = breaches(position.x as int, half_extent as int, viewport_width as int);
            let out_y = breaches(position.y as int, half_extent as int, viewport_height as int);
            &&& out_x && !out_y ==> r.x == -direction.x && r.y == direction.y
            &&& !out_x && out_y ==> r.x == direction.x && r.y == -direction.y
            &&& out_x && out_y ==> r.x == -direction.x && r.y == -direction.y
            &&& !out_x && !out_y ==> r == direction
        }),
{
}

} // verus!
