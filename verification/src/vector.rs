//! Points, headings and the viewport.

use vstd::prelude::*;
use crate::arith::{floor_sqrt, isqrt, lemma_floor_sqrt_bounds, lemma_square_monotonic, magnitude};

verus! {

/// The value that stands for a heading component of one.
pub const DIRECTION_ONE: i32 = 1_000_000;

/// The square of `DIRECTION_ONE`: what the squares of the components of a
/// heading of length one add up to.
pub const DIRECTION_ONE_SQUARED: u64 = 1_000_000_000_000;

/// The component of a unit heading along both axes of a diagonal:
/// one over the square root of two, rounded down.
pub const DIRECTION_DIAGONAL: i32 = 707_106;

/// A point of the plane, in length units.
#[derive(Clone, Copy, Debug, PartialEq, Eq, Structural)]
pub struct Position {
    pub x: i32,
    pub y: i32,
}

/// A heading: two components counted in millionths.
#[derive(Clone, Copy, Debug, PartialEq, Eq, Structural)]
pub struct Direction {
    pub x: i32,
    pub y: i32,
}

/// Width and height of the viewport, in length units.
#[derive(Clone, Copy, Debug, PartialEq, Eq, Structural)]
pub struct Bounds {
    pub width: u32,
    pub height: u32,
}

/// A component with its sign changed. The least value has no negation;
/// it gives the greatest.
pub open spec fn mirrored(c: i32) -> i32 {
    if c == i32::MIN {
        i32::MAX
    } else {
        (-c) as i32
    }
}

/// One signed component of the unit heading along `(c, other)`: the exact
/// component, in millionths, rounded toward zero.
pub open spec fn unit_component(c: int, other: int) -> int {
    let share = (c * c * DIRECTION_ONE_SQUARED) / (c * c + other * other);
    let size = floor_sqrt(share as nat) as int;
    if c >= 0 {
        size
    } else {
        -size
    }
}

/// The unit heading along `(x, y)`, which must not both be zero.
pub open spec fn normalized(x: int, y: int) -> Direction {
    Direction { x: unit_component(x, y) as i32, y: unit_component(y, x) as i32 }
}

impl Direction {
    /// The heading has length one, up to the rounding of its components: the
    /// circle of radius one passes through the grid cell that starts at the
    /// components' sizes.
    pub open spec fn unit(self) -> bool {
        &&& self.x * self.x + self.y * self.y <= DIRECTION_ONE_SQUARED
        &&& (magnitude(self.x as int) + 1) * (magnitude(self.x as int) + 1) + (magnitude(
            self.y as int,
        ) + 1) * (magnitude(self.y as int) + 1) > DIRECTION_ONE_SQUARED
    }

    /// The heading that stands still.
    pub open spec fn zero(self) -> bool {
        self.x == 0 && self.y == 0
    }

    /// The heading mirrored along the horizontal axis.
    pub open spec fn flipped_x(self) -> Direction {
        Direction { x: mirrored(self.x), y: self.y }
    }

    /// The heading mirrored along the vertical axis.
    pub open spec fn flipped_y(self) -> Direction {
        Direction { x: self.x, y: mirrored(self.y) }
    }

    /// Mirrors the heading along the horizontal axis.
    pub fn flip_x(self) -> (r: Direction)
        ensures
            r == self.flipped_x(),
    {
        Direction { x: mirror(self.x), y: self.y }
    }

    /// Mirrors the heading along the vertical axis.
    pub fn flip_y(self) -> (r: Direction)
        ensures
            r == self.flipped_y(),
    {
        Direction { x: self.x, y: mirror(self.y) }
    }

    /// Tells whether the heading has length one.
    pub fn is_unit(&self) -> (b: bool)
        ensures
            b == self.unit(),
    {
        let ax: i64 = if self.x < 0 {
            -(self.x as i64)
        } else {
            self.x as i64
        };
        let ay: i64 = if self.y < 0 {
            -(self.y as i64)
        } else {
            self.y as i64
        };
        if ax > 1_000_000 || ay > 1_000_000 {
            proof {
                if ax > 1_000_000 {
                    lemma_square_monotonic(1_000_001, ax as nat);
                } else {
                    lemma_square_monotonic(1_000_001, ay as nat);
                }
                assert(self.x * self.x == ax * ax) by (nonlinear_arith)
                    requires
                        ax == self.x || ax == -self.x,
                ;
                assert(self.y * self.y == ay * ay) by (nonlinear_arith)
                    requires
                        ay == self.y || ay == -self.y,
                ;
            }
            return false;
        }
        assert(ax * ax <= 1_000_000 * 1_000_000 && ay * ay <= 1_000_000 * 1_000_000
            && (ax + 1) * (ax + 1) <= 1_000_001 * 1_000_001
            && (ay + 1) * (ay + 1) <= 1_000_001 * 1_000_001) by (nonlinear_arith)
            requires
                0 <= ax <= 1_000_000,
                0 <= ay <= 1_000_000,
        ;
        assert(self.x * self.x == ax * ax) by (nonlinear_arith)
            requires
                ax == self.x || ax == -self.x,
        ;
        assert(self.y * self.y == ay * ay) by (nonlinear_arith)
            requires
                ay == self.y || ay == -self.y,
        ;
        let inner: i64 = ax * ax + ay * ay;
        let outer: i64 = (ax + 1) * (ax + 1) + (ay + 1) * (ay + 1);
        inner <= 1_000_000_000_000 && outer > 1_000_000_000_000
    }

    /// The unit heading along `(x, y)`, or `None` for the zero vector, which
    /// has no heading.
    pub fn normalize(x: i32, y: i32) -> (r: Option<Direction>)
        ensures
            (x == 0 && y == 0) <==> r is None,
            r matches Some(d) ==> d == normalized(x as int, y as int) && d.unit(),
    {
        if x == 0 && y == 0 {
            return None;
        }
        let dx = unit_component_of(x, y);
        let dy = unit_component_of(y, x);
        proof {
            lemma_normalized_is_unit(x as int, y as int);
        }
        Some(Direction { x: dx, y: dy })
    }
}

/// Changes the sign of a component.
fn mirror(c: i32) -> (r: i32)
    ensures
        r == mirrored(c),
{
    if c == i32::MIN {
        i32::MAX
    } else {
        -c
    }
}

/// Computes `unit_component` for a vector that is not zero.
fn unit_component_of(c: i32, other: i32) -> (r: i32)
    requires
        c != 0 || other != 0,
    ensures
        r == unit_component(c as int, other as int),
        -DIRECTION_ONE <= r <= DIRECTION_ONE,
{
    let c_wide: i64 = c as i64;
    let other_wide: i64 = other as i64;
    assert(0 <= c_wide * c_wide <= 0x4000_0000_0000_0000 && 0 <= other_wide * other_wide
        <= 0x4000_0000_0000_0000 && (c_wide != 0 ==> c_wide * c_wide > 0) && (other_wide != 0
        ==> other_wide * other_wide > 0)) by (nonlinear_arith)
        requires
            -0x8000_0000 <= c_wide <= 0x7fff_ffff,
            -0x8000_0000 <= other_wide <= 0x7fff_ffff,
    ;
    let c2: u128 = (c_wide * c_wide) as u128;
    let o2: u128 = (other_wide * other_wide) as u128;
    let share: u128 = c2 * 1_000_000_000_000 / (c2 + o2);
    assert(share <= 1_000_000_000_000) by (nonlinear_arith)
        requires
            share == (c2 * 1_000_000_000_000) / ((c2 + o2) as int),
            0 <= c2,
            0 <= o2,
            c2 + o2 > 0,
    ;
    let size: u64 = isqrt(share);
    proof {
        lemma_floor_sqrt_bounds(share as nat);
        if size > 1_000_000 {
            lemma_square_monotonic(1_000_001, size as nat);
        }
    }
    if c >= 0 {
        size as i32
    } else {
        -(size as i32)
    }
}

/// Normalizing a vector that is not zero gives a heading of length one.
pub proof fn lemma_normalized_is_unit(x: int, y: int)
    requires
        x != 0 || y != 0,
    ensures
        normalized(x, y).unit(),
        -DIRECTION_ONE <= unit_component(x, y) <= DIRECTION_ONE,
        -DIRECTION_ONE <= unit_component(y, x) <= DIRECTION_ONE,
{
    let len2 = x * x + y * y;
    let one2 = 1_000_000_000_000int;
    assert(x * x >= 0 && y * y >= 0 && len2 > 0) by (nonlinear_arith)
        requires
            x != 0 || y != 0,
            len2 == x * x + y * y,
    ;
    let share_x = (x * x * one2) / len2;
    let share_y = (y * y * one2) / len2;
    let sx = floor_sqrt(share_x as nat) as int;
    let sy = floor_sqrt(share_y as nat) as int;
    assert(0 <= share_x && share_x * len2 <= x * x * one2 < (share_x + 1) * len2)
        by (nonlinear_arith)
        requires
            share_x == (x * x * one2) / len2,
            len2 > 0,
            x * x >= 0,
            one2 > 0,
    ;
    assert(0 <= share_y && share_y * len2 <= y * y * one2 < (share_y + 1) * len2)
        by (nonlinear_arith)
        requires
            share_y == (y * y * one2) / len2,
            len2 > 0,
            y * y >= 0,
            one2 > 0,
    ;
    lemma_floor_sqrt_bounds(share_x as nat);
    lemma_floor_sqrt_bounds(share_y as nat);
    // The sizes' squares are at most the shares, and the shares sum to at
    // most one; the squares one step up exceed the shares.
    assert(sx * sx + sy * sy <= one2) by (nonlinear_arith)
        requires
            sx * sx <= share_x,
            sy * sy <= share_y,
            share_x * len2 <= x * x * one2,
            share_y * len2 <= y * y * one2,
            len2 == x * x + y * y,
            len2 > 0,
    ;
    assert((sx + 1) * (sx + 1) + (sy + 1) * (sy + 1) > one2) by (nonlinear_arith)
        requires
            (sx + 1) * (sx + 1) >= share_x + 1,
            (sy + 1) * (sy + 1) >= share_y + 1,
            x * x * one2 < (share_x + 1) * len2,
            y * y * one2 < (share_y + 1) * len2,
            len2 == x * x + y * y,
            len2 > 0,
    ;
    if sx > 1_000_000 {
        lemma_square_monotonic(1_000_001, sx as nat);
    }
    if sy > 1_000_000 {
        lemma_square_monotonic(1_000_001, sy as nat);
    }
    let d = normalized(x, y);
    assert(d.x * d.x == sx * sx) by (nonlinear_arith)
        requires
            d.x == sx || d.x == -sx,
    ;
    assert(d.y * d.y == sy * sy) by (nonlinear_arith)
        requires
            d.y == sy || d.y == -sy,
    ;
}

/// Mirroring a heading along either axis keeps its length, and changes
/// nothing but the sign of one component.
pub proof fn lemma_flip_keeps_unit(d: Direction)
    requires
        d.unit(),
    ensures
        d.flipped_x().unit(),
        d.flipped_y().unit(),
        d.flipped_x().flipped_y().unit(),
        d.flipped_x().x == -d.x,
        d.flipped_y().y == -d.y,
{
    lemma_unit_in_range(d);
    assert((-d.x) * (-d.x) == d.x * d.x) by (nonlinear_arith);
    assert((-d.y) * (-d.y) == d.y * d.y) by (nonlinear_arith);
}

/// The components of a heading of length one lie between minus one and one.
pub proof fn lemma_unit_in_range(d: Direction)
    requires
        d.unit(),
    ensures
        -DIRECTION_ONE <= d.x <= DIRECTION_ONE,
        -DIRECTION_ONE <= d.y <= DIRECTION_ONE,
{
    let ax = magnitude(d.x as int);
    let ay = magnitude(d.y as int);
    assert(d.x * d.x == ax * ax && d.y * d.y == ay * ay && ax * ax >= 0 && ay * ay >= 0)
        by (nonlinear_arith)
        requires
            ax == d.x || ax == -d.x,
            ay == d.y || ay == -d.y,
    ;
    if ax > 1_000_000 {
        lemma_square_monotonic(1_000_001, ax as nat);
    }
    if ay > 1_000_000 {
        lemma_square_monotonic(1_000_001, ay as nat);
    }
}

impl Bounds {
    /// The middle of the viewport.
    pub open spec fn middle(self) -> Position {
        Position { x: (self.width / 2) as i32, y: (self.height / 2) as i32 }
    }

    /// Computes the middle of the viewport.
    pub fn center(&self) -> (p: Position)
        ensures
            p == self.middle(),
            p.x == self.width / 2,
            p.y == self.height / 2,
    {
        Position { x: (self.width / 2) as i32, y: (self.height / 2) as i32 }
    }
}

} // verus!
