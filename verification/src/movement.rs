//! The movement engine: how far a heading carries a point in one tick.

use vstd::prelude::*;
use crate::arith::{div_toward_zero, magnitude, saturate};
use crate::config::MICROS_PER_SECOND;
use crate::vector::{Direction, Position, DIRECTION_ONE_SQUARED};

verus! {

/// What a product of a heading's component, a speed and a time is divided
/// by to give a distance: `DIRECTION_ONE` times `MICROS_PER_SECOND`.
pub const TRAVEL_SCALE: u64 = 1_000_000_000_000;

/// The distance covered along one axis: the heading's component times the
/// speed times the elapsed time, converted to length units and rounded
/// toward zero.
pub open spec fn displacement(component: int, speed: int, dt: int) -> int {
    div_toward_zero(component * speed * dt, TRAVEL_SCALE as int)
}

/// A coordinate after one tick of travel; it stops at the ends of the
/// coordinate range.
pub open spec fn advanced(coordinate: int, component: int, speed: int, dt: int) -> int {
    saturate(coordinate + displacement(component, speed, dt))
}

/// A point after travelling along `direction` at `speed` for `dt`.
pub open spec fn moved(position: Position, direction: Direction, speed: u32, dt: u64) -> Position {
    Position {
        x: advanced(position.x as int, direction.x as int, speed as int, dt as int) as i32,
        y: advanced(position.y as int, direction.y as int, speed as int, dt as int) as i32,
    }
}

/// Advances one coordinate.
fn advance(coordinate: i32, component: i32, speed: u32, dt: u64) -> (r: i32)
    ensures
        r == advanced(coordinate as int, component as int, speed as int, dt as int),
{
    let size: u128 = if component < 0 {
        (-(component as i64)) as u128
    } else {
        component as u128
    };
    assert(size * speed <= 0x8000_0000 * 0xffff_ffff) by (nonlinear_arith)
        requires
            0 <= size <= 0x8000_0000,
            0 <= speed <= 0xffff_ffff,
    ;
    let rate: u128 = size * (speed as u128);
    assert(rate * dt <= 0x7fff_ffff_8000_0000 * 0xffff_ffff_ffff_ffff) by (nonlinear_arith)
        requires
            0 <= rate <= 0x7fff_ffff_8000_0000,
            0 <= dt <= 0xffff_ffff_ffff_ffff,
    ;
    let travelled: u128 = rate * (dt as u128) / (TRAVEL_SCALE as u128);
    proof {
        let n = component * speed * dt;
        if component < 0 {
            assert(-n == size * speed * dt) by (nonlinear_arith)
                requires
                    n == component * speed * dt,
                    size == -component,
            ;
        }
    }
    let target: i128 = if component < 0 {
        coordinate as i128 - travelled as i128
    } else {
        coordinate as i128 + travelled as i128
    };
    if target < i32::MIN as i128 {
        i32::MIN
    } else if target > i32::MAX as i128 {
        i32::MAX
    } else {
        target as i32
    }
}

/// Moves the player: the position plus the input heading times
/// `speed * dt`. A zero heading leaves the position where it is.
pub fn move_player(position: Position, input_direction: Direction, speed: u32, dt: u64) -> (r:
    Position)
    ensures
        r == moved(position, input_direction, speed, dt),
        input_direction.zero() ==> r == position,
{
    proof {
        lemma_zero_component_stays(speed as int, dt as int);
    }
    Position {
        x: advance(position.x, input_direction.x, speed, dt),
        y: advance(position.y, input_direction.y, speed, dt),
    }
}

/// Moves an enemy: the position plus its heading times `speed * dt`.
pub fn move_enemy(position: Position, direction: Direction, speed: u32, dt: u64) -> (r: Position)
    ensures
        r == moved(position, direction, speed, dt),
{
    Position {
        x: advance(position.x, direction.x, speed, dt),
        y: advance(position.y, direction.y, speed, dt),
    }
}

/// A zero component covers no distance, whatever the speed and the elapsed
/// time.
pub proof fn lemma_zero_component_stays(speed: int, dt: int)
    ensures
        displacement(0, speed, dt) == 0,
{
    assert(0 * speed * dt == 0) by (nonlinear_arith);
}

/// No time, or no speed, moves a point nowhere.
pub proof fn lemma_no_time_stays(position: Position, direction: Direction, speed: u32, dt: u64)
    requires
        dt == 0 || speed == 0,
    ensures
        moved(position, direction, speed, dt) == position,
{
    assert(direction.x * speed * dt == 0 && direction.y * speed * dt == 0) by (nonlinear_arith)
        requires
            dt == 0 || speed == 0,
    ;
}

/// Opposite components cover opposite distances.
pub proof fn lemma_displacement_is_odd(component: int, speed: int, dt: int)
    requires
        speed >= 0,
        dt >= 0,
    ensures
        displacement(-component, speed, dt) == -displacement(component, speed, dt),
{
    let n = component * speed * dt;
    assert((-component) * speed * dt == -n) by (nonlinear_arith)
        requires
            n == component * speed * dt,
    ;
}

/// No heading of at most unit length covers more than `speed * dt`: the
/// square of the distance moved, taken back to the units of `speed * dt`,
/// does not exceed its square.
pub proof fn lemma_never_faster(direction: Direction, speed: u32, dt: u64)
    requires
        direction.x * direction.x + direction.y * direction.y <= DIRECTION_ONE_SQUARED,
    ensures
        ({
            let dx = displacement(direction.x as int, speed as int, dt as int);
            let dy = displacement(direction.y as int, speed as int, dt as int);
            (dx * dx + dy * dy) * MICROS_PER_SECOND * MICROS_PER_SECOND <= (speed * dt) * (speed
                * dt)
        }),
{
    let s: int = speed * dt;
    let dx = displacement(direction.x as int, speed as int, dt as int);
    let dy = displacement(direction.y as int, speed as int, dt as int);
    lemma_displacement_square(direction.x as int, speed as int, dt as int);
    lemma_displacement_square(direction.y as int, speed as int, dt as int);
    let x2: int = direction.x * direction.x;
    let y2: int = direction.y * direction.y;
    let big = 1_000_000_000_000int;
    assert((dx * dx + dy * dy) * big * big <= (x2 + y2) * (s * s)) by (nonlinear_arith)
        requires
            dx * dx * big * big <= x2 * (s * s),
            dy * dy * big * big <= y2 * (s * s),
    ;
    assert((x2 + y2) * (s * s) <= big * (s * s)) by (nonlinear_arith)
        requires
            x2 + y2 <= big,
            s * s >= 0,
    ;
}

/// The square of a displacement, scaled back up, is at most the square of
/// the exact product it rounds.
proof fn lemma_displacement_square(component: int, speed: int, dt: int)
    requires
        speed >= 0,
        dt >= 0,
    ensures
        ({
            let d = displacement(component, speed, dt);
            d * d * 1_000_000_000_000 * 1_000_000_000_000 <= (component * component) * ((speed
                * dt) * (speed * dt))
        }),
{
    let big = 1_000_000_000_000int;
    let n = component * speed * dt;
    let m = magnitude(n);
    let d = displacement(component, speed, dt);
    let q = m / big;
    assert(d * d == q * q) by (nonlinear_arith)
        requires
            d == q || d == -q,
    ;
    assert((q * big) * (q * big) <= m * m) by (nonlinear_arith)
        requires
            0 <= q * big <= m,
    ;
    assert(m * m == n * n) by (nonlinear_arith)
        requires
            m == n || m == -n,
    ;
    assert(n * n == (component * component) * ((speed * dt) * (speed * dt))) by (nonlinear_arith)
        requires
            n == component * speed * dt,
    ;
    assert(d * d * big * big == (q * big) * (q * big)) by (nonlinear_arith)
        requires
            d * d == q * q,
    ;
}

} // verus!
