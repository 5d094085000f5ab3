//! The keys that are held, and the heading they ask for.

use vstd::prelude::*;
use crate::arith::{is_floor_sqrt, lemma_floor_sqrt_is, magnitude, signed};
use crate::movement::{
    displacement, lemma_displacement_is_odd, lemma_never_faster, lemma_zero_component_stays, moved,
    TRAVEL_SCALE,
};
use crate::config::MICROS_PER_SECOND;
use crate::vector::{normalized, Direction, Position, DIRECTION_DIAGONAL, DIRECTION_ONE};

verus! {

/// The state of the keyboard in one frame. The arrow keys and `W`, `A`,
/// `S`, `D` steer alike.
#[derive(Clone, Copy, Debug, PartialEq, Eq, Structural)]
pub struct Keys {
    /// The left arrow is held.
    pub left: bool,
    /// The right arrow is held.
    pub right: bool,
    /// The up arrow is held.
    pub up: bool,
    /// The down arrow is held.
    pub down: bool,
    /// `A` is held: left.
    pub a: bool,
    /// `D` is held: right.
    pub d: bool,
    /// `W` is held: up.
    pub w: bool,
    /// `S` is held: down.
    pub s: bool,
    /// Escape went down in this frame.
    pub escape: bool,
}

impl Keys {
    /// A key that steers left is held.
    pub open spec fn steers_left(self) -> bool {
        self.left || self.a
    }

    /// A key that steers right is held.
    pub open spec fn steers_right(self) -> bool {
        self.right || self.d
    }

    /// A key that steers up is held.
    pub open spec fn steers_up(self) -> bool {
        self.up || self.w
    }

    /// A key that steers down is held.
    pub open spec fn steers_down(self) -> bool {
        self.down || self.s
    }

    /// No key that steers is held.
    pub open spec fn idle(self) -> bool {
        !self.steers_left() && !self.steers_right() && !self.steers_up() && !self.steers_down()
    }

    /// The horizontal sum of the held keys: right counts one, left minus one.
    pub open spec fn axis_x(self) -> int {
        (if self.steers_right() {
            1int
        } else {
            0int
        }) - (if self.steers_left() {
            1int
        } else {
            0int
        })
    }

    /// The vertical sum of the held keys: up counts one, down minus one.
    pub open spec fn axis_y(self) -> int {
        (if self.steers_up() {
            1int
        } else {
            0int
        }) - (if self.steers_down() {
            1int
        } else {
            0int
        })
    }

    /// The heading that the held keys ask for: their sum, brought to length
    /// one unless it is zero.
    pub open spec fn heading(self) -> Direction {
        if self.axis_x() == 0 && self.axis_y() == 0 {
            Direction { x: 0, y: 0 }
        } else {
            normalized(self.axis_x(), self.axis_y())
        }
    }

    /// A keyboard with no key held.
    pub fn released() -> (keys: Keys)
        ensures
            keys.idle(),
            !keys.escape,
    {
        Keys {
            left: false,
            right: false,
            up: false,
            down: false,
            a: false,
            d: false,
            w: false,
            s: false,
            escape: false,
        }
    }

    /// Computes the heading that the held keys ask for.
    pub fn direction(&self) -> (r: Direction)
        ensures
            r == self.heading(),
            r.zero() <==> (self.axis_x() == 0 && self.axis_y() == 0),
            !r.zero() ==> r.unit(),
    {
        let mut x: i32 = 0;
        let mut y: i32 = 0;
        if self.left || self.a {
            x = x - 1;
        }
        if self.right || self.d {
            x = x + 1;
        }
        if self.up || self.w {
            y = y + 1;
        }
        if self.down || self.s {
            y = y - 1;
        }
        match Direction::normalize(x, y) {
            Some(d) => d,
            None => Direction { x: 0, y: 0 },
        }
    }
}

/// The exit action: escape went down in this frame.
pub fn exit_game(keys: Keys) -> (exit: bool)
    ensures
        exit == keys.escape,
{
    keys.escape
}

/// The headings that the keys can ask for: along one axis the component is
/// one, along a diagonal both are one over the square root of two, rounded
/// down.
pub proof fn lemma_heading_values(keys: Keys)
    ensures
        keys.heading().x == signed(
            keys.axis_x(),
            if keys.axis_y() == 0 {
                DIRECTION_ONE as int
            } else {
                DIRECTION_DIAGONAL as int
            },
        ),
        keys.heading().y == signed(
            keys.axis_y(),
            if keys.axis_x() == 0 {
                DIRECTION_ONE as int
            } else {
                DIRECTION_DIAGONAL as int
            },
        ),
{
    assert(707_106int * 707_106 <= 500_000_000_000 < 707_107int * 707_107) by (nonlinear_arith);
    assert(1_000_000int * 1_000_000 <= 1_000_000_000_000 < 1_000_001int * 1_000_001)
        by (nonlinear_arith);
    lemma_floor_sqrt_is(500_000_000_000, 707_106);
    lemma_floor_sqrt_is(1_000_000_000_000, 1_000_000);
    assert(is_floor_sqrt(0, 0)) by (nonlinear_arith);
    lemma_floor_sqrt_is(0, 0);
    let ax = keys.axis_x();
    let ay = keys.axis_y();
    let a2 = ax * ax;
    let b2 = ay * ay;
    assert(a2 == magnitude(ax) && b2 == magnitude(ay)) by (nonlinear_arith)
        requires
            a2 == ax * ax,
            b2 == ay * ay,
            -1 <= ax <= 1,
            -1 <= ay <= 1,
    ;
    if ax != 0 || ay != 0 {
        // The square of a component's share of the length is a half on a
        // diagonal, and all or nothing along an axis.
        let share_x = (a2 * 1_000_000_000_000) / (a2 + b2);
        let share_y = (b2 * 1_000_000_000_000) / (b2 + a2);
        if a2 + b2 == 2 {
            assert(share_x == 1_000_000_000_000int / 2);
            assert(share_y == 1_000_000_000_000int / 2);
        } else {
            assert(share_x == (a2 * 1_000_000_000_000) / 1);
            assert(share_y == (b2 * 1_000_000_000_000) / 1);
        }
    }
}

/// With no steering key held the player stays where it is, whatever the
/// speed and the elapsed time.
pub proof fn lemma_idle_keys_stay(position: Position, keys: Keys, speed: u32, dt: u64)
    requires
        keys.idle(),
    ensures
        moved(position, keys.heading(), speed, dt) == position,
{
    lemma_zero_component_stays(speed as int, dt as int);
}

/// Left and right held together cancel: the player does not move
/// horizontally. Up and down cancel in the same way.
pub proof fn lemma_opposite_keys_cancel(position: Position, keys: Keys, speed: u32, dt: u64)
    ensures
        keys.steers_left() && keys.steers_right() ==> moved(
            position,
            keys.heading(),
            speed,
            dt,
        ).x == position.x,
        keys.steers_up() && keys.steers_down() ==> moved(position, keys.heading(), speed, dt).y
            == position.y,
{
    lemma_heading_values(keys);
    lemma_zero_component_stays(speed as int, dt as int);
}

/// Steering along a diagonal is as fast as steering along one axis, and no
/// faster. The heading has length one and both axes cover the same
/// distance. The distance covered does not exceed `speed * dt`; and each
/// axis covers, up to the rounding of one length unit, its share of
/// `speed * dt`.
pub proof fn lemma_diagonal_not_faster(keys: Keys, speed: u32, dt: u64)
    requires
        keys.axis_x() != 0,
        keys.axis_y() != 0,
    ensures
        keys.heading().unit(),
        magnitude(keys.heading().x as int) == DIRECTION_DIAGONAL,
        magnitude(keys.heading().y as int) == DIRECTION_DIAGONAL,
        ({
            let dx = displacement(keys.heading().x as int, speed as int, dt as int);
            let dy = displacement(keys.heading().y as int, speed as int, dt as int);
            &&& magnitude(dx) == magnitude(dy)
            &&& (dx * dx + dy * dy) * MICROS_PER_SECOND * MICROS_PER_SECOND <= (speed * dt) * (
                speed * dt)
            &&& magnitude(dx) * TRAVEL_SCALE <= DIRECTION_DIAGONAL * (speed * dt) < (magnitude(dx)
                + 1) * TRAVEL_SCALE
        }),
{
    lemma_heading_values(keys);
    let h = keys.heading();
    assert(707_107int * 707_107 == 500_000_309_449) by (nonlinear_arith);
    lemma_never_faster(h, speed, dt);
    lemma_displacement_is_odd(707_106, speed as int, dt as int);
    let exact: int = 707_106 * (speed * dt);
    assert(exact == 707_106 * speed * dt && exact >= 0) by (nonlinear_arith)
        requires
            exact == 707_106 * (speed * dt),
            speed >= 0,
            dt >= 0,
    ;
}

/// Steering along one axis moves at full speed: the component along that
/// axis is one and the other is zero.
pub proof fn lemma_straight_heading(keys: Keys)
    requires
        (keys.axis_x() == 0) != (keys.axis_y() == 0),
    ensures
        keys.heading().unit(),
        keys.heading().x == signed(keys.axis_x(), DIRECTION_ONE as int),
        keys.heading().y == signed(keys.axis_y(), DIRECTION_ONE as int),
{
    lemma_heading_values(keys);
    let h = keys.heading();
    assert(h.x * h.x + h.y * h.y == 1_000_000_000_000) by (nonlinear_arith)
        requires
            (h.x == 0 && (h.y == 1_000_000 || h.y == -1_000_000)) || (h.y == 0 && (h.x
                == 1_000_000 || h.x == -1_000_000)),
    ;
    assert((magnitude(h.x as int) + 1) * (magnitude(h.x as int) + 1) + (magnitude(h.y as int)
        + 1) * (magnitude(h.y as int) + 1) > 1_000_000_000_000) by (nonlinear_arith)
        requires
            (magnitude(h.x as int) == 0 && magnitude(h.y as int) == 1_000_000) || (magnitude(
                h.y as int,
            ) == 0 && magnitude(h.x as int) == 1_000_000),
    ;
}

} // verus!
