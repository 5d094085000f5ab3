//! The random source, and what the game makes of its draws: spawn
//! positions, headings of new enemies, and the sound of a bounce.

use vstd::prelude::*;
use crate::arith::saturate;
use crate::events::Cue;
use crate::vector::{
    lemma_normalized_is_unit, normalized, Bounds, Direction, Position, DIRECTION_ONE,
};

verus! {

/// Draws 32 random bits with `rand::random::<u32>()`, which samples the
/// thread-local generator. Nothing is claimed of the bits: every value may
/// come back, and two draws are unrelated.
#[verifier::external_body]
fn random_word() -> (word: u32) {
    rand::random::<u32>()
}

/// The uniform sample in `[0, 1)` that a random word stands for, counted in
/// steps of `2^-24`: the word's upper 24 bits.
pub open spec fn sample_of(word: u32) -> int {
    (word / 256) as int
}

/// A sample scaled to an extent: `sample / 2^24 * extent`, rounded down.
pub open spec fn scaled(sample: int, extent: int) -> int {
    (sample * extent) / 0x100_0000
}

/// The point of the viewport that two random words pick.
pub open spec fn spawn_point(bounds: Bounds, word_x: u32, word_y: u32) -> Position {
    Position {
        x: saturate(scaled(sample_of(word_x), bounds.width as int)) as i32,
        y: saturate(scaled(sample_of(word_y), bounds.height as int)) as i32,
    }
}

/// A point at which an entity may be spawned: anywhere in
/// `[0, width) x [0, height)`. Nothing is kept free at the edges, so a
/// sprite spawned there can reach out of the viewport.
pub open spec fn in_spawn_area(bounds: Bounds, p: Position) -> bool {
    &&& 0 <= p.x <= bounds.width
    &&& 0 <= p.y <= bounds.height
    &&& bounds.width > 0 ==> p.x < bounds.width
    &&& bounds.height > 0 ==> p.y < bounds.height
}

/// The heading that two random words pick: the vector of their samples
/// brought to length one. The zero vector has no heading; it gives the
/// heading along the horizontal axis.
pub open spec fn spawn_heading(word_x: u32, word_y: u32) -> Direction {
    if sample_of(word_x) == 0 && sample_of(word_y) == 0 {
        Direction { x: DIRECTION_ONE, y: 0 }
    } else {
        normalized(sample_of(word_x), sample_of(word_y))
    }
}

/// Some pair of random words picks the point.
pub open spec fn can_spawn_at(bounds: Bounds, p: Position) -> bool {
    exists|word_x: u32, word_y: u32| p == spawn_point(bounds, word_x, word_y)
}

/// Some pair of random words picks the heading.
pub open spec fn can_head(d: Direction) -> bool {
    exists|word_x: u32, word_y: u32| d == spawn_heading(word_x, word_y)
}

/// The sound that a random word picks for a bounce: the first variant
/// where its sample exceeds one half, the second otherwise.
pub open spec fn bounce_cue_of(word: u32) -> Cue {
    if sample_of(word) > 0x80_0000 {
        Cue::BounceFirst
    } else {
        Cue::BounceSecond
    }
}

/// Computes the sample that a random word stands for.
pub fn sample(word: u32) -> (s: u32)
    ensures
        s == sample_of(word),
        s < 0x100_0000,
{
    assert(word >> 8 == word / 256) by (bit_vector);
    word >> 8
}

/// Scales a sample to an extent and fits the result to a coordinate.
fn scale(sample: u32, extent: u32) -> (r: i32)
    requires
        sample < 0x100_0000,
    ensures
        r == saturate(scaled(sample as int, extent as int)),
        0 <= r <= extent,
        extent > 0 ==> r < extent,
{
    assert(sample * extent <= 0xff_ffff * 0xffff_ffff && sample * extent <= 0xff_ffff * extent)
        by (nonlinear_arith)
        requires
            0 <= sample <= 0xff_ffff,
            0 <= extent <= 0xffff_ffff,
    ;
    let q: u64 = (sample as u64) * (extent as u64) / 0x100_0000;
    if q > i32::MAX as u64 {
        i32::MAX
    } else {
        q as i32
    }
}

/// The spawn position for two random words.
pub fn position_from_words(bounds: Bounds, word_x: u32, word_y: u32) -> (p: Position)
    ensures
        p == spawn_point(bounds, word_x, word_y),
        in_spawn_area(bounds, p),
{
    Position { x: scale(sample(word_x), bounds.width), y: scale(sample(word_y), bounds.height) }
}

/// The heading of a new enemy for two random words.
pub fn direction_from_words(word_x: u32, word_y: u32) -> (d: Direction)
    ensures
        d == spawn_heading(word_x, word_y),
        d.unit(),
        d.x >= 0,
        d.y >= 0,
{
    let sx = sample(word_x);
    let sy = sample(word_y);
    proof {
        lemma_fallback_is_unit();
    }
    match Direction::normalize(sx as i32, sy as i32) {
        Some(d) => {
            proof {
                lemma_normalized_is_unit(sx as int, sy as int);
            }
            d
        },
        None => Direction { x: DIRECTION_ONE, y: 0 },
    }
}

/// The sound of a bounce for a random word.
pub fn bounce_cue(word: u32) -> (cue: Cue)
    ensures
        cue == bounce_cue_of(word),
        cue.is_bounce(),
{
    if sample(word) > 0x80_0000 {
        Cue::BounceFirst
    } else {
        Cue::BounceSecond
    }
}

/// Draws a spawn position: uniform over the viewport, edges included on
/// the low side.
pub fn random_position(bounds: Bounds) -> (p: Position)
    ensures
        can_spawn_at(bounds, p),
        in_spawn_area(bounds, p),
{
    let word_x = random_word();
    let word_y = random_word();
    position_from_words(bounds, word_x, word_y)
}

/// Draws the heading of a new enemy.
pub fn random_direction() -> (d: Direction)
    ensures
        can_head(d),
        d.unit(),
        d.x >= 0,
        d.y >= 0,
{
    let word_x = random_word();
    let word_y = random_word();
    direction_from_words(word_x, word_y)
}

/// Draws the sound of a bounce: either variant, each with even odds.
pub fn random_bounce_cue() -> (cue: Cue)
    ensures
        cue.is_bounce(),
{
    bounce_cue(random_word())
}

/// The heading that stands in for the zero vector has length one.
pub proof fn lemma_fallback_is_unit()
    ensures
        (Direction { x: DIRECTION_ONE, y: 0 }).unit(),
{
    assert(1_000_000int * 1_000_000 + 0int * 0 == 1_000_000_000_000) by (nonlinear_arith);
    assert(1_000_001int * 1_000_001 + 1int * 1 > 1_000_000_000_000) by (nonlinear_arith);
}

} // verus!
