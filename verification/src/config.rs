//! Compile-time configuration of the game.

use vstd::prelude::*;

verus! {

/// Length units that make up one pixel.
pub const UNITS_PER_PIXEL: i32 = 1_000;

/// Microseconds in one second; durations are counted in microseconds.
pub const MICROS_PER_SECOND: u64 = 1_000_000;

/// Speed of every enemy, in length units per second.
pub const ENEMIES_SPEED: u32 = 200_000;

/// Speed of the player, in length units per second.
pub const PLAYER_SPEED: u32 = 500_000;

/// Enemies created when the game starts.
pub const NUMBER_OF_ENEMIES: usize = 4;

/// Edge of the player's square sprite, in length units.
pub const PLAYER_SIZE: i32 = 64_000;

/// Edge of an enemy's square sprite, in length units.
pub const ENEMY_SIZE: i32 = 64_000;

/// Half the edge of the player's sprite: its margin from the edges of the
/// viewport, and the radius of its circle.
pub const PLAYER_HALF_SIZE: i32 = 32_000;

/// Half the edge of an enemy's sprite.
pub const ENEMY_HALF_SIZE: i32 = 32_000;

/// Stars created when the game starts.
pub const NUMBER_OF_STARS: usize = 10;

/// Edge of a star's square sprite, in length units.
pub const STAR_SIZE: i32 = 30_000;

/// Half the edge of a star's sprite.
pub const STAR_HALF_SIZE: i32 = 15_000;

/// Period of the star spawn timer, in microseconds.
pub const STAR_SPAWN_TIME: u64 = 1_000_000;

/// Period of the enemy spawn timer, in microseconds.
pub const ENEMY_SPAWN_TIME: u64 = 5_000_000;

} // verus!
