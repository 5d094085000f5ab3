//! Simulation core of a small arcade game: a player sprite moves inside a
//! viewport, avoids bouncing enemies and collects stars for score.
//!
//! All quantities are integers. Lengths and coordinates are counted in
//! thousandths of a pixel, durations in microseconds, speeds in length units
//! per second, and the components of a heading in millionths.
//!
//! The state of a game is a [`world::World`]. The systems in [`systems`]
//! each advance it by one step of a frame, and [`frame::tick`] runs them in
//! their fixed order. Window, input devices, clock, rendering and sound are
//! left to the host: it hands in the viewport, the keys and the elapsed
//! time, and gets back what happened.

pub mod arith;
pub mod collision;
pub mod config;
pub mod confinement;
pub mod events;
pub mod frame;
pub mod input;
pub mod movement;
pub mod random;
pub mod score;
pub mod systems;
pub mod timer;
pub mod vector;
pub mod world;

pub use crate::collision::{collides, player_vs_enemies, player_vs_stars};
pub use crate::config::{
    ENEMIES_SPEED, ENEMY_SIZE, ENEMY_SPAWN_TIME, NUMBER_OF_ENEMIES, NUMBER_OF_STARS, PLAYER_SIZE,
    PLAYER_SPEED, STAR_SIZE, STAR_SPAWN_TIME,
};
pub use crate::confinement::{confine, reflect};
pub use crate::events::Cue;
pub use crate::frame::{tick, FrameEvents};
pub use crate::input::{exit_game, Keys};
pub use crate::movement::{move_enemy, move_player};
pub use crate::score::{update_score, Score};
pub use crate::systems::{
    confine_enemy_movement, confine_player_movement, enemies_movement, enemy_hit_player,
    player_hit_star, player_movement, spawn_enemies, spawn_enemies_over_time, spawn_player,
    spawn_star, spawn_star_over_time, tick_enemy_spawn_timer, tick_star_spawn_timer,
    update_enemy_direction,
};
pub use crate::timer::{EnemySpawnTimer, SpawnTimer, StarSpawnTimer};
pub use crate::vector::{Bounds, Direction, Position};
pub use crate::world::{Enemy, Player, Star, World};
