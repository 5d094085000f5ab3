//! The entity store: the player, the enemies and the stars, with the score
//! and the spawn timers.

use vstd::prelude::*;
use crate::score::Score;
use crate::config::{ENEMY_SPAWN_TIME, STAR_SPAWN_TIME};
use crate::timer::{EnemySpawnTimer, SpawnTimer, StarSpawnTimer};
use crate::vector::{Direction, Position};

verus! {

/// The player: at most one exists.
#[derive(Clone, Copy, Debug, PartialEq, Eq, Structural)]
pub struct Player {
    pub position: Position,
}

/// An enemy: it travels along its heading and turns around at the edges of
/// the viewport.
#[derive(Clone, Copy, Debug, PartialEq, Eq, Structural)]
pub struct Enemy {
    pub position: Position,
    pub direction: Direction,
}

/// A star: it stays where it was created until the player collects it.
#[derive(Clone, Copy, Debug, PartialEq, Eq, Structural)]
pub struct Star {
    pub position: Position,
}

/// All the state of a game. Enemies and stars live in slots that are never
/// reused: the slot of an entity names it for as long as the game runs, and
/// the slot of a collected star stays empty.
#[derive(Debug)]
pub struct World {
    /// The player, until an enemy hits it.
    pub player: Option<Player>,
    /// The enemies, by slot.
    pub enemies: Vec<Enemy>,
    /// The stars, by slot; `None` where the star was collected.
    pub stars: Vec<Option<Star>>,
    /// The stars collected so far.
    pub score: Score,
    /// Paces new stars.
    pub star_spawn_timer: StarSpawnTimer,
    /// Paces new enemies.
    pub enemy_spawn_timer: EnemySpawnTimer,
    /// An enemy has hit the player.
    pub game_over: bool,
}

/// The mathematical model of a `World`.
pub ghost struct WorldView {
    pub player: Option<Player>,
    pub enemies: Seq<Enemy>,
    pub stars: Seq<Option<Star>>,
    pub score: Score,
    pub star_spawn_timer: StarSpawnTimer,
    pub enemy_spawn_timer: EnemySpawnTimer,
    pub game_over: bool,
}

impl View for World {
    type V = WorldView;

    open spec fn view(&self) -> WorldView {
        WorldView {
            player: self.player,
            enemies: self.enemies@,
            stars: self.stars@,
            score: self.score,
            star_spawn_timer: self.star_spawn_timer,
            enemy_spawn_timer: self.enemy_spawn_timer,
            game_over: self.game_over,
        }
    }
}

impl WorldView {
    /// Every enemy's heading has length one, the player is gone once the
    /// game is over, and the timers are well formed.
    pub open spec fn wf(self) -> bool {
        &&& forall|i: int|
            0 <= i < self.enemies.len() ==> (#[trigger] self.enemies[i]).direction.unit()
        &&& self.game_over ==> self.player is None
        &&& self.star_spawn_timer.wf()
        &&& self.enemy_spawn_timer.wf()
    }

    /// The world as it is before anything was spawned.
    pub open spec fn empty() -> WorldView {
        WorldView {
            player: None,
            enemies: Seq::empty(),
            stars: Seq::empty(),
            score: Score { value: 0 },
            star_spawn_timer: StarSpawnTimer {
                timer: SpawnTimer { period: STAR_SPAWN_TIME, elapsed: 0, finished: false },
            },
            enemy_spawn_timer: EnemySpawnTimer {
                timer: SpawnTimer { period: ENEMY_SPAWN_TIME, elapsed: 0, finished: false },
            },
            game_over: false,
        }
    }

    /// The world with the player at `position`, unless there is a player
    /// already or the game is over: a player that was hit does not return.
    pub open spec fn with_player(self, position: Position) -> WorldView {
        if self.player is None && !self.game_over {
            WorldView { player: Some(Player { position }), ..self }
        } else {
            self
        }
    }

    /// The world with one more enemy, in a new slot.
    pub open spec fn with_enemy(self, enemy: Enemy) -> WorldView {
        WorldView { enemies: self.enemies.push(enemy), ..self }
    }

    /// The world with one more star, in a new slot.
    pub open spec fn with_star(self, star: Star) -> WorldView {
        WorldView { stars: self.stars.push(Some(star)), ..self }
    }
}

impl World {
    /// The world is well formed.
    pub open spec fn wf(&self) -> bool {
        self@.wf()
    }

    /// A world without entities, with no score and with fresh timers.
    pub fn new() -> (world: World)
        ensures
            world@ == WorldView::empty(),
            world.wf(),
    {
        World {
            player: None,
            enemies: Vec::new(),
            stars: Vec::new(),
            score: Score::default(),
            star_spawn_timer: StarSpawnTimer::default(),
            enemy_spawn_timer: EnemySpawnTimer::default(),
            game_over: false,
        }
    }

    /// Tells whether the world is well formed.
    pub fn is_wf(&self) -> (b: bool)
        ensures
            b == self.wf(),
    {
        if self.game_over && self.player.is_some() {
            return false;
        }
        if self.star_spawn_timer.timer.period != STAR_SPAWN_TIME
            || self.enemy_spawn_timer.timer.period != ENEMY_SPAWN_TIME {
            return false;
        }
        if self.star_spawn_timer.timer.elapsed >= self.star_spawn_timer.timer.period
            || self.enemy_spawn_timer.timer.elapsed >= self.enemy_spawn_timer.timer.period {
            return false;
        }
        let mut i: usize = 0;
        while i < self.enemies.len()
            invariant
                i <= self.enemies.len(),
                forall|j: int| 0 <= j < i ==> (#[trigger] self.enemies[j]).direction.unit(),
            decreases self.enemies.len() - i,
        {
            if !self.enemies[i].direction.is_unit() {
                assert(!self@.enemies[i as int].direction.unit());
                return false;
            }
            i = i + 1;
        }
        true
    }

    /// Puts the player at `position`, unless there is a player already or
    /// the game is over.
    pub fn spawn_player_at(&mut self, position: Position)
        ensures
            final(self)@ == old(self)@.with_player(position),
            old(self).wf() ==> final(self).wf(),
    {
        if self.player.is_none() && !self.game_over {
            self.player = Some(Player { position });
        }
    }

    /// Adds an enemy and returns its slot.
    pub fn spawn_enemy_at(&mut self, position: Position, direction: Direction) -> (slot: usize)
        ensures
            final(self)@ == old(self)@.with_enemy(Enemy { position, direction }),
            slot == old(self).enemies.len(),
            old(self).wf() && direction.unit() ==> final(self).wf(),
    {
        let slot = self.enemies.len();
        self.enemies.push(Enemy { position, direction });
        slot
    }

    /// Adds a star and returns its slot.
    pub fn spawn_star_at(&mut self, position: Position) -> (slot: usize)
        ensures
            final(self)@ == old(self)@.with_star(Star { position }),
            slot == old(self).stars.len(),
            old(self).wf() ==> final(self).wf(),
    {
        let slot = self.stars.len();
        self.stars.push(Some(Star { position }));
        slot
    }
}

} // verus!
