//! The systems of the game loop. Each advances the world by one step of a
//! frame; `frame::tick` runs them in their fixed order.

use vstd::prelude::*;
use crate::collision::{
    collected, collected_among, collides, first_hit, player_vs_enemies, star_hit,
};
use crate::config::{
    ENEMIES_SPEED, ENEMY_HALF_SIZE, NUMBER_OF_ENEMIES, NUMBER_OF_STARS, PLAYER_HALF_SIZE,
    PLAYER_SPEED, STAR_HALF_SIZE,
};
use crate::confinement::{breaches, confine, confined, reflect, reflected};
use crate::events::Cue;
use crate::input::Keys;
use crate::movement::{move_enemy, move_player, moved};
use crate::random::{
    can_head, can_spawn_at, in_spawn_area, random_bounce_cue, random_direction, random_position,
};
use crate::timer::{EnemySpawnTimer, StarSpawnTimer};
use crate::vector::{lemma_flip_keeps_unit, Bounds, Position};
use crate::world::{Enemy, Player, Star, World, WorldView};

verus! {

/// An enemy after one tick of travel.
pub open spec fn enemy_moved(enemy: Enemy, dt: u64) -> Enemy {
    Enemy {
        position: moved(enemy.position, enemy.direction, ENEMIES_SPEED, dt),
        direction: enemy.direction,
    }
}

/// An enemy lies beyond an edge of the viewport, by the margin of its half
/// size.
pub open spec fn enemy_bounces(enemy: Enemy, bounds: Bounds) -> bool {
    breaches(enemy.position.x as int, ENEMY_HALF_SIZE as int, bounds.width as int) || breaches(
        enemy.position.y as int,
        ENEMY_HALF_SIZE as int,
        bounds.height as int,
    )
}

/// An enemy with its heading turned around at the edges that it lies
/// beyond.
pub open spec fn enemy_turned(enemy: Enemy, bounds: Bounds) -> Enemy {
    Enemy {
        position: enemy.position,
        direction: reflected(
            enemy.position,
            enemy.direction,
            ENEMY_HALF_SIZE,
            bounds.width,
            bounds.height,
        ),
    }
}

/// An enemy with its position clamped to the viewport.
pub open spec fn enemy_confined(enemy: Enemy, bounds: Bounds) -> Enemy {
    Enemy {
        position: confined(enemy.position, ENEMY_HALF_SIZE, bounds.width, bounds.height),
        direction: enemy.direction,
    }
}

/// How many of the first `n` enemies lie beyond an edge of the viewport.
pub open spec fn bounces_among(enemies: Seq<Enemy>, bounds: Bounds, n: nat) -> nat
    decreases n,
{
    if n == 0 {
        0
    } else {
        bounces_among(enemies, bounds, (n - 1) as nat) + if enemy_bounces(enemies[n - 1], bounds) {
            1nat
        } else {
            0nat
        }
    }
}

/// The stars that are left once the player has collected those in reach.
pub open spec fn without_collected(player: Position, stars: Seq<Option<Star>>) -> Seq<
    Option<Star>,
> {
    stars.map_values(
        |star: Option<Star>|
            if star_hit(player, star) {
                None
            } else {
                star
            },
    )
}

/// The world after the player moved as the keys ask.
pub open spec fn player_moved(w: WorldView, keys: Keys, dt: u64) -> WorldView {
    match w.player {
        Some(p) => WorldView {
            player: Some(
                Player { position: moved(p.position, keys.heading(), PLAYER_SPEED, dt) },
            ),
            ..w
        },
        None => w,
    }
}

/// The world after the player was clamped to the viewport.
pub open spec fn player_confined(w: WorldView, bounds: Bounds) -> WorldView {
    match w.player {
        Some(p) => WorldView {
            player: Some(
                Player {
                    position: confined(p.position, PLAYER_HALF_SIZE, bounds.width, bounds.height),
                },
            ),
            ..w
        },
        None => w,
    }
}

/// The world after every enemy travelled for one tick.
pub open spec fn enemies_moved(w: WorldView, dt: u64) -> WorldView {
    WorldView { enemies: w.enemies.map_values(|e: Enemy| enemy_moved(e, dt)), ..w }
}

/// The world after every enemy turned around at the edges.
pub open spec fn enemies_turned(w: WorldView, bounds: Bounds) -> WorldView {
    WorldView { enemies: w.enemies.map_values(|e: Enemy| enemy_turned(e, bounds)), ..w }
}

/// The world after every enemy was clamped to the viewport.
pub open spec fn enemies_confined(w: WorldView, bounds: Bounds) -> WorldView {
    WorldView { enemies: w.enemies.map_values(|e: Enemy| enemy_confined(e, bounds)), ..w }
}

/// The enemy that hits the player, if any: the first in the order of the
/// store.
pub open spec fn striker(w: WorldView) -> Option<int> {
    match w.player {
        Some(p) => first_hit(p.position, w.enemies),
        None => None,
    }
}

/// The world after the check for a fatal collision: where an enemy hits
/// the player, the player is removed and the game is over.
pub open spec fn player_struck(w: WorldView) -> WorldView {
    if striker(w) is Some {
        WorldView { player: None, game_over: true, ..w }
    } else {
        w
    }
}

/// The slots of the stars that the player collects, in rising order.
pub open spec fn stars_in_reach(w: WorldView) -> Seq<usize> {
    match w.player {
        Some(p) => collected(p.position, w.stars),
        None => Seq::empty(),
    }
}

/// The world after the player collected the stars in reach: their slots
/// are empty and the score has grown by their number.
pub open spec fn stars_collected(w: WorldView) -> WorldView {
    match w.player {
        Some(p) => WorldView {
            stars: without_collected(p.position, w.stars),
            score: w.score.raised(collected(p.position, w.stars).len()),
            ..w
        },
        None => w,
    }
}

/// The world after the star timer ticked.
pub open spec fn star_timer_ticked(w: WorldView, dt: u64) -> WorldView {
    WorldView {
        star_spawn_timer: StarSpawnTimer { timer: w.star_spawn_timer.timer.ticked(dt) },
        ..w
    }
}

/// The world after the enemy timer ticked.
pub open spec fn enemy_timer_ticked(w: WorldView, dt: u64) -> WorldView {
    WorldView {
        enemy_spawn_timer: EnemySpawnTimer { timer: w.enemy_spawn_timer.timer.ticked(dt) },
        ..w
    }
}

/// A star that the random source can have placed.
pub open spec fn star_from_chance(bounds: Bounds, star: Star) -> bool {
    can_spawn_at(bounds, star.position) && in_spawn_area(bounds, star.position)
}

/// A slot that holds a star that the random source can have placed.
pub open spec fn fresh_star(bounds: Bounds, slot: Option<Star>) -> bool {
    slot matches Some(star) && star_from_chance(bounds, star)
}

/// An enemy that the random source can have placed and headed.
pub open spec fn enemy_from_chance(bounds: Bounds, enemy: Enemy) -> bool {
    &&& can_spawn_at(bounds, enemy.position)
    &&& in_spawn_area(bounds, enemy.position)
    &&& can_head(enemy.direction)
    &&& enemy.direction.unit()
    &&& enemy.direction.x >= 0
    &&& enemy.direction.y >= 0
}

/// `after` is `before` with `count` more stars, each placed by chance.
pub open spec fn stars_added(
    before: WorldView,
    after: WorldView,
    bounds: Bounds,
    count: nat,
) -> bool {
    &&& after == WorldView { stars: after.stars, ..before }
    &&& after.stars.len() == before.stars.len() + count
    &&& after.stars.take(before.stars.len() as int) == before.stars
    &&& forall|i: int|
        before.stars.len() <= i < after.stars.len() ==> fresh_star(
            bounds,
            #[trigger] after.stars[i],
        )
}

/// `after` is `before` with `count` more enemies, each placed and headed by
/// chance.
pub open spec fn enemies_added(
    before: WorldView,
    after: WorldView,
    bounds: Bounds,
    count: nat,
) -> bool {
    &&& after == WorldView { enemies: after.enemies, ..before }
    &&& after.enemies.len() == before.enemies.len() + count
    &&& after.enemies.take(before.enemies.len() as int) == before.enemies
    &&& forall|i: int|
        before.enemies.len() <= i < after.enemies.len() ==> enemy_from_chance(
            bounds,
            #[trigger] after.enemies[i],
        )
}

/// Stars added in two goes are stars added.
pub proof fn lemma_stars_added_twice(
    a: WorldView,
    b: WorldView,
    c: WorldView,
    bounds: Bounds,
    m: nat,
    n: nat,
)
    requires
        stars_added(a, b, bounds, m),
        stars_added(b, c, bounds, n),
    ensures
        stars_added(a, c, bounds, m + n),
{
    let start = a.stars.len() as int;
    assert(c.stars.take(start) =~= a.stars);
    assert forall|i: int| a.stars.len() <= i < c.stars.len() implies fresh_star(
        bounds,
        #[trigger] c.stars[i],
    ) by {
        if i < b.stars.len() {
            assert(c.stars.take(b.stars.len() as int)[i] == b.stars[i]);
        }
    }
}

/// Enemies added in two goes are enemies added.
pub proof fn lemma_enemies_added_twice(
    a: WorldView,
    b: WorldView,
    c: WorldView,
    bounds: Bounds,
    m: nat,
    n: nat,
)
    requires
        enemies_added(a, b, bounds, m),
        enemies_added(b, c, bounds, n),
    ensures
        enemies_added(a, c, bounds, m + n),
{
    let start = a.enemies.len() as int;
    assert(c.enemies.take(start) =~= a.enemies);
    assert forall|i: int| a.enemies.len() <= i < c.enemies.len() implies enemy_from_chance(
        bounds,
        #[trigger] c.enemies[i],
    ) by {
        if i < b.enemies.len() {
            assert(c.enemies.take(b.enemies.len() as int)[i] == b.enemies[i]);
        }
    }
}

/// Creates the player in the middle of the viewport. A world that has a
/// player, or had one that was hit, stays as it is.
pub fn spawn_player(world: &mut World, bounds: Bounds)
    ensures
        final(world)@ == old(world)@.with_player(bounds.middle()),
        old(world).wf() ==> final(world).wf(),
{
    world.spawn_player_at(bounds.center());
}

/// Adds one enemy at a random position with a random heading.
fn spawn_random_enemy(world: &mut World, bounds: Bounds) -> (slot: usize)
    ensures
        enemies_added(old(world)@, final(world)@, bounds, 1),
        slot == old(world).enemies.len(),
        old(world).wf() ==> final(world).wf(),
{
    let position = random_position(bounds);
    let direction = random_direction();
    let slot = world.spawn_enemy_at(position, direction);
    assert(world@.enemies.take(old(world)@.enemies.len() as int) == old(world)@.enemies);
    slot
}

/// Adds one star at a random position.
fn spawn_random_star(world: &mut World, bounds: Bounds) -> (slot: usize)
    ensures
        stars_added(old(world)@, final(world)@, bounds, 1),
        slot == old(world).stars.len(),
        old(world).wf() ==> final(world).wf(),
{
    let position = random_position(bounds);
    let slot = world.spawn_star_at(position);
    assert(world@.stars.take(old(world)@.stars.len() as int) == old(world)@.stars);
    slot
}

/// Creates the enemies that a game starts with, each at a random position
/// of the viewport and with a random heading of length one.
pub fn spawn_enemies(world: &mut World, bounds: Bounds)
    ensures
        enemies_added(old(world)@, final(world)@, bounds, NUMBER_OF_ENEMIES as nat),
        old(world).wf() ==> final(world).wf(),
{
    let mut n: usize = 0;
    assert(world@.enemies.take(old(world)@.enemies.len() as int) == old(world)@.enemies);
    while n < NUMBER_OF_ENEMIES
        invariant
            n <= NUMBER_OF_ENEMIES,
            enemies_added(old(world)@, world@, bounds, n as nat),
            old(world).wf() ==> world.wf(),
        decreases NUMBER_OF_ENEMIES - n,
    {
        let ghost before = world@;
        spawn_random_enemy(world, bounds);
        proof {
            lemma_enemies_added_twice(old(world)@, before, world@, bounds, n as nat, 1);
        }
        n = n + 1;
    }
}

/// Creates the stars that a game starts with, each at a random position of
/// the viewport.
pub fn spawn_star(world: &mut World, bounds: Bounds)
    ensures
        stars_added(old(world)@, final(world)@, bounds, NUMBER_OF_STARS as nat),
        old(world).wf() ==> final(world).wf(),
{
    let mut n: usize = 0;
    assert(world@.stars.take(old(world)@.stars.len() as int) == old(world)@.stars);
    while n < NUMBER_OF_STARS
        invariant
            n <= NUMBER_OF_STARS,
            stars_added(old(world)@, world@, bounds, n as nat),
            old(world).wf() ==> world.wf(),
        decreases NUMBER_OF_STARS - n,
    {
        let ghost before = world@;
        spawn_random_star(world, bounds);
        proof {
            lemma_stars_added_twice(old(world)@, before, world@, bounds, n as nat, 1);
        }
        n = n + 1;
    }
}

/// Moves the player as the held keys ask, at the player's speed. Without a
/// player nothing happens.
pub fn player_movement(world: &mut World, keys: Keys, dt: u64)
    ensures
        final(world)@ == player_moved(old(world)@, keys, dt),
        old(world).wf() ==> final(world).wf(),
{
    if let Some(player) = world.player {
        let position = move_player(player.position, keys.direction(), PLAYER_SPEED, dt);
        world.player = Some(Player { position });
    }
}

/// Clamps the player to the viewport, by the margin of its half size.
/// Without a player nothing happens.
pub fn confine_player_movement(world: &mut World, bounds: Bounds)
    ensures
        final(world)@ == player_confined(old(world)@, bounds),
        old(world).wf() ==> final(world).wf(),
{
    if let Some(player) = world.player {
        let position = confine(player.position, PLAYER_HALF_SIZE, bounds.width, bounds.height);
        world.player = Some(Player { position });
    }
}

/// Moves every enemy along its heading, at the enemies' speed.
pub fn enemies_movement(world: &mut World, dt: u64)
    ensures
        final(world)@ == enemies_moved(old(world)@, dt),
        old(world).wf() ==> final(world).wf(),
{
    let mut i: usize = 0;
    while i < world.enemies.len()
        invariant
            i <= world.enemies.len(),
            world@ == (WorldView { enemies: world@.enemies, ..old(world)@ }),
            world.enemies.len() == old(world).enemies.len(),
            forall|j: int|
                0 <= j < i ==> world.enemies[j] == enemy_moved(old(world).enemies[j], dt),
            forall|j: int|
                i <= j < world.enemies.len() ==> world.enemies[j] == old(world).enemies[j],
        decreases world.enemies.len() - i,
    {
        let enemy = world.enemies[i];
        let position = move_enemy(enemy.position, enemy.direction, ENEMIES_SPEED, dt);
        world.enemies.set(i, Enemy { position, direction: enemy.direction });
        i = i + 1;
    }
    assert(world@.enemies =~= enemies_moved(old(world)@, dt).enemies);
}

/// Turns every enemy around at the edges of the viewport that it lies
/// beyond, and picks a sound for each enemy that turned: one sound for an
/// enemy, also where both of its axes turned. The positions are read as the
/// movement left them.
pub fn update_enemy_direction(world: &mut World, bounds: Bounds) -> (cues: Vec<Cue>)
    ensures
        final(world)@ == enemies_turned(old(world)@, bounds),
        old(world).wf() ==> final(world).wf(),
        cues.len() == bounces_among(old(world).enemies@, bounds, old(world).enemies.len() as nat),
        forall|k: int| 0 <= k < cues.len() ==> (#[trigger] cues[k]).is_bounce(),
{
    let mut cues: Vec<Cue> = Vec::new();
    let mut i: usize = 0;
    while i < world.enemies.len()
        invariant
            i <= world.enemies.len(),
            world@ == (WorldView { enemies: world@.enemies, ..old(world)@ }),
            world.enemies.len() == old(world).enemies.len(),
            forall|j: int|
                0 <= j < i ==> world.enemies[j] == enemy_turned(old(world).enemies[j], bounds),
            forall|j: int|
                i <= j < world.enemies.len() ==> world.enemies[j] == old(world).enemies[j],
            cues.len() == bounces_among(old(world).enemies@, bounds, i as nat),
            forall|k: int| 0 <= k < cues.len() ==> (#[trigger] cues[k]).is_bounce(),
        decreases world.enemies.len() - i,
    {
        let enemy = world.enemies[i];
        let (direction, changed) = reflect(
            enemy.position,
            enemy.direction,
            ENEMY_HALF_SIZE,
            bounds.width,
            bounds.height,
        );
        world.enemies.set(i, Enemy { position: enemy.position, direction });
        if changed {
            cues.push(random_bounce_cue());
        }
        i = i + 1;
    }
    proof {
        let turned = enemies_turned(old(world)@, bounds);
        assert(world@.enemies =~= turned.enemies);
        if old(world).wf() {
            assert forall|j: int| 0 <= j < turned.enemies.len() implies (#[trigger] turned.enemies[
                j
            ]).direction.unit() by {
                let e = old(world)@.enemies[j];
                lemma_flip_keeps_unit(e.direction);
            }
        }
    }
    cues
}

/// Clamps every enemy to the viewport, by the margin of its half size. The
/// frame does not run this system: enemies leave the viewport for a moment
/// when they bounce.
pub fn confine_enemy_movement(world: &mut World, bounds: Bounds)
    ensures
        final(world)@ == enemies_confined(old(world)@, bounds),
        old(world).wf() ==> final(world).wf(),
{
    let mut i: usize = 0;
    while i < world.enemies.len()
        invariant
            i <= world.enemies.len(),
            world@ == (WorldView { enemies: world@.enemies, ..old(world)@ }),
            world.enemies.len() == old(world).enemies.len(),
            forall|j: int|
                0 <= j < i ==> world.enemies[j] == enemy_confined(old(world).enemies[j], bounds),
            forall|j: int|
                i <= j < world.enemies.len() ==> world.enemies[j] == old(world).enemies[j],
        decreases world.enemies.len() - i,
    {
        let enemy = world.enemies[i];
        let position = confine(enemy.position, ENEMY_HALF_SIZE, bounds.width, bounds.height);
        world.enemies.set(i, Enemy { position, direction: enemy.direction });
        i = i + 1;
    }
    assert(world@.enemies =~= enemies_confined(old(world)@, bounds).enemies);
}

/// Checks the player against the enemies. Where the player's circle
/// overlaps an enemy's, the player is removed, the game is over, and the
/// slot of the first such enemy is returned. Without a player nothing
/// happens.
pub fn enemy_hit_player(world: &mut World) -> (hit: Option<usize>)
    ensures
        final(world)@ == player_struck(old(world)@),
        match hit {
            Some(i) => striker(old(world)@) == Some(i as int),
            None => striker(old(world)@) is None,
        },
        old(world).wf() ==> final(world).wf(),
{
    if let Some(player) = world.player {
        let hit = player_vs_enemies(player.position, &world.enemies);
        if hit.is_some() {
            world.player = None;
            world.game_over = true;
        }
        hit
    } else {
        None
    }
}

/// Checks the player against the stars. Every star whose circle the
/// player's circle overlaps is collected: its slot is emptied and the score
/// grows by one. The slots of the collected stars are returned in rising
/// order. Without a player nothing happens.
pub fn player_hit_star(world: &mut World) -> (ids: Vec<usize>)
    ensures
        final(world)@ == stars_collected(old(world)@),
        ids@ == stars_in_reach(old(world)@),
        old(world).wf() ==> final(world).wf(),
{
    let mut ids: Vec<usize> = Vec::new();
    if let Some(player) = world.player {
        let mut i: usize = 0;
        while i < world.stars.len()
            invariant
                i <= world.stars.len(),
                world@ == (WorldView { stars: world@.stars, score: world@.score, ..old(world)@ }),
                world.stars.len() == old(world).stars.len(),
                old(world).player == Some(player),
                forall|j: int|
                    0 <= j < i ==> world.stars[j] == (if star_hit(
                        player.position,
                        old(world).stars[j],
                    ) {
                        None
                    } else {
                        old(world).stars[j]
                    }),
                forall|j: int| i <= j < world.stars.len() ==> world.stars[j] == old(world).stars[j],
                ids@ == collected_among(player.position, old(world).stars@, i as nat),
                world.score == old(world).score.raised(ids@.len()),
            decreases world.stars.len() - i,
        {
            let hit = match world.stars[i] {
                Some(star) => collides(
                    player.position,
                    PLAYER_HALF_SIZE,
                    star.position,
                    STAR_HALF_SIZE,
                ),
                None => false,
            };
            if hit {
                world.stars.set(i, None);
                world.score.increment();
                ids.push(i);
            }
            i = i + 1;
        }
        assert(world@.stars =~= stars_collected(old(world)@).stars);
    }
    ids
}

/// Adds the time of the frame to the star timer.
pub fn tick_star_spawn_timer(world: &mut World, dt: u64)
    ensures
        final(world)@ == star_timer_ticked(old(world)@, dt),
        old(world).wf() ==> final(world).wf(),
{
    world.star_spawn_timer.timer.tick(dt);
}

/// Adds the time of the frame to the enemy timer.
pub fn tick_enemy_spawn_timer(world: &mut World, dt: u64)
    ensures
        final(world)@ == enemy_timer_ticked(old(world)@, dt),
        old(world).wf() ==> final(world).wf(),
{
    world.enemy_spawn_timer.timer.tick(dt);
}

/// Spawns one star at a random position where the star timer fired in this
/// frame, and returns its slot. One star for a frame, however long the
/// frame took.
pub fn spawn_star_over_time(world: &mut World, bounds: Bounds) -> (slot: Option<usize>)
    ensures
        old(world).star_spawn_timer.timer.finished ==> stars_added(
            old(world)@,
            final(world)@,
            bounds,
            1,
        ) && slot == Some(old(world).stars.len()),
        !old(world).star_spawn_timer.timer.finished ==> final(world)@ == old(world)@ && slot
            is None,
        old(world).wf() ==> final(world).wf(),
{
    if world.star_spawn_timer.timer.finished() {
        Some(spawn_random_star(world, bounds))
    } else {
        None
    }
}

/// Spawns one enemy at a random position, with a random heading, where the
/// enemy timer fired in this frame, and returns its slot.
pub fn spawn_enemies_over_time(world: &mut World, bounds: Bounds) -> (slot: Option<usize>)
    ensures
        old(world).enemy_spawn_timer.timer.finished ==> enemies_added(
            old(world)@,
            final(world)@,
            bounds,
            1,
        ) && slot == Some(old(world).enemies.len()),
        !old(world).enemy_spawn_timer.timer.finished ==> final(world)@ == old(world)@ && slot
            is None,
        old(world).wf() ==> final(world).wf(),
{
    if world.enemy_spawn_timer.timer.finished() {
        Some(spawn_random_enemy(world, bounds))
    } else {
        None
    }
}

} // verus!
