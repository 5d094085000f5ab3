//! One frame of the game: the systems in their fixed order, and what holds
//! of a frame whatever the random source draws.

use vstd::prelude::*;
use crate::collision::{
    collected, collected_among, enemy_hits, lemma_collected, lemma_first_hit,
    lemma_same_centre_overlaps, star_hit,
};
use crate::config::{PLAYER_HALF_SIZE, PLAYER_SPEED, STAR_HALF_SIZE};
use crate::confinement::confined;
use crate::events::Cue;
use crate::input::{exit_game, lemma_idle_keys_stay, Keys};
use crate::movement::lemma_no_time_stays;
use crate::systems::{
    bounces_among, confine_player_movement, enemies_added, enemies_moved, enemies_movement,
    enemies_turned, enemy_hit_player, enemy_timer_ticked, player_confined, player_hit_star,
    player_moved, player_movement, player_struck, spawn_enemies_over_time, spawn_star_over_time,
    star_timer_ticked, stars_added, stars_collected, stars_in_reach, striker,
    tick_enemy_spawn_timer, tick_star_spawn_timer, update_enemy_direction,
};
use crate::vector::Bounds;
use crate::world::{Star, World, WorldView};

verus! {

/// What happened in a frame, for the collaborators that play sounds, show
/// the score and remove sprites.
#[derive(Debug)]
pub struct FrameEvents {
    /// The exit action fired: the host is asked to end the game.
    pub exit_requested: bool,
    /// One sound for each enemy that bounced, in the order of the store.
    pub bounces: Vec<Cue>,
    /// The slot of the enemy that hit the player in this frame.
    pub killed_by: Option<usize>,
    /// The slots of the stars collected in this frame, in rising order.
    pub collected: Vec<usize>,
    /// The slot of the star spawned in this frame.
    pub spawned_star: Option<usize>,
    /// The slot of the enemy spawned in this frame.
    pub spawned_enemy: Option<usize>,
}

impl FrameEvents {
    /// The sounds of the frame, in the order in which they arose: one for
    /// each bounce, the explosion where the player was hit, and one for
    /// each star collected.
    pub open spec fn sounds(self) -> Seq<Cue> {
        self.bounces@ + (if self.killed_by is Some {
            seq![Cue::Explosion]
        } else {
            Seq::<Cue>::empty()
        }) + Seq::new(self.collected@.len(), |i: int| Cue::StarCollected)
    }

    /// Lists the sounds of the frame for the audio sink.
    pub fn cues(&self) -> (r: Vec<Cue>)
        ensures
            r@ == self.sounds(),
    {
        let mut r: Vec<Cue> = Vec::new();
        let mut i: usize = 0;
        while i < self.bounces.len()
            invariant
                i <= self.bounces.len(),
                r@ == self.bounces@.take(i as int),
            decreases self.bounces.len() - i,
        {
            r.push(self.bounces[i]);
            i = i + 1;
        }
        if self.killed_by.is_some() {
            r.push(Cue::Explosion);
        }
        let ghost front = r@;
        let mut k: usize = 0;
        while k < self.collected.len()
            invariant
                k <= self.collected.len(),
                r@ == front + Seq::new(k as nat, |i: int| Cue::StarCollected),
            decreases self.collected.len() - k,
        {
            r.push(Cue::StarCollected);
            k = k + 1;
        }
        r
    }
}

/// The world after the movement of a frame: the player moved and was
/// clamped, then the enemies travelled.
pub open spec fn travelled(w: WorldView, keys: Keys, dt: u64, bounds: Bounds) -> WorldView {
    enemies_moved(player_confined(player_moved(w, keys, dt), bounds), dt)
}

/// The world after the collisions of a frame: the enemies turned around at
/// the edges, then the player was checked against the enemies.
pub open spec fn struck(w: WorldView, keys: Keys, dt: u64, bounds: Bounds) -> WorldView {
    player_struck(enemies_turned(travelled(w, keys, dt, bounds), bounds))
}

/// The world after all of a frame that chance has no part in: movement,
/// collisions, the collection of stars and the ticking of the timers.
pub open spec fn simulated(w: WorldView, keys: Keys, dt: u64, bounds: Bounds) -> WorldView {
    enemy_timer_ticked(star_timer_ticked(stars_collected(struck(w, keys, dt, bounds)), dt), dt)
}

/// `after` is `before` with what the timers of `before` ask for: one star
/// where the star timer fired, one enemy where the enemy timer fired, each
/// placed by chance.
pub open spec fn spawned(before: WorldView, after: WorldView, bounds: Bounds) -> bool {
    let between = WorldView { stars: after.stars, ..before };
    &&& stars_added(
        before,
        between,
        bounds,
        if before.star_spawn_timer.timer.finished {
            1
        } else {
            0
        },
    )
    &&& enemies_added(
        between,
        after,
        bounds,
        if before.enemy_spawn_timer.timer.finished {
            1
        } else {
            0
        },
    )
}

/// Runs one frame: the player moves and is clamped to the viewport, the
/// enemies travel and turn around at the edges, the player is checked
/// against the enemies and then against the stars, the spawn timers tick,
/// and a star and an enemy are spawned where their timer fired.
pub fn tick(world: &mut World, keys: Keys, dt: u64, bounds: Bounds) -> (events: FrameEvents)
    ensures
        old(world).wf() ==> final(world).wf(),
        spawned(simulated(old(world)@, keys, dt, bounds), final(world)@, bounds),
        events.exit_requested == keys.escape,
        events.bounces.len() == bounces_among(
            travelled(old(world)@, keys, dt, bounds).enemies,
            bounds,
            old(world).enemies.len() as nat,
        ),
        forall|k: int| 0 <= k < events.bounces.len() ==> (#[trigger] events.bounces[k]).is_bounce(),
        match events.killed_by {
            Some(i) => striker(enemies_turned(travelled(old(world)@, keys, dt, bounds), bounds))
                == Some(i as int),
            None => striker(enemies_turned(travelled(old(world)@, keys, dt, bounds), bounds))
                is None,
        },
        events.collected@ == stars_in_reach(struck(old(world)@, keys, dt, bounds)),
        events.spawned_star == (if simulated(
            old(world)@,
            keys,
            dt,
            bounds,
        ).star_spawn_timer.timer.finished {
            Some(old(world).stars.len())
        } else {
            None
        }),
        events.spawned_enemy == (if simulated(
            old(world)@,
            keys,
            dt,
            bounds,
        ).enemy_spawn_timer.timer.finished {
            Some(old(world).enemies.len())
        } else {
            None
        }),
{
    let exit_requested = exit_game(keys);
    player_movement(world, keys, dt);
    confine_player_movement(world, bounds);
    enemies_movement(world, dt);
    let bounces = update_enemy_direction(world, bounds);
    let killed_by = enemy_hit_player(world);
    let collected = player_hit_star(world);
    tick_star_spawn_timer(world, dt);
    let ghost ticked = world@;
    let spawned_star = spawn_star_over_time(world, bounds);
    let ghost starred = world@;
    tick_enemy_spawn_timer(world, dt);
    let ghost ticked_again = world@;
    let spawned_enemy = spawn_enemies_over_time(world, bounds);
    proof {
        assert(starred.stars.take(ticked.stars.len() as int) == ticked.stars);
        assert(world@.enemies.take(ticked_again.enemies.len() as int) == ticked_again.enemies);
    }
    FrameEvents { exit_requested, bounces, killed_by, collected, spawned_star, spawned_enemy }
}

/// Without a player the systems that depend on it change nothing, and no
/// enemy strikes and no star is collected.
pub proof fn lemma_without_player_nothing_happens(w: WorldView, keys: Keys, dt: u64, bounds: Bounds)
    requires
        w.player is None,
    ensures
        player_moved(w, keys, dt) == w,
        player_confined(w, bounds) == w,
        player_struck(w) == w,
        stars_collected(w) == w,
        striker(w) is None,
        stars_in_reach(w) == Seq::<usize>::empty(),
{
}

/// A player that an enemy strikes is removed, and the game is over.
pub proof fn lemma_struck_player_is_removed(w: WorldView)
    requires
        striker(w) is Some,
    ensures
        player_struck(w).player is None,
        player_struck(w).game_over,
        player_struck(w).score == w.score,
        player_struck(w).stars == w.stars,
        player_struck(w).enemies == w.enemies,
{
}

/// Once the game is over it stays over: in every later frame there is no
/// player, and the score and the stars stay as they are.
pub proof fn lemma_game_over_is_final(w: WorldView, keys: Keys, dt: u64, bounds: Bounds)
    requires
        w.wf(),
        w.game_over,
    ensures
        simulated(w, keys, dt, bounds).player is None,
        simulated(w, keys, dt, bounds).game_over,
        simulated(w, keys, dt, bounds).score == w.score,
        simulated(w, keys, dt, bounds).stars == w.stars,
{
}

/// A player that no enemy reaches is not struck: the check for a fatal
/// collision leaves the world as it is.
pub proof fn lemma_out_of_reach_keeps_player(w: WorldView)
    requires
        w.player is Some,
        forall|i: int|
            0 <= i < w.enemies.len() ==> !enemy_hits(
                w.player.unwrap().position,
                #[trigger] w.enemies[i],
            ),
    ensures
        striker(w) is None,
        player_struck(w) == w,
{
    lemma_first_hit(w.player.unwrap().position, w.enemies);
}

/// A frame in which no enemy reaches the player keeps the player, and the
/// game is not over after it. The score grows by the stars in the player's
/// reach and by nothing else: enemies out of reach have no say in it.
pub proof fn lemma_frame_out_of_reach_keeps_player(
    w: WorldView,
    keys: Keys,
    dt: u64,
    bounds: Bounds,
)
    requires
        w.player is Some,
        !w.game_over,
        ({
            let t = enemies_turned(travelled(w, keys, dt, bounds), bounds);
            forall|i: int|
                0 <= i < t.enemies.len() ==> !enemy_hits(
                    t.player.unwrap().position,
                    #[trigger] t.enemies[i],
                )
        }),
    ensures
        simulated(w, keys, dt, bounds).player == travelled(w, keys, dt, bounds).player,
        simulated(w, keys, dt, bounds).player is Some,
        !simulated(w, keys, dt, bounds).game_over,
        simulated(w, keys, dt, bounds).score == w.score.raised(
            collected(travelled(w, keys, dt, bounds).player.unwrap().position, w.stars).len(),
        ),
{
    let t = enemies_turned(travelled(w, keys, dt, bounds), bounds);
    lemma_out_of_reach_keeps_player(t);
}

/// The score grows by exactly one for each star collected. The collected
/// slots rise strictly, so no star counts twice; each held a star in reach
/// and is empty afterwards; every other slot is as it was.
pub proof fn lemma_score_counts_collected_stars(w: WorldView)
    requires
        w.player is Some,
        w.stars.len() <= usize::MAX,
    ensures
        ({
            let ids = stars_in_reach(w);
            let after = stars_collected(w);
            let p = w.player.unwrap().position;
            &&& after.score == w.score.raised(ids.len())
            &&& after.stars.len() == w.stars.len()
            &&& forall|k: int, l: int| 0 <= k < l < ids.len() ==> ids[k] < ids[l]
            &&& forall|k: int|
                0 <= k < ids.len() ==> (#[trigger] ids[k]) < w.stars.len() && star_hit(
                    p,
                    w.stars[ids[k] as int],
                ) && after.stars[ids[k] as int] is None
            &&& forall|i: int|
                0 <= i < w.stars.len() && !ids.contains(i as usize) ==> (#[trigger] after.stars[i])
                    == w.stars[i]
        }),
{
    let p = w.player.unwrap().position;
    lemma_collected(p, w.stars, w.stars.len());
}

/// A star at the very place of the player is in reach.
pub proof fn lemma_star_at_player_is_collected(w: WorldView, i: int)
    requires
        0 <= i < w.stars.len(),
        w.player is Some,
        w.stars[i] == Some(Star { position: w.player.unwrap().position }),
    ensures
        stars_collected(w).stars[i] is None,
{
    lemma_same_centre_overlaps(w.player.unwrap().position, PLAYER_HALF_SIZE + STAR_HALF_SIZE);
}

/// A frame without time, or without steering, collects a lone star that
/// lies on a player whom the viewport does not push aside and no enemy
/// strikes: the score goes from nothing to one and no star is left.
pub proof fn lemma_lone_star_on_player_scores_one(
    w: WorldView,
    keys: Keys,
    dt: u64,
    bounds: Bounds,
)
    requires
        w.player is Some,
        dt == 0 || keys.idle(),
        confined(w.player.unwrap().position, PLAYER_HALF_SIZE, bounds.width, bounds.height)
            == w.player.unwrap().position,
        striker(enemies_turned(travelled(w, keys, dt, bounds), bounds)) is None,
        w.stars == seq![Some(Star { position: w.player.unwrap().position })],
        w.score.value == 0,
    ensures
        simulated(w, keys, dt, bounds).score.value == 1,
        simulated(w, keys, dt, bounds).stars == seq![None::<Star>],
        simulated(w, keys, dt, bounds).player == w.player,
        stars_in_reach(struck(w, keys, dt, bounds)) == seq![0usize],
{
    let p = w.player.unwrap().position;
    if dt == 0 {
        lemma_no_time_stays(p, keys.heading(), PLAYER_SPEED, dt);
    } else {
        lemma_idle_keys_stay(p, keys, PLAYER_SPEED, dt);
    }
    let s = struck(w, keys, dt, bounds);
    assert(s.player == w.player && s.stars == w.stars && s.score == w.score);
    lemma_same_centre_overlaps(p, PLAYER_HALF_SIZE + STAR_HALF_SIZE);
    reveal_with_fuel(collected_among, 2);
    assert(collected(p, s.stars) =~= seq![0usize]);
    assert(stars_collected(s).stars =~= seq![None::<Star>]);
}

/// A star is collected at most once: a slot that is empty stays empty, and
/// the score never falls.
pub proof fn lemma_collected_stars_stay_gone(w: WorldView, i: int)
    requires
        0 <= i < w.stars.len(),
        w.stars[i] is None,
    ensures
        stars_collected(w).stars[i] is None,
        stars_collected(w).score.value >= w.score.value,
        w.player is Some ==> !star_hit(w.player.unwrap().position, w.stars[i]),
{
}

/// What no frame undoes: the score never falls, an empty star slot stays
/// empty, and no slot is lost. Spawning only adds slots at the end.
pub proof fn lemma_frame_keeps_what_was_won(w: WorldView, keys: Keys, dt: u64, bounds: Bounds)
    ensures
        simulated(w, keys, dt, bounds).score.value >= w.score.value,
        simulated(w, keys, dt, bounds).stars.len() == w.stars.len(),
        simulated(w, keys, dt, bounds).enemies.len() == w.enemies.len(),
        forall|i: int|
            0 <= i < w.stars.len() && w.stars[i] is None ==> (#[trigger] simulated(
                w,
                keys,
                dt,
                bounds,
            ).stars[i]) is None,
        forall|after: WorldView|
            #![trigger spawned(simulated(w, keys, dt, bounds), after, bounds)]
            spawned(simulated(w, keys, dt, bounds), after, bounds) ==> {
                &&& after.score.value >= w.score.value
                &&& after.stars.len() >= w.stars.len()
                &&& after.enemies.len() >= w.enemies.len()
                &&& after.player == simulated(w, keys, dt, bounds).player
            },
{
}

} // verus!
