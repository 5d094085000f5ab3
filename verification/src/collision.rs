//! The collision detector: circle against circle.

use vstd::prelude::*;
use crate::config::{ENEMY_HALF_SIZE, PLAYER_HALF_SIZE, STAR_HALF_SIZE};
use crate::vector::Position;
use crate::world::{Enemy, Star};

verus! {

/// The square of the distance between two points.
pub open spec fn distance_squared(a: Position, b: Position) -> int {
    (a.x - b.x) * (a.x - b.x) + (a.y - b.y) * (a.y - b.y)
}

/// Two circles overlap: the distance between their centres is less than
/// the sum of their radii. Touching circles do not overlap.
pub open spec fn overlaps(a: Position, b: Position, reach: int) -> bool {
    reach > 0 && distance_squared(a, b) < reach * reach
}

/// Tells whether two circles overlap.
pub fn collides(a: Position, radius_a: i32, b: Position, radius_b: i32) -> (hit: bool)
    ensures
        hit == overlaps(a, b, radius_a + radius_b),
{
    let reach: i64 = radius_a as i64 + radius_b as i64;
    if reach <= 0 {
        return false;
    }
    let dx: i64 = a.x as i64 - b.x as i64;
    let dy: i64 = a.y as i64 - b.y as i64;
    assert(0 <= dx * dx <= 0xffff_ffff * 0xffff_ffff && 0 <= dy * dy <= 0xffff_ffff * 0xffff_ffff
        && 0 <= reach * reach <= 0xffff_fffe * 0xffff_fffe) by (nonlinear_arith)
        requires
            -0xffff_ffff <= dx <= 0xffff_ffff,
            -0xffff_ffff <= dy <= 0xffff_ffff,
            0 < reach <= 0xffff_fffe,
    ;
    let d2: i128 = (dx as i128) * (dx as i128) + (dy as i128) * (dy as i128);
    d2 < (reach as i128) * (reach as i128)
}

/// The player's circle overlaps the enemy's.
pub open spec fn enemy_hits(player: Position, enemy: Enemy) -> bool {
    overlaps(player, enemy.position, PLAYER_HALF_SIZE + ENEMY_HALF_SIZE)
}

/// The player's circle overlaps that of a star that is still there.
pub open spec fn star_hit(player: Position, star: Option<Star>) -> bool {
    star matches Some(s) && overlaps(player, s.position, PLAYER_HALF_SIZE + STAR_HALF_SIZE)
}

/// The first enemy, in the order of the store, that the player overlaps.
pub open spec fn first_hit(player: Position, enemies: Seq<Enemy>) -> Option<int>
    decreases enemies.len(),
{
    if enemies.len() == 0 {
        None
    } else {
        match first_hit(player, enemies.drop_last()) {
            Some(i) => Some(i),
            None => if enemy_hits(player, enemies.last()) {
                Some(enemies.len() - 1)
            } else {
                None
            },
        }
    }
}

/// The slots, in rising order, of the first `n` stars' slots whose star the
/// player overlaps.
pub open spec fn collected_among(player: Position, stars: Seq<Option<Star>>, n: nat) -> Seq<usize>
    decreases n,
{
    if n == 0 {
        Seq::empty()
    } else {
        let before = collected_among(player, stars, (n - 1) as nat);
        if star_hit(player, stars[n - 1]) {
            before.push((n - 1) as usize)
        } else {
            before
        }
    }
}

/// The slots, in rising order, of all the stars that the player overlaps.
pub open spec fn collected(player: Position, stars: Seq<Option<Star>>) -> Seq<usize> {
    collected_among(player, stars, stars.len())
}

/// Looks for a fatal collision: the first enemy, in the order of the store,
/// whose circle the player's circle overlaps.
pub fn player_vs_enemies(player: Position, enemies: &Vec<Enemy>) -> (r: Option<usize>)
    ensures
        r matches Some(i) ==> i < enemies.len() && enemy_hits(player, enemies[i as int]) && forall|
            j: int,
        | 0 <= j < i ==> !enemy_hits(player, #[trigger] enemies[j]),
        r is None ==> forall|j: int|
            0 <= j < enemies.len() ==> !enemy_hits(player, #[trigger] enemies[j]),
        match r {
            Some(i) => first_hit(player, enemies@) == Some(i as int),
            None => first_hit(player, enemies@) is None,
        },
{
    let mut i: usize = 0;
    while i < enemies.len()
        invariant
            i <= enemies.len(),
            forall|j: int| 0 <= j < i ==> !enemy_hits(player, #[trigger] enemies[j]),
        decreases enemies.len() - i,
    {
        if collides(player, PLAYER_HALF_SIZE, enemies[i].position, ENEMY_HALF_SIZE) {
            proof {
                lemma_first_hit(player, enemies@);
            }
            return Some(i);
        }
        i = i + 1;
    }
    proof {
        lemma_first_hit(player, enemies@);
    }
    None
}

/// Collects stars: the slots of all the stars whose circle the player's
/// circle overlaps, in rising order. No star in reach is left out.
pub fn player_vs_stars(player: Position, stars: &Vec<Option<Star>>) -> (r: Vec<usize>)
    ensures
        r@ == collected(player, stars@),
{
    let mut found: Vec<usize> = Vec::new();
    let mut i: usize = 0;
    while i < stars.len()
        invariant
            i <= stars.len(),
            found@ == collected_among(player, stars@, i as nat),
        decreases stars.len() - i,
    {
        let hit = match stars[i] {
            Some(star) => collides(player, PLAYER_HALF_SIZE, star.position, STAR_HALF_SIZE),
            None => false,
        };
        if hit {
            found.push(i);
        }
        i = i + 1;
    }
    found
}

/// `first_hit` is the least slot of an enemy that the player overlaps, and
/// `None` where there is no such enemy.
pub proof fn lemma_first_hit(player: Position, enemies: Seq<Enemy>)
    ensures
        match first_hit(player, enemies) {
            Some(i) => 0 <= i < enemies.len() && enemy_hits(player, enemies[i]) && forall|j: int|
                0 <= j < i ==> !enemy_hits(player, #[trigger] enemies[j]),
            None => forall|j: int|
                0 <= j < enemies.len() ==> !enemy_hits(player, #[trigger] enemies[j]),
        },
    decreases enemies.len(),
{
    if enemies.len() > 0 {
        let front = enemies.drop_last();
        lemma_first_hit(player, front);
        assert(forall|j: int| 0 <= j < front.len() ==> front[j] == enemies[j]);
    }
}

/// The collected slots rise strictly, so none occurs twice; each holds a
/// star that the player overlaps; and every such slot is among them.
pub proof fn lemma_collected(player: Position, stars: Seq<Option<Star>>, n: nat)
    requires
        n <= stars.len() <= usize::MAX,
    ensures
        ({
            let ids = collected_among(player, stars, n);
            &&& ids.len() <= n
            &&& forall|k: int|
                0 <= k < ids.len() ==> (#[trigger] ids[k]) < n && star_hit(
                    player,
                    stars[ids[k] as int],
                )
            &&& forall|k: int, l: int| 0 <= k < l < ids.len() ==> ids[k] < ids[l]
            &&& forall|i: int|
                0 <= i < n && star_hit(player, #[trigger] stars[i]) ==> ids.contains(i as usize)
        }),
    decreases n,
{
    if n > 0 {
        let before = collected_among(player, stars, (n - 1) as nat);
        let ids = collected_among(player, stars, n);
        lemma_collected(player, stars, (n - 1) as nat);
        if star_hit(player, stars[n - 1]) {
            assert forall|i: int|
                0 <= i < n && star_hit(player, #[trigger] stars[i]) implies ids.contains(
                i as usize,
            ) by {
                if i < n - 1 {
                    let k = choose|k: int| 0 <= k < before.len() && before[k] == i as usize;
                    assert(ids[k] == i as usize);
                } else {
                    assert(ids[ids.len() - 1] == i as usize);
                }
            }
        }
    }
}

/// Circles with the same centre and a positive reach always overlap.
pub proof fn lemma_same_centre_overlaps(a: Position, reach: int)
    requires
        reach > 0,
    ensures
        overlaps(a, a, reach),
{
    assert(reach * reach > 0) by (nonlinear_arith)
        requires
            reach > 0,
    ;
}

/// Circles whose centres are at least the reach apart never overlap: at
/// exactly the reach they touch, which is no collision.
pub proof fn lemma_apart_never_overlaps(a: Position, b: Position, reach: int)
    requires
        distance_squared(a, b) >= reach * reach,
    ensures
        !overlaps(a, b, reach),
{
}

/// Circles that are at least the reach apart along one axis never overlap.
pub proof fn lemma_apart_on_axis_never_overlaps(a: Position, b: Position, reach: int)
    requires
        reach >= 0,
        a.x - b.x >= reach || b.x - a.x >= reach || a.y - b.y >= reach || b.y - a.y >= reach,
    ensures
        !overlaps(a, b, reach),
{
    let dx = a.x - b.x;
    let dy = a.y - b.y;
    assert(dx * dx + dy * dy >= reach * reach) by (nonlinear_arith)
        requires
            reach >= 0,
            dx >= reach || -dx >= reach || dy >= reach || -dy >= reach,
    ;
}

/// Overlap does not depend on the order of the two circles.
pub proof fn lemma_overlap_symmetric(a: Position, b: Position, reach: int)
    ensures
        overlaps(a, b, reach) == overlaps(b, a, reach),
{
    assert((a.x - b.x) * (a.x - b.x) == (b.x - a.x) * (b.x - a.x)) by (nonlinear_arith);
    assert((a.y - b.y) * (a.y - b.y) == (b.y - a.y) * (b.y - a.y)) by (nonlinear_arith);
}

} // verus!
