//! The spawn scheduler's timers: repeating countdowns that are polled once
//! per frame.

use vstd::prelude::*;
use crate::config::{ENEMY_SPAWN_TIME, STAR_SPAWN_TIME};

verus! {

/// A repeating timer. Time adds up tick by tick; in the tick in which it
/// reaches the period the timer is finished and starts again from zero.
#[derive(Clone, Copy, Debug, PartialEq, Eq, Structural)]
pub struct SpawnTimer {
    /// The time between two firings, in microseconds.
    pub period: u64,
    /// The time gathered since the timer last fired.
    pub elapsed: u64,
    /// The timer fired in the latest tick.
    pub finished: bool,
}

/// The sum of a run of time steps.
pub open spec fn total(dts: Seq<u64>) -> int
    decreases dts.len(),
{
    if dts.len() == 0 {
        0
    } else {
        total(dts.drop_last()) + dts.last()
    }
}

impl SpawnTimer {
    /// The gathered time stays below the period.
    pub open spec fn wf(self) -> bool {
        self.elapsed == 0 || self.elapsed < self.period
    }

    /// The timer after one tick of `dt`.
    pub open spec fn ticked(self, dt: u64) -> SpawnTimer {
        if self.elapsed + dt >= self.period {
            SpawnTimer { period: self.period, elapsed: 0, finished: true }
        } else {
            SpawnTimer { period: self.period, elapsed: (self.elapsed + dt) as u64, finished: false }
        }
    }

    /// The timer after a run of ticks.
    pub open spec fn ticked_all(self, dts: Seq<u64>) -> SpawnTimer
        decreases dts.len(),
    {
        if dts.len() == 0 {
            self
        } else {
            self.ticked_all(dts.drop_last()).ticked(dts.last())
        }
    }

    /// A timer of the given period that has gathered no time yet.
    pub fn new(period: u64) -> (timer: SpawnTimer)
        ensures
            timer == (SpawnTimer { period, elapsed: 0, finished: false }),
            timer.wf(),
    {
        SpawnTimer { period, elapsed: 0, finished: false }
    }

    /// Adds `dt` to the gathered time. Where that reaches the period the
    /// timer fires, once, however many periods `dt` spans, and starts again
    /// from zero.
    pub fn tick(&mut self, dt: u64)
        ensures
            *final(self) == old(self).ticked(dt),
            final(self).wf(),
            final(self).finished <==> old(self).elapsed + dt >= old(self).period,
            final(self).finished ==> final(self).elapsed == 0,
    {
        let fired = match self.elapsed.checked_add(dt) {
            Some(sum) => sum >= self.period,
            None => true,
        };
        if fired {
            self.elapsed = 0;
            self.finished = true;
        } else {
            self.elapsed = self.elapsed + dt;
            self.finished = false;
        }
    }

    /// Tells whether the timer fired in the latest tick.
    pub fn finished(&self) -> (b: bool)
        ensures
            b == self.finished,
    {
        self.finished
    }
}

/// The timer that paces new stars.
#[derive(Clone, Copy, Debug, PartialEq, Eq, Structural)]
pub struct StarSpawnTimer {
    pub timer: SpawnTimer,
}

/// The timer that paces new enemies.
#[derive(Clone, Copy, Debug, PartialEq, Eq, Structural)]
pub struct EnemySpawnTimer {
    pub timer: SpawnTimer,
}

impl StarSpawnTimer {
    /// The timer has the period of the star timer and is well formed.
    pub open spec fn wf(self) -> bool {
        self.timer.period == STAR_SPAWN_TIME && self.timer.wf()
    }
}

impl EnemySpawnTimer {
    /// The timer has the period of the enemy timer and is well formed.
    pub open spec fn wf(self) -> bool {
        self.timer.period == ENEMY_SPAWN_TIME && self.timer.wf()
    }
}

impl Default for StarSpawnTimer {
    fn default() -> (r: Self)
        ensures
            r.timer == (SpawnTimer { period: STAR_SPAWN_TIME, elapsed: 0, finished: false }),
            r.wf(),
    {
        StarSpawnTimer { timer: SpawnTimer::new(STAR_SPAWN_TIME) }
    }
}

impl Default for EnemySpawnTimer {
    fn default() -> (r: Self)
        ensures
            r.timer == (SpawnTimer { period: ENEMY_SPAWN_TIME, elapsed: 0, finished: false }),
            r.wf(),
    {
        EnemySpawnTimer { timer: SpawnTimer::new(ENEMY_SPAWN_TIME) }
    }
}

/// While the gathered time stays below the period, ticks only add up: the
/// timer does not fire and nothing is lost.
pub proof fn lemma_ticks_add_up(timer: SpawnTimer, dts: Seq<u64>)
    requires
        timer.elapsed + total(dts) < timer.period,
    ensures
        timer.ticked_all(dts).period == timer.period,
        timer.ticked_all(dts).elapsed == timer.elapsed + total(dts),
        dts.len() > 0 ==> !timer.ticked_all(dts).finished,
    decreases dts.len(),
{
    if dts.len() > 0 {
        lemma_ticks_add_up(timer, dts.drop_last());
    }
}

/// A longer run of time steps sums to no less than its beginning.
pub proof fn lemma_total_of_prefix(dts: Seq<u64>, k: int)
    requires
        0 <= k <= dts.len(),
    ensures
        0 <= total(dts.take(k)) <= total(dts),
    decreases dts.len(),
{
    if k == dts.len() {
        assert(dts.take(k) == dts);
        if dts.len() > 0 {
            lemma_total_of_prefix(dts.drop_last(), k - 1);
        }
    } else {
        lemma_total_of_prefix(dts.drop_last(), k);
        assert(dts.drop_last().take(k) == dts.take(k));
    }
}

/// A timer fires in the tick in which the time gathered reaches its period,
/// in no tick before, and then holds no time: it fires once, not once for
/// each period that the time spans.
pub proof fn lemma_fires_once_when_period_is_reached(timer: SpawnTimer, dts: Seq<u64>)
    requires
        dts.len() > 0,
        timer.elapsed + total(dts.drop_last()) < timer.period,
        timer.elapsed + total(dts) >= timer.period,
    ensures
        timer.ticked_all(dts).finished,
        timer.ticked_all(dts).elapsed == 0,
        timer.ticked_all(dts).period == timer.period,
        forall|k: int| 0 < k < dts.len() ==> !(#[trigger] timer.ticked_all(dts.take(k))).finished,
{
    let front = dts.drop_last();
    lemma_ticks_add_up(timer, front);
    assert forall|k: int| 0 < k < dts.len() implies !(#[trigger] timer.ticked_all(
        dts.take(k),
    )).finished by {
        assert(front.take(k) == dts.take(k));
        lemma_total_of_prefix(front, k);
        lemma_ticks_add_up(timer, dts.take(k));
    }
}

} // verus!
