//! The score tracker.

use vstd::prelude::*;

verus! {

/// The number of stars collected. It only grows; at the largest value
/// that it can hold it stays.
#[derive(Clone, Copy, Debug, PartialEq, Eq, Structural)]
pub struct Score {
    pub value: u32,
}

impl Score {
    /// The score after `n` more stars.
    pub open spec fn raised(self, n: nat) -> Score {
        Score {
            value: if self.value + n > u32::MAX {
                u32::MAX
            } else {
                (self.value + n) as u32
            },
        }
    }

    /// Counts one more star.
    pub fn increment(&mut self)
        ensures
            *final(self) == old(self).raised(1),
            final(self).value >= old(self).value,
    {
        if self.value < u32::MAX {
            self.value = self.value + 1;
        }
    }
}

impl Default for Score {
    fn default() -> (r: Self)
        ensures
            r.value == 0,
    {
        Score { value: 0 }
    }
}

/// Reports the score where it differs from the one last reported; a score
/// that was never reported is reported.
pub fn update_score(score: &Score, reported: Option<u32>) -> (r: Option<u32>)
    ensures
        r == (if reported == Some(score.value) {
            None::<u32>
        } else {
            Some(score.value)
        }),
{
    match reported {
        Some(v) => if v == score.value {
            None
        } else {
            Some(score.value)
        },
        None => Some(score.value),
    }
}

/// Counting stars one by one is counting them at once, and the score never
/// falls.
pub proof fn lemma_raised(score: Score, m: nat, n: nat)
    ensures
        score.raised(m).raised(n) == score.raised(m + n),
        score.raised(0) == score,
        score.raised(n).value >= score.value,
{
}

} // verus!
