//! What a frame tells the world outside the simulation.

use vstd::prelude::*;

verus! {

/// A sound to play. Playing it is left to the audio sink.
#[derive(Clone, Copy, Debug, PartialEq, Eq, Structural)]
pub enum Cue {
    /// An enemy bounced: first variant.
    BounceFirst,
    /// An enemy bounced: second variant.
    BounceSecond,
    /// An enemy hit the player.
    Explosion,
    /// The player collected a star.
    StarCollected,
}

impl Cue {
    /// The cue is one of the two sounds of a bounce.
    pub open spec fn is_bounce(self) -> bool {
        self == Cue::BounceFirst || self == Cue::BounceSecond
    }
}

} // verus!
