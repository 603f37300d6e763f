//! Discrete collision events the simulation reports to its consumers.

use vstd::prelude::*;

verus! {

/// What the ball struck during a tick; the audio side maps each variant to a
/// sound.  At most one event is reported per tick, the last collision
/// resolved winning.
#[derive(Clone, Copy, Debug, PartialEq, Eq, Structural)]
pub enum Bounce {
    Paddle,
    Brick,
    PlayfieldBorder,
}

} // verus!
