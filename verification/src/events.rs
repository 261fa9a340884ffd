//! The events one frame's systems hand to the systems after them.
//!
//! Each frame starts from an empty record; systems early in the frame write
//! events, systems later in the same frame read them, and the record is
//! dropped when the frame ends.

use vstd::prelude::*;

use crate::invaders::InvaderDifficulty;
use crate::units::Pos;

verus! {

/// An invader fired: where the bullet starts and the tier that shot it,
/// which picks the bullet's speed and sprite.
#[derive(Clone, Copy, PartialEq, Eq, Structural, Debug)]
pub struct InvaderBulletFired {
    pub position: Pos,
    pub invader_difficulty: InvaderDifficulty,
}

/// Everything the systems of one frame report to one another.
pub struct FrameEvents {
    /// Spawn points of the player bullets fired this frame.
    pub player_bullets_fired: Vec<Pos>,
    /// The invader shots of this frame, in fleet order.
    pub invader_bullets_fired: Vec<InvaderBulletFired>,
    /// An invader has reached the losing line.
    pub reached_bottom: bool,
    /// An invader bullet struck the player.
    pub player_hit: bool,
    /// No invader is left.
    pub all_cleared: bool,
}

impl FrameEvents {
    /// No event is recorded.
    pub open spec fn is_empty(self) -> bool {
        &&& self.player_bullets_fired@ == Seq::<Pos>::empty()
        &&& self.invader_bullets_fired@ == Seq::<InvaderBulletFired>::empty()
        &&& !self.reached_bottom
        &&& !self.player_hit
        &&& !self.all_cleared
    }

    /// Starts a frame's empty record.
    pub fn new() -> (e: FrameEvents)
        ensures
            e.is_empty(),
    {
        FrameEvents {
            player_bullets_fired: Vec::new(),
            invader_bullets_fired: Vec::new(),
            reached_bottom: false,
            player_hit: false,
            all_cleared: false,
        }
    }
}

} // verus!
