//! The session state machine.
//!
//! A game is playing until one terminal condition holds, and then stays in
//! its terminal state: an invader bullet striking the player or the fleet
//! reaching the losing line loses the game; clearing the fleet wins it. The
//! terminal states are states a driver can observe and render, not a
//! process exit, so the transition into one is taken exactly once.

use vstd::prelude::*;

use crate::events::FrameEvents;
use crate::game::{spec_step, FrameInput, World, WorldModel};

verus! {

/// Where the session stands. Terminal states are absorbing: once the game
/// is won or lost, no frame changes the world again.
#[derive(Clone, Copy, PartialEq, Eq, Structural, Debug)]
pub enum GameStatus {
    /// The game is running: systems move entities and resolve collisions.
    Playing,
    /// The player cleared the fleet.
    Won,
    /// An invader bullet struck the player, or the fleet reached the
    /// losing line.
    Lost,
}

/// A sequence of frames: each world is the step of the one before it
/// under that frame's keys, frame time and rolls.
pub open spec fn is_run(
    trace: Seq<WorldModel>,
    moves: Seq<(FrameInput, u64, Seq<u32>)>,
) -> bool {
    &&& trace.len() == moves.len() + 1
    &&& forall|k: int|
        0 <= k < moves.len() ==> trace[k + 1] == spec_step(
            #[trigger] trace[k],
            moves[k].0,
            moves[k].1,
            moves[k].2,
        )
}

/// A terminal state is absorbing: a frame stepped on a world that is no
/// longer playing changes nothing.
pub proof fn lemma_terminal_sticks(
    m: WorldModel,
    input: FrameInput,
    dt_ms: u64,
    rolls: Seq<u32>,
)
    requires
        m.status != GameStatus::Playing,
    ensures
        spec_step(m, input, dt_ms, rolls) == m,
{
    reveal(spec_step);
}

/// Once a run has left the playing state, no later frame of the run
/// changes the world.
pub proof fn lemma_terminal_persists(
    trace: Seq<WorldModel>,
    moves: Seq<(FrameInput, u64, Seq<u32>)>,
    k: int,
    l: int,
)
    requires
        is_run(trace, moves),
        0 <= k <= l < trace.len(),
        trace[k].status != GameStatus::Playing,
    ensures
        trace[l] == trace[k],
    decreases l - k,
{
    if l > k {
        lemma_terminal_persists(trace, moves, k, l - 1);
        lemma_terminal_sticks(trace[l - 1], moves[l - 1].0, moves[l - 1].1, moves[l - 1].2);
    }
}

/// The win transition is signalled exactly once, not once per remaining
/// frame: after the frame that turns a playing world into a won one, the
/// world never changes again — so no later frame of the run can take
/// that transition a second time.
pub proof fn lemma_win_signalled_once(
    trace: Seq<WorldModel>,
    moves: Seq<(FrameInput, u64, Seq<u32>)>,
    i: int,
    j: int,
)
    requires
        is_run(trace, moves),
        0 <= i < j < moves.len(),
        trace[i].status == GameStatus::Playing,
        trace[i + 1].status == GameStatus::Won,
    ensures
        trace[j] == trace[i + 1],
        trace[j].status != GameStatus::Playing,
        trace[j + 1] == trace[j],
{
    lemma_terminal_persists(trace, moves, i + 1, j);
    lemma_terminal_persists(trace, moves, i + 1, j + 1);
}

impl World {
    /// Reports a cleared fleet: raises the all-cleared event when no
    /// invader is left.
    pub fn check_player_killed_all_invaders(&self, events: &mut FrameEvents)
        ensures
            *final(events) == (FrameEvents { all_cleared: final(events).all_cleared, ..*old(events) }),
            final(events).all_cleared == (old(events).all_cleared || self.invaders@.len() == 0),
    {
        if self.invaders.len() == 0 {
            events.all_cleared = true;
        }
    }

    /// Ends a playing game as lost when an invader bullet struck the
    /// player this frame; an already-ended game keeps its state.
    pub fn invader_bullet_hit_player(&mut self, events: &FrameEvents)
        ensures
            *final(self) == (World { status: final(self).status, ..*old(self) }),
            final(self).status == if events.player_hit && old(self).status == GameStatus::Playing {
                GameStatus::Lost
            } else {
                old(self).status
            },
    {
        if events.player_hit && matches!(self.status, GameStatus::Playing) {
            self.status = GameStatus::Lost;
        }
    }

    /// Ends a playing game as lost when the fleet reached the losing line
    /// this frame; an already-ended game keeps its state.
    pub fn invaders_hit_player(&mut self, events: &FrameEvents)
        ensures
            *final(self) == (World { status: final(self).status, ..*old(self) }),
            final(self).status == if events.reached_bottom && old(self).status
                == GameStatus::Playing {
                GameStatus::Lost
            } else {
                old(self).status
            },
    {
        if events.reached_bottom && matches!(self.status, GameStatus::Playing) {
            self.status = GameStatus::Lost;
        }
    }

    /// Ends a playing game as won when the fleet was cleared this frame;
    /// an already-ended game keeps its state, so the win transition is
    /// taken exactly once, not once per remaining frame.
    pub fn player_killed_all_invaders(&mut self, events: &FrameEvents)
        ensures
            *final(self) == (World { status: final(self).status, ..*old(self) }),
            final(self).status == if events.all_cleared && old(self).status == GameStatus::Playing {
                GameStatus::Won
            } else {
                old(self).status
            },
    {
        if events.all_cleared && matches!(self.status, GameStatus::Playing) {
            self.status = GameStatus::Won;
        }
    }
}

} // verus!
