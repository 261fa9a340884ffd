//! The player ship: clamped horizontal movement and cooldown-limited fire.

use vstd::prelude::*;

use crate::config::{
    ArenaConfig, BULLET_SPAWN_OFFSET, GAP_BETWEEN_PLAYER_AND_FLOOR, PLAYER_FIRE_COOLDOWN_MS,
    PLAYER_SPEED,
};
use crate::events::FrameEvents;
use crate::game::World;
use crate::timer::{Timer, TIMER_TICK_MAX_MS};
use crate::units::Pos;

verus! {

/// The player's fire cooldown: a once timer that must finish before the
/// next shot, and is reset by firing.
#[derive(Clone, Copy, PartialEq, Eq, Structural, Debug)]
pub struct PlayerShootConfig {
    pub timer: Timer,
}

/// The fire cooldown a game starts with.
pub open spec fn spec_setup() -> PlayerShootConfig {
    PlayerShootConfig {
        timer: Timer {
            elapsed_ms: 0,
            duration_ms: PLAYER_FIRE_COOLDOWN_MS,
            repeating: false,
            just_finished: false,
        },
    }
}

/// Starts the fire cooldown of a fresh game.
pub fn setup() -> (c: PlayerShootConfig)
    ensures
        c == spec_setup(),
        c.timer.wf(),
{
    PlayerShootConfig { timer: Timer::new_once(PLAYER_FIRE_COOLDOWN_MS) }
}

/// Where the player ship spawns: centered between the side walls.
pub fn spawn_player() -> (x: i64)
    ensures
        x == 0,
{
    0
}

/// The input axis the held keys give: right minus left.
pub open spec fn spec_direction(left: bool, right: bool) -> int {
    (if right {
        1int
    } else {
        0int
    }) - (if left {
        1int
    } else {
        0int
    })
}

/// `v` clamped into `[lo, hi]`.
pub open spec fn spec_clamp(v: int, lo: int, hi: int) -> int {
    if v < lo {
        lo
    } else if v > hi {
        hi
    } else {
        v
    }
}

/// The player's position after one frame of movement: the held direction
/// times the player speed times the frame time, clamped into the bounds.
pub open spec fn spec_moved_player_x(
    cfg: ArenaConfig,
    x: int,
    left: bool,
    right: bool,
    dt_ms: u64,
) -> int {
    spec_clamp(
        x + spec_direction(left, right) * PLAYER_SPEED * dt_ms,
        cfg.left_bound(),
        cfg.right_bound(),
    )
}

/// Whether one frame's fire system shoots: the cooldown, ticked by the
/// frame time, has finished, and the fire key is held.
pub open spec fn spec_shoot_fires(t: Timer, fire: bool, dt_ms: u64) -> bool {
    t.spec_tick(dt_ms).spec_finished() && fire
}

/// The fire cooldown after one frame: ticked, and reset if the frame shot.
pub open spec fn spec_shot_timer(t: Timer, fire: bool, dt_ms: u64) -> Timer {
    if spec_shoot_fires(t, fire, dt_ms) {
        Timer { elapsed_ms: 0, just_finished: false, ..t.spec_tick(dt_ms) }
    } else {
        t.spec_tick(dt_ms)
    }
}

/// Where the player ship's center stands: its fixed height over the
/// bottom wall, at the given X.
pub open spec fn spec_player_pos(cfg: ArenaConfig, player_x: i64) -> Pos {
    Pos { x: player_x, y: cfg.player_y() as i64 }
}

/// Where a player bullet starts: just above the ship's center.
pub open spec fn spec_player_bullet_spawn(cfg: ArenaConfig, player_x: i64) -> Pos {
    Pos { x: player_x, y: (cfg.player_y() + BULLET_SPAWN_OFFSET) as i64 }
}

/// The fire cooldown after a whole run of frames, each a pair of the
/// frame's time and whether the fire key was held.
pub open spec fn spec_run_shoot(t0: Timer, steps: Seq<(u64, bool)>) -> Timer
    decreases steps.len(),
{
    if steps.len() == 0 {
        t0
    } else {
        spec_shot_timer(spec_run_shoot(t0, steps.drop_last()), steps.last().1, steps.last().0)
    }
}

/// Whether frame `i` of the run shoots.
pub open spec fn spec_fires_at(t0: Timer, steps: Seq<(u64, bool)>, i: int) -> bool {
    spec_shoot_fires(spec_run_shoot(t0, steps.take(i)), steps[i].1, steps[i].0)
}

/// The milliseconds elapsed over frames `from .. to` of the run.
pub open spec fn spec_dt_sum(steps: Seq<(u64, bool)>, from: int, to: int) -> int
    decreases to - from,
{
    if to <= from {
        0
    } else {
        spec_dt_sum(steps, from, to - 1) + steps[to - 1].0
    }
}

/// A run of bounded frames keeps the cooldown a well-formed once timer of
/// the same duration.
proof fn lemma_run_shoot_wf(t0: Timer, steps: Seq<(u64, bool)>)
    requires
        t0.wf(),
        !t0.repeating,
        forall|k: int| 0 <= k < steps.len() ==> (#[trigger] steps[k]).0 <= TIMER_TICK_MAX_MS,
    ensures
        spec_run_shoot(t0, steps).wf(),
        !spec_run_shoot(t0, steps).repeating,
        spec_run_shoot(t0, steps).duration_ms == t0.duration_ms,
    decreases steps.len(),
{
    if steps.len() > 0 {
        lemma_run_shoot_wf(t0, steps.drop_last());
    }
}

/// After a shot, the cooldown's elapsed time can never run ahead of the
/// wall-clock time since that shot.
proof fn lemma_elapsed_below_dt_sum(t0: Timer, steps: Seq<(u64, bool)>, i: int, m: int)
    requires
        t0.wf(),
        !t0.repeating,
        forall|k: int| 0 <= k < steps.len() ==> (#[trigger] steps[k]).0 <= TIMER_TICK_MAX_MS,
        0 <= i < steps.len(),
        spec_fires_at(t0, steps, i),
        i + 1 <= m <= steps.len(),
    ensures
        spec_run_shoot(t0, steps.take(m)).elapsed_ms <= spec_dt_sum(steps, i + 1, m),
    decreases m,
{
    lemma_run_shoot_wf(t0, steps.take(m).drop_last());
    assert(steps.take(m).drop_last() =~= steps.take(m - 1));
    if m == i + 1 {
        assert(spec_run_shoot(t0, steps.take(m)).elapsed_ms == 0);
    } else {
        lemma_elapsed_below_dt_sum(t0, steps, i, m - 1);
    }
}

/// Firing is never less than the cooldown apart: between any two frames
/// that shoot, at least [`PLAYER_FIRE_COOLDOWN_MS`] of frame time passes —
/// so each cooldown interval emits at most one bullet.
pub proof fn lemma_fire_cooldown(t0: Timer, steps: Seq<(u64, bool)>, i: int, j: int)
    requires
        t0.wf(),
        !t0.repeating,
        t0.duration_ms == PLAYER_FIRE_COOLDOWN_MS,
        forall|k: int| 0 <= k < steps.len() ==> (#[trigger] steps[k]).0 <= TIMER_TICK_MAX_MS,
        0 <= i < j < steps.len(),
        spec_fires_at(t0, steps, i),
        spec_fires_at(t0, steps, j),
    ensures
        spec_dt_sum(steps, i + 1, j + 1) >= PLAYER_FIRE_COOLDOWN_MS,
{
    lemma_elapsed_below_dt_sum(t0, steps, i, j);
    lemma_run_shoot_wf(t0, steps.take(j));
    let tj = spec_run_shoot(t0, steps.take(j));
    assert(tj.elapsed_ms + steps[j].0 >= PLAYER_FIRE_COOLDOWN_MS);
}

impl World {
    /// Moves the player ship by the held keys: one player-speed frame's
    /// travel left or right, and the result clamped into the arena bounds —
    /// whatever the frame time and however long a key was held.
    pub fn move_player(&mut self, left: bool, right: bool, dt_ms: u64)
        requires
            old(self).cfg.wf(),
            old(self).cfg.left_bound() <= old(self).player_x <= old(self).cfg.right_bound(),
            dt_ms <= TIMER_TICK_MAX_MS,
        ensures
            *final(self) == (World { player_x: final(self).player_x, ..*old(self) }),
            final(self).player_x == spec_moved_player_x(
                old(self).cfg,
                old(self).player_x as int,
                left,
                right,
                dt_ms,
            ),
            old(self).cfg.left_bound() <= final(self).player_x <= old(self).cfg.right_bound(),
    {
        let mut direction: i64 = 0;
        if left {
            direction = direction - 1;
        }
        if right {
            direction = direction + 1;
        }
        let speed_step: i64 = PLAYER_SPEED * dt_ms as i64;
        proof {
            assert(direction * speed_step == spec_direction(left, right) * PLAYER_SPEED * dt_ms
                && -speed_step <= direction * speed_step <= speed_step) by (nonlinear_arith)
                requires
                    direction == spec_direction(left, right),
                    -1 <= direction <= 1,
                    speed_step == PLAYER_SPEED * (dt_ms as int),
                    0 <= speed_step,
            ;
        }
        let new_player_x: i64 = self.player_x + direction * speed_step;
        let left_bound: i64 = -self.cfg.right_wall + crate::config::WALL_THICKNESS / 2
            + crate::config::PLAYER_WIDTH / 2;
        let right_bound: i64 = self.cfg.right_wall - crate::config::WALL_THICKNESS / 2
            - crate::config::PLAYER_WIDTH / 2;
        self.player_x = if new_player_x < left_bound {
            left_bound
        } else if new_player_x > right_bound {
            right_bound
        } else {
            new_player_x
        };
    }

    /// Ticks the fire cooldown and, if it has finished while the fire key
    /// is held, resets it and records where the new player bullet starts.
    /// No two shots can come closer together than the cooldown.
    pub fn shoot(&mut self, fire: bool, dt_ms: u64, events: &mut FrameEvents)
        requires
            old(self).cfg.wf(),
            old(self).shoot_config.timer.wf(),
            dt_ms <= TIMER_TICK_MAX_MS,
        ensures
            *final(self) == (World { shoot_config: final(self).shoot_config, ..*old(self) }),
            final(self).shoot_config.timer == spec_shot_timer(
                old(self).shoot_config.timer,
                fire,
                dt_ms,
            ),
            *final(events) == (FrameEvents {
                player_bullets_fired: final(events).player_bullets_fired,
                ..*old(events)
            }),
            final(events).player_bullets_fired@ == if spec_shoot_fires(
                old(self).shoot_config.timer,
                fire,
                dt_ms,
            ) {
                old(events).player_bullets_fired@.push(
                    spec_player_bullet_spawn(old(self).cfg, old(self).player_x),
                )
            } else {
                old(events).player_bullets_fired@
            },
    {
        self.shoot_config.timer.tick(dt_ms);
        if !self.shoot_config.timer.finished() {
            return ;
        }
        if fire {
            self.shoot_config.timer.reset();
            let y: i64 = -self.cfg.top_wall + GAP_BETWEEN_PLAYER_AND_FLOOR + BULLET_SPAWN_OFFSET;
            events.player_bullets_fired.push(Pos { x: self.player_x, y });
        }
    }
}

} // verus!
