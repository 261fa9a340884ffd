//! Whole frames and the terminal state machine.

use invaders::bullets::{Bullet, BulletKind};
use invaders::config::ArenaConfig;
use invaders::game::{FrameInput, World};
use invaders::gamestate::GameStatus;
use invaders::invaders::{Invader, InvaderDifficulty};
use invaders::units::{Pos, Vel};

fn fresh() -> World {
    World::new(ArenaConfig::classic()).unwrap()
}

fn idle() -> FrameInput {
    FrameInput { left: false, right: false, fire: false }
}

#[test]
fn fresh_game_is_playing() {
    let w = fresh();
    assert_eq!(w.status, GameStatus::Playing);
    assert_eq!(w.frames, 0);
    assert_eq!(w.bullets.len(), 0);
}

#[test]
fn a_quiet_frame_keeps_playing() {
    let mut w = fresh();
    let rolls = vec![0u32; 55];
    w.step_with_rolls(idle(), 20, &rolls);
    assert_eq!(w.status, GameStatus::Playing);
    assert_eq!(w.frames, 1);
    assert_eq!(w.bullets.len(), 0);
    assert_eq!(w.invaders.len(), 55);
}

#[test]
fn stepping_with_the_thread_rng_draws_its_own_rolls() {
    let mut w = fresh();
    w.step(FrameInput { left: false, right: true, fire: false }, 20);
    assert_eq!(w.frames, 1);
    assert_eq!(w.player_x, 10_000);
}

#[test]
fn killing_the_last_invader_wins_the_same_frame() {
    let mut w = fresh();
    w.invaders.clear();
    w.invaders.push(Invader {
        pos: Pos { x: 0, y: 100_000 },
        difficulty: InvaderDifficulty::Easy,
    });
    w.bullets.push(Bullet {
        pos: Pos { x: 0, y: 90_000 },
        vel: Vel { x: 0, y: 500 },
        kind: BulletKind::Player,
    });
    let rolls = vec![0u32];
    w.step_with_rolls(idle(), 20, &rolls);
    assert_eq!(w.invaders.len(), 0);
    assert_eq!(w.status, GameStatus::Won);
}

#[test]
fn win_signalled_once_not_per_remaining_frame() {
    let mut w = fresh();
    w.invaders.clear();
    let rolls: Vec<u32> = Vec::new();
    w.step_with_rolls(idle(), 20, &rolls);
    assert_eq!(w.status, GameStatus::Won);
    let frames_at_win = w.frames;
    // Later frames find a terminal world and leave it untouched: the
    // transition was taken exactly once.
    for _ in 0..5 {
        w.step_with_rolls(idle(), 20, &rolls);
        assert_eq!(w.status, GameStatus::Won);
        assert_eq!(w.frames, frames_at_win);
    }
}

#[test]
fn invader_bullet_reaching_the_ship_loses() {
    let mut w = fresh();
    w.bullets.push(Bullet {
        pos: Pos { x: 0, y: -255_000 },
        vel: Vel { x: 0, y: -200 },
        kind: BulletKind::Invader,
    });
    let rolls = vec![0u32; 55];
    w.step_with_rolls(idle(), 20, &rolls);
    assert_eq!(w.status, GameStatus::Lost);
}

#[test]
fn fleet_reaching_the_losing_line_loses() {
    let mut w = fresh();
    w.invaders[54].pos.y = -241_000;
    let rolls = vec![0u32; 55];
    w.step_with_rolls(idle(), 20, &rolls);
    assert_eq!(w.status, GameStatus::Lost);
}

#[test]
fn lost_game_stays_lost() {
    let mut w = fresh();
    w.invaders[54].pos.y = -241_000;
    let rolls = vec![0u32; 55];
    w.step_with_rolls(idle(), 20, &rolls);
    assert_eq!(w.status, GameStatus::Lost);
    w.invaders.clear();
    let none: Vec<u32> = Vec::new();
    w.step_with_rolls(idle(), 20, &none);
    assert_eq!(w.status, GameStatus::Lost);
}

#[test]
fn held_keys_move_and_fire_through_a_frame() {
    let mut w = fresh();
    let rolls = vec![0u32; 55];
    // Enough frames for the fire cooldown to finish and loose one shot.
    let mut shots_seen: usize = 0;
    for _ in 0..11 {
        w.step_with_rolls(FrameInput { left: false, right: true, fire: true }, 20, &rolls);
        shots_seen = shots_seen.max(w.bullets.len());
    }
    assert_eq!(w.player_x, 11 * 10_000);
    assert!(shots_seen >= 1);
}
