//! Bullet spawning, movement, and the collision sweeps.

use invaders::bullets::{Bullet, BulletKind};
use invaders::config::ArenaConfig;
use invaders::events::FrameEvents;
use invaders::game::World;
use invaders::invaders::{Invader, InvaderDifficulty};
use invaders::units::{Pos, Vel};

fn fresh() -> World {
    World::new(ArenaConfig::classic()).unwrap()
}

fn player_bullet(x: i64, y: i64) -> Bullet {
    Bullet { pos: Pos { x, y }, vel: Vel { x: 0, y: 500 }, kind: BulletKind::Player }
}

fn invader_bullet(x: i64, y: i64, speed: i64) -> Bullet {
    Bullet { pos: Pos { x, y }, vel: Vel { x: 0, y: -speed }, kind: BulletKind::Invader }
}

#[test]
fn spawned_bullets_carry_the_event_data() {
    let mut w = fresh();
    let mut events = FrameEvents::new();
    w.shoot(true, 300, &mut events);
    let mut rolls = vec![0u32; 55];
    rolls[22] = 999;
    w.maybe_shoot_with_rolls(&rolls, &mut events);
    w.spawn_player_bullet(&events);
    w.spawn_invader_bullet(&events);
    assert_eq!(w.bullets.len(), 2);
    assert_eq!(w.bullets[0].kind, BulletKind::Player);
    assert_eq!(w.bullets[0].vel.y, 500);
    assert_eq!(w.bullets[1].kind, BulletKind::Invader);
    // Row two is the hard tier: its bullets fall at 500 units per second.
    assert_eq!(w.bullets[1].vel.y, -500);
}

#[test]
fn bullets_advance_by_velocity_times_frame_time() {
    let mut w = fresh();
    w.bullets.push(player_bullet(0, 0));
    w.bullets.push(invader_bullet(5_000, 0, 200));
    w.move_bullets(20);
    assert_eq!(w.bullets[0].pos.y, 10_000);
    assert_eq!(w.bullets[1].pos.y, -4_000);
    assert_eq!(w.bullets[1].pos.x, 5_000);
}

#[test]
fn bullet_overlapping_a_wall_is_removed_the_same_frame() {
    let mut w = fresh();
    w.bullets.push(player_bullet(0, 300_000));
    w.bullets.push(player_bullet(0, 0));
    w.bullets.push(invader_bullet(0, -298_000, 200));
    w.check_bullet_wall_collision();
    assert_eq!(w.bullets.len(), 1);
    assert_eq!(w.bullets[0].pos.y, 0);
}

#[test]
fn bullet_just_clear_of_the_wall_band_survives() {
    let mut w = fresh();
    // The top wall band covers y within 5 500 of 300 000 with the
    // bullet's own half-extent included.
    w.bullets.push(player_bullet(0, 294_000));
    w.check_bullet_wall_collision();
    assert_eq!(w.bullets.len(), 1);
}

#[test]
fn player_bullet_and_invader_destroy_each_other() {
    let mut w = fresh();
    w.invaders.clear();
    w.invaders.push(Invader {
        pos: Pos { x: 0, y: 100_000 },
        difficulty: InvaderDifficulty::Easy,
    });
    w.bullets.push(player_bullet(1_000, 99_000));
    w.check_player_bullet_invader_collision();
    assert_eq!(w.bullets.len(), 0);
    assert_eq!(w.invaders.len(), 0);
}

#[test]
fn invader_bullet_does_not_hit_invaders() {
    let mut w = fresh();
    w.invaders.clear();
    w.invaders.push(Invader {
        pos: Pos { x: 0, y: 100_000 },
        difficulty: InvaderDifficulty::Easy,
    });
    w.bullets.push(invader_bullet(0, 100_000, 200));
    w.check_player_bullet_invader_collision();
    assert_eq!(w.bullets.len(), 1);
    assert_eq!(w.invaders.len(), 1);
}

#[test]
fn first_striking_invader_bullet_hits_the_player() {
    let mut w = fresh();
    let mut events = FrameEvents::new();
    // Two invader bullets within the player's radius: only the first is
    // spent, as the hit ends the game.
    w.bullets.push(invader_bullet(10_000, -260_000, 200));
    w.bullets.push(invader_bullet(-10_000, -260_000, 200));
    w.check_invader_bullet_player_collision(&mut events);
    assert!(events.player_hit);
    assert_eq!(w.bullets.len(), 1);
    assert_eq!(w.bullets[0].pos.x, -10_000);
}

#[test]
fn player_bullet_does_not_hit_the_player() {
    let mut w = fresh();
    let mut events = FrameEvents::new();
    w.bullets.push(player_bullet(0, -260_000));
    w.check_invader_bullet_player_collision(&mut events);
    assert!(!events.player_hit);
    assert_eq!(w.bullets.len(), 1);
}

#[test]
fn bullet_meets_invader_after_two_fifths_of_a_second() {
    // One invader above, one player bullet rising from below at 500
    // units per second, stepped at fifty frames per second.
    let mut w = fresh();
    w.invaders.clear();
    w.invaders.push(Invader {
        pos: Pos { x: 0, y: 100_000 },
        difficulty: InvaderDifficulty::Easy,
    });
    w.bullets.push(player_bullet(0, -100_000));
    let mut frames: u32 = 0;
    while !w.bullets.is_empty() {
        w.move_bullets(20);
        w.check_player_bullet_invader_collision();
        frames += 1;
        assert!(frames <= 25);
    }
    // The centers close below the hit radius on the nineteenth frame,
    // 0.38 s in — the bullet has climbed to within 20 000 of the invader
    // — and both entities despawn on that same frame.
    assert_eq!(frames, 19);
    assert_eq!(w.invaders.len(), 0);
}
