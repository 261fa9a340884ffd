//! Player movement clamping and fire cooldown.

use invaders::config::ArenaConfig;
use invaders::events::FrameEvents;
use invaders::game::World;
use invaders::timer::Timer;

fn fresh() -> World {
    World::new(ArenaConfig::classic()).unwrap()
}

#[test]
fn player_starts_centered() {
    let w = fresh();
    assert_eq!(w.player_x, 0);
}

#[test]
fn movement_is_speed_times_frame_time() {
    let mut w = fresh();
    w.move_player(false, true, 20);
    assert_eq!(w.player_x, 10_000);
    w.move_player(true, false, 20);
    assert_eq!(w.player_x, 0);
}

#[test]
fn opposite_keys_cancel() {
    let mut w = fresh();
    w.move_player(true, true, 1_000);
    assert_eq!(w.player_x, 0);
}

#[test]
fn clamped_right_whatever_the_frame_time() {
    let mut w = fresh();
    w.move_player(false, true, 1_000_000);
    assert_eq!(w.player_x, 415_000);
    w.move_player(false, true, 20);
    assert_eq!(w.player_x, 415_000);
}

#[test]
fn clamped_left_whatever_the_frame_time() {
    let mut w = fresh();
    w.move_player(true, false, 999_999_999);
    assert_eq!(w.player_x, -415_000);
}

#[test]
fn fire_waits_for_cooldown_then_resets_it() {
    let mut w = fresh();
    let mut events = FrameEvents::new();
    // The cooldown starts cold: holding fire before it finishes does
    // nothing.
    w.shoot(true, 100, &mut events);
    assert_eq!(events.player_bullets_fired.len(), 0);
    // Once 200 ms have accumulated, a held key fires and the cooldown
    // starts over.
    w.shoot(true, 100, &mut events);
    assert_eq!(events.player_bullets_fired.len(), 1);
    w.shoot(true, 100, &mut events);
    assert_eq!(events.player_bullets_fired.len(), 1);
    w.shoot(true, 100, &mut events);
    assert_eq!(events.player_bullets_fired.len(), 2);
}

#[test]
fn fire_key_released_fires_nothing() {
    let mut w = fresh();
    let mut events = FrameEvents::new();
    w.shoot(false, 1_000, &mut events);
    w.shoot(false, 1_000, &mut events);
    assert_eq!(events.player_bullets_fired.len(), 0);
}

#[test]
fn bullet_spawns_above_the_ship() {
    let mut w = fresh();
    let mut events = FrameEvents::new();
    w.shoot(true, 300, &mut events);
    assert_eq!(events.player_bullets_fired.len(), 1);
    assert_eq!(events.player_bullets_fired[0].x, 0);
    assert_eq!(events.player_bullets_fired[0].y, -250_000);
}

#[test]
fn once_timer_latches_until_reset() {
    let mut t = Timer::new_once(200);
    t.tick(100);
    assert!(!t.finished());
    t.tick(100);
    assert!(t.finished());
    assert!(t.just_finished);
    t.tick(50);
    assert!(t.finished());
    assert!(!t.just_finished);
    t.reset();
    assert!(!t.finished());
}

#[test]
fn repeating_timer_wraps() {
    let mut t = Timer::new_repeating(100);
    t.tick(250);
    assert!(t.just_finished);
    assert_eq!(t.elapsed_ms, 50);
    t.tick(30);
    assert!(!t.just_finished);
    assert_eq!(t.elapsed_ms, 80);
    t.tick(20);
    assert!(t.just_finished);
    assert_eq!(t.elapsed_ms, 0);
}
