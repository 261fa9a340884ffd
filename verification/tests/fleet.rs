//! The invader grid, its march, and its fire.

use invaders::config::ArenaConfig;
use invaders::events::FrameEvents;
use invaders::game::World;
use invaders::invaders::InvaderDifficulty;

fn fresh() -> World {
    World::new(ArenaConfig::classic()).unwrap()
}

#[test]
fn grid_spawns_rows_times_columns() {
    let w = fresh();
    assert_eq!(w.invaders.len(), 55);
}

#[test]
fn grid_spacing_and_offset() {
    let w = fresh();
    assert_eq!(w.invaders[0].pos.x, -300_000);
    assert_eq!(w.invaders[0].pos.y, 250_000);
    assert_eq!(w.invaders[1].pos.x, -300_000 + 54_545);
    assert_eq!(w.invaders[1].pos.y, 250_000);
    // The next row starts one vertical spacing lower.
    assert_eq!(w.invaders[11].pos.x, -300_000);
    assert_eq!(w.invaders[11].pos.y, 190_000);
}

#[test]
fn grid_stays_inside_the_arena() {
    let w = fresh();
    for inv in &w.invaders {
        assert!(inv.pos.x >= -435_000);
        assert!(inv.pos.x <= 435_000);
        assert!(inv.pos.y <= 250_000);
        assert!(inv.pos.y > -240_000);
    }
}

#[test]
fn larger_grid_still_inside() {
    let mut cfg = ArenaConfig::classic();
    cfg.n_cols = 20;
    cfg.n_rows = 7;
    let w = World::new(cfg).unwrap();
    assert_eq!(w.invaders.len(), 140);
    for inv in &w.invaders {
        assert!(inv.pos.x >= -435_000);
        assert!(inv.pos.x <= 435_000);
    }
}

#[test]
fn difficulty_fixed_per_row() {
    let w = fresh();
    assert_eq!(w.invaders[0].difficulty, InvaderDifficulty::Easy);
    assert_eq!(w.invaders[11].difficulty, InvaderDifficulty::Medium);
    assert_eq!(w.invaders[22].difficulty, InvaderDifficulty::Hard);
    assert_eq!(w.invaders[33].difficulty, InvaderDifficulty::Medium);
    assert_eq!(w.invaders[44].difficulty, InvaderDifficulty::Easy);
}

#[test]
fn difficulty_from_row_index() {
    assert_eq!(InvaderDifficulty::from_i32(0), InvaderDifficulty::Easy);
    assert_eq!(InvaderDifficulty::from_i32(1), InvaderDifficulty::Medium);
    assert_eq!(InvaderDifficulty::from_i32(2), InvaderDifficulty::Hard);
    assert_eq!(InvaderDifficulty::from_i32(3), InvaderDifficulty::Medium);
    assert_eq!(InvaderDifficulty::from_i32(7), InvaderDifficulty::Easy);
    assert_eq!(InvaderDifficulty::from_i32(-1), InvaderDifficulty::Easy);
}

#[test]
fn difficulty_picks_bullet_speed() {
    assert_eq!(InvaderDifficulty::Easy.get_bullet_speed(), 200);
    assert_eq!(InvaderDifficulty::Medium.get_bullet_speed(), 350);
    assert_eq!(InvaderDifficulty::Hard.get_bullet_speed(), 500);
}

#[test]
fn difficulty_picks_sprites() {
    assert_eq!(InvaderDifficulty::Easy.get_sprite_path(), "green.png");
    assert_eq!(InvaderDifficulty::Medium.get_sprite_path(), "yellow.png");
    assert_eq!(InvaderDifficulty::Hard.get_sprite_path(), "red.png");
    assert_eq!(
        InvaderDifficulty::Hard.get_bullet_sprite_path(),
        "red-bullet.png"
    );
}

#[test]
fn fleet_marches_on_the_movement_beat() {
    let mut w = fresh();
    w.move_invaders(50);
    assert_eq!(w.invaders[0].pos.x, -300_000);
    w.move_invaders(50);
    assert_eq!(w.invaders[0].pos.x, -295_000);
    w.move_invaders(100);
    assert_eq!(w.invaders[0].pos.x, -290_000);
}

#[test]
fn wall_touch_flips_direction_and_schedules_drop() {
    let mut w = fresh();
    // Let the bounce cooldown finish; the fleet is far from the walls.
    w.check_invader_wall_collision(1_000);
    assert_eq!(w.invader_config.direction, 1);
    assert!(!w.invader_config.move_down);
    // Put one invader into the right wall's padded band.
    w.invaders[10].pos.x = 440_000;
    w.check_invader_wall_collision(0);
    assert_eq!(w.invader_config.direction, -1);
    assert!(w.invader_config.move_down);
    // The cooldown restarted: an immediate second touch cannot flip back.
    w.check_invader_wall_collision(0);
    assert_eq!(w.invader_config.direction, -1);
}

#[test]
fn scheduled_drop_moves_every_invader_down_once() {
    let mut w = fresh();
    w.invader_config.move_down = true;
    w.maybe_move_invaders_down();
    assert_eq!(w.invaders[0].pos.y, 235_000);
    assert!(!w.invader_config.move_down);
    w.maybe_move_invaders_down();
    assert_eq!(w.invaders[0].pos.y, 235_000);
}

#[test]
fn reached_bottom_reported_at_the_losing_line() {
    let mut w = fresh();
    let mut events = FrameEvents::new();
    w.check_invaders_reached_bottom(&mut events);
    assert!(!events.reached_bottom);
    w.invaders[3].pos.y = -240_000;
    w.check_invaders_reached_bottom(&mut events);
    assert!(events.reached_bottom);
}

#[test]
fn rolls_at_the_threshold_fire() {
    let w = fresh();
    let mut events = FrameEvents::new();
    let mut rolls = vec![0u32; 55];
    rolls[0] = 999;
    rolls[54] = 998;
    w.maybe_shoot_with_rolls(&rolls, &mut events);
    assert_eq!(events.invader_bullets_fired.len(), 1);
    assert_eq!(events.invader_bullets_fired[0].position.x, -300_000);
    assert_eq!(events.invader_bullets_fired[0].position.y, 240_000);
    assert_eq!(
        events.invader_bullets_fired[0].invader_difficulty,
        InvaderDifficulty::Easy
    );
}

#[test]
fn random_fire_is_rare() {
    let w = fresh();
    let mut events = FrameEvents::new();
    w.maybe_shoot(&mut events);
    // Each invader fires with chance one in a thousand; all 55 firing at
    // once would mean the draw is not a draw at all.
    assert!(events.invader_bullets_fired.len() < 55);
}
