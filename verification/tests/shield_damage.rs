//! Shield placement and the four-step damage gradient.

use invaders::bullets::{Bullet, BulletKind};
use invaders::config::ArenaConfig;
use invaders::game::World;
use invaders::shields::Shield;
use invaders::units::{Pos, Vel};

fn fresh() -> World {
    World::new(ArenaConfig::classic()).unwrap()
}

fn bullet_at(x: i64, y: i64) -> Bullet {
    Bullet { pos: Pos { x, y }, vel: Vel { x: 0, y: 500 }, kind: BulletKind::Player }
}

#[test]
fn shield_row_spawns_over_the_grid_width() {
    let w = fresh();
    assert_eq!(w.shields.len(), 4);
    let xs: Vec<i64> = w.shields.iter().map(|s| s.pos.x).collect();
    assert_eq!(xs, vec![-200_000, -50_000, 100_000, 250_000]);
    for s in &w.shields {
        assert_eq!(s.pos.y, -200_000);
        assert_eq!(s.level, 3);
    }
}

#[test]
fn hit_lowers_the_level_by_exactly_one() {
    let mut w = fresh();
    w.bullets.push(bullet_at(-200_000, -195_000));
    w.check_bullet_shield_collision();
    assert_eq!(w.bullets.len(), 0);
    assert_eq!(w.shields.len(), 4);
    assert_eq!(w.shields[0].level, 2);
    assert_eq!(w.shields[1].level, 3);
}

#[test]
fn shield_removed_exactly_when_hit_at_level_zero() {
    let mut w = fresh();
    for round in 0..4 {
        assert_eq!(w.shields.len(), 4);
        assert_eq!(w.shields[0].level, 3 - round);
        w.bullets.push(bullet_at(-200_000, -200_000));
        w.check_bullet_shield_collision();
    }
    // The fourth hit came at level zero: the shield is gone, the rest
    // persist untouched.
    assert_eq!(w.shields.len(), 3);
    assert_eq!(w.shields[0].pos.x, -50_000);
    assert_eq!(w.shields[0].level, 3);
}

#[test]
fn two_bullets_damage_the_same_shield_twice() {
    let mut w = fresh();
    w.bullets.push(bullet_at(-200_000, -190_000));
    w.bullets.push(bullet_at(-200_000, -210_000));
    w.check_bullet_shield_collision();
    assert_eq!(w.bullets.len(), 0);
    assert_eq!(w.shields[0].level, 1);
}

#[test]
fn bullet_clear_of_every_shield_flies_on() {
    let mut w = fresh();
    w.bullets.push(bullet_at(0, 0));
    w.check_bullet_shield_collision();
    assert_eq!(w.bullets.len(), 1);
    assert_eq!(w.shields.len(), 4);
    for s in &w.shields {
        assert_eq!(s.level, 3);
    }
}

#[test]
fn sprite_coarsens_as_the_level_falls() {
    let s3 = Shield { pos: Pos { x: 0, y: 0 }, level: 3 };
    let s0 = Shield { pos: Pos { x: 0, y: 0 }, level: 0 };
    assert_eq!(s3.get_sprite_path(), "shield-0.png");
    assert_eq!(s0.get_sprite_path(), "shield-3.png");
}
