//! Arena configuration and wall layout.

use invaders::config::{ArenaConfig, ConfigError};
use invaders::walls::{spawn_walls, WallLocation};

fn classic() -> ArenaConfig {
    ArenaConfig::classic()
}

#[test]
fn classic_config_is_valid() {
    assert_eq!(classic().validate(), Ok(()));
}

#[test]
fn default_is_classic() {
    assert_eq!(ArenaConfig::default(), classic());
}

#[test]
fn arena_out_of_range_rejected() {
    let mut cfg = classic();
    cfg.right_wall = 0;
    assert_eq!(cfg.validate(), Err(ConfigError::ArenaOutOfRange));
    let mut cfg = classic();
    cfg.top_wall = -5;
    assert_eq!(cfg.validate(), Err(ConfigError::ArenaOutOfRange));
    let mut cfg = classic();
    cfg.grid_height = 2_000_000_000;
    assert_eq!(cfg.validate(), Err(ConfigError::ArenaOutOfRange));
}

#[test]
fn arena_too_narrow_rejected() {
    let mut cfg = classic();
    cfg.right_wall = 10_000;
    assert_eq!(cfg.validate(), Err(ConfigError::ArenaTooNarrow));
}

#[test]
fn grid_empty_rejected() {
    let mut cfg = classic();
    cfg.n_rows = 0;
    assert_eq!(cfg.validate(), Err(ConfigError::GridEmpty));
    let mut cfg = classic();
    cfg.n_cols = 0;
    assert_eq!(cfg.validate(), Err(ConfigError::GridEmpty));
}

#[test]
fn grid_too_dense_rejected() {
    let mut cfg = classic();
    cfg.n_cols = 2_000;
    assert_eq!(cfg.validate(), Err(ConfigError::GridTooDense));
}

#[test]
fn grid_too_wide_rejected() {
    let mut cfg = classic();
    cfg.right_wall = 40_000;
    cfg.n_rows = 1;
    cfg.n_cols = 1;
    assert_eq!(cfg.validate(), Err(ConfigError::GridTooWide));
}

#[test]
fn grid_too_low_rejected() {
    let mut cfg = classic();
    cfg.top_wall = 45_000;
    cfg.n_rows = 1;
    cfg.n_cols = 1;
    assert_eq!(cfg.validate(), Err(ConfigError::GridTooLow));
}

#[test]
fn largest_grid_still_fits() {
    let mut cfg = classic();
    cfg.right_wall = 1_000_000_000;
    cfg.top_wall = 1_000_000_000;
    cfg.n_rows = 1;
    cfg.n_cols = 1_000;
    assert_eq!(cfg.validate(), Ok(()));
}

#[test]
fn wall_positions_and_sizes() {
    let cfg = classic();
    let left = WallLocation::Left;
    let top = WallLocation::Top;
    assert_eq!(left.position(&cfg).x, -450_000);
    assert_eq!(left.position(&cfg).y, 0);
    assert_eq!(left.size(&cfg).x, 10_000);
    assert_eq!(left.size(&cfg).y, 610_000);
    assert_eq!(top.position(&cfg).y, 300_000);
    assert_eq!(top.size(&cfg).x, 910_000);
    assert_eq!(top.size(&cfg).y, 10_000);
}

#[test]
fn four_walls_spawned() {
    let cfg = classic();
    let walls = spawn_walls(&cfg);
    assert_eq!(walls.len(), 4);
    assert_eq!(walls[0].pos.x, -450_000);
    assert_eq!(walls[1].pos.x, 450_000);
    assert_eq!(walls[2].pos.y, -300_000);
    assert_eq!(walls[3].pos.y, 300_000);
}
