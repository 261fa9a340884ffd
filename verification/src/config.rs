//! Arena constants and startup-time validation.
//!
//! The walls, the player, the invader grid and the shields are laid out from
//! a small set of constants. The four that vary — the arena half-width and
//! half-height, the grid's height and its row and column counts — form an
//! [`ArenaConfig`]. Every layout rule the game later relies on (the player
//! fits between the walls, the invader grid fits inside the arena, the grid
//! spawns above the losing line) is checked once by [`ArenaConfig::validate`]
//! and surfaced as a [`ConfigError`] instead of failing later as an
//! unchecked arithmetic assumption.
//!
//! All lengths are milli-units, durations milliseconds, speeds units per
//! second.

use vstd::prelude::*;

use crate::units::Pos;

verus! {

/// Thickness of each boundary wall.
pub const WALL_THICKNESS: i64 = 10_000;

/// Horizontal speed of the player ship.
pub const PLAYER_SPEED: i64 = 500;

/// Width of the player ship.
pub const PLAYER_WIDTH: i64 = 60_000;

/// Height of the player ship, also the radius of the player hit test.
pub const PLAYER_HEIGHT: i64 = 30_000;

/// Extent of an invader, also the radius of the invader hit test.
pub const INVADER_SIZE: i64 = 20_000;

/// Distance from the bottom wall to the player ship's center.
pub const GAP_BETWEEN_PLAYER_AND_FLOOR: i64 = 40_000;

/// Upward speed of a player bullet.
pub const PLAYER_BULLET_SPEED: i64 = 500;

/// Shortest span between two player shots.
pub const PLAYER_FIRE_COOLDOWN_MS: u64 = 200;

/// Period of the stepped invader movement.
pub const INVADER_MOVE_INTERVAL_MS: u64 = 100;

/// Horizontal distance of one invader movement step.
pub const INVADER_STEP: i64 = 5_000;

/// Widening of the invader box for the wall-bounce test.
pub const INVADER_WALL_PADDING: i64 = 20_000;

/// Downward distance the fleet drops after touching a side wall.
pub const INVADER_MOVE_DOWN: i64 = 15_000;

/// Cooldown between two direction flips at the walls.
pub const INVADER_BOUNCE_COOLDOWN_MS: u64 = 1_000;

/// Height above the player's center at which a descending fleet loses the game.
pub const PLAYER_COLLISION_OFFSET: i64 = 20_000;

/// Half-extent of a bullet's box for the wall overlap test.
pub const BULLET_HALF: i64 = 500;

/// Vertical offset from the firer's center to the bullet spawn point.
pub const BULLET_SPAWN_OFFSET: i64 = 10_000;

/// Radius of the shield hit test.
pub const SHIELD_SIZE: i64 = 30_000;

/// Damage level a fresh shield starts with.
pub const SHIELD_START_LEVEL: u8 = 3;

/// How many shields stand in front of the player.
pub const SHIELD_COUNT: usize = 4;

/// Height of the shield row above the bottom wall.
pub const SHIELD_RAISE: i64 = 100_000;

/// Distance from the top wall to the highest invader row.
pub const GRID_TOP_MARGIN: i64 = 50_000;

/// Invader fire rolls are drawn uniformly below this bound ...
pub const FIRE_ROLL_BOUND: u32 = 1_000;

/// ... and an invader fires when its roll reaches this threshold.
pub const FIRE_ROLL_THRESHOLD: u32 = 999;

/// Largest accepted magnitude of a configured arena length.
pub const ARENA_COORD_MAX: i64 = 1_000_000_000;

/// Largest accepted invader row or column count.
pub const GRID_DIM_MAX: usize = 1_000;

/// The classic arena: half-width of the default arena.
pub const RIGHT_WALL: i64 = 450_000;

/// The classic arena: half-height of the default arena.
pub const TOP_WALL: i64 = 300_000;

/// The classic arena: height of the invader grid.
pub const GRID_HEIGHT: i64 = 300_000;

/// The classic arena: invader rows.
pub const GRID_ROWS: usize = 5;

/// The classic arena: invader columns.
pub const GRID_COLS: usize = 11;

/// The arena lengths a game is built from. The arena is centered on the
/// origin: the side walls stand at `±right_wall`, the top and bottom walls
/// at `±top_wall`.
#[derive(Clone, Copy, PartialEq, Eq, Structural, Debug)]
pub struct ArenaConfig {
    /// X coordinate of the right wall's center; the left wall mirrors it.
    pub right_wall: i64,
    /// Y coordinate of the top wall's center; the bottom wall mirrors it.
    pub top_wall: i64,
    /// Vertical span the invader grid is spread over.
    pub grid_height: i64,
    /// Invader rows.
    pub n_rows: usize,
    /// Invader columns.
    pub n_cols: usize,
}

/// A layout rule the configured lengths break.
#[derive(Clone, Copy, PartialEq, Eq, Structural, Debug)]
pub enum ConfigError {
    /// A wall coordinate or the grid height is not positive, or is beyond
    /// [`ARENA_COORD_MAX`].
    ArenaOutOfRange,
    /// The walls stand too close for the player ship to fit between them.
    ArenaTooNarrow,
    /// The grid has zero rows or zero columns.
    GridEmpty,
    /// A grid dimension is beyond [`GRID_DIM_MAX`].
    GridTooDense,
    /// The grid does not fit between the side walls.
    GridTooWide,
    /// The lowest grid row would start at or below the losing line.
    GridTooLow,
}

impl ArenaConfig {
    /// X coordinate of the left wall's center.
    pub open spec fn left_wall(self) -> int {
        -self.right_wall
    }

    /// Y coordinate of the bottom wall's center.
    pub open spec fn bottom_wall(self) -> int {
        -self.top_wall
    }

    /// Y coordinate the player ship is fixed at.
    pub open spec fn player_y(self) -> int {
        self.bottom_wall() + GAP_BETWEEN_PLAYER_AND_FLOOR
    }

    /// The losing line: an invader at or below it has reached the player.
    pub open spec fn player_collision_y(self) -> int {
        self.player_y() + PLAYER_COLLISION_OFFSET
    }

    /// Leftmost X the player's center may take.
    pub open spec fn left_bound(self) -> int {
        self.left_wall() + WALL_THICKNESS / 2 + PLAYER_WIDTH / 2
    }

    /// Rightmost X the player's center may take.
    pub open spec fn right_bound(self) -> int {
        self.right_wall - WALL_THICKNESS / 2 - PLAYER_WIDTH / 2
    }

    /// Width of the invader grid: two thirds of the arena's width.
    pub open spec fn grid_width(self) -> int {
        2 * self.right_wall * 2 / 3
    }

    /// Horizontal distance between two invader columns.
    pub open spec fn grid_h_spacing(self) -> int {
        self.grid_width() / self.n_cols as int
    }

    /// Vertical distance between two invader rows.
    pub open spec fn grid_v_spacing(self) -> int {
        self.grid_height as int / self.n_rows as int
    }

    /// X of the leftmost invader column.
    pub open spec fn grid_start_x(self) -> int {
        -(self.grid_width() / 2)
    }

    /// Y of the highest invader row.
    pub open spec fn grid_start_y(self) -> int {
        self.top_wall - GRID_TOP_MARGIN
    }

    /// Spawn position of the invader in `row` and `col`.
    pub open spec fn invader_spawn_pos(self, row: int, col: int) -> Pos {
        Pos {
            x: (self.grid_start_x() + col * self.grid_h_spacing()) as i64,
            y: (self.grid_start_y() - row * self.grid_v_spacing()) as i64,
        }
    }

    /// Margin an invader's center must keep from a side wall's center:
    /// the wall's inner half plus the invader's own half.
    pub open spec fn grid_side_margin(self) -> int {
        WALL_THICKNESS / 2 + INVADER_SIZE / 2
    }

    /// Y of the shield row.
    pub open spec fn shield_y(self) -> int {
        self.bottom_wall() + SHIELD_RAISE
    }

    /// Horizontal distance between two shields.
    pub open spec fn shield_spacing(self) -> int {
        self.grid_width() / SHIELD_COUNT as int
    }

    /// X of the leftmost shield.
    pub open spec fn shield_start_x(self) -> int {
        -(self.grid_width() / (SHIELD_COUNT - 1) as int)
    }

    /// Spawn position of shield `k`.
    pub open spec fn shield_spawn_pos(self, k: int) -> Pos {
        Pos {
            x: (self.shield_start_x() + k * self.shield_spacing()) as i64,
            y: self.shield_y() as i64,
        }
    }

    /// All the layout rules together: what [`ArenaConfig::validate`] accepts.
    pub open spec fn wf(self) -> bool {
        &&& 0 < self.right_wall <= ARENA_COORD_MAX
        &&& 0 < self.top_wall <= ARENA_COORD_MAX
        &&& 0 < self.grid_height <= ARENA_COORD_MAX
        &&& self.left_bound() <= self.right_bound()
        &&& 0 < self.n_rows <= GRID_DIM_MAX
        &&& 0 < self.n_cols <= GRID_DIM_MAX
        &&& self.grid_start_x() >= self.left_wall() + self.grid_side_margin()
        &&& self.grid_start_x() + (self.n_cols - 1) * self.grid_h_spacing() <= self.right_wall
            - self.grid_side_margin()
        &&& self.grid_start_y() - (self.n_rows - 1) * self.grid_v_spacing()
            > self.player_collision_y()
    }

    /// What [`ArenaConfig::validate`] decides: the first broken rule, in
    /// the order the clauses of [`ArenaConfig::wf`] state them, or `Ok`.
    pub open spec fn spec_validate(self) -> Result<(), ConfigError> {
        if !(0 < self.right_wall <= ARENA_COORD_MAX && 0 < self.top_wall <= ARENA_COORD_MAX && 0
            < self.grid_height <= ARENA_COORD_MAX) {
            Err(ConfigError::ArenaOutOfRange)
        } else if !(self.left_bound() <= self.right_bound()) {
            Err(ConfigError::ArenaTooNarrow)
        } else if self.n_rows == 0 || self.n_cols == 0 {
            Err(ConfigError::GridEmpty)
        } else if self.n_rows > GRID_DIM_MAX || self.n_cols > GRID_DIM_MAX {
            Err(ConfigError::GridTooDense)
        } else if !(self.grid_start_x() >= self.left_wall() + self.grid_side_margin()
            && self.grid_start_x() + (self.n_cols - 1) * self.grid_h_spacing() <= self.right_wall
            - self.grid_side_margin()) {
            Err(ConfigError::GridTooWide)
        } else if !(self.grid_start_y() - (self.n_rows - 1) * self.grid_v_spacing()
            > self.player_collision_y()) {
            Err(ConfigError::GridTooLow)
        } else {
            Ok(())
        }
    }

    /// Checks every layout rule, in the order the clauses of
    /// [`ArenaConfig::wf`] state them, and names the first one broken.
    pub fn validate(&self) -> (r: Result<(), ConfigError>)
        ensures
            r == self.spec_validate(),
            r is Ok <==> self.wf(),
    {
        if !(0 < self.right_wall && self.right_wall <= ARENA_COORD_MAX) {
            return Err(ConfigError::ArenaOutOfRange);
        }
        if !(0 < self.top_wall && self.top_wall <= ARENA_COORD_MAX) {
            return Err(ConfigError::ArenaOutOfRange);
        }
        if !(0 < self.grid_height && self.grid_height <= ARENA_COORD_MAX) {
            return Err(ConfigError::ArenaOutOfRange);
        }
        let left_bound: i64 = -self.right_wall + WALL_THICKNESS / 2 + PLAYER_WIDTH / 2;
        let right_bound: i64 = self.right_wall - WALL_THICKNESS / 2 - PLAYER_WIDTH / 2;
        if !(left_bound <= right_bound) {
            return Err(ConfigError::ArenaTooNarrow);
        }
        if self.n_rows == 0 || self.n_cols == 0 {
            return Err(ConfigError::GridEmpty);
        }
        if self.n_rows > GRID_DIM_MAX || self.n_cols > GRID_DIM_MAX {
            return Err(ConfigError::GridTooDense);
        }
        let grid_width: i64 = 2 * self.right_wall * 2 / 3;
        let h_spacing: i64 = grid_width / self.n_cols as i64;
        let v_spacing: i64 = self.grid_height / self.n_rows as i64;
        let start_x: i64 = -(grid_width / 2);
        let margin: i64 = WALL_THICKNESS / 2 + INVADER_SIZE / 2;
        proof {
            assert(0 <= h_spacing <= grid_width && 0 <= v_spacing <= self.grid_height)
                by (nonlinear_arith)
                requires
                    0 <= grid_width,
                    0 <= self.grid_height,
                    1 <= self.n_cols,
                    1 <= self.n_rows,
                    h_spacing == grid_width as int / self.n_cols as int,
                    v_spacing == self.grid_height as int / self.n_rows as int,
            ;
            assert((self.n_cols - 1) * h_spacing <= 1_000 * 1_400_000_000) by (nonlinear_arith)
                requires
                    0 <= h_spacing <= 1_400_000_000,
                    1 <= self.n_cols <= 1_000,
            ;
            assert(0 <= (self.n_cols - 1) * h_spacing) by (nonlinear_arith)
                requires
                    0 <= h_spacing,
                    1 <= self.n_cols,
            ;
            assert((self.n_rows - 1) * v_spacing <= 1_000 * 1_400_000_000) by (nonlinear_arith)
                requires
                    0 <= v_spacing <= 1_400_000_000,
                    1 <= self.n_rows <= 1_000,
            ;
            assert(0 <= (self.n_rows - 1) * v_spacing) by (nonlinear_arith)
                requires
                    0 <= v_spacing,
                    1 <= self.n_rows,
            ;
        }
        let last_x: i64 = start_x + (self.n_cols as i64 - 1) * h_spacing;
        if !(start_x >= -self.right_wall + margin && last_x <= self.right_wall - margin) {
            return Err(ConfigError::GridTooWide);
        }
        let start_y: i64 = self.top_wall - GRID_TOP_MARGIN;
        let lowest_y: i64 = start_y - (self.n_rows as i64 - 1) * v_spacing;
        let losing_line: i64 = -self.top_wall + GAP_BETWEEN_PLAYER_AND_FLOOR
            + PLAYER_COLLISION_OFFSET;
        if !(lowest_y > losing_line) {
            return Err(ConfigError::GridTooLow);
        }
        Ok(())
    }

    /// The classic arena the game ships with.
    pub open spec fn spec_classic() -> ArenaConfig {
        ArenaConfig {
            right_wall: RIGHT_WALL,
            top_wall: TOP_WALL,
            grid_height: GRID_HEIGHT,
            n_rows: GRID_ROWS,
            n_cols: GRID_COLS,
        }
    }

    /// The classic arena the game ships with; it passes validation.
    pub fn classic() -> (c: ArenaConfig)
        ensures
            c == ArenaConfig::spec_classic(),
            c.wf(),
    {
        let c = ArenaConfig {
            right_wall: RIGHT_WALL,
            top_wall: TOP_WALL,
            grid_height: GRID_HEIGHT,
            n_rows: GRID_ROWS,
            n_cols: GRID_COLS,
        };
        proof {
            assert(c.grid_width() == 600_000);
            assert(600_000int / 11int == 54_545int);
            assert(c.grid_h_spacing() == 54_545);
            assert(c.wf());
        }
        c
    }
}

impl Default for ArenaConfig {
    /// The classic arena.
    fn default() -> (c: ArenaConfig)
        ensures
            c == ArenaConfig::spec_classic(),
    {
        ArenaConfig::classic()
    }
}

} // verus!
