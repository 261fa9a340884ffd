//! The invader fleet: a grid of descending enemies.
//!
//! Invaders spawn in a grid below the top wall, march sideways in timed
//! steps, drop one row after touching a side wall, fire at random, and lose
//! the game for the player when one of them reaches the losing line.

use vstd::prelude::*;

use crate::config::{
    ArenaConfig, BULLET_SPAWN_OFFSET, FIRE_ROLL_BOUND, FIRE_ROLL_THRESHOLD, GRID_TOP_MARGIN,
    INVADER_BOUNCE_COOLDOWN_MS, INVADER_MOVE_DOWN, INVADER_MOVE_INTERVAL_MS, INVADER_SIZE,
    INVADER_STEP, INVADER_WALL_PADDING, WALL_THICKNESS,
};
use crate::events::{FrameEvents, InvaderBulletFired};
use crate::game::{World, ENTITY_COORD_MAX};
use crate::rng::random_below;
use crate::timer::{Timer, TIMER_TICK_MAX_MS};
use crate::units::{boxes_overlap, check_boxes_overlap, Pos};
use crate::walls::Wall;

verus! {

/// The fleet's shared state: the stepped-movement timer, the current
/// marching direction, the cooldown that debounces wall bounces, and the
/// one-shot flag that drops the fleet a row.
#[derive(Clone, Copy, PartialEq, Eq, Structural, Debug)]
pub struct InvaderConfig {
    pub movement_timer: Timer,
    /// `1` marching right, `-1` marching left.
    pub direction: i64,
    pub wall_collision_timer: Timer,
    pub move_down: bool,
}

/// The fleet state a game starts with: marching right, no drop pending.
pub open spec fn spec_setup() -> InvaderConfig {
    InvaderConfig {
        movement_timer: Timer {
            elapsed_ms: 0,
            duration_ms: INVADER_MOVE_INTERVAL_MS,
            repeating: true,
            just_finished: false,
        },
        direction: 1,
        wall_collision_timer: Timer {
            elapsed_ms: 0,
            duration_ms: INVADER_BOUNCE_COOLDOWN_MS,
            repeating: false,
            just_finished: false,
        },
        move_down: false,
    }
}

/// Starts the fleet state of a fresh game.
pub fn setup() -> (c: InvaderConfig)
    ensures
        c == spec_setup(),
{
    InvaderConfig {
        movement_timer: Timer::new_repeating(INVADER_MOVE_INTERVAL_MS),
        direction: 1,
        wall_collision_timer: Timer::new_once(INVADER_BOUNCE_COOLDOWN_MS),
        move_down: false,
    }
}

/// How tough an invader is; fixed per spawn row. The tier picks the
/// invader's sprite and its bullets' sprite and speed.
#[derive(Clone, Copy, PartialEq, Eq, Structural, Debug)]
pub enum InvaderDifficulty {
    Easy,
    Medium,
    Hard,
}

/// An enemy of the fleet.
#[derive(Clone, Copy, PartialEq, Eq, Structural, Debug)]
pub struct Invader {
    pub pos: Pos,
    pub difficulty: InvaderDifficulty,
}

impl InvaderDifficulty {
    /// The tier of grid row `value`: medium and hard rows alternate under
    /// the hard top row, and any further rows are easy.
    pub open spec fn spec_from_i32(value: i32) -> InvaderDifficulty {
        if value == 0 {
            InvaderDifficulty::Easy
        } else if value == 1 {
            InvaderDifficulty::Medium
        } else if value == 2 {
            InvaderDifficulty::Hard
        } else if value == 3 {
            InvaderDifficulty::Medium
        } else {
            InvaderDifficulty::Easy
        }
    }

    /// The tier of grid row `value`.
    pub fn from_i32(value: i32) -> (d: InvaderDifficulty)
        ensures
            d == InvaderDifficulty::spec_from_i32(value),
    {
        match value {
            0 => InvaderDifficulty::Easy,
            1 => InvaderDifficulty::Medium,
            2 => InvaderDifficulty::Hard,
            3 => InvaderDifficulty::Medium,
            _ => InvaderDifficulty::Easy,
        }
    }

    /// The sprite drawn for an invader of this tier.
    pub open spec fn spec_sprite_path(self) -> Seq<char> {
        match self {
            InvaderDifficulty::Easy => "green.png"@,
            InvaderDifficulty::Medium => "yellow.png"@,
            InvaderDifficulty::Hard => "red.png"@,
        }
    }

    /// The sprite drawn for an invader of this tier.
    pub fn get_sprite_path(&self) -> (r: String)
        ensures
            r@ == self.spec_sprite_path(),
    {
        match self {
            InvaderDifficulty::Easy => "green.png".to_string(),
            InvaderDifficulty::Medium => "yellow.png".to_string(),
            InvaderDifficulty::Hard => "red.png".to_string(),
        }
    }

    /// The sprite drawn for this tier's bullets.
    pub open spec fn spec_bullet_sprite_path(self) -> Seq<char> {
        match self {
            InvaderDifficulty::Easy => "green-bullet.png"@,
            InvaderDifficulty::Medium => "yellow-bullet.png"@,
            InvaderDifficulty::Hard => "red-bullet.png"@,
        }
    }

    /// The sprite drawn for this tier's bullets.
    pub fn get_bullet_sprite_path(&self) -> (r: String)
        ensures
            r@ == self.spec_bullet_sprite_path(),
    {
        match self {
            InvaderDifficulty::Easy => "green-bullet.png".to_string(),
            InvaderDifficulty::Medium => "yellow-bullet.png".to_string(),
            InvaderDifficulty::Hard => "red-bullet.png".to_string(),
        }
    }

    /// The downward speed of this tier's bullets, in units per second.
    pub open spec fn spec_bullet_speed(self) -> int {
        match self {
            InvaderDifficulty::Easy => 200,
            InvaderDifficulty::Medium => 350,
            InvaderDifficulty::Hard => 500,
        }
    }

    /// The downward speed of this tier's bullets, in units per second.
    pub fn get_bullet_speed(&self) -> (r: i64)
        ensures
            r == self.spec_bullet_speed(),
    {
        match self {
            InvaderDifficulty::Easy => 200,
            InvaderDifficulty::Medium => 350,
            InvaderDifficulty::Hard => 500,
        }
    }
}

/// The invader that spawns in `row` and `col` of this arena's grid.
pub open spec fn spec_spawn_invader(cfg: ArenaConfig, row: int, col: int) -> Invader {
    Invader {
        pos: cfg.invader_spawn_pos(row, col),
        difficulty: InvaderDifficulty::spec_from_i32(row as i32),
    }
}

/// The grid stays inside the arena: on every validated configuration, every
/// spawn position keeps the side margin to both walls, and every row starts
/// above the losing line.
pub proof fn lemma_grid_fits_arena(cfg: ArenaConfig, row: int, col: int)
    requires
        cfg.wf(),
        0 <= row < cfg.n_rows,
        0 <= col < cfg.n_cols,
    ensures
        cfg.left_wall() + cfg.grid_side_margin() <= cfg.invader_spawn_pos(row, col).x
            <= cfg.right_wall - cfg.grid_side_margin(),
        cfg.player_collision_y() < cfg.invader_spawn_pos(row, col).y <= cfg.grid_start_y(),
{
    let gw = cfg.grid_width();
    let h = cfg.grid_h_spacing();
    let v = cfg.grid_v_spacing();
    assert(0 <= h && 0 <= v) by (nonlinear_arith)
        requires
            h == gw / cfg.n_cols as int,
            v == cfg.grid_height as int / cfg.n_rows as int,
            0 <= gw,
            0 < cfg.grid_height,
            1 <= cfg.n_cols,
            1 <= cfg.n_rows,
    ;
    assert(0 <= col * h <= (cfg.n_cols - 1) * h) by (nonlinear_arith)
        requires
            0 <= h,
            0 <= col <= cfg.n_cols - 1,
    ;
    assert(0 <= row * v <= (cfg.n_rows - 1) * v) by (nonlinear_arith)
        requires
            0 <= v,
            0 <= row <= cfg.n_rows - 1,
    ;
}

/// Where a spawned invader may stand: keeping the side margin to both
/// walls, above the losing line and below the grid's top row.
pub open spec fn invader_in_arena(cfg: ArenaConfig, inv: Invader) -> bool {
    &&& cfg.left_wall() + cfg.grid_side_margin() <= inv.pos.x <= cfg.right_wall
        - cfg.grid_side_margin()
    &&& cfg.player_collision_y() < inv.pos.y <= cfg.grid_start_y()
}

/// A row-major index of an earlier row lies below the block of the later
/// rows.
proof fn lemma_row_major_index(r: int, c: int, row: int, n_cols: int)
    requires
        0 <= r < row,
        0 <= c < n_cols,
    ensures
        0 <= r * n_cols + c < row * n_cols,
{
    assert(0 <= r * n_cols + c && r * n_cols + c < row * n_cols) by (nonlinear_arith)
        requires
            0 <= r < row,
            0 <= c < n_cols,
    ;
}

/// Builds the fleet: `n_rows × n_cols` invaders in a grid spread under the
/// top wall, row-major, each row's tier fixed by its index.
pub fn spawn_invaders(cfg: &ArenaConfig) -> (invs: Vec<Invader>)
    requires
        cfg.wf(),
    ensures
        invs@.len() == cfg.n_rows * cfg.n_cols,
        forall|row: int, col: int|
            0 <= row < cfg.n_rows && 0 <= col < cfg.n_cols ==> invs@[row * cfg.n_cols + col]
                == spec_spawn_invader(*cfg, row, col),
        forall|i: int| 0 <= i < invs@.len() ==> invader_in_arena(*cfg, #[trigger] invs@[i]),
{
    let n_rows: usize = cfg.n_rows;
    let n_cols: usize = cfg.n_cols;
    let grid_width: i64 = 2 * cfg.right_wall * 2 / 3;
    let horizontal_spacing: i64 = grid_width / n_cols as i64;
    let vertical_spacing: i64 = cfg.grid_height / n_rows as i64;
    let starting_x: i64 = -(grid_width / 2);
    let starting_y: i64 = cfg.top_wall - GRID_TOP_MARGIN;

    let mut invs: Vec<Invader> = Vec::new();
    let mut y: i64 = starting_y;
    let mut row: usize = 0;
    while row < n_rows
        invariant
            cfg.wf(),
            n_rows == cfg.n_rows,
            n_cols == cfg.n_cols,
            horizontal_spacing == cfg.grid_h_spacing(),
            vertical_spacing == cfg.grid_v_spacing(),
            starting_x == cfg.grid_start_x(),
            row <= n_rows,
            y == cfg.grid_start_y() - row * vertical_spacing,
            invs@.len() == row * n_cols,
            forall|r: int, c: int|
                0 <= r < row && 0 <= c < n_cols ==> invs@[r * n_cols + c] == spec_spawn_invader(
                    *cfg,
                    r,
                    c,
                ),
            forall|i: int| 0 <= i < invs@.len() ==> invader_in_arena(*cfg, #[trigger] invs@[i]),
        decreases n_rows - row,
    {
        let difficulty = InvaderDifficulty::from_i32(row as i32);
        let mut x: i64 = starting_x;
        let mut col: usize = 0;
        proof {
            lemma_grid_fits_arena(*cfg, row as int, 0);
            lemma_grid_fits_arena(*cfg, row as int, cfg.n_cols - 1);
        }
        while col < n_cols
            invariant
                cfg.wf(),
                n_cols == cfg.n_cols,
                horizontal_spacing == cfg.grid_h_spacing(),
                row < cfg.n_rows,
                col <= n_cols,
                x == cfg.grid_start_x() + col * horizontal_spacing,
                y == cfg.grid_start_y() - row * cfg.grid_v_spacing(),
                difficulty == InvaderDifficulty::spec_from_i32(row as i32),
                invs@.len() == row * n_cols + col,
                forall|r: int, c: int|
                    0 <= r < row && 0 <= c < n_cols ==> invs@[r * n_cols + c] == spec_spawn_invader(
                        *cfg,
                        r,
                        c,
                    ),
                forall|c: int|
                    0 <= c < col ==> invs@[row * n_cols + c] == spec_spawn_invader(
                        *cfg,
                        row as int,
                        c,
                    ),
                forall|i: int| 0 <= i < invs@.len() ==> invader_in_arena(*cfg, #[trigger] invs@[i]),
            decreases n_cols - col,
        {
            proof {
                lemma_grid_fits_arena(*cfg, row as int, col as int);
            }
            let ghost pre = invs@;
            invs.push(Invader { pos: Pos { x, y }, difficulty });
            proof {
                assert forall|r: int, c: int| 0 <= r < row && 0 <= c < n_cols implies invs@[r
                    * n_cols + c] == spec_spawn_invader(*cfg, r, c) by {
                    lemma_row_major_index(r, c, row as int, n_cols as int);
                    assert(invs@[r * n_cols + c] == pre[r * n_cols + c]);
                }
                assert((col + 1) * horizontal_spacing == col * horizontal_spacing
                    + horizontal_spacing) by (nonlinear_arith);
            }
            x = x + horizontal_spacing;
            col = col + 1;
        }
        proof {
            assert((row + 1) * vertical_spacing == row * vertical_spacing + vertical_spacing)
                by (nonlinear_arith);
            assert((row + 1) * n_cols == row * n_cols + n_cols) by (nonlinear_arith);
        }
        y = y - vertical_spacing;
        row = row + 1;
    }
    invs
}

/// The fleet after one horizontal march step of `dx` milli-units.
pub open spec fn spec_stepped_invaders(invs: Seq<Invader>, dx: int) -> Seq<Invader> {
    invs.map_values(
        |inv: Invader| Invader { pos: Pos { x: (inv.pos.x + dx) as i64, y: inv.pos.y }, ..inv },
    )
}

/// The fleet after dropping one row of [`INVADER_MOVE_DOWN`] milli-units.
pub open spec fn spec_dropped_invaders(invs: Seq<Invader>) -> Seq<Invader> {
    invs.map_values(
        |inv: Invader| Invader {
            pos: Pos { x: inv.pos.x, y: (inv.pos.y - INVADER_MOVE_DOWN) as i64 },
            ..inv
        },
    )
}

/// Whether this invader's padded box overlaps this wall's padded box: the
/// wall-bounce test.
pub open spec fn spec_invader_touches_wall(inv: Invader, w: Wall) -> bool {
    boxes_overlap(
        inv.pos,
        Pos {
            x: ((INVADER_SIZE + INVADER_WALL_PADDING) / 2) as i64,
            y: ((INVADER_SIZE + INVADER_WALL_PADDING) / 2) as i64,
        },
        w.pos,
        Pos {
            x: (w.half_x() + WALL_THICKNESS / 2) as i64,
            y: (w.half_y() + WALL_THICKNESS / 2) as i64,
        },
    )
}

/// Whether any invader of the fleet touches any wall.
pub open spec fn spec_fleet_touches_wall(invs: Seq<Invader>, walls: Seq<Wall>) -> bool {
    exists|i: int, j: int|
        0 <= i < invs.len() && 0 <= j < walls.len() && spec_invader_touches_wall(
            #[trigger] invs[i],
            #[trigger] walls[j],
        )
}

/// The fleet state after the wall-bounce system: the cooldown ticked, and
/// if it had finished while some invader touched a wall, the march
/// direction flipped, the cooldown restarted and a row drop scheduled.
pub open spec fn spec_bounced_config(
    c: InvaderConfig,
    invs: Seq<Invader>,
    walls: Seq<Wall>,
    dt_ms: u64,
) -> InvaderConfig {
    let ticked = c.wall_collision_timer.spec_tick(dt_ms);
    if ticked.spec_finished() && spec_fleet_touches_wall(invs, walls) {
        InvaderConfig {
            direction: (-c.direction) as i64,
            wall_collision_timer: Timer { elapsed_ms: 0, just_finished: false, ..ticked },
            move_down: true,
            ..c
        }
    } else {
        InvaderConfig { wall_collision_timer: ticked, ..c }
    }
}

/// Whether some invader has reached the losing line.
pub open spec fn spec_fleet_reached_bottom(cfg: ArenaConfig, invs: Seq<Invader>) -> bool {
    exists|i: int| 0 <= i < invs.len() && (#[trigger] invs[i]).pos.y <= cfg.player_collision_y()
}

/// The shot of one invader: a bullet starting just under its center,
/// carrying its tier.
pub open spec fn spec_invader_shot(inv: Invader) -> InvaderBulletFired {
    InvaderBulletFired {
        position: Pos { x: inv.pos.x, y: (inv.pos.y - BULLET_SPAWN_OFFSET) as i64 },
        invader_difficulty: inv.difficulty,
    }
}

/// The shots of a frame, given each invader's random roll: in fleet
/// order, the invaders whose roll reached [`FIRE_ROLL_THRESHOLD`].
pub open spec fn spec_invader_shots(invs: Seq<Invader>, rolls: Seq<u32>) -> Seq<InvaderBulletFired>
    decreases invs.len(),
{
    if invs.len() == 0 || rolls.len() == 0 {
        Seq::empty()
    } else {
        spec_invader_shots(invs.drop_last(), rolls.drop_last()) + if rolls.last()
            >= FIRE_ROLL_THRESHOLD {
            seq![spec_invader_shot(invs.last())]
        } else {
            Seq::empty()
        }
    }
}

/// Every shot of a frame is the shot of one of the fleet's invaders.
pub proof fn lemma_invader_shots_from(invs: Seq<Invader>, rolls: Seq<u32>)
    ensures
        forall|t: int|
            0 <= t < spec_invader_shots(invs, rolls).len() ==> exists|u: int|
                0 <= u < invs.len() && #[trigger] spec_invader_shots(invs, rolls)[t]
                    == spec_invader_shot(invs[u]),
    decreases invs.len(),
{
    if invs.len() == 0 || rolls.len() == 0 {
    } else {
        lemma_invader_shots_from(invs.drop_last(), rolls.drop_last());
        assert forall|t: int| 0 <= t < spec_invader_shots(invs, rolls).len() implies exists|u: int|
            0 <= u < invs.len() && #[trigger] spec_invader_shots(invs, rolls)[t]
                == spec_invader_shot(invs[u]) by {
            let shots = spec_invader_shots(invs, rolls);
            let prev = spec_invader_shots(invs.drop_last(), rolls.drop_last());
            if t < prev.len() {
                assert(shots[t] == prev[t]);
                let u = choose|u: int|
                    0 <= u < invs.drop_last().len() && prev[t] == spec_invader_shot(
                        invs.drop_last()[u],
                    );
                assert(shots[t] == spec_invader_shot(invs[u]));
            } else {
                assert(shots[t] == spec_invader_shot(invs[invs.len() - 1]));
            }
        }
    }
}

impl World {
    /// Marches the fleet: ticks the movement timer and, on the frames
    /// where it wraps, moves every invader one step in the current
    /// direction.
    pub fn move_invaders(&mut self, dt_ms: u64)
        requires
            old(self).invader_config.movement_timer.wf(),
            dt_ms <= TIMER_TICK_MAX_MS,
            old(self).invader_config.direction == 1 || old(self).invader_config.direction == -1,
            forall|i: int|
                0 <= i < old(self).invaders@.len() ==> -ENTITY_COORD_MAX <= (#[trigger] old(
                    self,
                ).invaders@[i]).pos.x <= ENTITY_COORD_MAX,
        ensures
            *final(self) == (World {
                invader_config: final(self).invader_config,
                invaders: final(self).invaders,
                ..*old(self)
            }),
            final(self).invader_config == (InvaderConfig {
                movement_timer: old(self).invader_config.movement_timer.spec_tick(dt_ms),
                ..old(self).invader_config
            }),
            final(self).invaders@ == if old(self).invader_config.movement_timer.spec_tick_just_finished(
                dt_ms,
            ) {
                spec_stepped_invaders(
                    old(self).invaders@,
                    INVADER_STEP * old(self).invader_config.direction,
                )
            } else {
                old(self).invaders@
            },
    {
        self.invader_config.movement_timer.tick(dt_ms);

        if !self.invader_config.movement_timer.just_finished {
            return ;
        }

        let dx: i64 = INVADER_STEP * self.invader_config.direction;
        let ghost orig = self.invaders@;
        let n: usize = self.invaders.len();
        let mut i: usize = 0;
        while i < n
            invariant
                n == self.invaders@.len(),
                i <= n,
                orig.len() == n,
                dx == INVADER_STEP * self.invader_config.direction,
                -INVADER_STEP <= dx <= INVADER_STEP,
                forall|j: int|
                    0 <= j < n ==> -ENTITY_COORD_MAX <= (#[trigger] orig[j]).pos.x
                        <= ENTITY_COORD_MAX,
                forall|j: int|
                    0 <= j < i ==> self.invaders@[j] == (Invader {
                        pos: Pos { x: (orig[j].pos.x + dx) as i64, y: orig[j].pos.y },
                        ..orig[j]
                    }),
                forall|j: int| i <= j < n ==> self.invaders@[j] == orig[j],
                *self == (World {
                    invader_config: self.invader_config,
                    invaders: self.invaders,
                    ..*old(self)
                }),
                self.invader_config == (InvaderConfig {
                    movement_timer: old(self).invader_config.movement_timer.spec_tick(dt_ms),
                    ..old(self).invader_config
                }),
            decreases n - i,
        {
            let inv = self.invaders[i];
            self.invaders[i] = Invader { pos: Pos { x: inv.pos.x + dx, y: inv.pos.y }, ..inv };
            i = i + 1;
        }
        proof {
            assert(self.invaders@ =~= spec_stepped_invaders(orig, dx as int));
        }
    }

    /// Ticks the wall-bounce cooldown and, once it has finished, checks
    /// the fleet against the walls: on a touch the march direction flips,
    /// the cooldown restarts — so the fleet cannot flip back within one
    /// overlap — and a row drop is scheduled.
    pub fn check_invader_wall_collision(&mut self, dt_ms: u64)
        requires
            old(self).invader_config.wall_collision_timer.wf(),
            dt_ms <= TIMER_TICK_MAX_MS,
            old(self).invader_config.direction == 1 || old(self).invader_config.direction == -1,
            old(self).cfg.wf(),
            old(self).walls@ == crate::walls::spec_walls(old(self).cfg),
        ensures
            *final(self) == (World { invader_config: final(self).invader_config, ..*old(self) }),
            final(self).invader_config == spec_bounced_config(
                old(self).invader_config,
                old(self).invaders@,
                old(self).walls@,
                dt_ms,
            ),
    {
        self.invader_config.wall_collision_timer.tick(dt_ms);

        if !self.invader_config.wall_collision_timer.finished() {
            return ;
        }

        let pad_half: i64 = (INVADER_SIZE + INVADER_WALL_PADDING) / 2;
        let n: usize = self.invaders.len();
        let m: usize = self.walls.len();
        let mut i: usize = 0;
        while i < n
            invariant
                n == self.invaders@.len(),
                m == self.walls@.len(),
                i <= n,
                pad_half == (INVADER_SIZE + INVADER_WALL_PADDING) / 2,
                self.cfg.wf(),
                self.walls@ == crate::walls::spec_walls(self.cfg),
                self.invader_config.direction == 1 || self.invader_config.direction == -1,
                forall|a: int, b: int|
                    0 <= a < i && 0 <= b < m ==> !spec_invader_touches_wall(
                        #[trigger] self.invaders@[a],
                        #[trigger] self.walls@[b],
                    ),
                *self == (World { invader_config: self.invader_config, ..*old(self) }),
                self.invader_config == (InvaderConfig {
                    wall_collision_timer: old(
                        self,
                    ).invader_config.wall_collision_timer.spec_tick(dt_ms),
                    ..old(self).invader_config
                }),
                self.invader_config.wall_collision_timer.spec_finished(),
            decreases n - i,
        {
            let inv_pos = self.invaders[i].pos;
            let mut j: usize = 0;
            while j < m
                invariant
                    n == self.invaders@.len(),
                    m == self.walls@.len(),
                    i < n,
                    j <= m,
                    inv_pos == self.invaders@[i as int].pos,
                    pad_half == (INVADER_SIZE + INVADER_WALL_PADDING) / 2,
                    self.cfg.wf(),
                    self.walls@ == crate::walls::spec_walls(self.cfg),
                    self.invader_config.direction == 1 || self.invader_config.direction == -1,
                    forall|b: int|
                        0 <= b < j ==> !spec_invader_touches_wall(
                            self.invaders@[i as int],
                            #[trigger] self.walls@[b],
                        ),
                    forall|a: int, b: int|
                        0 <= a < i && 0 <= b < m ==> !spec_invader_touches_wall(
                            #[trigger] self.invaders@[a],
                            #[trigger] self.walls@[b],
                        ),
                    *self == (World { invader_config: self.invader_config, ..*old(self) }),
                    self.invader_config == (InvaderConfig {
                        wall_collision_timer: old(
                            self,
                        ).invader_config.wall_collision_timer.spec_tick(dt_ms),
                        ..old(self).invader_config
                    }),
                    self.invader_config.wall_collision_timer.spec_finished(),
                decreases m - j,
            {
                let w = self.walls[j];
                proof {
                    assert(0 <= w.size.x && 0 <= w.size.y);
                }
                let w_half = Pos {
                    x: w.size.x / 2 + WALL_THICKNESS / 2,
                    y: w.size.y / 2 + WALL_THICKNESS / 2,
                };
                if check_boxes_overlap(inv_pos, Pos { x: pad_half, y: pad_half }, w.pos, w_half) {
                    self.invader_config.direction = -self.invader_config.direction;
                    self.invader_config.wall_collision_timer.reset();
                    self.invader_config.move_down = true;
                    return ;
                }
                j = j + 1;
            }
            i = i + 1;
        }
    }

    /// Drops the fleet one row if a wall touch scheduled it, clearing the
    /// schedule.
    pub fn maybe_move_invaders_down(&mut self)
        requires
            forall|i: int|
                0 <= i < old(self).invaders@.len() ==> -ENTITY_COORD_MAX <= (#[trigger] old(
                    self,
                ).invaders@[i]).pos.y <= ENTITY_COORD_MAX,
        ensures
            *final(self) == (World {
                invader_config: final(self).invader_config,
                invaders: final(self).invaders,
                ..*old(self)
            }),
            final(self).invader_config == (InvaderConfig {
                move_down: false,
                ..old(self).invader_config
            }),
            final(self).invaders@ == if old(self).invader_config.move_down {
                spec_dropped_invaders(old(self).invaders@)
            } else {
                old(self).invaders@
            },
    {
        if !self.invader_config.move_down {
            return ;
        }

        self.invader_config.move_down = false;

        let ghost orig = self.invaders@;
        let n: usize = self.invaders.len();
        let mut i: usize = 0;
        while i < n
            invariant
                n == self.invaders@.len(),
                i <= n,
                orig.len() == n,
                forall|j: int|
                    0 <= j < n ==> -ENTITY_COORD_MAX <= (#[trigger] orig[j]).pos.y
                        <= ENTITY_COORD_MAX,
                forall|j: int|
                    0 <= j < i ==> self.invaders@[j] == (Invader {
                        pos: Pos { x: orig[j].pos.x, y: (orig[j].pos.y - INVADER_MOVE_DOWN) as i64 },
                        ..orig[j]
                    }),
                forall|j: int| i <= j < n ==> self.invaders@[j] == orig[j],
                *self == (World {
                    invader_config: self.invader_config,
                    invaders: self.invaders,
                    ..*old(self)
                }),
                self.invader_config == (InvaderConfig {
                    move_down: false,
                    ..old(self).invader_config
                }),
            decreases n - i,
        {
            let inv = self.invaders[i];
            self.invaders[i] = Invader {
                pos: Pos { x: inv.pos.x, y: inv.pos.y - INVADER_MOVE_DOWN },
                ..inv
            };
            i = i + 1;
        }
        proof {
            assert(self.invaders@ =~= spec_dropped_invaders(orig));
        }
    }

    /// Reports whether the fleet has descended to the losing line.
    pub fn check_invaders_reached_bottom(&self, events: &mut FrameEvents)
        requires
            self.cfg.wf(),
        ensures
            *final(events) == (FrameEvents {
                reached_bottom: final(events).reached_bottom,
                ..*old(events)
            }),
            final(events).reached_bottom == (old(events).reached_bottom
                || spec_fleet_reached_bottom(self.cfg, self.invaders@)),
    {
        let losing_line: i64 = -self.cfg.top_wall
            + crate::config::GAP_BETWEEN_PLAYER_AND_FLOOR
            + crate::config::PLAYER_COLLISION_OFFSET;
        let n: usize = self.invaders.len();
        let mut i: usize = 0;
        while i < n
            invariant
                n == self.invaders@.len(),
                i <= n,
                self.cfg.wf(),
                losing_line == self.cfg.player_collision_y(),
                forall|j: int|
                    0 <= j < i ==> (#[trigger] self.invaders@[j]).pos.y
                        > self.cfg.player_collision_y(),
                *events == *old(events),
            decreases n - i,
        {
            if self.invaders[i].pos.y <= losing_line {
                events.reached_bottom = true;
                return ;
            }
            i = i + 1;
        }
    }

    /// Records the fleet's shots for given rolls: the invader behind roll
    /// `k` fires exactly when that roll reaches [`FIRE_ROLL_THRESHOLD`].
    pub fn maybe_shoot_with_rolls(&self, rolls: &Vec<u32>, events: &mut FrameEvents)
        requires
            rolls@.len() == self.invaders@.len(),
            forall|i: int|
                0 <= i < self.invaders@.len() ==> -ENTITY_COORD_MAX <= (#[trigger] self.invaders@[i]).pos.y
                    <= ENTITY_COORD_MAX,
        ensures
            *final(events) == (FrameEvents {
                invader_bullets_fired: final(events).invader_bullets_fired,
                ..*old(events)
            }),
            final(events).invader_bullets_fired@ == old(events).invader_bullets_fired@
                + spec_invader_shots(self.invaders@, rolls@),
    {
        let ghost orig_events = events.invader_bullets_fired@;
        let n: usize = self.invaders.len();
        let mut i: usize = 0;
        while i < n
            invariant
                n == self.invaders@.len(),
                rolls@.len() == n,
                i <= n,
                forall|j: int|
                    0 <= j < n ==> -ENTITY_COORD_MAX <= (#[trigger] self.invaders@[j]).pos.y
                        <= ENTITY_COORD_MAX,
                orig_events == old(events).invader_bullets_fired@,
                *events == (FrameEvents {
                    invader_bullets_fired: events.invader_bullets_fired,
                    ..*old(events)
                }),
                events.invader_bullets_fired@ == orig_events + spec_invader_shots(
                    self.invaders@.take(i as int),
                    rolls@.take(i as int),
                ),
            decreases n - i,
        {
            let roll: u32 = rolls[i];
            if roll >= FIRE_ROLL_THRESHOLD {
                let inv = self.invaders[i];
                events.invader_bullets_fired.push(
                    InvaderBulletFired {
                        position: Pos { x: inv.pos.x, y: inv.pos.y - BULLET_SPAWN_OFFSET },
                        invader_difficulty: inv.difficulty,
                    },
                );
            }
            proof {
                assert(self.invaders@.take(i + 1).drop_last() =~= self.invaders@.take(i as int));
                assert(rolls@.take(i + 1).drop_last() =~= rolls@.take(i as int));
                assert(events.invader_bullets_fired@ =~= orig_events + spec_invader_shots(
                    self.invaders@.take(i + 1),
                    rolls@.take(i + 1),
                ));
            }
            i = i + 1;
        }
        proof {
            assert(self.invaders@.take(n as int) =~= self.invaders@);
            assert(rolls@.take(n as int) =~= rolls@);
        }
    }

    /// Rolls each invader's fire chance and records the shots: for every
    /// outcome, each fired bullet starts just under its invader and
    /// carries its tier; which invaders fire is up to the draw.
    pub fn maybe_shoot(&self, events: &mut FrameEvents)
        requires
            forall|i: int|
                0 <= i < self.invaders@.len() ==> -ENTITY_COORD_MAX <= (#[trigger] self.invaders@[i]).pos.y
                    <= ENTITY_COORD_MAX,
        ensures
            *final(events) == (FrameEvents {
                invader_bullets_fired: final(events).invader_bullets_fired,
                ..*old(events)
            }),
            exists|rolls: Seq<u32>|
                rolls.len() == self.invaders@.len() && final(events).invader_bullets_fired@ == old(
                    events,
                ).invader_bullets_fired@ + #[trigger] spec_invader_shots(self.invaders@, rolls),
    {
        let n: usize = self.invaders.len();
        let mut rolls: Vec<u32> = Vec::new();
        let mut i: usize = 0;
        while i < n
            invariant
                i <= n,
                rolls@.len() == i,
            decreases n - i,
        {
            rolls.push(random_below(FIRE_ROLL_BOUND));
            i = i + 1;
        }
        self.maybe_shoot_with_rolls(&rolls, events);
        proof {
            assert(events.invader_bullets_fired@ == old(events).invader_bullets_fired@
                + spec_invader_shots(self.invaders@, rolls@));
        }
    }
}

} // verus!
