//! The whole game in one record, and the frame that advances it.
//!
//! [`World`] holds every entity and timer of a session. Once per frame a
//! driver calls [`World::step`] with the held keys and the frame's elapsed
//! milliseconds; the step runs the systems in their fixed chained order —
//! input and player movement, player fire, fleet movement and fire, bullet
//! spawning and movement, the collision sweeps, and the terminal checks —
//! exactly the order the frame graph declares.

use vstd::prelude::*;

use crate::bullets;
use crate::bullets::Bullet;
use crate::config::{ArenaConfig, ConfigError, INVADER_STEP, SHIELD_COUNT, SHIELD_START_LEVEL};
use crate::events::FrameEvents;
use crate::gamestate::GameStatus;
use crate::invaders;
use crate::invaders::{invader_in_arena, spawn_invaders, Invader, InvaderConfig};
use crate::player;
use crate::player::PlayerShootConfig;
use crate::rng::random_below;
use crate::shields;
use crate::shields::{spawn_shields, Shield};
use crate::walls::{spawn_walls, spec_walls, Wall};

verus! {

/// The largest frame time a step accepts, in milliseconds.
pub const DT_STEP_MAX_MS: u64 = 1_000;

/// The largest frame count a session may reach; enough for centuries of
/// play, and low enough that no coordinate can overflow before it.
pub const FRAME_LIMIT: u64 = 1_000_000_000_000;

/// Bound on the coordinates of everything a fresh game spawns.
pub const POS_BASE: i64 = 2_000_000_000;

/// The farthest any entity moves in one frame, in milli-units.
pub const MOVE_FRAME_CAP: i64 = 500_000;

/// Bound on the coordinates of every entity of a well-formed world.
pub const ENTITY_COORD_MAX: i64 = 600_000_000_000_000_000;

/// The fastest bullet, in units per second.
pub const BULLET_SPEED_MAX: i64 = 500;

/// How far from the origin an entity can have come after `frames` frames.
pub open spec fn entity_limit(frames: u64) -> int {
    POS_BASE + frames * MOVE_FRAME_CAP
}

/// Within [`FRAME_LIMIT`] frames, [`entity_limit`] stays below
/// [`ENTITY_COORD_MAX`].
pub proof fn lemma_entity_limit(frames: u64)
    requires
        frames <= FRAME_LIMIT,
    ensures
        POS_BASE <= entity_limit(frames) <= ENTITY_COORD_MAX - 1_000_000,
{
    assert(0 <= frames * MOVE_FRAME_CAP <= FRAME_LIMIT * MOVE_FRAME_CAP) by (nonlinear_arith)
        requires
            0 <= frames <= FRAME_LIMIT,
    ;
}

/// A bullet a well-formed world may hold: it flies straight up or down,
/// no faster than [`BULLET_SPEED_MAX`], within `limit` of the origin.
pub open spec fn bullet_ok(b: Bullet, limit: int) -> bool {
    &&& b.vel.x == 0
    &&& -BULLET_SPEED_MAX <= b.vel.y <= BULLET_SPEED_MAX
    &&& -limit <= b.pos.x <= limit
    &&& -limit <= b.pos.y <= limit
}

/// An invader a well-formed world may hold: within `limit` horizontally,
/// and vertically between one drop below the losing line and the grid top.
pub open spec fn invader_ok(cfg: ArenaConfig, inv: Invader, limit: int) -> bool {
    &&& -limit <= inv.pos.x <= limit
    &&& cfg.player_collision_y() - crate::config::INVADER_MOVE_DOWN <= inv.pos.y
        <= cfg.grid_start_y()
}

/// A shield a well-formed world may hold: a clamped level, standing where
/// the spawn put it.
pub open spec fn shield_ok(s: Shield) -> bool {
    &&& s.level <= SHIELD_START_LEVEL
    &&& -POS_BASE <= s.pos.x <= POS_BASE
    &&& -POS_BASE <= s.pos.y <= POS_BASE
}

/// The keys a frame finds held.
#[derive(Clone, Copy, PartialEq, Eq, Structural, Debug)]
pub struct FrameInput {
    /// A key steering left is held.
    pub left: bool,
    /// A key steering right is held.
    pub right: bool,
    /// The fire key is held.
    pub fire: bool,
}

/// A whole session: the arena, every entity, the timers, and where the
/// game stands.
pub struct World {
    pub cfg: ArenaConfig,
    /// X of the player ship's center; its Y is fixed at
    /// [`ArenaConfig::player_y`].
    pub player_x: i64,
    pub shoot_config: PlayerShootConfig,
    pub invader_config: InvaderConfig,
    pub invaders: Vec<Invader>,
    pub bullets: Vec<Bullet>,
    pub shields: Vec<Shield>,
    pub walls: Vec<Wall>,
    pub status: GameStatus,
    /// Frames stepped since the game began.
    pub frames: u64,
}

impl World {
    /// Everything a step keeps true of a session, and a fresh game starts
    /// with: the arena is validated, the walls are the arena's four, the
    /// player stands between its bounds, the timers have their configured
    /// periods, entity coordinates respect the frame-count limit, and
    /// while the game is playing no invader has crossed the losing line.
    pub open spec fn wf(self) -> bool {
        &&& self.cfg.wf()
        &&& self.walls@ == spec_walls(self.cfg)
        &&& self.cfg.left_bound() <= self.player_x <= self.cfg.right_bound()
        &&& self.shoot_config.timer.wf()
        &&& !self.shoot_config.timer.repeating
        &&& self.shoot_config.timer.duration_ms == crate::config::PLAYER_FIRE_COOLDOWN_MS
        &&& self.invader_config.movement_timer.wf()
        &&& self.invader_config.movement_timer.repeating
        &&& self.invader_config.movement_timer.duration_ms
            == crate::config::INVADER_MOVE_INTERVAL_MS
        &&& self.invader_config.wall_collision_timer.wf()
        &&& !self.invader_config.wall_collision_timer.repeating
        &&& self.invader_config.wall_collision_timer.duration_ms
            == crate::config::INVADER_BOUNCE_COOLDOWN_MS
        &&& self.invader_config.direction == 1 || self.invader_config.direction == -1
        &&& self.frames <= FRAME_LIMIT
        &&& forall|i: int|
            0 <= i < self.invaders@.len() ==> invader_ok(
                self.cfg,
                #[trigger] self.invaders@[i],
                entity_limit(self.frames),
            )
        &&& forall|i: int|
            0 <= i < self.bullets@.len() ==> bullet_ok(
                #[trigger] self.bullets@[i],
                entity_limit(self.frames),
            )
        &&& forall|i: int| 0 <= i < self.shields@.len() ==> shield_ok(#[trigger] self.shields@[i])
        &&& self.status == GameStatus::Playing ==> forall|i: int|
            0 <= i < self.invaders@.len() ==> (#[trigger] self.invaders@[i]).pos.y
                > self.cfg.player_collision_y()
    }

    /// Builds a fresh game on `cfg`: the validated arena's walls, the
    /// player centered, the invader grid, the shield row, no bullets, all
    /// timers at zero, playing. Rejects exactly the configurations that
    /// [`ArenaConfig::validate`] rejects, with the same error.
    pub fn new(cfg: ArenaConfig) -> (r: Result<World, ConfigError>)
        ensures
            r is Ok <==> cfg.wf(),
            r matches Err(e) ==> cfg.spec_validate() == Err::<(), ConfigError>(e),
            r matches Ok(w) ==> {
                &&& w.wf()
                &&& w.cfg == cfg
                &&& w.player_x == 0
                &&& w.shoot_config == player::spec_setup()
                &&& w.invader_config == invaders::spec_setup()
                &&& w.invaders@.len() == cfg.n_rows * cfg.n_cols
                &&& forall|row: int, col: int|
                    0 <= row < cfg.n_rows && 0 <= col < cfg.n_cols ==> w.invaders@[row * cfg.n_cols
                        + col] == invaders::spec_spawn_invader(cfg, row, col)
                &&& w.bullets@.len() == 0
                &&& w.shields@.len() == SHIELD_COUNT
                &&& forall|k: int|
                    0 <= k < SHIELD_COUNT ==> w.shields@[k] == (Shield {
                        pos: cfg.shield_spawn_pos(k),
                        level: SHIELD_START_LEVEL,
                    })
                &&& w.walls@ == spec_walls(cfg)
                &&& w.status == GameStatus::Playing
                &&& w.frames == 0
            },
    {
        match cfg.validate() {
            Err(e) => Err(e),
            Ok(()) => {
                let walls = spawn_walls(&cfg);
                let invaders = spawn_invaders(&cfg);
                let shields = spawn_shields(&cfg);
                let w = World {
                    cfg,
                    player_x: player::spawn_player(),
                    shoot_config: player::setup(),
                    invader_config: invaders::setup(),
                    invaders,
                    bullets: Vec::new(),
                    shields,
                    walls,
                    status: GameStatus::Playing,
                    frames: 0,
                };
                proof {
                    assert forall|i: int| 0 <= i < w.invaders@.len() implies invader_ok(
                        w.cfg,
                        #[trigger] w.invaders@[i],
                        entity_limit(0),
                    ) by {
                        assert(invader_in_arena(cfg, w.invaders@[i]));
                    }
                    assert forall|k: int| 0 <= k < w.shields@.len() implies shield_ok(
                        #[trigger] w.shields@[k],
                    ) by {
                        lemma_shield_spawn_in_base(cfg, k);
                    }
                    assert(w.wf());
                }
                Ok(w)
            },
        }
    }
}

/// The mathematical shadow of a [`World`]: the same session over `Seq`
/// and `int`, which the frame's specification is written against.
#[verifier::ext_equal]
pub ghost struct WorldModel {
    pub cfg: ArenaConfig,
    pub player_x: int,
    pub shoot_config: PlayerShootConfig,
    pub invader_config: InvaderConfig,
    pub invaders: Seq<Invader>,
    pub bullets: Seq<Bullet>,
    pub shields: Seq<Shield>,
    pub walls: Seq<Wall>,
    pub status: GameStatus,
    pub frames: int,
}

impl View for World {
    type V = WorldModel;

    open spec fn view(&self) -> WorldModel {
        WorldModel {
            cfg: self.cfg,
            player_x: self.player_x as int,
            shoot_config: self.shoot_config,
            invader_config: self.invader_config,
            invaders: self.invaders@,
            bullets: self.bullets@,
            shields: self.shields@,
            walls: self.walls@,
            status: self.status,
            frames: self.frames as int,
        }
    }
}

/// One whole frame of the game, given the held keys, the frame time and
/// each invader's random roll: the systems in their fixed chained order.
/// A game that has already ended does not change.
#[verifier::opaque]
pub open spec fn spec_step(
    m: WorldModel,
    input: FrameInput,
    dt_ms: u64,
    rolls: Seq<u32>,
) -> WorldModel {
    if m.status != GameStatus::Playing {
        m
    } else {
        // Input and player systems.
        let player_x = player::spec_moved_player_x(m.cfg, m.player_x, input.left, input.right, dt_ms);
        let fires = player::spec_shoot_fires(m.shoot_config.timer, input.fire, dt_ms);
        let shoot_config = PlayerShootConfig {
            timer: player::spec_shot_timer(m.shoot_config.timer, input.fire, dt_ms),
        };
        let player_shots: Seq<crate::units::Pos> = if fires {
            seq![player::spec_player_bullet_spawn(m.cfg, player_x as i64)]
        } else {
            Seq::empty()
        };
        // Fleet systems.
        let movement_timer = m.invader_config.movement_timer.spec_tick(dt_ms);
        let invaders1 = if m.invader_config.movement_timer.spec_tick_just_finished(dt_ms) {
            invaders::spec_stepped_invaders(m.invaders, INVADER_STEP * m.invader_config.direction)
        } else {
            m.invaders
        };
        let invader_shots = invaders::spec_invader_shots(invaders1, rolls);
        let config1 = InvaderConfig { movement_timer, ..m.invader_config };
        let config2 = invaders::spec_bounced_config(config1, invaders1, m.walls, dt_ms);
        let invaders2 = if config2.move_down {
            invaders::spec_dropped_invaders(invaders1)
        } else {
            invaders1
        };
        let config3 = InvaderConfig { move_down: false, ..config2 };
        let reached_bottom = invaders::spec_fleet_reached_bottom(m.cfg, invaders2);
        // Bullet systems.
        let bullets1 = m.bullets + player_shots.map_values(|p: crate::units::Pos| bullets::spec_player_bullet(p));
        let bullets2 = bullets1 + invader_shots.map_values(
            |e: crate::events::InvaderBulletFired| bullets::spec_invader_bullet(e),
        );
        let bullets3 = bullets::spec_moved_bullets(bullets2, dt_ms);
        let bullets4 = bullets::spec_bullets_surviving_walls(bullets3, m.walls);
        let bullets5 = bullets::spec_bullets_surviving_fleet(bullets4, invaders2);
        let invaders3 = bullets::spec_invaders_surviving(invaders2, bullets4);
        let ppos = player::spec_player_pos(m.cfg, player_x as i64);
        let player_hit = bullets::spec_player_hit(bullets5, ppos);
        let bullets6 = bullets::spec_player_collision_bullets(bullets5, ppos);
        let swept = shields::spec_shield_sweep(bullets6, m.shields);
        // Terminal checks, in handler order: a lost game beats a won one.
        let cleared = invaders3.len() == 0;
        let status = if player_hit {
            GameStatus::Lost
        } else if reached_bottom {
            GameStatus::Lost
        } else if cleared {
            GameStatus::Won
        } else {
            GameStatus::Playing
        };
        WorldModel {
            cfg: m.cfg,
            player_x,
            shoot_config,
            invader_config: config3,
            invaders: invaders3,
            bullets: swept.0,
            shields: swept.1,
            walls: m.walls,
            status,
            frames: m.frames + 1,
        }
    }
}

impl World {
    /// Advances the game by one frame, with the invaders' random rolls
    /// given from outside: runs every system in the fixed chained order
    /// of [`spec_step`], which the new world equals exactly. A world that
    /// is well formed stays well formed.
    #[verifier::rlimit(100)]
    pub fn step_with_rolls(&mut self, input: FrameInput, dt_ms: u64, rolls: &Vec<u32>)
        requires
            old(self).wf(),
            dt_ms <= DT_STEP_MAX_MS,
            old(self).frames < FRAME_LIMIT,
            rolls@.len() == old(self).invaders@.len(),
        ensures
            final(self)@ == spec_step(old(self)@, input, dt_ms, rolls@),
            final(self).wf(),
    {
        if !matches!(self.status, GameStatus::Playing) {
            proof {
                reveal(spec_step);
            }
            return ;
        }
        proof {
            lemma_entity_limit(old(self).frames);
            let f0 = old(self).frames;
            assert((f0 + 1) * MOVE_FRAME_CAP == f0 * MOVE_FRAME_CAP + MOVE_FRAME_CAP)
                by (nonlinear_arith);
        }
        let ghost limit0 = entity_limit(old(self).frames);
        self.frames = self.frames + 1;
        let mut events = FrameEvents::new();
        self.move_player(input.left, input.right, dt_ms);
        self.shoot(input.fire, dt_ms, &mut events);
        proof {
            if player::spec_shoot_fires(old(self).shoot_config.timer, input.fire, dt_ms) {
                assert(events.player_bullets_fired@ =~= seq![
                    player::spec_player_bullet_spawn(self.cfg, self.player_x),
                ]);
            } else {
                assert(events.player_bullets_fired@ =~= Seq::<crate::units::Pos>::empty());
            }
        }
        self.move_invaders(dt_ms);
        let ghost invaders1 = self.invaders@;
        proof {
            assert forall|i: int| 0 <= i < invaders1.len() implies {
                let v = #[trigger] invaders1[i];
                &&& -(limit0 + INVADER_STEP) <= v.pos.x <= limit0 + INVADER_STEP
                &&& self.cfg.player_collision_y() < v.pos.y <= self.cfg.grid_start_y()
            } by {
                assert(invader_ok(self.cfg, old(self).invaders@[i], limit0));
                assert(old(self).invaders@[i].pos.y > self.cfg.player_collision_y());
            }
        }
        self.maybe_shoot_with_rolls(rolls, &mut events);
        proof {
            assert(events.invader_bullets_fired@ =~= invaders::spec_invader_shots(
                invaders1,
                rolls@,
            ));
        }
        self.check_invader_wall_collision(dt_ms);
        self.maybe_move_invaders_down();
        let ghost invaders2 = self.invaders@;
        proof {
            assert forall|i: int| 0 <= i < invaders2.len() implies {
                let v = #[trigger] invaders2[i];
                &&& -(limit0 + MOVE_FRAME_CAP) <= v.pos.x <= limit0 + MOVE_FRAME_CAP
                &&& self.cfg.player_collision_y() - crate::config::INVADER_MOVE_DOWN <= v.pos.y
                    <= self.cfg.grid_start_y()
            } by {
                assert({
                    let v = invaders1[i];
                    &&& -(limit0 + INVADER_STEP) <= v.pos.x <= limit0 + INVADER_STEP
                    &&& self.cfg.player_collision_y() < v.pos.y <= self.cfg.grid_start_y()
                });
            }
        }
        self.check_invaders_reached_bottom(&mut events);
        self.spawn_player_bullet(&events);
        self.spawn_invader_bullet(&events);
        let ghost bullets2 = self.bullets@;
        proof {
            invaders::lemma_invader_shots_from(invaders1, rolls@);
            assert forall|i: int| 0 <= i < bullets2.len() implies {
                let b = #[trigger] bullets2[i];
                &&& -(limit0 + 100_000) <= b.pos.x <= limit0 + 100_000
                &&& -(limit0 + 100_000) <= b.pos.y <= limit0 + 100_000
                &&& b.vel.x == 0
                &&& -BULLET_SPEED_MAX <= b.vel.y <= BULLET_SPEED_MAX
            } by {
                let nb = old(self).bullets@.len() as int;
                let np = events.player_bullets_fired@.len() as int;
                if i < nb {
                    assert(bullet_ok(old(self).bullets@[i], limit0));
                } else if i < nb + np {
                    assert(bullets2[i] == bullets::spec_player_bullet(
                        events.player_bullets_fired@[i - nb],
                    ));
                } else {
                    let shots = events.invader_bullets_fired@;
                    assert(bullets2[i] == bullets::spec_invader_bullet(shots[i - nb - np]));
                    let u = choose|u: int|
                        0 <= u < invaders1.len() && invaders::spec_invader_shots(
                            invaders1,
                            rolls@,
                        )[i - nb - np] == invaders::spec_invader_shot(invaders1[u]);
                    assert(shots[i - nb - np] == invaders::spec_invader_shot(invaders1[u]));
                }
            }
        }
        self.move_bullets(dt_ms);
        let ghost bullets3 = self.bullets@;
        proof {
            assert forall|i: int| 0 <= i < bullets3.len() implies {
                let b = #[trigger] bullets3[i];
                &&& -(limit0 + MOVE_FRAME_CAP) <= b.pos.x <= limit0 + MOVE_FRAME_CAP
                &&& -(limit0 + MOVE_FRAME_CAP) <= b.pos.y <= limit0 + MOVE_FRAME_CAP
                &&& b.vel.x == 0
                &&& -BULLET_SPEED_MAX <= b.vel.y <= BULLET_SPEED_MAX
            } by {
                let pre = bullets2[i];
                assert(bullets3[i] == bullets::spec_moved_bullet(pre, dt_ms));
                assert(-500 * (dt_ms as int) <= pre.vel.y * dt_ms <= 500 * (dt_ms as int))
                    by (nonlinear_arith)
                    requires
                        -500 <= pre.vel.y <= 500,
                        0 <= dt_ms,
                ;
            }
        }
        self.check_bullet_wall_collision();
        let ghost bullets4 = self.bullets@;
        proof {
            bullets::lemma_surviving_walls_from(bullets3, self.walls@);
            assert forall|t: int| 0 <= t < bullets4.len() implies bullet_ok(
                #[trigger] bullets4[t],
                limit0 + MOVE_FRAME_CAP,
            ) by {
                let u = choose|u: int| 0 <= u < bullets3.len() && bullets3[u] == bullets4[t];
                assert(bullets3[u] == bullets4[t]);
            }
        }
        self.check_player_bullet_invader_collision();
        let ghost bullets5 = self.bullets@;
        proof {
            bullets::lemma_surviving_fleet_from(bullets4, invaders2);
            bullets::lemma_invaders_surviving_from(invaders2, bullets4);
            assert forall|t: int| 0 <= t < bullets5.len() implies bullet_ok(
                #[trigger] bullets5[t],
                limit0 + MOVE_FRAME_CAP,
            ) by {
                let u = choose|u: int| 0 <= u < bullets4.len() && bullets4[u] == bullets5[t];
                assert(bullet_ok(bullets4[u], limit0 + MOVE_FRAME_CAP));
            }
            assert forall|t: int| 0 <= t < self.invaders@.len() implies invader_ok(
                self.cfg,
                #[trigger] self.invaders@[t],
                limit0 + MOVE_FRAME_CAP,
            ) by {
                let u = choose|u: int|
                    0 <= u < invaders2.len() && invaders2[u] == self.invaders@[t];
                assert(invaders2[u] == self.invaders@[t]);
            }
        }
        self.check_invader_bullet_player_collision(&mut events);
        let ghost bullets6 = self.bullets@;
        proof {
            let ppos = player::spec_player_pos(self.cfg, self.player_x);
            bullets::lemma_first_striker_in_range(bullets5, ppos);
            assert forall|t: int| 0 <= t < bullets6.len() implies bullet_ok(
                #[trigger] bullets6[t],
                limit0 + MOVE_FRAME_CAP,
            ) by {
                match bullets::spec_first_striker(bullets5, ppos) {
                    Some(k) => {
                        assert(bullets6 == bullets5.remove(k));
                        if t < k {
                            assert(bullets6[t] == bullets5[t]);
                        } else {
                            assert(bullets6[t] == bullets5[t + 1]);
                        }
                    },
                    None => {
                        assert(bullets6 == bullets5);
                    },
                }
            }
            assert forall|t: int| 0 <= t < self.shields@.len() implies shield_ok(
                #[trigger] self.shields@[t],
            ) by {
                assert(shield_ok(old(self).shields@[t]));
            }
        }
        self.check_bullet_shield_collision();
        self.check_player_killed_all_invaders(&mut events);
        self.invader_bullet_hit_player(&events);
        self.invaders_hit_player(&events);
        self.player_killed_all_invaders(&events);
        proof {
            let m0 = old(self)@;
            let limit1 = entity_limit(self.frames);
            assert(limit1 == limit0 + MOVE_FRAME_CAP);

            shields::lemma_shield_sweep_bullets_from(bullets6, old(self).shields@);
            shields::lemma_shield_sweep_shields_from(bullets6, old(self).shields@);

            assert forall|t: int| 0 <= t < self.bullets@.len() implies bullet_ok(
                #[trigger] self.bullets@[t],
                limit1,
            ) by {
                let u = choose|u: int| 0 <= u < bullets6.len() && bullets6[u] == self.bullets@[t];
                assert(bullet_ok(bullets6[u], limit1));
            }

            assert forall|t: int| 0 <= t < self.shields@.len() implies shield_ok(
                #[trigger] self.shields@[t],
            ) by {
                let u = choose|u: int|
                    0 <= u < old(self).shields@.len() && (self.shields@[t]).pos == old(
                        self,
                    ).shields@[u].pos && self.shields@[t].level <= old(self).shields@[u].level;
                assert(shield_ok(old(self).shields@[u]));
            }

            // While still playing, no invader is at or past the losing line.
            if self.status == GameStatus::Playing {
                assert(!events.reached_bottom);
                assert forall|t: int| 0 <= t < self.invaders@.len() implies (
                #[trigger] self.invaders@[t]).pos.y > self.cfg.player_collision_y() by {
                    let u = choose|u: int|
                        0 <= u < invaders2.len() && invaders2[u] == self.invaders@[t];
                    assert(invaders2[u] == self.invaders@[t]);
                }
            }

            // The frame equals its specification, stage by stage.
            lemma_step_view(
                m0,
                input,
                dt_ms,
                rolls@,
                invaders1,
                invaders2,
                events.player_bullets_fired@,
                events.invader_bullets_fired@,
                bullets2,
                bullets3,
                bullets4,
                bullets5,
                bullets6,
                self@,
            );
            assert(self.wf());
        }
    }

    /// Advances the game by one frame: draws each invader's fire roll
    /// from the thread-local generator and steps as [`spec_step`] says
    /// for those rolls. Whatever the draw, the new world is the step of
    /// the old one under some sequence of rolls.
    pub fn step(&mut self, input: FrameInput, dt_ms: u64)
        requires
            old(self).wf(),
            dt_ms <= DT_STEP_MAX_MS,
            old(self).frames < FRAME_LIMIT,
        ensures
            final(self).wf(),
            exists|rolls: Seq<u32>|
                rolls.len() == old(self).invaders@.len() && final(self)@ == #[trigger] spec_step(
                    old(self)@,
                    input,
                    dt_ms,
                    rolls,
                ),
    {
        let n: usize = self.invaders.len();
        let mut rolls: Vec<u32> = Vec::new();
        let mut i: usize = 0;
        while i < n
            invariant
                i <= n,
                rolls@.len() == i,
            decreases n - i,
        {
            rolls.push(random_below(crate::config::FIRE_ROLL_BOUND));
            i = i + 1;
        }
        self.step_with_rolls(input, dt_ms, &rolls);
    }
}


/// The frame's final state equals [`spec_step`], given each stage's
/// relation to the stage before it — one clause per system, in chain
/// order.
proof fn lemma_step_view(
    m0: WorldModel,
    input: FrameInput,
    dt_ms: u64,
    rolls: Seq<u32>,
    invaders1: Seq<Invader>,
    invaders2: Seq<Invader>,
    pshots: Seq<crate::units::Pos>,
    ishots: Seq<crate::events::InvaderBulletFired>,
    bullets2: Seq<Bullet>,
    bullets3: Seq<Bullet>,
    bullets4: Seq<Bullet>,
    bullets5: Seq<Bullet>,
    bullets6: Seq<Bullet>,
    mf: WorldModel,
)
    requires
        m0.status == GameStatus::Playing,
        mf.cfg == m0.cfg,
        mf.walls == m0.walls,
        mf.frames == m0.frames + 1,
        mf.player_x == player::spec_moved_player_x(
            m0.cfg,
            m0.player_x,
            input.left,
            input.right,
            dt_ms,
        ),
        mf.shoot_config == (PlayerShootConfig {
            timer: player::spec_shot_timer(m0.shoot_config.timer, input.fire, dt_ms),
        }),
        pshots == if player::spec_shoot_fires(m0.shoot_config.timer, input.fire, dt_ms) {
            seq![player::spec_player_bullet_spawn(m0.cfg, mf.player_x as i64)]
        } else {
            Seq::<crate::units::Pos>::empty()
        },
        invaders1 == if m0.invader_config.movement_timer.spec_tick_just_finished(dt_ms) {
            invaders::spec_stepped_invaders(
                m0.invaders,
                INVADER_STEP * m0.invader_config.direction,
            )
        } else {
            m0.invaders
        },
        ishots == invaders::spec_invader_shots(invaders1, rolls),
        mf.invader_config == (InvaderConfig {
            move_down: false,
            ..invaders::spec_bounced_config(
                InvaderConfig {
                    movement_timer: m0.invader_config.movement_timer.spec_tick(dt_ms),
                    ..m0.invader_config
                },
                invaders1,
                m0.walls,
                dt_ms,
            )
        }),
        invaders2 == if invaders::spec_bounced_config(
            InvaderConfig {
                movement_timer: m0.invader_config.movement_timer.spec_tick(dt_ms),
                ..m0.invader_config
            },
            invaders1,
            m0.walls,
            dt_ms,
        ).move_down {
            invaders::spec_dropped_invaders(invaders1)
        } else {
            invaders1
        },
        bullets2 == m0.bullets + pshots.map_values(
            |p: crate::units::Pos| bullets::spec_player_bullet(p),
        ) + ishots.map_values(
            |e: crate::events::InvaderBulletFired| bullets::spec_invader_bullet(e),
        ),
        bullets3 == bullets::spec_moved_bullets(bullets2, dt_ms),
        bullets4 == bullets::spec_bullets_surviving_walls(bullets3, m0.walls),
        bullets5 == bullets::spec_bullets_surviving_fleet(bullets4, invaders2),
        mf.invaders == bullets::spec_invaders_surviving(invaders2, bullets4),
        bullets6 == bullets::spec_player_collision_bullets(
            bullets5,
            player::spec_player_pos(m0.cfg, mf.player_x as i64),
        ),
        mf.bullets == shields::spec_shield_sweep(bullets6, m0.shields).0,
        mf.shields == shields::spec_shield_sweep(bullets6, m0.shields).1,
        mf.status == if bullets::spec_player_hit(
            bullets5,
            player::spec_player_pos(m0.cfg, mf.player_x as i64),
        ) {
            GameStatus::Lost
        } else if invaders::spec_fleet_reached_bottom(m0.cfg, invaders2) {
            GameStatus::Lost
        } else if mf.invaders.len() == 0 {
            GameStatus::Won
        } else {
            GameStatus::Playing
        },
    ensures
        mf == spec_step(m0, input, dt_ms, rolls),
{
    reveal(spec_step);
    assert(mf =~= spec_step(m0, input, dt_ms, rolls));
}

/// The band around a wall's center line within which a bullet's box
/// overlaps it: half the wall's thickness plus the bullet's half-extent.
pub const BULLET_WALL_BAND: i64 = 5_500;

/// Where a bullet may stand: inside the arena, clear of the top and
/// bottom kill bands.
pub open spec fn spec_bullet_in_arena(cfg: ArenaConfig, b: Bullet) -> bool {
    &&& -cfg.right_wall <= b.pos.x <= cfg.right_wall
    &&& -(cfg.top_wall - BULLET_WALL_BAND) <= b.pos.y <= cfg.top_wall - BULLET_WALL_BAND
}

/// A bullet in regular flight: straight vertical motion within the
/// speed cap, inside the arena.
pub open spec fn bullet_flight_ok(cfg: ArenaConfig, b: Bullet) -> bool {
    &&& b.vel.x == 0
    &&& -BULLET_SPEED_MAX <= b.vel.y <= BULLET_SPEED_MAX
    &&& spec_bullet_in_arena(cfg, b)
}

/// No bullet is ever observed beyond the arena boundary: a bullet that
/// overlaps a wall is removed within the frame, and at frame rates of
/// fifty per second or more a bullet cannot jump the wall band in one
/// frame — so a frame stepped on a world whose bullets are all inside
/// the arena leaves every bullet inside the arena.
pub proof fn lemma_bullets_stay_in_arena(
    m: WorldModel,
    input: FrameInput,
    dt_ms: u64,
    rolls: Seq<u32>,
)
    requires
        m.cfg.wf(),
        m.cfg.top_wall >= 60_000,
        m.walls == spec_walls(m.cfg),
        m.cfg.left_bound() <= m.player_x <= m.cfg.right_bound(),
        m.invader_config.direction == 1 || m.invader_config.direction == -1,
        dt_ms <= 20,
        forall|t: int|
            0 <= t < m.bullets.len() ==> bullet_flight_ok(m.cfg, #[trigger] m.bullets[t]),
        forall|t: int|
            0 <= t < m.invaders.len() ==> invader_in_arena(m.cfg, #[trigger] m.invaders[t]),
    ensures
        forall|t: int|
            0 <= t < spec_step(m, input, dt_ms, rolls).bullets.len() ==> bullet_flight_ok(
                m.cfg,
                #[trigger] spec_step(m, input, dt_ms, rolls).bullets[t],
            ),
{
    reveal(spec_step);
    if m.status != GameStatus::Playing {
        return ;
    }
    let cfg = m.cfg;
    let rw = cfg.right_wall as int;
    let top = cfg.top_wall as int;
    let player_x = player::spec_moved_player_x(cfg, m.player_x, input.left, input.right, dt_ms);
    let fires = player::spec_shoot_fires(m.shoot_config.timer, input.fire, dt_ms);
    let pshots: Seq<crate::units::Pos> = if fires {
        seq![player::spec_player_bullet_spawn(cfg, player_x as i64)]
    } else {
        Seq::empty()
    };
    let invaders1 = if m.invader_config.movement_timer.spec_tick_just_finished(dt_ms) {
        invaders::spec_stepped_invaders(m.invaders, INVADER_STEP * m.invader_config.direction)
    } else {
        m.invaders
    };
    let ishots = invaders::spec_invader_shots(invaders1, rolls);
    let bullets1 = m.bullets + pshots.map_values(
        |p: crate::units::Pos| bullets::spec_player_bullet(p),
    );
    let bullets2 = bullets1 + ishots.map_values(
        |e: crate::events::InvaderBulletFired| bullets::spec_invader_bullet(e),
    );
    let bullets3 = bullets::spec_moved_bullets(bullets2, dt_ms);
    let bullets4 = bullets::spec_bullets_surviving_walls(bullets3, m.walls);

    // Every fired invader stands inside the arena, even after a march step.
    assert forall|t: int| 0 <= t < invaders1.len() implies {
        let v = #[trigger] invaders1[t];
        &&& -rw + 10_000 <= v.pos.x <= rw - 10_000
        &&& cfg.player_collision_y() < v.pos.y <= cfg.grid_start_y()
    } by {
        assert(invader_in_arena(cfg, m.invaders[t]));
    }
    invaders::lemma_invader_shots_from(invaders1, rolls);

    // Before movement, every bullet — old or just spawned — is inside
    // the arena bands.
    assert forall|t: int| 0 <= t < bullets2.len() implies {
        let b = #[trigger] bullets2[t];
        &&& b.vel.x == 0
        &&& -BULLET_SPEED_MAX <= b.vel.y <= BULLET_SPEED_MAX
        &&& -rw <= b.pos.x <= rw
        &&& -(top - BULLET_WALL_BAND) <= b.pos.y <= top - BULLET_WALL_BAND
    } by {
        let nb = m.bullets.len() as int;
        let np = pshots.len() as int;
        if t < nb {
            assert(bullet_flight_ok(cfg, m.bullets[t]));
        } else if t < nb + np {
            assert(bullets2[t] == bullets::spec_player_bullet(pshots[t - nb]));
        } else {
            assert(bullets2[t] == bullets::spec_invader_bullet(ishots[t - nb - np]));
            let u = choose|u: int|
                0 <= u < invaders1.len() && ishots[t - nb - np] == invaders::spec_invader_shot(
                    invaders1[u],
                );
            assert(ishots[t - nb - np] == invaders::spec_invader_shot(invaders1[u]));
        }
    }

    // One frame of flight cannot jump the wall band.
    assert forall|t: int| 0 <= t < bullets3.len() implies {
        let b = #[trigger] bullets3[t];
        &&& b.vel.x == 0
        &&& -BULLET_SPEED_MAX <= b.vel.y <= BULLET_SPEED_MAX
        &&& -rw <= b.pos.x <= rw
        &&& -top - 4_500 <= b.pos.y <= top + 4_500
    } by {
        let pre = bullets2[t];
        assert(bullets3[t] == bullets::spec_moved_bullet(pre, dt_ms));
        assert(-10_000 <= pre.vel.y * dt_ms <= 10_000) by (nonlinear_arith)
            requires
                -500 <= pre.vel.y <= 500,
                0 <= dt_ms <= 20,
        ;
    }

    // A bullet the wall sweep keeps is clear of both kill bands.
    bullets::lemma_surviving_walls_from(bullets3, m.walls);
    assert forall|t: int| 0 <= t < bullets4.len() implies bullet_flight_ok(
        cfg,
        #[trigger] bullets4[t],
    ) by {
        let b = bullets4[t];
        let u = choose|u: int| 0 <= u < bullets3.len() && bullets3[u] == b;
        assert(bullets3[u] == b);
        assert(!bullets::spec_bullet_hits_any_wall(b, m.walls));
        assert(!bullets::spec_bullet_hits_wall(b, m.walls[2]));
        assert(!bullets::spec_bullet_hits_wall(b, m.walls[3]));
        assert(m.walls[2] == Wall::spec_new(crate::walls::WallLocation::Bottom, cfg));
        assert(m.walls[3] == Wall::spec_new(crate::walls::WallLocation::Top, cfg));
    }

    // The later sweeps only remove bullets.
    let invaders2 = if invaders::spec_bounced_config(
        InvaderConfig {
            movement_timer: m.invader_config.movement_timer.spec_tick(dt_ms),
            ..m.invader_config
        },
        invaders1,
        m.walls,
        dt_ms,
    ).move_down {
        invaders::spec_dropped_invaders(invaders1)
    } else {
        invaders1
    };
    let bullets5 = bullets::spec_bullets_surviving_fleet(bullets4, invaders2);
    let ppos = player::spec_player_pos(cfg, player_x as i64);
    let bullets6 = bullets::spec_player_collision_bullets(bullets5, ppos);
    bullets::lemma_surviving_fleet_from(bullets4, invaders2);
    bullets::lemma_first_striker_in_range(bullets5, ppos);
    shields::lemma_shield_sweep_bullets_from(bullets6, m.shields);
    assert forall|t: int| 0 <= t < bullets5.len() implies bullet_flight_ok(
        cfg,
        #[trigger] bullets5[t],
    ) by {
        let u = choose|u: int| 0 <= u < bullets4.len() && bullets4[u] == bullets5[t];
        assert(bullet_flight_ok(cfg, bullets4[u]));
    }
    assert forall|t: int| 0 <= t < bullets6.len() implies bullet_flight_ok(
        cfg,
        #[trigger] bullets6[t],
    ) by {
        match bullets::spec_first_striker(bullets5, ppos) {
            Some(k) => {
                if t < k {
                    assert(bullets6[t] == bullets5[t]);
                } else {
                    assert(bullets6[t] == bullets5[t + 1]);
                }
            },
            None => {
                assert(bullets6 == bullets5);
            },
        }
    }
    assert forall|t: int| 0 <= t < spec_step(m, input, dt_ms, rolls).bullets.len() implies
        bullet_flight_ok(cfg, #[trigger] spec_step(m, input, dt_ms, rolls).bullets[t]) by {
        let b = spec_step(m, input, dt_ms, rolls).bullets[t];
        assert(shields::spec_shield_sweep(bullets6, m.shields).0[t] == b);
        let u = choose|u: int| 0 <= u < bullets6.len() && bullets6[u] == b;
        assert(bullet_flight_ok(cfg, bullets6[u]));
    }
}

/// When the win condition system observes an empty fleet on a playing
/// world whose bullets are all the player's own, the frame ends in the
/// won state.
pub proof fn lemma_clear_fleet_wins(
    m: WorldModel,
    input: FrameInput,
    dt_ms: u64,
    rolls: Seq<u32>,
)
    requires
        m.status == GameStatus::Playing,
        m.invaders.len() == 0,
        forall|t: int|
            0 <= t < m.bullets.len() ==> (#[trigger] m.bullets[t]).kind
                == crate::bullets::BulletKind::Player,
    ensures
        spec_step(m, input, dt_ms, rolls).status == GameStatus::Won,
{
    reveal(spec_step);
    let player_x = player::spec_moved_player_x(
        m.cfg,
        m.player_x,
        input.left,
        input.right,
        dt_ms,
    );
    let fires = player::spec_shoot_fires(m.shoot_config.timer, input.fire, dt_ms);
    let pshots: Seq<crate::units::Pos> = if fires {
        seq![player::spec_player_bullet_spawn(m.cfg, player_x as i64)]
    } else {
        Seq::empty()
    };
    let invaders1 = if m.invader_config.movement_timer.spec_tick_just_finished(dt_ms) {
        invaders::spec_stepped_invaders(m.invaders, INVADER_STEP * m.invader_config.direction)
    } else {
        m.invaders
    };
    assert(invaders1.len() == 0);
    let ishots = invaders::spec_invader_shots(invaders1, rolls);
    assert(ishots.len() == 0);
    let bullets2 = m.bullets + pshots.map_values(
        |p: crate::units::Pos| bullets::spec_player_bullet(p),
    ) + ishots.map_values(
        |e: crate::events::InvaderBulletFired| bullets::spec_invader_bullet(e),
    );
    let bullets3 = bullets::spec_moved_bullets(bullets2, dt_ms);
    let bullets4 = bullets::spec_bullets_surviving_walls(bullets3, m.walls);
    let invaders2 = if invaders::spec_bounced_config(
        InvaderConfig {
            movement_timer: m.invader_config.movement_timer.spec_tick(dt_ms),
            ..m.invader_config
        },
        invaders1,
        m.walls,
        dt_ms,
    ).move_down {
        invaders::spec_dropped_invaders(invaders1)
    } else {
        invaders1
    };
    assert(invaders2.len() == 0);
    let bullets5 = bullets::spec_bullets_surviving_fleet(bullets4, invaders2);
    let ppos = player::spec_player_pos(m.cfg, player_x as i64);
    assert forall|t: int| 0 <= t < bullets2.len() implies (#[trigger] bullets2[t]).kind
        == crate::bullets::BulletKind::Player by {
        if t >= m.bullets.len() {
            assert(bullets2[t] == bullets::spec_player_bullet(pshots[t - m.bullets.len()]));
        }
    }
    bullets::lemma_surviving_walls_from(bullets3, m.walls);
    bullets::lemma_surviving_fleet_from(bullets4, invaders2);
    assert forall|t: int| 0 <= t < bullets5.len() implies !bullets::spec_strikes_player(
        #[trigger] bullets5[t],
        ppos,
    ) by {
        let u4 = choose|u: int| 0 <= u < bullets4.len() && bullets4[u] == bullets5[t];
        assert(bullets4[u4] == bullets5[t]);
        let u3 = choose|u: int| 0 <= u < bullets3.len() && bullets3[u] == bullets4[u4];
        assert(bullets3[u3] == bullets::spec_moved_bullet(bullets2[u3], dt_ms));
    }
    bullets::lemma_first_striker_none(bullets5, ppos);
    assert(!bullets::spec_player_hit(bullets5, ppos));
    assert(bullets::spec_invaders_surviving(invaders2, bullets4).len() == 0);
    assert(!invaders::spec_fleet_reached_bottom(m.cfg, invaders2));
}

/// A spawned shield stands within [`POS_BASE`] of the origin.
proof fn lemma_shield_spawn_in_base(cfg: ArenaConfig, k: int)
    requires
        cfg.wf(),
        0 <= k < SHIELD_COUNT,
    ensures
        -POS_BASE <= cfg.shield_spawn_pos(k).x <= POS_BASE,
        -POS_BASE <= cfg.shield_spawn_pos(k).y <= POS_BASE,
{
    let gw = cfg.grid_width();
    let sp = cfg.shield_spacing();
    assert(0 <= sp <= gw && 0 <= k * sp <= 4 * sp) by (nonlinear_arith)
        requires
            sp == gw / 4,
            0 <= gw,
            0 <= k <= 4,
    ;
}

} // verus!
