//! Bullets: spawned on fire events, advanced every frame, removed on any
//! collision.
//!
//! The systems of this module come in the order the frame runs them:
//! spawning from the frame's fire events, movement, then the collision
//! sweeps against walls, invaders and the player.

use vstd::prelude::*;

use crate::config::{ArenaConfig, BULLET_HALF, INVADER_SIZE, PLAYER_BULLET_SPEED, PLAYER_HEIGHT};
use crate::events::{FrameEvents, InvaderBulletFired};
use crate::game::{World, ENTITY_COORD_MAX};
use crate::invaders::Invader;
use crate::player::spec_player_pos;
use crate::timer::TIMER_TICK_MAX_MS;
use crate::units::{boxes_overlap, check_boxes_overlap, check_within_radius, within_radius, Pos, Vel};
use crate::walls::{spec_walls, Wall};

verus! {

/// Which side fired a bullet; a player bullet can only hit invaders and
/// shields, an invader bullet only the player and shields.
#[derive(Clone, Copy, PartialEq, Eq, Structural, Debug)]
pub enum BulletKind {
    Player,
    Invader,
}

/// A bullet in flight: a position, a fixed velocity, and the side that
/// fired it.
#[derive(Clone, Copy, PartialEq, Eq, Structural, Debug)]
pub struct Bullet {
    pub pos: Pos,
    pub vel: Vel,
    pub kind: BulletKind,
}

/// The bullet a player fire event spawns: straight up at
/// [`PLAYER_BULLET_SPEED`].
pub open spec fn spec_player_bullet(pos: Pos) -> Bullet {
    Bullet { pos, vel: Vel { x: 0, y: PLAYER_BULLET_SPEED }, kind: BulletKind::Player }
}

/// The bullet an invader fire event spawns: straight down at the firing
/// tier's speed.
pub open spec fn spec_invader_bullet(e: InvaderBulletFired) -> Bullet {
    Bullet {
        pos: e.position,
        vel: Vel { x: 0, y: (-e.invader_difficulty.spec_bullet_speed()) as i64 },
        kind: BulletKind::Invader,
    }
}

/// A bullet advanced by one frame: its velocity in units per second times
/// the frame milliseconds, in milli-units.
pub open spec fn spec_moved_bullet(b: Bullet, dt_ms: u64) -> Bullet {
    Bullet {
        pos: Pos { x: (b.pos.x + b.vel.x * dt_ms) as i64, y: (b.pos.y + b.vel.y * dt_ms) as i64 },
        ..b
    }
}

/// All bullets advanced by one frame.
pub open spec fn spec_moved_bullets(bs: Seq<Bullet>, dt_ms: u64) -> Seq<Bullet> {
    bs.map_values(|b: Bullet| spec_moved_bullet(b, dt_ms))
}

/// Whether a bullet's box overlaps a wall's box.
pub open spec fn spec_bullet_hits_wall(b: Bullet, w: Wall) -> bool {
    boxes_overlap(
        b.pos,
        Pos { x: BULLET_HALF, y: BULLET_HALF },
        w.pos,
        Pos { x: w.half_x() as i64, y: w.half_y() as i64 },
    )
}

/// Whether a bullet overlaps any wall.
pub open spec fn spec_bullet_hits_any_wall(b: Bullet, walls: Seq<Wall>) -> bool {
    exists|j: int| 0 <= j < walls.len() && spec_bullet_hits_wall(b, #[trigger] walls[j])
}

/// Whether a player bullet is within the hit radius of any invader.
pub open spec fn spec_player_bullet_strikes(b: Bullet, invs: Seq<Invader>) -> bool {
    b.kind == BulletKind::Player && exists|i: int|
        0 <= i < invs.len() && within_radius(b.pos, (#[trigger] invs[i]).pos, INVADER_SIZE)
}

/// Whether any player bullet is within the hit radius of this invader.
pub open spec fn spec_invader_struck(inv: Invader, bs: Seq<Bullet>) -> bool {
    exists|i: int|
        0 <= i < bs.len() && (#[trigger] bs[i]).kind == BulletKind::Player && within_radius(
            bs[i].pos,
            inv.pos,
            INVADER_SIZE,
        )
}

/// Whether an invader bullet is within the player's hit radius.
pub open spec fn spec_strikes_player(b: Bullet, player_pos: Pos) -> bool {
    b.kind == BulletKind::Invader && within_radius(b.pos, player_pos, PLAYER_HEIGHT)
}

/// The bullets that survive the wall sweep: those overlapping no wall,
/// in order.
pub open spec fn spec_bullets_surviving_walls(bs: Seq<Bullet>, walls: Seq<Wall>) -> Seq<Bullet>
    decreases bs.len(),
{
    if bs.len() == 0 {
        Seq::empty()
    } else {
        let rest = spec_bullets_surviving_walls(bs.drop_last(), walls);
        if spec_bullet_hits_any_wall(bs.last(), walls) {
            rest
        } else {
            rest.push(bs.last())
        }
    }
}

/// The bullets that survive the fleet sweep: every player bullet within
/// an invader's hit radius is spent; the others fly on, in order.
pub open spec fn spec_bullets_surviving_fleet(bs: Seq<Bullet>, invs: Seq<Invader>) -> Seq<Bullet>
    decreases bs.len(),
{
    if bs.len() == 0 {
        Seq::empty()
    } else {
        let rest = spec_bullets_surviving_fleet(bs.drop_last(), invs);
        if spec_player_bullet_strikes(bs.last(), invs) {
            rest
        } else {
            rest.push(bs.last())
        }
    }
}

/// The invaders that survive the fleet sweep: every invader within a
/// player bullet's hit radius is destroyed; the others remain, in order.
pub open spec fn spec_invaders_surviving(invs: Seq<Invader>, bs: Seq<Bullet>) -> Seq<Invader>
    decreases invs.len(),
{
    if invs.len() == 0 {
        Seq::empty()
    } else {
        let rest = spec_invaders_surviving(invs.drop_last(), bs);
        if spec_invader_struck(invs.last(), bs) {
            rest
        } else {
            rest.push(invs.last())
        }
    }
}

/// Every bullet the wall sweep keeps comes from the list it started
/// from, and overlaps no wall.
pub proof fn lemma_surviving_walls_from(bs: Seq<Bullet>, walls: Seq<Wall>)
    ensures
        forall|t: int|
            0 <= t < spec_bullets_surviving_walls(bs, walls).len() ==> bs.contains(
                #[trigger] spec_bullets_surviving_walls(bs, walls)[t],
            ) && !spec_bullet_hits_any_wall(spec_bullets_surviving_walls(bs, walls)[t], walls),
    decreases bs.len(),
{
    if bs.len() > 0 {
        lemma_surviving_walls_from(bs.drop_last(), walls);
        assert forall|t: int| 0 <= t < spec_bullets_surviving_walls(bs, walls).len() implies
            bs.contains(#[trigger] spec_bullets_surviving_walls(bs, walls)[t])
                && !spec_bullet_hits_any_wall(spec_bullets_surviving_walls(bs, walls)[t], walls) by {
            let kept = spec_bullets_surviving_walls(bs, walls);
            let prev = spec_bullets_surviving_walls(bs.drop_last(), walls);
            if t < prev.len() {
                assert(prev[t] == kept[t]);
                assert(bs.drop_last().contains(prev[t]));
                let u = choose|u: int|
                    0 <= u < bs.drop_last().len() && bs.drop_last()[u] == prev[t];
                assert(bs[u] == kept[t]);
            } else {
                assert(bs[bs.len() - 1] == kept[t]);
            }
        }
    }
}

/// Every bullet the fleet sweep keeps comes from the list it started
/// from.
pub proof fn lemma_surviving_fleet_from(bs: Seq<Bullet>, invs: Seq<Invader>)
    ensures
        forall|t: int|
            0 <= t < spec_bullets_surviving_fleet(bs, invs).len() ==> bs.contains(
                #[trigger] spec_bullets_surviving_fleet(bs, invs)[t],
            ),
    decreases bs.len(),
{
    if bs.len() > 0 {
        lemma_surviving_fleet_from(bs.drop_last(), invs);
        assert forall|t: int| 0 <= t < spec_bullets_surviving_fleet(bs, invs).len() implies
            bs.contains(#[trigger] spec_bullets_surviving_fleet(bs, invs)[t]) by {
            let kept = spec_bullets_surviving_fleet(bs, invs);
            let prev = spec_bullets_surviving_fleet(bs.drop_last(), invs);
            if t < prev.len() {
                assert(prev[t] == kept[t]);
                assert(bs.drop_last().contains(prev[t]));
                let u = choose|u: int|
                    0 <= u < bs.drop_last().len() && bs.drop_last()[u] == prev[t];
                assert(bs[u] == kept[t]);
            } else {
                assert(bs[bs.len() - 1] == kept[t]);
            }
        }
    }
}

/// Every invader the fleet sweep keeps comes from the fleet it
/// started from.
pub proof fn lemma_invaders_surviving_from(invs: Seq<Invader>, bs: Seq<Bullet>)
    ensures
        forall|t: int|
            0 <= t < spec_invaders_surviving(invs, bs).len() ==> invs.contains(
                #[trigger] spec_invaders_surviving(invs, bs)[t],
            ),
    decreases invs.len(),
{
    if invs.len() > 0 {
        lemma_invaders_surviving_from(invs.drop_last(), bs);
        assert forall|t: int| 0 <= t < spec_invaders_surviving(invs, bs).len() implies
            invs.contains(#[trigger] spec_invaders_surviving(invs, bs)[t]) by {
            let kept = spec_invaders_surviving(invs, bs);
            let prev = spec_invaders_surviving(invs.drop_last(), bs);
            if t < prev.len() {
                assert(prev[t] == kept[t]);
                assert(invs.drop_last().contains(prev[t]));
                let u = choose|u: int|
                    0 <= u < invs.drop_last().len() && invs.drop_last()[u] == prev[t];
                assert(invs[u] == kept[t]);
            } else {
                assert(invs[invs.len() - 1] == kept[t]);
            }
        }
    }
}

/// Decides [`spec_bullet_hits_any_wall`] against this arena's walls.
fn bullet_hits_walls(b: &Bullet, walls: &Vec<Wall>, cfg: &ArenaConfig) -> (r: bool)
    requires
        cfg.wf(),
        walls@ == spec_walls(*cfg),
    ensures
        r == spec_bullet_hits_any_wall(*b, walls@),
{
    let m: usize = walls.len();
    let mut j: usize = 0;
    while j < m
        invariant
            m == walls@.len(),
            j <= m,
            cfg.wf(),
            walls@ == spec_walls(*cfg),
            forall|t: int| 0 <= t < j ==> !spec_bullet_hits_wall(*b, #[trigger] walls@[t]),
        decreases m - j,
    {
        let w = walls[j];
        proof {
            assert(0 <= w.size.x && 0 <= w.size.y);
        }
        let w_half = Pos { x: w.size.x / 2, y: w.size.y / 2 };
        if check_boxes_overlap(b.pos, Pos { x: BULLET_HALF, y: BULLET_HALF }, w.pos, w_half) {
            return true;
        }
        j = j + 1;
    }
    false
}

impl World {
    /// Spawns this frame's player bullets: one upward bullet per recorded
    /// player fire event, in event order.
    pub fn spawn_player_bullet(&mut self, events: &FrameEvents)
        ensures
            *final(self) == (World { bullets: final(self).bullets, ..*old(self) }),
            final(self).bullets@ == old(self).bullets@ + events.player_bullets_fired@.map_values(
                |p: Pos| spec_player_bullet(p),
            ),
    {
        let n: usize = events.player_bullets_fired.len();
        let mut i: usize = 0;
        while i < n
            invariant
                n == events.player_bullets_fired@.len(),
                i <= n,
                *self == (World { bullets: self.bullets, ..*old(self) }),
                self.bullets@ == old(self).bullets@ + events.player_bullets_fired@.take(
                    i as int,
                ).map_values(|p: Pos| spec_player_bullet(p)),
            decreases n - i,
        {
            let pos = events.player_bullets_fired[i];
            self.bullets.push(
                Bullet {
                    pos,
                    vel: Vel { x: 0, y: PLAYER_BULLET_SPEED },
                    kind: BulletKind::Player,
                },
            );
            proof {
                assert(self.bullets@ =~= old(self).bullets@ + events.player_bullets_fired@.take(
                    i + 1,
                ).map_values(|p: Pos| spec_player_bullet(p)));
            }
            i = i + 1;
        }
        proof {
            assert(events.player_bullets_fired@.take(n as int) =~= events.player_bullets_fired@);
        }
    }

    /// Spawns this frame's invader bullets: one downward bullet per
    /// recorded invader fire event, in event order, at the firing tier's
    /// speed.
    pub fn spawn_invader_bullet(&mut self, events: &FrameEvents)
        ensures
            *final(self) == (World { bullets: final(self).bullets, ..*old(self) }),
            final(self).bullets@ == old(self).bullets@ + events.invader_bullets_fired@.map_values(
                |e: InvaderBulletFired| spec_invader_bullet(e),
            ),
    {
        let n: usize = events.invader_bullets_fired.len();
        let mut i: usize = 0;
        while i < n
            invariant
                n == events.invader_bullets_fired@.len(),
                i <= n,
                *self == (World { bullets: self.bullets, ..*old(self) }),
                self.bullets@ == old(self).bullets@ + events.invader_bullets_fired@.take(
                    i as int,
                ).map_values(|e: InvaderBulletFired| spec_invader_bullet(e)),
            decreases n - i,
        {
            let e = events.invader_bullets_fired[i];
            let speed: i64 = e.invader_difficulty.get_bullet_speed();
            self.bullets.push(
                Bullet {
                    pos: e.position,
                    vel: Vel { x: 0, y: -speed },
                    kind: BulletKind::Invader,
                },
            );
            proof {
                assert(self.bullets@ =~= old(self).bullets@ + events.invader_bullets_fired@.take(
                    i + 1,
                ).map_values(|e: InvaderBulletFired| spec_invader_bullet(e)));
            }
            i = i + 1;
        }
        proof {
            assert(events.invader_bullets_fired@.take(n as int) =~= events.invader_bullets_fired@);
        }
    }

    /// Advances every bullet by its velocity times the frame time.
    pub fn move_bullets(&mut self, dt_ms: u64)
        requires
            dt_ms <= TIMER_TICK_MAX_MS,
            forall|i: int|
                0 <= i < old(self).bullets@.len() ==> {
                    let b = #[trigger] old(self).bullets@[i];
                    &&& -ENTITY_COORD_MAX <= b.pos.x <= ENTITY_COORD_MAX
                    &&& -ENTITY_COORD_MAX <= b.pos.y <= ENTITY_COORD_MAX
                    &&& -crate::game::BULLET_SPEED_MAX <= b.vel.x <= crate::game::BULLET_SPEED_MAX
                    &&& -crate::game::BULLET_SPEED_MAX <= b.vel.y <= crate::game::BULLET_SPEED_MAX
                },
        ensures
            *final(self) == (World { bullets: final(self).bullets, ..*old(self) }),
            final(self).bullets@ == spec_moved_bullets(old(self).bullets@, dt_ms),
    {
        let ghost orig = self.bullets@;
        let n: usize = self.bullets.len();
        let mut i: usize = 0;
        while i < n
            invariant
                n == self.bullets@.len(),
                i <= n,
                orig.len() == n,
                dt_ms <= TIMER_TICK_MAX_MS,
                forall|j: int|
                    0 <= j < n ==> {
                        let b = #[trigger] orig[j];
                        &&& -ENTITY_COORD_MAX <= b.pos.x <= ENTITY_COORD_MAX
                        &&& -ENTITY_COORD_MAX <= b.pos.y <= ENTITY_COORD_MAX
                        &&& -crate::game::BULLET_SPEED_MAX <= b.vel.x
                            <= crate::game::BULLET_SPEED_MAX
                        &&& -crate::game::BULLET_SPEED_MAX <= b.vel.y
                            <= crate::game::BULLET_SPEED_MAX
                    },
                forall|j: int| 0 <= j < i ==> self.bullets@[j] == spec_moved_bullet(orig[j], dt_ms),
                forall|j: int| i <= j < n ==> self.bullets@[j] == orig[j],
                *self == (World { bullets: self.bullets, ..*old(self) }),
            decreases n - i,
        {
            let b = self.bullets[i];
            proof {
                assert(-500 * (dt_ms as int) <= b.vel.x * dt_ms <= 500 * (dt_ms as int) && -500 * (
                dt_ms as int) <= b.vel.y * dt_ms <= 500 * (dt_ms as int)) by (nonlinear_arith)
                    requires
                        -500 <= b.vel.x <= 500,
                        -500 <= b.vel.y <= 500,
                        0 <= dt_ms,
                ;
            }
            let dx: i64 = b.vel.x * dt_ms as i64;
            let dy: i64 = b.vel.y * dt_ms as i64;
            self.bullets[i] = Bullet {
                pos: Pos { x: b.pos.x + dx, y: b.pos.y + dy },
                ..b
            };
            i = i + 1;
        }
        proof {
            assert(self.bullets@ =~= spec_moved_bullets(orig, dt_ms));
        }
    }

    /// Removes, within the same frame, every bullet whose box overlaps a
    /// wall collider; the others survive unchanged and in order.
    pub fn check_bullet_wall_collision(&mut self)
        requires
            old(self).cfg.wf(),
            old(self).walls@ == spec_walls(old(self).cfg),
        ensures
            *final(self) == (World { bullets: final(self).bullets, ..*old(self) }),
            final(self).bullets@ == spec_bullets_surviving_walls(
                old(self).bullets@,
                old(self).walls@,
            ),
    {
        let ghost orig = self.bullets@;
        let n: usize = self.bullets.len();
        let mut kept: Vec<Bullet> = Vec::new();
        let mut i: usize = 0;
        while i < n
            invariant
                n == self.bullets@.len(),
                i <= n,
                self.bullets@ == orig,
                self.cfg.wf(),
                self.walls@ == spec_walls(self.cfg),
                *self == *old(self),
                kept@ == spec_bullets_surviving_walls(orig.take(i as int), self.walls@),
            decreases n - i,
        {
            let b = self.bullets[i];
            let hit = bullet_hits_walls(&b, &self.walls, &self.cfg);
            if !hit {
                kept.push(b);
            }
            proof {
                assert(orig.take(i + 1).drop_last() =~= orig.take(i as int));
                assert(kept@ =~= spec_bullets_surviving_walls(orig.take(i + 1), self.walls@));
            }
            i = i + 1;
        }
        proof {
            assert(orig.take(n as int) =~= orig);
        }
        self.bullets = kept;
    }

    /// Resolves player bullets against the fleet over this frame's
    /// snapshot: every player bullet within the hit radius of some invader
    /// is removed, and every invader within the hit radius of some player
    /// bullet is removed; one bullet may strike several invaders in the
    /// same frame, as the sweep acts on the snapshot.
    pub fn check_player_bullet_invader_collision(&mut self)
        requires
            forall|i: int|
                0 <= i < old(self).bullets@.len() ==> {
                    let b = #[trigger] old(self).bullets@[i];
                    &&& -ENTITY_COORD_MAX <= b.pos.x <= ENTITY_COORD_MAX
                    &&& -ENTITY_COORD_MAX <= b.pos.y <= ENTITY_COORD_MAX
                },
            forall|i: int|
                0 <= i < old(self).invaders@.len() ==> {
                    let v = #[trigger] old(self).invaders@[i];
                    &&& -ENTITY_COORD_MAX <= v.pos.x <= ENTITY_COORD_MAX
                    &&& -ENTITY_COORD_MAX <= v.pos.y <= ENTITY_COORD_MAX
                },
        ensures
            *final(self) == (World {
                bullets: final(self).bullets,
                invaders: final(self).invaders,
                ..*old(self)
            }),
            final(self).bullets@ == spec_bullets_surviving_fleet(
                old(self).bullets@,
                old(self).invaders@,
            ),
            final(self).invaders@ == spec_invaders_surviving(
                old(self).invaders@,
                old(self).bullets@,
            ),
    {
        let ghost orig_bullets = self.bullets@;
        let ghost orig_invaders = self.invaders@;
        let n: usize = self.bullets.len();
        let m: usize = self.invaders.len();

        let mut kept_bullets: Vec<Bullet> = Vec::new();
        let mut i: usize = 0;
        while i < n
            invariant
                n == self.bullets@.len(),
                m == self.invaders@.len(),
                i <= n,
                self.bullets@ == orig_bullets,
                self.invaders@ == orig_invaders,
                *self == *old(self),
                forall|j: int|
                    0 <= j < n ==> {
                        let b = #[trigger] orig_bullets[j];
                        &&& -ENTITY_COORD_MAX <= b.pos.x <= ENTITY_COORD_MAX
                        &&& -ENTITY_COORD_MAX <= b.pos.y <= ENTITY_COORD_MAX
                    },
                forall|j: int|
                    0 <= j < m ==> {
                        let v = #[trigger] orig_invaders[j];
                        &&& -ENTITY_COORD_MAX <= v.pos.x <= ENTITY_COORD_MAX
                        &&& -ENTITY_COORD_MAX <= v.pos.y <= ENTITY_COORD_MAX
                    },
                kept_bullets@ == spec_bullets_surviving_fleet(
                    orig_bullets.take(i as int),
                    orig_invaders,
                ),
            decreases n - i,
        {
            let b = self.bullets[i];
            let mut struck: bool = false;
            let mut j: usize = 0;
            if matches!(b.kind, BulletKind::Player) {
                while j < m && !struck
                    invariant
                        m == self.invaders@.len(),
                        j <= m,
                        self.invaders@ == orig_invaders,
                        b.kind == BulletKind::Player,
                        -ENTITY_COORD_MAX <= b.pos.x <= ENTITY_COORD_MAX,
                        -ENTITY_COORD_MAX <= b.pos.y <= ENTITY_COORD_MAX,
                        forall|t: int|
                            0 <= t < m ==> {
                                let v = #[trigger] orig_invaders[t];
                                &&& -ENTITY_COORD_MAX <= v.pos.x <= ENTITY_COORD_MAX
                                &&& -ENTITY_COORD_MAX <= v.pos.y <= ENTITY_COORD_MAX
                            },
                        struck ==> spec_player_bullet_strikes(b, orig_invaders),
                        !struck ==> forall|t: int|
                            0 <= t < j ==> !within_radius(
                                b.pos,
                                (#[trigger] orig_invaders[t]).pos,
                                INVADER_SIZE,
                            ),
                    decreases m - j + if struck { 0int } else { 1int },
                {
                    if check_within_radius(b.pos, self.invaders[j].pos, INVADER_SIZE) {
                        struck = true;
                    } else {
                        j = j + 1;
                    }
                }
            }
            if !struck {
                kept_bullets.push(b);
            }
            proof {
                assert(orig_bullets.take(i + 1).drop_last() =~= orig_bullets.take(i as int));
                assert(struck == spec_player_bullet_strikes(b, orig_invaders));
                assert(kept_bullets@ =~= spec_bullets_surviving_fleet(
                    orig_bullets.take(i + 1),
                    orig_invaders,
                ));
            }
            i = i + 1;
        }

        let mut kept_invaders: Vec<Invader> = Vec::new();
        let mut k: usize = 0;
        while k < m
            invariant
                n == self.bullets@.len(),
                m == self.invaders@.len(),
                k <= m,
                self.bullets@ == orig_bullets,
                self.invaders@ == orig_invaders,
                *self == *old(self),
                forall|j: int|
                    0 <= j < n ==> {
                        let b = #[trigger] orig_bullets[j];
                        &&& -ENTITY_COORD_MAX <= b.pos.x <= ENTITY_COORD_MAX
                        &&& -ENTITY_COORD_MAX <= b.pos.y <= ENTITY_COORD_MAX
                    },
                forall|j: int|
                    0 <= j < m ==> {
                        let v = #[trigger] orig_invaders[j];
                        &&& -ENTITY_COORD_MAX <= v.pos.x <= ENTITY_COORD_MAX
                        &&& -ENTITY_COORD_MAX <= v.pos.y <= ENTITY_COORD_MAX
                    },
                kept_invaders@ == spec_invaders_surviving(
                    orig_invaders.take(k as int),
                    orig_bullets,
                ),
            decreases m - k,
        {
            let v = self.invaders[k];
            let mut struck: bool = false;
            let mut j: usize = 0;
            while j < n && !struck
                invariant
                    n == self.bullets@.len(),
                    j <= n,
                    self.bullets@ == orig_bullets,
                    -ENTITY_COORD_MAX <= v.pos.x <= ENTITY_COORD_MAX,
                    -ENTITY_COORD_MAX <= v.pos.y <= ENTITY_COORD_MAX,
                    forall|t: int|
                        0 <= t < n ==> {
                            let b = #[trigger] orig_bullets[t];
                            &&& -ENTITY_COORD_MAX <= b.pos.x <= ENTITY_COORD_MAX
                            &&& -ENTITY_COORD_MAX <= b.pos.y <= ENTITY_COORD_MAX
                        },
                    struck ==> spec_invader_struck(v, orig_bullets),
                    !struck ==> forall|t: int|
                        0 <= t < j ==> !((#[trigger] orig_bullets[t]).kind == BulletKind::Player
                            && within_radius(orig_bullets[t].pos, v.pos, INVADER_SIZE)),
                decreases n - j + if struck { 0int } else { 1int },
            {
                let b = self.bullets[j];
                if matches!(b.kind, BulletKind::Player) && check_within_radius(
                    b.pos,
                    v.pos,
                    INVADER_SIZE,
                ) {
                    struck = true;
                } else {
                    j = j + 1;
                }
            }
            if !struck {
                kept_invaders.push(v);
            }
            proof {
                assert(orig_invaders.take(k + 1).drop_last() =~= orig_invaders.take(k as int));
                assert(struck == spec_invader_struck(v, orig_bullets));
                assert(kept_invaders@ =~= spec_invaders_surviving(
                    orig_invaders.take(k + 1),
                    orig_bullets,
                ));
            }
            k = k + 1;
        }

        proof {
            assert(orig_bullets.take(n as int) =~= orig_bullets);
            assert(orig_invaders.take(m as int) =~= orig_invaders);
        }
        self.bullets = kept_bullets;
        self.invaders = kept_invaders;
    }

    /// Finds the first invader bullet within the player's hit radius: if
    /// one exists, removes that bullet alone and reports the hit; checking
    /// stops at the first strike, as a hit on the player ends the game.
    pub fn check_invader_bullet_player_collision(&mut self, events: &mut FrameEvents)
        requires
            old(self).cfg.wf(),
            forall|i: int|
                0 <= i < old(self).bullets@.len() ==> {
                    let b = #[trigger] old(self).bullets@[i];
                    &&& -ENTITY_COORD_MAX <= b.pos.x <= ENTITY_COORD_MAX
                    &&& -ENTITY_COORD_MAX <= b.pos.y <= ENTITY_COORD_MAX
                },
            -ENTITY_COORD_MAX <= old(self).player_x <= ENTITY_COORD_MAX,
        ensures
            *final(self) == (World { bullets: final(self).bullets, ..*old(self) }),
            *final(events) == (FrameEvents { player_hit: final(events).player_hit, ..*old(events) }),
            final(self).bullets@ == spec_player_collision_bullets(
                old(self).bullets@,
                spec_player_pos(old(self).cfg, old(self).player_x),
            ),
            final(events).player_hit == (old(events).player_hit || spec_player_hit(
                old(self).bullets@,
                spec_player_pos(old(self).cfg, old(self).player_x),
            )),
    {
        let player_pos = Pos {
            x: self.player_x,
            y: -self.cfg.top_wall + crate::config::GAP_BETWEEN_PLAYER_AND_FLOOR,
        };
        let n: usize = self.bullets.len();
        let mut i: usize = 0;
        while i < n
            invariant
                n == self.bullets@.len(),
                i <= n,
                *self == *old(self),
                *events == *old(events),
                player_pos == spec_player_pos(old(self).cfg, old(self).player_x),
                forall|j: int|
                    0 <= j < n ==> {
                        let b = #[trigger] self.bullets@[j];
                        &&& -ENTITY_COORD_MAX <= b.pos.x <= ENTITY_COORD_MAX
                        &&& -ENTITY_COORD_MAX <= b.pos.y <= ENTITY_COORD_MAX
                    },
                -ENTITY_COORD_MAX <= player_pos.x <= ENTITY_COORD_MAX,
                -ENTITY_COORD_MAX <= player_pos.y <= ENTITY_COORD_MAX,
                forall|t: int|
                    0 <= t < i ==> !spec_strikes_player(#[trigger] self.bullets@[t], player_pos),
            decreases n - i,
        {
            let b = self.bullets[i];
            if matches!(b.kind, BulletKind::Invader) {
                if check_within_radius(b.pos, player_pos, PLAYER_HEIGHT) {
                    proof {
                        lemma_first_striker_at(self.bullets@, player_pos, i as int);
                    }
                    self.bullets.remove(i);
                    events.player_hit = true;
                    return ;
                }
            }
            i = i + 1;
        }
        proof {
            lemma_first_striker_none(self.bullets@, player_pos);
        }
    }
}

/// The first invader bullet, in list order, within the player's hit
/// radius — if any.
pub open spec fn spec_first_striker(bs: Seq<Bullet>, ppos: Pos) -> Option<int>
    decreases bs.len(),
{
    if bs.len() == 0 {
        None
    } else if spec_strikes_player(bs[0], ppos) {
        Some(0)
    } else {
        match spec_first_striker(bs.subrange(1, bs.len() as int), ppos) {
            Some(k) => Some(k + 1),
            None => None,
        }
    }
}

/// Whether some invader bullet is within the player's hit radius.
pub open spec fn spec_player_hit(bs: Seq<Bullet>, ppos: Pos) -> bool {
    spec_first_striker(bs, ppos) is Some
}

/// The bullets after the player-hit sweep: the first striking invader
/// bullet, if any, is removed; the sweep stops there.
pub open spec fn spec_player_collision_bullets(bs: Seq<Bullet>, ppos: Pos) -> Seq<Bullet> {
    match spec_first_striker(bs, ppos) {
        Some(k) => bs.remove(k),
        None => bs,
    }
}

/// A striker index the search returns lies in the list.
pub proof fn lemma_first_striker_in_range(bs: Seq<Bullet>, ppos: Pos)
    ensures
        spec_first_striker(bs, ppos) matches Some(k) ==> 0 <= k < bs.len() && spec_strikes_player(
            bs[k],
            ppos,
        ),
    decreases bs.len(),
{
    if bs.len() == 0 {
    } else if spec_strikes_player(bs[0], ppos) {
    } else {
        lemma_first_striker_in_range(bs.subrange(1, bs.len() as int), ppos);
    }
}

/// If bullet `k` strikes the player and no earlier bullet does, the
/// search returns `k`.
proof fn lemma_first_striker_at(bs: Seq<Bullet>, ppos: Pos, k: int)
    requires
        0 <= k < bs.len(),
        spec_strikes_player(bs[k], ppos),
        forall|t: int| 0 <= t < k ==> !spec_strikes_player(#[trigger] bs[t], ppos),
    ensures
        spec_first_striker(bs, ppos) == Some(k),
    decreases bs.len(),
{
    if k == 0 {
    } else {
        let rest = bs.subrange(1, bs.len() as int);
        assert forall|t: int| 0 <= t < k - 1 implies !spec_strikes_player(
            #[trigger] rest[t],
            ppos,
        ) by {
            assert(rest[t] == bs[t + 1]);
        }
        lemma_first_striker_at(rest, ppos, k - 1);
    }
}

/// If no bullet strikes the player, the search returns nothing.
pub proof fn lemma_first_striker_none(bs: Seq<Bullet>, ppos: Pos)
    requires
        forall|t: int| 0 <= t < bs.len() ==> !spec_strikes_player(#[trigger] bs[t], ppos),
    ensures
        spec_first_striker(bs, ppos) is None,
    decreases bs.len(),
{
    if bs.len() == 0 {
    } else {
        let rest = bs.subrange(1, bs.len() as int);
        assert forall|t: int| 0 <= t < rest.len() implies !spec_strikes_player(
            #[trigger] rest[t],
            ppos,
        ) by {
            assert(rest[t] == bs[t + 1]);
        }
        lemma_first_striker_none(rest, ppos);
    }
}

} // verus!
