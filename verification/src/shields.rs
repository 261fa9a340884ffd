//! Destructible shield barriers between the player and the fleet.
//!
//! A shield carries a damage level that starts at
//! [`SHIELD_START_LEVEL`](crate::config::SHIELD_START_LEVEL) and falls by
//! one per bullet hit; the sprite coarsens as the level falls, and a hit at
//! level zero removes the shield.

use vstd::prelude::*;

use crate::bullets::Bullet;
use crate::config::{ArenaConfig, SHIELD_COUNT, SHIELD_SIZE, SHIELD_START_LEVEL};
use crate::game::{World, ENTITY_COORD_MAX};
use crate::units::{check_within_radius, within_radius, Pos};

verus! {

/// A shield barrier: a position and the damage level still left.
#[derive(Clone, Copy, PartialEq, Eq, Structural, Debug)]
pub struct Shield {
    pub pos: Pos,
    /// Levels left before a hit removes the shield; never above
    /// [`SHIELD_START_LEVEL`].
    pub level: u8,
}

impl Shield {
    /// A shield keeps its level within the four-step damage gradient.
    pub open spec fn wf(self) -> bool {
        self.level <= SHIELD_START_LEVEL
    }

    /// The sprite drawn for the shield's level: the lower the level, the
    /// more battered the sprite.
    pub open spec fn spec_sprite_path(self) -> Seq<char> {
        if self.level == 3 {
            "shield-0.png"@
        } else if self.level == 2 {
            "shield-1.png"@
        } else if self.level == 1 {
            "shield-2.png"@
        } else if self.level == 0 {
            "shield-3.png"@
        } else {
            "shield-0.png"@
        }
    }

    /// The sprite drawn for the shield's level.
    pub fn get_sprite_path(&self) -> (r: String)
        ensures
            r@ == self.spec_sprite_path(),
    {
        match self.level {
            3 => "shield-0.png".to_string(),
            2 => "shield-1.png".to_string(),
            1 => "shield-2.png".to_string(),
            0 => "shield-3.png".to_string(),
            _ => "shield-0.png".to_string(),
        }
    }
}

/// Builds the shield row: [`SHIELD_COUNT`] fresh shields spread over the
/// grid's width, above the player.
pub fn spawn_shields(cfg: &ArenaConfig) -> (shields: Vec<Shield>)
    requires
        cfg.wf(),
    ensures
        shields@.len() == SHIELD_COUNT,
        forall|k: int|
            0 <= k < SHIELD_COUNT ==> shields@[k] == (Shield {
                pos: cfg.shield_spawn_pos(k),
                level: SHIELD_START_LEVEL,
            }),
{
    let grid_width: i64 = 2 * cfg.right_wall * 2 / 3;
    let horizontal_spacing: i64 = grid_width / SHIELD_COUNT as i64;
    let starting_x: i64 = -(grid_width / (SHIELD_COUNT as i64 - 1));
    let y: i64 = -cfg.top_wall + crate::config::SHIELD_RAISE;

    let mut shields: Vec<Shield> = Vec::new();
    let mut x: i64 = starting_x;
    let mut k: usize = 0;
    while k < SHIELD_COUNT
        invariant
            cfg.wf(),
            horizontal_spacing == cfg.shield_spacing(),
            starting_x == cfg.shield_start_x(),
            y == cfg.shield_y(),
            k <= SHIELD_COUNT,
            x == cfg.shield_start_x() + k * horizontal_spacing,
            shields@.len() == k,
            forall|j: int|
                0 <= j < k ==> shields@[j] == (Shield {
                    pos: cfg.shield_spawn_pos(j),
                    level: SHIELD_START_LEVEL,
                }),
        decreases SHIELD_COUNT - k,
    {
        shields.push(Shield { pos: Pos { x, y }, level: SHIELD_START_LEVEL });
        proof {
            assert(0 <= k * horizontal_spacing <= 4 * horizontal_spacing) by (nonlinear_arith)
                requires
                    0 <= horizontal_spacing,
                    0 <= k <= 4,
            ;
            assert((k + 1) * horizontal_spacing == k * horizontal_spacing + horizontal_spacing)
                by (nonlinear_arith);
        }
        x = x + horizontal_spacing;
        k = k + 1;
    }
    shields
}

/// Whether a bullet is within a shield's hit radius.
pub open spec fn spec_bullet_hits_shield(b: Bullet, s: Shield) -> bool {
    within_radius(b.pos, s.pos, SHIELD_SIZE)
}

/// The first shield, in row order, a bullet hits — if any.
pub open spec fn spec_first_shield_hit(b: Bullet, ss: Seq<Shield>) -> Option<int>
    decreases ss.len(),
{
    if ss.len() == 0 {
        None
    } else if spec_bullet_hits_shield(b, ss[0]) {
        Some(0)
    } else {
        match spec_first_shield_hit(b, ss.subrange(1, ss.len() as int)) {
            Some(j) => Some(j + 1),
            None => None,
        }
    }
}

/// The shield row after a confirmed hit on shield `j`: its level falls by
/// one, and a hit at level zero removes it — so a level is never negative.
pub open spec fn spec_damaged_shields(ss: Seq<Shield>, j: int) -> Seq<Shield> {
    if ss[j].level == 0 {
        ss.remove(j)
    } else {
        ss.update(j, Shield { level: (ss[j].level - 1) as u8, ..ss[j] })
    }
}

/// The bullet-versus-shield sweep: bullets are taken in order; each bullet
/// confirms a hit on the first shield it overlaps — damaging that shield —
/// and is then spent; bullets that overlap no shield survive in order.
pub open spec fn spec_shield_sweep(bs: Seq<Bullet>, ss: Seq<Shield>) -> (Seq<Bullet>, Seq<Shield>)
    decreases bs.len(),
{
    if bs.len() == 0 {
        (Seq::empty(), ss)
    } else {
        let rest = bs.subrange(1, bs.len() as int);
        match spec_first_shield_hit(bs[0], ss) {
            Some(j) => spec_shield_sweep(rest, spec_damaged_shields(ss, j)),
            None => {
                let r = spec_shield_sweep(rest, ss);
                (seq![bs[0]] + r.0, r.1)
            },
        }
    }
}

/// A confirmed hit lowers exactly the struck shield's level by one, keeps
/// every other shield, and removes the struck shield exactly when its
/// level had already reached zero.
pub proof fn lemma_shield_hit_outcome(ss: Seq<Shield>, j: int)
    requires
        0 <= j < ss.len(),
    ensures
        ss[j].level > 0 ==> {
            &&& spec_damaged_shields(ss, j).len() == ss.len()
            &&& spec_damaged_shields(ss, j)[j].level == ss[j].level - 1
            &&& spec_damaged_shields(ss, j)[j].pos == ss[j].pos
            &&& forall|t: int|
                0 <= t < ss.len() && t != j ==> spec_damaged_shields(ss, j)[t] == ss[t]
        },
        ss[j].level == 0 ==> spec_damaged_shields(ss, j) == ss.remove(j),
{
}

/// Every shield the sweep leaves standing descends from a shield of the
/// row it started from: same position, no higher level. So levels stay
/// within the damage gradient and shields never move.
pub proof fn lemma_shield_sweep_shields_from(bs: Seq<Bullet>, ss: Seq<Shield>)
    ensures
        spec_shield_sweep(bs, ss).1.len() <= ss.len(),
        forall|t: int|
            0 <= t < spec_shield_sweep(bs, ss).1.len() ==> exists|u: int|
                0 <= u < ss.len() && (#[trigger] spec_shield_sweep(bs, ss).1[t]).pos == ss[u].pos
                    && spec_shield_sweep(bs, ss).1[t].level <= ss[u].level,
    decreases bs.len(),
{
    if bs.len() == 0 {
    } else {
        let rest = bs.subrange(1, bs.len() as int);
        match spec_first_shield_hit(bs[0], ss) {
            Some(j) => {
                lemma_first_shield_hit_in_range(bs[0], ss);
                let damaged = spec_damaged_shields(ss, j);
                lemma_shield_sweep_shields_from(rest, damaged);
                assert forall|t: int| 0 <= t < damaged.len() implies exists|u: int|
                    0 <= u < ss.len() && (#[trigger] damaged[t]).pos == ss[u].pos
                        && damaged[t].level <= ss[u].level by {
                    if ss[j].level == 0 {
                        if t < j {
                            assert(damaged[t] == ss[t]);
                        } else {
                            assert(damaged[t] == ss[t + 1]);
                        }
                    } else {
                        if t != j {
                            assert(damaged[t] == ss[t]);
                        } else {
                            assert(damaged[t].pos == ss[j].pos && damaged[t].level <= ss[j].level);
                        }
                    }
                }
            },
            None => {
                lemma_shield_sweep_shields_from(rest, ss);
            },
        }
    }
}

/// Every bullet the sweep leaves in flight is one of the bullets it
/// started from.
pub proof fn lemma_shield_sweep_bullets_from(bs: Seq<Bullet>, ss: Seq<Shield>)
    ensures
        forall|t: int|
            0 <= t < spec_shield_sweep(bs, ss).0.len() ==> bs.contains(
                #[trigger] spec_shield_sweep(bs, ss).0[t],
            ),
    decreases bs.len(),
{
    if bs.len() == 0 {
    } else {
        let rest = bs.subrange(1, bs.len() as int);
        match spec_first_shield_hit(bs[0], ss) {
            Some(j) => {
                let r = spec_shield_sweep(rest, spec_damaged_shields(ss, j));
                lemma_shield_sweep_bullets_from(rest, spec_damaged_shields(ss, j));
                assert forall|t: int| 0 <= t < spec_shield_sweep(bs, ss).0.len() implies
                    bs.contains(#[trigger] spec_shield_sweep(bs, ss).0[t]) by {
                    let b = spec_shield_sweep(bs, ss).0[t];
                    assert(r.0[t] == b);
                    assert(rest.contains(b));
                    let u = choose|u: int| 0 <= u < rest.len() && rest[u] == b;
                    assert(bs[u + 1] == b);
                }
            },
            None => {
                let r = spec_shield_sweep(rest, ss);
                lemma_shield_sweep_bullets_from(rest, ss);
                assert forall|t: int| 0 <= t < spec_shield_sweep(bs, ss).0.len() implies
                    bs.contains(#[trigger] spec_shield_sweep(bs, ss).0[t]) by {
                    let b = spec_shield_sweep(bs, ss).0[t];
                    if t == 0 {
                        assert(bs[0] == b);
                    } else {
                        assert(r.0[t - 1] == b);
                        assert(rest.contains(b));
                        let u = choose|u: int| 0 <= u < rest.len() && rest[u] == b;
                        assert(bs[u + 1] == b);
                    }
                }
            },
        }
    }
}

/// A hit index the search returns lies in the row.
proof fn lemma_first_shield_hit_in_range(b: Bullet, ss: Seq<Shield>)
    ensures
        spec_first_shield_hit(b, ss) matches Some(j) ==> 0 <= j < ss.len()
            && spec_bullet_hits_shield(b, ss[j]),
    decreases ss.len(),
{
    if ss.len() == 0 {
    } else if spec_bullet_hits_shield(b, ss[0]) {
    } else {
        lemma_first_shield_hit_in_range(b, ss.subrange(1, ss.len() as int));
    }
}

/// If shield `j` is hit and no earlier shield is, the search returns `j`.
proof fn lemma_first_shield_hit_at(b: Bullet, ss: Seq<Shield>, j: int)
    requires
        0 <= j < ss.len(),
        spec_bullet_hits_shield(b, ss[j]),
        forall|t: int| 0 <= t < j ==> !spec_bullet_hits_shield(b, #[trigger] ss[t]),
    ensures
        spec_first_shield_hit(b, ss) == Some(j),
    decreases ss.len(),
{
    if j == 0 {
    } else {
        let rest = ss.subrange(1, ss.len() as int);
        assert forall|t: int| 0 <= t < j - 1 implies !spec_bullet_hits_shield(
            b,
            #[trigger] rest[t],
        ) by {
            assert(rest[t] == ss[t + 1]);
        }
        lemma_first_shield_hit_at(b, rest, j - 1);
    }
}

/// If no shield of the row is hit, the search returns nothing.
proof fn lemma_first_shield_hit_none(b: Bullet, ss: Seq<Shield>)
    requires
        forall|t: int| 0 <= t < ss.len() ==> !spec_bullet_hits_shield(b, #[trigger] ss[t]),
    ensures
        spec_first_shield_hit(b, ss) is None,
    decreases ss.len(),
{
    if ss.len() == 0 {
    } else {
        let rest = ss.subrange(1, ss.len() as int);
        assert forall|t: int| 0 <= t < rest.len() implies !spec_bullet_hits_shield(
            b,
            #[trigger] rest[t],
        ) by {
            assert(rest[t] == ss[t + 1]);
        }
        lemma_first_shield_hit_none(b, rest);
    }
}

impl World {
    /// Resolves every bullet against the shield row, in bullet order: a
    /// bullet is spent on the first shield within its hit radius, whose
    /// level falls by one — a hit at level zero removing the shield — and
    /// bullets that touch no shield fly on.
    pub fn check_bullet_shield_collision(&mut self)
        requires
            forall|i: int|
                0 <= i < old(self).bullets@.len() ==> {
                    let b = #[trigger] old(self).bullets@[i];
                    &&& -ENTITY_COORD_MAX <= b.pos.x <= ENTITY_COORD_MAX
                    &&& -ENTITY_COORD_MAX <= b.pos.y <= ENTITY_COORD_MAX
                },
            forall|i: int|
                0 <= i < old(self).shields@.len() ==> {
                    let s = #[trigger] old(self).shields@[i];
                    &&& -ENTITY_COORD_MAX <= s.pos.x <= ENTITY_COORD_MAX
                    &&& -ENTITY_COORD_MAX <= s.pos.y <= ENTITY_COORD_MAX
                },
        ensures
            *final(self) == (World {
                bullets: final(self).bullets,
                shields: final(self).shields,
                ..*old(self)
            }),
            final(self).bullets@ == spec_shield_sweep(old(self).bullets@, old(self).shields@).0,
            final(self).shields@ == spec_shield_sweep(old(self).bullets@, old(self).shields@).1,
    {
        let ghost orig_bullets = self.bullets@;
        let ghost orig_shields = self.shields@;
        let ghost target = spec_shield_sweep(orig_bullets, orig_shields);
        let n: usize = self.bullets.len();
        let mut kept: Vec<Bullet> = Vec::new();
        let mut i: usize = 0;
        proof {
            assert(orig_bullets.subrange(0, n as int) =~= orig_bullets);
        }
        while i < n
            invariant
                n == self.bullets@.len(),
                i <= n,
                self.bullets@ == orig_bullets,
                target == spec_shield_sweep(orig_bullets, orig_shields),
                *self == (World { shields: self.shields, ..*old(self) }),
                forall|j: int|
                    0 <= j < n ==> {
                        let b = #[trigger] orig_bullets[j];
                        &&& -ENTITY_COORD_MAX <= b.pos.x <= ENTITY_COORD_MAX
                        &&& -ENTITY_COORD_MAX <= b.pos.y <= ENTITY_COORD_MAX
                    },
                forall|j: int|
                    0 <= j < self.shields@.len() ==> {
                        let s = #[trigger] self.shields@[j];
                        &&& -ENTITY_COORD_MAX <= s.pos.x <= ENTITY_COORD_MAX
                        &&& -ENTITY_COORD_MAX <= s.pos.y <= ENTITY_COORD_MAX
                    },
                target.0 == kept@ + spec_shield_sweep(
                    orig_bullets.subrange(i as int, n as int),
                    self.shields@,
                ).0,
                target.1 == spec_shield_sweep(
                    orig_bullets.subrange(i as int, n as int),
                    self.shields@,
                ).1,
            decreases n - i,
        {
            let ghost before = orig_bullets.subrange(i as int, n as int);
            proof {
                assert(before[0] == orig_bullets[i as int]);
                assert(before.subrange(1, before.len() as int) =~= orig_bullets.subrange(
                    i + 1,
                    n as int,
                ));
            }
            let b = self.bullets[i];
            let m: usize = self.shields.len();
            let mut hit: bool = false;
            let mut j: usize = 0;
            while j < m && !hit
                invariant
                    m == self.shields@.len(),
                    j <= m,
                    -ENTITY_COORD_MAX <= b.pos.x <= ENTITY_COORD_MAX,
                    -ENTITY_COORD_MAX <= b.pos.y <= ENTITY_COORD_MAX,
                    forall|t: int|
                        0 <= t < m ==> {
                            let s = #[trigger] self.shields@[t];
                            &&& -ENTITY_COORD_MAX <= s.pos.x <= ENTITY_COORD_MAX
                            &&& -ENTITY_COORD_MAX <= s.pos.y <= ENTITY_COORD_MAX
                        },
                    *self == (World { shields: self.shields, ..*old(self) }),
                    self.bullets@ == orig_bullets,
                    hit ==> j < m && spec_bullet_hits_shield(b, self.shields@[j as int]),
                    forall|t: int|
                        0 <= t < j ==> !spec_bullet_hits_shield(b, #[trigger] self.shields@[t]),
                decreases m - j + if hit { 0int } else { 1int },
            {
                if check_within_radius(b.pos, self.shields[j].pos, SHIELD_SIZE) {
                    hit = true;
                } else {
                    j = j + 1;
                }
            }
            if hit {
                proof {
                    lemma_first_shield_hit_at(b, self.shields@, j as int);
                }
                let s = self.shields[j];
                let ghost shields_before = self.shields@;
                if s.level == 0 {
                    self.shields.remove(j);
                } else {
                    self.shields[j] = Shield { level: s.level - 1, ..s };
                }
                proof {
                    assert(self.shields@ =~= spec_damaged_shields(shields_before, j as int));
                    assert(spec_shield_sweep(before, shields_before) == spec_shield_sweep(
                        before.subrange(1, before.len() as int),
                        self.shields@,
                    ));
                }
            } else {
                proof {
                    lemma_first_shield_hit_none(b, self.shields@);
                }
                kept.push(b);
                proof {
                    let r = spec_shield_sweep(before.subrange(1, before.len() as int),
                        self.shields@);
                    assert(spec_shield_sweep(before, self.shields@).0 == seq![b] + r.0);
                    assert(kept@ + r.0 =~= kept@.drop_last() + (seq![b] + r.0));
                }
            }
            i = i + 1;
        }
        proof {
            assert(orig_bullets.subrange(n as int, n as int) =~= Seq::<Bullet>::empty());
            assert(target.0 =~= kept@);
        }
        self.bullets = kept;
    }
}

} // verus!
