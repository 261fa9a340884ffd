//! The four static boundary walls of the arena.
//!
//! Each wall is a collider box given by its center and full size. The side
//! walls span the arena's height and the top and bottom walls its width,
//! each extended by the wall thickness so the corners close.

use vstd::prelude::*;

use crate::config::{ArenaConfig, WALL_THICKNESS};
use crate::units::Pos;

verus! {

/// Which side of the arena a wall stands on.
#[derive(Clone, Copy, PartialEq, Eq, Structural, Debug)]
pub enum WallLocation {
    Left,
    Right,
    Bottom,
    Top,
}

/// A boundary collider: a box given by center and full size.
#[derive(Clone, Copy, PartialEq, Eq, Structural, Debug)]
pub struct Wall {
    pub pos: Pos,
    pub size: Pos,
}

impl WallLocation {
    /// The wall's center for this arena.
    pub open spec fn spec_position(self, cfg: ArenaConfig) -> Pos {
        match self {
            WallLocation::Left => Pos { x: (-cfg.right_wall) as i64, y: 0 },
            WallLocation::Right => Pos { x: cfg.right_wall, y: 0 },
            WallLocation::Bottom => Pos { x: 0, y: (-cfg.top_wall) as i64 },
            WallLocation::Top => Pos { x: 0, y: cfg.top_wall },
        }
    }

    /// The wall's full size for this arena.
    pub open spec fn spec_size(self, cfg: ArenaConfig) -> Pos {
        match self {
            WallLocation::Left | WallLocation::Right => Pos {
                x: WALL_THICKNESS,
                y: (2 * cfg.top_wall + WALL_THICKNESS) as i64,
            },
            WallLocation::Bottom | WallLocation::Top => Pos {
                x: (2 * cfg.right_wall + WALL_THICKNESS) as i64,
                y: WALL_THICKNESS,
            },
        }
    }

    /// The wall's center for this arena.
    pub fn position(&self, cfg: &ArenaConfig) -> (p: Pos)
        requires
            cfg.wf(),
        ensures
            p == self.spec_position(*cfg),
    {
        match self {
            WallLocation::Left => Pos { x: -cfg.right_wall, y: 0 },
            WallLocation::Right => Pos { x: cfg.right_wall, y: 0 },
            WallLocation::Bottom => Pos { x: 0, y: -cfg.top_wall },
            WallLocation::Top => Pos { x: 0, y: cfg.top_wall },
        }
    }

    /// The wall's full size for this arena.
    pub fn size(&self, cfg: &ArenaConfig) -> (s: Pos)
        requires
            cfg.wf(),
        ensures
            s == self.spec_size(*cfg),
    {
        match self {
            WallLocation::Left | WallLocation::Right => Pos {
                x: WALL_THICKNESS,
                y: 2 * cfg.top_wall + WALL_THICKNESS,
            },
            WallLocation::Bottom | WallLocation::Top => Pos {
                x: 2 * cfg.right_wall + WALL_THICKNESS,
                y: WALL_THICKNESS,
            },
        }
    }
}

impl Wall {
    /// The wall standing at `location` of this arena.
    pub open spec fn spec_new(location: WallLocation, cfg: ArenaConfig) -> Wall {
        Wall { pos: location.spec_position(cfg), size: location.spec_size(cfg) }
    }

    /// Builds the wall standing at `location` of this arena.
    pub fn new(location: WallLocation, cfg: &ArenaConfig) -> (w: Wall)
        requires
            cfg.wf(),
        ensures
            w == Wall::spec_new(location, *cfg),
    {
        Wall { pos: location.position(cfg), size: location.size(cfg) }
    }

    /// Half of the wall's width.
    pub open spec fn half_x(self) -> int {
        self.size.x / 2
    }

    /// Half of the wall's height.
    pub open spec fn half_y(self) -> int {
        self.size.y / 2
    }
}

/// The four walls, in left, right, bottom, top order.
pub open spec fn spec_walls(cfg: ArenaConfig) -> Seq<Wall> {
    seq![
        Wall::spec_new(WallLocation::Left, cfg),
        Wall::spec_new(WallLocation::Right, cfg),
        Wall::spec_new(WallLocation::Bottom, cfg),
        Wall::spec_new(WallLocation::Top, cfg),
    ]
}

/// Builds the four boundary walls of this arena.
pub fn spawn_walls(cfg: &ArenaConfig) -> (walls: Vec<Wall>)
    requires
        cfg.wf(),
    ensures
        walls@ == spec_walls(*cfg),
{
    let mut walls: Vec<Wall> = Vec::new();
    walls.push(Wall::new(WallLocation::Left, cfg));
    walls.push(Wall::new(WallLocation::Right, cfg));
    walls.push(Wall::new(WallLocation::Bottom, cfg));
    walls.push(Wall::new(WallLocation::Top, cfg));
    proof {
        assert(walls@ =~= spec_walls(*cfg));
    }
    walls
}

} // verus!
