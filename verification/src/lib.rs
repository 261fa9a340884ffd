//! A fixed-shooter arcade game model: a player ship fires at a descending
//! grid of invaders behind destructible shields, inside a walled arena.
//!
//! The crate holds the game's rules only: entity records in plain vectors,
//! per-frame systems that move entities and resolve collisions, and a
//! win/lose state machine. A thin driver owns the frame loop and the clock;
//! it feeds each frame's input and elapsed milliseconds to [`game::World::step`].
//!
//! All lengths are in milli-units (one thousandth of a world unit), all
//! durations in milliseconds, so that a velocity in units per second advanced
//! by a frame time in milliseconds lands exactly on a milli-unit grid.

pub mod bullets;
pub mod config;
pub mod events;
pub mod game;
pub mod gamestate;
pub mod player;
pub mod rng;
pub mod invaders;
pub mod shields;
pub mod timer;
pub mod units;
pub mod walls;

pub use units::{Pos, Vel};
