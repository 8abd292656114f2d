//! Simulation core of a small 2D platformer: a flock of bat agents that
//! alternate between boid flocking and chasing a stale player position, a
//! two-axis swept collision resolver, and the player controller that ties
//! them together.
//!
//! All world quantities (positions, velocities, extents) are fixed-point
//! integers counted in thousandths of a world unit, so every rule of the
//! simulation is exact integer arithmetic that the verifier can reason about.
use vstd::prelude::*;

pub mod collide;
pub mod game;
pub mod player;
pub mod enemy;
pub mod platform;
pub mod token;
pub mod queue;
pub mod rng;
pub mod vec2;

verus! {

/// Window width in thousandths of a unit.
pub const WINDOW_WIDTH: i64 = 640_000;
/// Window height in thousandths of a unit.
pub const WINDOW_HEIGHT: i64 = 480_000;
/// Number of slots in a position history buffer.
pub const POSITION_BUFFER_SIZE: usize = 100;

/// One tick's worth of discrete input intents, as the window layer read
/// them: held movement keys, edge-triggered jump, toggle and restart.
#[derive(Clone, Copy, PartialEq, Eq, Structural, Debug)]
pub struct InputIntent {
    pub left: bool,
    pub right: bool,
    pub jump: bool,
    pub down: bool,
    pub toggle: bool,
    pub restart: bool,
}

} // verus!
