//! The entity record and the world that the simulation advances.
//!
//! Each entity carries a transform and a motion state; the player entity
//! additionally carries a control intent, and entities that participate in
//! the extent-aware wrap carry a [`ScreenWrap`] capability.

use vstd::prelude::*;
use crate::config::Config;
use crate::screen_wrap::ScreenWrap;

verus! {

/// Planar pose: position in micro-units, a depth layer id, and a rotation
/// angle in micro-radians.
#[derive(Clone, Copy, Debug, PartialEq, Eq, Structural)]
pub struct Pose {
    pub x: i64,
    pub y: i64,
    pub layer: u8,
    pub rotation: i64,
}

/// Linear velocity (micro-units per millisecond) and angular velocity
/// (micro-radians per millisecond).
#[derive(Clone, Copy, Debug, PartialEq, Eq, Structural)]
pub struct Motion {
    pub vx: i64,
    pub vy: i64,
    pub angular: i64,
}

impl Motion {
    /// The zero motion state: at rest.
    pub fn zero() -> (r: Motion)
        ensures
            r.vx == 0 && r.vy == 0 && r.angular == 0,
    {
        Motion { vx: 0, vy: 0, angular: 0 }
    }
}

/// Net turn direction mapped from the raw turn keys.
#[derive(Clone, Copy, Debug, PartialEq, Eq, Structural)]
pub enum TurnDir {
    /// Counter-clockwise (turn-left active alone).
    Left,
    /// No net turn.
    Straight,
    /// Clockwise (turn-right active alone).
    Right,
}

impl TurnDir {
    /// The signed turn factor: +1 counter-clockwise, -1 clockwise, 0 none.
    pub open spec fn spec_sign(self) -> int {
        match self {
            TurnDir::Left => 1,
            TurnDir::Straight => 0,
            TurnDir::Right => -1,
        }
    }

    /// Returns the signed turn factor.
    pub fn sign(self) -> (r: i64)
        ensures
            r == self.spec_sign(),
    {
        match self {
            TurnDir::Left => 1,
            TurnDir::Straight => 0,
            TurnDir::Right => -1,
        }
    }
}

/// Per-frame normalized input summary for the player, never persisted
/// across frames.
#[derive(Clone, Copy, Debug, PartialEq, Eq, Structural)]
pub struct ControlIntent {
    pub turn: TurnDir,
    pub thrust: bool,
}

impl Default for ControlIntent {
    fn default() -> (r: Self)
        ensures
            r.turn == TurnDir::Straight && !r.thrust,
    {
        ControlIntent { turn: TurnDir::Straight, thrust: false }
    }
}

/// A mobile entity: pose and motion always, control intent only on the
/// player, wrap capability only on entities with an extent-aware wrap.
#[derive(Clone, Copy, Debug, PartialEq, Eq, Structural)]
pub struct Entity {
    pub pose: Pose,
    pub motion: Motion,
    pub control: Option<ControlIntent>,
    pub wrap: Option<ScreenWrap>,
}

/// The world: immutable configuration plus the mutable entity set.
pub struct World {
    pub config: Config,
    pub entities: Vec<Entity>,
}

impl World {
    /// Creates an empty world over the given configuration.
    pub fn new(config: Config) -> (r: World)
        ensures
            r.config == config,
            r.entities@.len() == 0,
    {
        World { config, entities: Vec::new() }
    }
}

} // verus!
