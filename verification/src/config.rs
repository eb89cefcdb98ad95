//! Static world configuration: window title, world bounds and the depth
//! layer identifiers that spawned entities are assigned to.

use vstd::prelude::*;

verus! {

/// Depth layer identifiers used as the z coordinate of spawned entities.
#[derive(Clone, Copy, Debug, PartialEq, Eq, Structural)]
pub struct LayerIds {
    pub enemy: u8,
    pub player: u8,
}

/// World configuration, immutable for the whole simulation session.
/// `width` and `height` are the full world extents in micro-units; the
/// world rectangle is `[-width/2, width/2] x [-height/2, height/2]`.
#[derive(Clone, Debug)]
pub struct Config {
    pub title: String,
    pub width: i64,
    pub height: i64,
    pub layer_ids: LayerIds,
}

impl Config {
    /// Sanity of the world bounds: positive and small enough that wrap and
    /// integration arithmetic stays far from the integer limits.
    pub open spec fn wf(self) -> bool {
        2 <= self.width <= 4_000_000_000_000 && 2 <= self.height <= 4_000_000_000_000
    }

    /// The half extents of the world rectangle (rounded toward zero).
    pub open spec fn spec_half_bounds(self) -> (int, int) {
        (self.width as int / 2, self.height as int / 2)
    }

    /// Returns the half extents of the world rectangle.
    pub fn half_bounds(&self) -> (r: (i64, i64))
        requires
            self.wf(),
        ensures
            (r.0 as int, r.1 as int) == self.spec_half_bounds(),
            1 <= r.0 <= 2_000_000_000_000,
            1 <= r.1 <= 2_000_000_000_000,
    {
        let hw: i64 = ((self.width as u64) / 2) as i64;
        let hh: i64 = ((self.height as u64) / 2) as i64;
        (hw, hh)
    }
}

impl Default for Config {
    /// The documented defaults: an 800 x 600 world (in micro-units), with
    /// the enemy layer id assigned to both depth layers.
    fn default() -> (r: Self)
        ensures
            r.title@ == "ECS Asteroid"@,
            r.width == 800_000_000 && r.height == 600_000_000,
            r.layer_ids.enemy == 253 && r.layer_ids.player == 253,
            r.wf(),
    {
        broadcast use vstd::string::to_string_from_display_ensures_for_str;

        Config {
            title: "ECS Asteroid".to_string(),
            width: 800_000_000,
            height: 600_000_000,
            layer_ids: LayerIds { enemy: 253, player: 253 },
        }
    }
}

/// A configuration fault that must stop the simulation before it starts.
#[derive(Clone, Copy, Debug, PartialEq, Eq, Structural)]
pub enum ConfigError {
    /// The asteroid radius range `[radius_min, radius_max)` is empty.
    EmptyRadiusRange,
    /// There is no depth layer to assign spawned asteroids to.
    ZeroLayerCount,
}

} // verus!
