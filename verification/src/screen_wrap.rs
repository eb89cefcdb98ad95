//! Toroidal boundary wrap: an entity that leaves the world rectangle on one
//! side re-enters from the opposite side, keeping the same visual clearance.
//!
//! Two policies exist: wrapping at the exact world bound, and wrapping only
//! once the entity's own extent has fully left the screen.  Both share the
//! same coordinate arithmetic; the exact policy is the zero-extent case.

use vstd::prelude::*;
use crate::world::Entity;
use crate::world::Pose;
use crate::world::World;

verus! {

/// Per-entity wrap capability: the effective radius by which the entity may
/// extend past the world bound before it is re-projected.
#[derive(Clone, Copy, Debug, PartialEq, Eq, Structural)]
pub struct ScreenWrap {
    /// Extra margin (micro-units) so large entities do not vanish abruptly
    /// at the border.
    pub border_radius: i64,
}

impl Default for ScreenWrap {
    fn default() -> (r: Self)
        ensures
            r.border_radius == 0,
    {
        ScreenWrap { border_radius: 0 }
    }
}

/// Which boundary policy a wrap pass applies.
#[derive(Clone, Copy, Debug, PartialEq, Eq, Structural)]
pub enum WrapPolicy {
    /// Re-project as soon as the position itself passes the world bound.
    Exact,
    /// Re-project only once the position is more than the given extent
    /// radius past the world bound.
    Extent(i64),
}

impl WrapPolicy {
    /// The margin this policy allows beyond the world bound.
    pub open spec fn spec_extent(self) -> int {
        match self {
            WrapPolicy::Exact => 0,
            WrapPolicy::Extent(r) => r as int,
        }
    }

    /// Returns the margin this policy allows beyond the world bound.
    pub fn extent(self) -> (r: i64)
        ensures
            r == self.spec_extent(),
    {
        match self {
            WrapPolicy::Exact => 0,
            WrapPolicy::Extent(r) => r,
        }
    }
}

/// One axis of the wrap: `half_bound` is the half-extent of the world on
/// that axis and `extent` the entity's clearance margin.
pub open spec fn spec_wrap(coord: int, half_bound: int, extent: int) -> int {
    let bound = half_bound + extent;
    if coord > bound {
        -bound + extent
    } else if coord < -bound {
        bound - extent
    } else {
        coord
    }
}

/// A coordinate lies in the band the wrap never leaves alone.
pub open spec fn in_wrap_range(coord: int, half_bound: int, extent: int) -> bool {
    -(half_bound + extent) <= coord <= half_bound + extent
}

/// Wraps one coordinate at `half_bound` with clearance `extent`: past the
/// effective bound on either side, the coordinate re-enters from the
/// opposite edge with the same clearance; otherwise it is unchanged.
pub fn wrap_coordinate(coord: i64, half_bound: i64, extent: i64) -> (r: i64)
    requires
        0 <= half_bound,
        0 <= extent,
        half_bound + extent <= i64::MAX,
    ensures
        r == spec_wrap(coord as int, half_bound as int, extent as int),
{
    let bound: i64 = half_bound + extent;
    if coord > bound {
        -bound + extent
    } else if coord < -bound {
        bound - extent
    } else {
        coord
    }
}

/// A wrapped coordinate always lies within the effective band, whether the
/// input was inside already or beyond either edge.
pub proof fn lemma_wrap_settles(coord: int, half_bound: int, extent: int)
    requires
        0 <= half_bound,
        0 <= extent,
    ensures
        in_wrap_range(spec_wrap(coord, half_bound, extent), half_bound, extent),
{
}

/// Wraps one coordinate under the chosen boundary policy: the exact-bound
/// policy is the zero-extent case of the extent-aware one.
pub fn wrap_with_policy(coord: i64, half_bound: i64, policy: WrapPolicy) -> (r: i64)
    requires
        0 <= half_bound,
        0 <= policy.spec_extent(),
        half_bound + policy.spec_extent() <= i64::MAX,
    ensures
        r == spec_wrap(coord as int, half_bound as int, policy.spec_extent()),
{
    wrap_coordinate(coord, half_bound, policy.extent())
}

/// The entity with both position coordinates wrapped by its own extent
/// margin; an entity without the wrap capability is left alone.
pub open spec fn wrapped_entity(e: Entity, hw: int, hh: int) -> Entity {
    match e.wrap {
        Some(sw) => Entity {
            pose: Pose {
                x: spec_wrap(e.pose.x as int, hw, sw.border_radius as int) as i64,
                y: spec_wrap(e.pose.y as int, hh, sw.border_radius as int) as i64,
                ..e.pose
            },
            ..e
        },
        None => e,
    }
}

/// Re-projects every entity carrying a [`ScreenWrap`] capability whose
/// position has left the world rectangle by more than its extent margin;
/// entities without the capability are untouched.
pub fn wrap_positions(world: &mut World)
    requires
        old(world).config.wf(),
        forall|i: int|
            0 <= i < old(world).entities@.len() ==> match #[trigger] old(
                world,
            ).entities@[i].wrap {
                Some(sw) => 0 <= sw.border_radius <= 2_000_000_000_000,
                None => true,
            },
    ensures
        final(world).entities@.len() == old(world).entities@.len(),
        forall|i: int|
            0 <= i < old(world).entities@.len() ==> final(world).entities@[i]
                == wrapped_entity(
                #[trigger] old(world).entities@[i],
                old(world).config.spec_half_bounds().0,
                old(world).config.spec_half_bounds().1,
            ),
        final(world).config == old(world).config,
{
    let (hw, hh) = world.config.half_bounds();
    let n = world.entities.len();
    let mut i: usize = 0;
    while i < n
        invariant
            i <= n,
            n == old(world).entities@.len(),
            world.entities@.len() == n,
            world.config == old(world).config,
            hw as int == old(world).config.spec_half_bounds().0,
            hh as int == old(world).config.spec_half_bounds().1,
            0 <= hw <= 2_000_000_000_000,
            0 <= hh <= 2_000_000_000_000,
            forall|j: int| i <= j < n ==> world.entities@[j] == old(world).entities@[j],
            forall|j: int|
                0 <= j < i ==> world.entities@[j] == wrapped_entity(
                    #[trigger] old(world).entities@[j],
                    hw as int,
                    hh as int,
                ),
            forall|j: int|
                0 <= j < n ==> match #[trigger] old(world).entities@[j].wrap {
                    Some(sw) => 0 <= sw.border_radius <= 2_000_000_000_000,
                    None => true,
                },
        decreases n - i,
    {
        let e = world.entities[i];
        match e.wrap {
            Some(sw) => {
                let wx = wrap_coordinate(e.pose.x, hw, sw.border_radius);
                let wy = wrap_coordinate(e.pose.y, hh, sw.border_radius);
                world.entities[i] = Entity {
                    pose: Pose {
                        x: wx,
                        y: wy,
                        layer: e.pose.layer,
                        rotation: e.pose.rotation,
                    },
                    ..e
                };
            },
            None => {},
        }
        i = i + 1;
    }
}

/// Inside the effective band the wrap changes nothing, so applying the wrap
/// a second time always gives the same result as applying it once.
pub proof fn lemma_wrap_idempotent(coord: int, half_bound: int, extent: int)
    requires
        0 <= half_bound,
        0 <= extent,
    ensures
        in_wrap_range(coord, half_bound, extent) ==> spec_wrap(coord, half_bound, extent)
            == coord,
        spec_wrap(spec_wrap(coord, half_bound, extent), half_bound, extent) == spec_wrap(
            coord,
            half_bound,
            extent,
        ),
{
}

} // verus!

