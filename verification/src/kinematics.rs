//! The kinematic integrator: advances a pose by its motion state times the
//! elapsed time.  Pure and deterministic; the caller guarantees a
//! non-negative time step.

use vstd::prelude::*;
use crate::world::Motion;
use crate::world::Pose;

verus! {

/// One coordinate advanced by velocity `v` for elapsed time `dt`.
pub open spec fn advance(pos: int, v: int, dt: int) -> int {
    pos + v * dt
}

/// The pose `p` advanced by motion `m` for elapsed time `dt`:
/// position moves by velocity times `dt`, rotation by angular velocity
/// times `dt`, and the depth layer is untouched.
pub open spec fn integrated(p: Pose, m: Motion, dt: int) -> Pose {
    Pose {
        x: advance(p.x as int, m.vx as int, dt) as i64,
        y: advance(p.y as int, m.vy as int, dt) as i64,
        layer: p.layer,
        rotation: advance(p.rotation as int, m.angular as int, dt) as i64,
    }
}

/// All three advanced coordinates of `integrated(p, m, dt)` stay inside
/// the machine integer range, so the casts in its definition are exact.
pub open spec fn integration_fits(p: Pose, m: Motion, dt: int) -> bool {
    &&& i64::MIN <= m.vx * dt <= i64::MAX
    &&& i64::MIN <= m.vy * dt <= i64::MAX
    &&& i64::MIN <= m.angular * dt <= i64::MAX
    &&& i64::MIN <= advance(p.x as int, m.vx as int, dt) <= i64::MAX
    &&& i64::MIN <= advance(p.y as int, m.vy as int, dt) <= i64::MAX
    &&& i64::MIN <= advance(p.rotation as int, m.angular as int, dt) <= i64::MAX
}

/// Advances `p` in place by `m` for `dt` milliseconds.
pub fn integrate(p: &mut Pose, m: &Motion, dt: i64)
    requires
        0 <= dt,
        integration_fits(*old(p), *m, dt as int),
    ensures
        *final(p) == integrated(*old(p), *m, dt as int),
{
    p.x = p.x + m.vx * dt;
    p.y = p.y + m.vy * dt;
    p.rotation = p.rotation + m.angular * dt;
}

/// The integrator is additive in elapsed time: advancing a coordinate for
/// time `a` and then for time `b` lands exactly where advancing once for
/// `a + b` does.  In particular two half steps equal one full step.
pub proof fn lemma_advance_additive(pos: int, v: int, a: int, b: int)
    by (nonlinear_arith)
    ensures
        advance(advance(pos, v, a), v, b) == advance(pos, v, a + b),
{
}

/// Splitting an even time step into two half steps moves a coordinate
/// exactly as the one full step does.
pub proof fn lemma_advance_half_steps(pos: int, v: int, dt: int)
    requires
        dt % 2 == 0,
    ensures
        advance(advance(pos, v, dt / 2), v, dt / 2) == advance(pos, v, dt),
{
    lemma_advance_additive(pos, v, dt / 2, dt / 2);
}

/// The whole-pose form of additivity: integrating a pose twice with half
/// the elapsed time gives the same pose as integrating once, whenever the
/// intermediate coordinates fit the machine range.
pub proof fn lemma_integrated_additive(p: Pose, m: Motion, a: int, b: int)
    requires
        integration_fits(p, m, a),
        integration_fits(integrated(p, m, a), m, b),
        integration_fits(p, m, a + b),
    ensures
        integrated(integrated(p, m, a), m, b) == integrated(p, m, a + b),
{
    lemma_advance_additive(p.x as int, m.vx as int, a, b);
    lemma_advance_additive(p.y as int, m.vy as int, a, b);
    lemma_advance_additive(p.rotation as int, m.angular as int, a, b);
}

} // verus!
