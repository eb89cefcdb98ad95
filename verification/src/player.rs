//! Player control: maps raw input intent to a normalized control intent
//! once per frame, and on each fixed tick applies it to the single player
//! entity — rotate by the turn direction, then either thrust (an
//! instantaneous arcade-style velocity reset along the body's forward
//! direction) or decay the velocity by friction, clamp the speed, move,
//! and wrap at the exact world bound.

use vstd::prelude::*;
use crate::fixed::abs;
use crate::fixed::scale_floor;
use crate::fixed::scale_i64;
use crate::fixed::sqrt_floor;
use crate::fixed::isqrt64;
use crate::fixed::lemma_sqrt_floor_props;
use crate::screen_wrap::spec_wrap;
use crate::screen_wrap::wrap_coordinate;
use crate::world::ControlIntent;
use crate::world::Entity;
use crate::world::Motion;
use crate::world::Pose;
use crate::world::TurnDir;
use crate::world::World;

verus! {

/// Fixed-point scale of the unit forward vector handed in by the host:
/// a forward component of `1_000_000` stands for 1.0.
pub const FORWARD_SCALE: i64 = 1_000_000;

/// Tuning for the player entity, immutable for the session.  Speeds are in
/// micro-units per millisecond, the rotation speed in micro-radians per
/// millisecond, and friction is the per-tick decay ratio
/// `friction_num / friction_den`.
#[derive(Clone, Copy, Debug, PartialEq, Eq, Structural)]
pub struct PlayerConfig {
    pub radius: i64,
    pub rotation_speed: i64,
    pub thrust_speed: i64,
    pub max_speed: i64,
    pub friction_num: i64,
    pub friction_den: i64,
}

impl PlayerConfig {
    /// Sanity bounds that keep every step of the player update inside the
    /// machine integer range: positive speeds far below the integer limits
    /// and a friction ratio strictly between zero and one.
    pub open spec fn wf(self) -> bool {
        &&& 0 < self.radius <= 2_000_000_000_000
        &&& 0 < self.rotation_speed <= 1_000_000
        &&& 0 < self.thrust_speed <= 2_000_000_000
        &&& 0 < self.max_speed <= 2_000_000_000
        &&& 0 < self.friction_num < self.friction_den <= 1_000_000
    }
}

impl Default for PlayerConfig {
    /// The documented defaults: radius 25, rotation speed 5 rad/s, thrust
    /// speed 300, max speed 500, friction 0.98 per tick.
    fn default() -> (r: Self)
        ensures
            r.radius == 25_000_000,
            r.rotation_speed == 5_000,
            r.thrust_speed == 300_000,
            r.max_speed == 500_000,
            r.friction_num == 98 && r.friction_den == 100,
            r.wf(),
    {
        PlayerConfig {
            radius: 25_000_000,
            rotation_speed: 5_000,
            thrust_speed: 300_000,
            max_speed: 500_000,
            friction_num: 98,
            friction_den: 100,
        }
    }
}

/// The squared magnitude of a velocity.
pub open spec fn sumsq(vx: int, vy: int) -> int {
    vx * vx + vy * vy
}

/// A velocity clamped to magnitude at most `max` with its direction
/// preserved: within the limit it is unchanged, beyond it both components
/// are scaled down by `max` over one more than the magnitude's integer
/// square root.
pub open spec fn clamped_velocity(vx: int, vy: int, max: int) -> (int, int) {
    if sumsq(vx, vy) <= max * max {
        (vx, vy)
    } else {
        let d = sqrt_floor(sumsq(vx, vy)) + 1;
        (scale_floor(vx, max, d), scale_floor(vy, max, d))
    }
}

/// The clamp really enforces the magnitude limit: the squared magnitude of
/// the clamped velocity never exceeds `max * max`.
pub proof fn lemma_clamp_bounds_speed(vx: int, vy: int, max: int)
    requires
        0 <= max,
    ensures
        sumsq(clamped_velocity(vx, vy, max).0, clamped_velocity(vx, vy, max).1) <= max * max,
{
    let s = sumsq(vx, vy);
    assert(0 <= vx * vx && 0 <= vy * vy) by (nonlinear_arith);
    if s > max * max {
        lemma_sqrt_floor_props(s);
        let d = sqrt_floor(s) + 1;
        assert(s < d * d);
        assert(d >= 1);
        let a = scale_floor(vx, max, d);
        let b = scale_floor(vy, max, d);
        let am = abs(vx);
        let bm = abs(vy);
        let af = (am * max) / d;
        let bf = (bm * max) / d;
        assert(a * a == af * af && b * b == bf * bf) by {
            if vx >= 0 {
                assert(a == af);
            } else {
                assert(a == -af);
                assert((-af) * (-af) == af * af) by (nonlinear_arith);
            }
            if vy >= 0 {
                assert(b == bf);
            } else {
                assert(b == -bf);
                assert((-bf) * (-bf) == bf * bf) by (nonlinear_arith);
            }
        }
        assert(0 <= af && af * d <= am * max && 0 <= am * max) by (nonlinear_arith)
            requires
                d >= 1,
                am >= 0,
                max >= 0,
                af == (am * max) / d,
        ;
        assert(0 <= bf && bf * d <= bm * max && 0 <= bm * max) by (nonlinear_arith)
            requires
                d >= 1,
                bm >= 0,
                max >= 0,
                bf == (bm * max) / d,
        ;
        assert((af * af) * (d * d) <= (am * am) * (max * max)) by (nonlinear_arith)
            requires
                0 <= af,
                0 <= af * d,
                af * d <= am * max,
        ;
        assert((bf * bf) * (d * d) <= (bm * bm) * (max * max)) by (nonlinear_arith)
            requires
                0 <= bf,
                0 <= bf * d,
                bf * d <= bm * max,
        ;
        assert(am * am == vx * vx && bm * bm == vy * vy) by (nonlinear_arith)
            requires
                am == abs(vx),
                bm == abs(vy),
        ;
        assert((af * af + bf * bf) * (d * d) <= s * (max * max)) by (nonlinear_arith)
            requires
                (af * af) * (d * d) <= (am * am) * (max * max),
                (bf * bf) * (d * d) <= (bm * bm) * (max * max),
                am * am + bm * bm == s,
        ;
        assert(s * (max * max) < (d * d) * (max * max) || max == 0) by (nonlinear_arith)
            requires
                s < d * d,
                0 <= max,
        ;
        if max == 0 {
            assert(af == 0 && bf == 0) by (nonlinear_arith)
                requires
                    af == (am * 0) / d,
                    bf == (bm * 0) / d,
                    d >= 1,
            ;
        } else {
            assert(af * af + bf * bf <= max * max) by (nonlinear_arith)
                requires
                    (af * af + bf * bf) * (d * d) <= s * (max * max),
                    s * (max * max) < (d * d) * (max * max),
                    d >= 1,
                    0 <= af * af + bf * bf,
            ;
        }
    }
}

/// Clamps a velocity to magnitude at most `max`, preserving its direction.
pub fn clamp_velocity(vx: i64, vy: i64, max: i64) -> (r: (i64, i64))
    requires
        0 <= max <= 2_000_000_000,
        abs(vx as int) <= 2_000_000_000,
        abs(vy as int) <= 2_000_000_000,
    ensures
        (r.0 as int, r.1 as int) == clamped_velocity(vx as int, vy as int, max as int),
        sumsq(r.0 as int, r.1 as int) <= (max as int) * (max as int),
        abs(r.0 as int) <= 2_000_000_000,
        abs(r.1 as int) <= 2_000_000_000,
{
    proof {
        lemma_clamp_bounds_speed(vx as int, vy as int, max as int);
    }
    let ax: u64 = if vx < 0 {
        (-vx) as u64
    } else {
        vx as u64
    };
    let ay: u64 = if vy < 0 {
        (-vy) as u64
    } else {
        vy as u64
    };
    proof {
        assert(ax * ax <= 4_000_000_000_000_000_000 && ay * ay <= 4_000_000_000_000_000_000)
            by (nonlinear_arith)
            requires
                0 <= ax <= 2_000_000_000,
                0 <= ay <= 2_000_000_000,
        ;
    }
    let s: u64 = ax * ax + ay * ay;
    let mu: u64 = max as u64;
    proof {
        assert(mu * mu <= 4_000_000_000_000_000_000) by (nonlinear_arith)
            requires
                0 <= mu <= 2_000_000_000,
        ;
    }
    let maxsq: u64 = mu * mu;
    proof {
        assert((ax as int) * (ax as int) == (vx as int) * (vx as int) && (ay as int) * (ay
            as int) == (vy as int) * (vy as int)) by (nonlinear_arith)
            requires
                ax == abs(vx as int),
                ay == abs(vy as int),
        ;
        assert(s == sumsq(vx as int, vy as int));
        assert(maxsq == (max as int) * (max as int));
    }
    if s <= maxsq {
        (vx, vy)
    } else {
        let root: u64 = isqrt64(s);
        proof {
            assert(root < 0x1_0000_0000) by (nonlinear_arith)
                requires
                    0 <= root,
                    (root as int) * (root as int) <= 8_000_000_000_000_000_000,
            ;
        }
        let d: i64 = (root + 1) as i64;
        proof {
            assert(max < d) by (nonlinear_arith)
                requires
                    (s as int) < (d as int) * (d as int),
                    (max as int) * (max as int) < s as int,
                    0 <= max,
                    0 < d,
            ;
            assert(abs(vx as int) * (max as int) <= 4_000_000_000_000_000_000 && abs(
                vy as int,
            ) * (max as int) <= 4_000_000_000_000_000_000) by (nonlinear_arith)
                requires
                    0 <= abs(vx as int) <= 2_000_000_000,
                    0 <= abs(vy as int) <= 2_000_000_000,
                    0 <= max <= 2_000_000_000,
            ;
        }
        let cx: i64 = scale_i64(vx, max, d);
        let cy: i64 = scale_i64(vy, max, d);
        proof {
            let gx = (abs(vx as int) * (max as int)) / (d as int);
            let gy = (abs(vy as int) * (max as int)) / (d as int);
            assert(abs(cx as int) == gx && abs(cy as int) == gy);
            assert(gx <= abs(vx as int) && gy <= abs(vy as int)) by (nonlinear_arith)
                requires
                    0 <= abs(vx as int),
                    0 <= abs(vy as int),
                    0 <= max <= d,
                    1 <= d,
                    gx == (abs(vx as int) * (max as int)) / (d as int),
                    gy == (abs(vy as int) * (max as int)) / (d as int),
            ;
        }
        (cx, cy)
    }
}

/// The normalized intent a frame's raw turn and thrust signals map to:
/// a net turn only when exactly one turn key is active, and the thrust
/// flag as sampled.
pub open spec fn spec_intent(turn_left: bool, turn_right: bool, thrust: bool) -> ControlIntent {
    ControlIntent {
        turn: if turn_left && !turn_right {
            TurnDir::Left
        } else if turn_right && !turn_left {
            TurnDir::Right
        } else {
            TurnDir::Straight
        },
        thrust,
    }
}

/// Maps the raw input signals of one frame to the control intent the fixed
/// tick consumes.  Mutually exclusive turn keys both held give no net turn.
pub fn compute_intent(turn_left: bool, turn_right: bool, thrust: bool) -> (r: ControlIntent)
    ensures
        r == spec_intent(turn_left, turn_right, thrust),
{
    let turn = if turn_left && !turn_right {
        TurnDir::Left
    } else if turn_right && !turn_left {
        TurnDir::Right
    } else {
        TurnDir::Straight
    };
    ControlIntent { turn, thrust }
}

/// Zero or more than one player entity was found where exactly one was
/// expected: a recoverable anomaly, reported and skipped, never fatal.
#[derive(Clone, Copy, Debug, PartialEq, Eq, Structural)]
pub struct SingletonViolation {
    /// How many control-bearing entities the world held.
    pub found: usize,
}

/// How many entities of the sequence carry a control intent.
pub open spec fn player_count(s: Seq<Entity>) -> nat
    decreases s.len(),
{
    if s.len() == 0 {
        0
    } else {
        player_count(s.drop_last()) + if s.last().control.is_some() {
            1nat
        } else {
            0nat
        }
    }
}

/// The control-bearing entities are never more numerous than the entities.
pub proof fn lemma_player_count_le_len(s: Seq<Entity>)
    ensures
        player_count(s) <= s.len(),
    decreases s.len(),
{
    if s.len() > 0 {
        lemma_player_count_le_len(s.drop_last());
    }
}

/// Looks for the single player entity.  Returns its index when the world
/// holds exactly one control-bearing entity, and otherwise the number
/// found, as the anomaly report.
pub fn find_player(entities: &Vec<Entity>) -> (r: Result<usize, SingletonViolation>)
    ensures
        match r {
            Ok(ix) => player_count(entities@) == 1 && ix < entities@.len()
                && entities@[ix as int].control.is_some(),
            Err(v) => player_count(entities@) != 1 && v.found == player_count(entities@),
        },
{
    let n = entities.len();
    let mut i: usize = 0;
    let mut cnt: usize = 0;
    let mut ix: usize = 0;
    proof {
        lemma_player_count_le_len(entities@);
    }
    while i < n
        invariant
            i <= n,
            n == entities@.len(),
            cnt == player_count(entities@.take(i as int)),
            cnt <= i,
            cnt >= 1 ==> ix < i && entities@[ix as int].control.is_some(),
        decreases n - i,
    {
        proof {
            assert(entities@.take(i as int + 1).drop_last() =~= entities@.take(i as int));
            assert(entities@.take(i as int + 1).last() == entities@[i as int]);
        }
        if entities[i].control.is_some() {
            cnt = cnt + 1;
            ix = i;
        }
        i = i + 1;
    }
    proof {
        assert(entities@.take(n as int) =~= entities@);
    }
    if cnt == 1 {
        Ok(ix)
    } else {
        Err(SingletonViolation { found: cnt })
    }
}

/// The player entity as spawned: at the origin of the given depth layer,
/// at rest, with an idle control intent and the exact-bound wrap (it
/// carries no extent capability).
pub open spec fn spec_player_entity(layer: u8) -> Entity {
    Entity {
        pose: Pose { x: 0, y: 0, layer, rotation: 0 },
        motion: Motion { vx: 0, vy: 0, angular: 0 },
        control: Some(ControlIntent { turn: TurnDir::Straight, thrust: false }),
        wrap: None,
    }
}

/// Creates the player entity in the world, touching no existing entity.
pub fn spawn_player(world: &mut World)
    ensures
        final(world).entities@ == old(world).entities@.push(
            spec_player_entity(old(world).config.layer_ids.player),
        ),
        final(world).config == old(world).config,
{
    let layer = world.config.layer_ids.player;
    world.entities.push(
        Entity {
            pose: Pose { x: 0, y: 0, layer, rotation: 0 },
            motion: Motion::zero(),
            control: Some(ControlIntent::default()),
            wrap: None,
        },
    );
}

/// Stores a freshly computed control intent on the single player entity.
/// With zero or several player entities the frame is skipped: the world is
/// left untouched and the anomaly is reported once.
pub fn player_input(world: &mut World, turn_left: bool, turn_right: bool, thrust: bool) -> (r:
    Result<(), SingletonViolation>)
    ensures
        player_count(old(world).entities@) != 1 ==> r == Err::<(), SingletonViolation>(
            SingletonViolation { found: player_count(old(world).entities@) as usize },
        ) && *final(world) == *old(world),
        player_count(old(world).entities@) == 1 ==> r is Ok && exists|i: int|
            0 <= i < old(world).entities@.len() && #[trigger] old(
                world,
            ).entities@[i].control.is_some() && final(world).entities@ == old(
                world,
            ).entities@.update(
                i,
                Entity {
                    control: Some(spec_intent(turn_left, turn_right, thrust)),
                    ..old(world).entities@[i]
                },
            ),
        final(world).config == old(world).config,
{
    proof {
        lemma_player_count_le_len(old(world).entities@);
    }
    match find_player(&world.entities) {
        Ok(ix) => {
            let e = world.entities[ix];
            let intent = compute_intent(turn_left, turn_right, thrust);
            world.entities[ix] = Entity { control: Some(intent), ..e };
            proof {
                assert(old(world).entities@[ix as int].control.is_some());
            }
            Ok(())
        },
        Err(v) => Err(v),
    }
}

/// The pose after the turn phase of one fixed tick: rotation advances by
/// the signed turn times the rotation speed times the elapsed time.
pub open spec fn steered_pose(p: Pose, turn: TurnDir, rotation_speed: int, dt: int) -> Pose {
    Pose {
        x: p.x,
        y: p.y,
        layer: p.layer,
        rotation: (p.rotation + turn.spec_sign() * rotation_speed * dt) as i64,
    }
}

/// Applies the turn phase of the fixed tick to the single player entity
/// and returns its new rotation, from which the host derives the body's
/// forward direction for the movement phase.  With zero or several player
/// entities the tick is skipped and the anomaly reported.
pub fn player_steer(world: &mut World, cfg: &PlayerConfig, dt: i64) -> (r: Result<
    i64,
    SingletonViolation,
>)
    requires
        cfg.wf(),
        0 <= dt <= 1_000_000,
        forall|i: int|
            0 <= i < old(world).entities@.len() && old(world).entities@[i].control.is_some()
                ==> abs(old(world).entities@[i].pose.rotation as int)
                <= 4_000_000_000_000_000_000,
    ensures
        player_count(old(world).entities@) != 1 ==> r == Err::<i64, SingletonViolation>(
            SingletonViolation { found: player_count(old(world).entities@) as usize },
        ) && *final(world) == *old(world),
        player_count(old(world).entities@) == 1 ==> exists|i: int|
            0 <= i < old(world).entities@.len() && #[trigger] old(
                world,
            ).entities@[i].control.is_some() && final(world).entities@ == old(
                world,
            ).entities@.update(
                i,
                Entity {
                    pose: steered_pose(
                        old(world).entities@[i].pose,
                        old(world).entities@[i].control.unwrap().turn,
                        cfg.rotation_speed as int,
                        dt as int,
                    ),
                    ..old(world).entities@[i]
                },
            ) && r == Ok::<i64, SingletonViolation>(
                final(world).entities@[i].pose.rotation,
            ),
        final(world).config == old(world).config,
{
    proof {
        lemma_player_count_le_len(old(world).entities@);
    }
    match find_player(&world.entities) {
        Ok(ix) => {
            let e = world.entities[ix];
            let turn: i64 = match e.control {
                Some(ci) => ci.turn.sign(),
                None => 0,
            };
            proof {
                assert(e.control.is_some());
                assert(abs(e.pose.rotation as int) <= 4_000_000_000_000_000_000);
                assert(-1_000_000 <= turn * cfg.rotation_speed <= 1_000_000
                    && -1_000_000_000_000 <= turn * cfg.rotation_speed * dt
                    <= 1_000_000_000_000) by (nonlinear_arith)
                    requires
                        -1 <= turn <= 1,
                        0 < cfg.rotation_speed <= 1_000_000,
                        0 <= dt <= 1_000_000,
                ;
            }
            let delta: i64 = turn * cfg.rotation_speed * dt;
            let new_rotation: i64 = e.pose.rotation + delta;
            world.entities[ix] = Entity {
                pose: Pose {
                    x: e.pose.x,
                    y: e.pose.y,
                    layer: e.pose.layer,
                    rotation: new_rotation,
                },
                ..e
            };
            proof {
                assert(old(world).entities@[ix as int].control.is_some());
            }
            Ok(new_rotation)
        },
        Err(v) => Err(v),
    }
}

/// The velocity one fixed tick leaves the player with, before the clamp:
/// with thrust held it is reset along the forward direction scaled by the
/// thrust speed, and without thrust the old velocity decays by the
/// friction ratio.
pub open spec fn next_velocity(m: Motion, thrust: bool, cfg: PlayerConfig, fx: int, fy: int) -> (
    int,
    int,
) {
    if thrust {
        (
            scale_floor(fx, cfg.thrust_speed as int, FORWARD_SCALE as int),
            scale_floor(fy, cfg.thrust_speed as int, FORWARD_SCALE as int),
        )
    } else {
        (
            scale_floor(m.vx as int, cfg.friction_num as int, cfg.friction_den as int),
            scale_floor(m.vy as int, cfg.friction_num as int, cfg.friction_den as int),
        )
    }
}

/// The player entity after the movement phase of one fixed tick: velocity
/// per [`next_velocity`], clamped to the maximum speed, position advanced
/// by the clamped velocity, then wrapped at the exact world bound.
pub open spec fn advanced_player(e: Entity, cfg: PlayerConfig, hw: int, hh: int, dt: int, fx: int, fy: int) -> Entity {
    let thrust = match e.control {
        Some(ci) => ci.thrust,
        None => false,
    };
    let nv = next_velocity(e.motion, thrust, cfg, fx, fy);
    let cv = clamped_velocity(nv.0, nv.1, cfg.max_speed as int);
    Entity {
        pose: Pose {
            x: spec_wrap(e.pose.x + cv.0 * dt, hw, 0) as i64,
            y: spec_wrap(e.pose.y + cv.1 * dt, hh, 0) as i64,
            layer: e.pose.layer,
            rotation: e.pose.rotation,
        },
        motion: Motion { vx: cv.0 as i64, vy: cv.1 as i64, angular: e.motion.angular },
        control: e.control,
        wrap: e.wrap,
    }
}

/// Applies the movement phase of the fixed tick to the single player
/// entity: thrust or friction, the magnitude clamp, the translation, and
/// the exact-bound wrap.  `fx`, `fy` is the body's forward unit vector in
/// [`FORWARD_SCALE`] fixed point, derived by the host from the rotation
/// the turn phase returned.  With zero or several player entities the tick
/// is skipped and the anomaly reported.
pub fn player_movement(world: &mut World, cfg: &PlayerConfig, dt: i64, fx: i64, fy: i64) -> (r:
    Result<(), SingletonViolation>)
    requires
        cfg.wf(),
        old(world).config.wf(),
        0 <= dt <= 1_000_000,
        abs(fx as int) <= FORWARD_SCALE,
        abs(fy as int) <= FORWARD_SCALE,
        forall|i: int|
            0 <= i < old(world).entities@.len() && old(world).entities@[i].control.is_some()
                ==> abs(old(world).entities@[i].motion.vx as int) <= 2_000_000_000 && abs(
                old(world).entities@[i].motion.vy as int,
            ) <= 2_000_000_000 && abs(old(world).entities@[i].pose.x as int)
                <= 4_000_000_000_000_000_000 && abs(old(world).entities@[i].pose.y as int)
                <= 4_000_000_000_000_000_000,
    ensures
        player_count(old(world).entities@) != 1 ==> r == Err::<(), SingletonViolation>(
            SingletonViolation { found: player_count(old(world).entities@) as usize },
        ) && *final(world) == *old(world),
        player_count(old(world).entities@) == 1 ==> r is Ok && exists|i: int|
            0 <= i < old(world).entities@.len() && #[trigger] old(
                world,
            ).entities@[i].control.is_some() && final(world).entities@ == old(
                world,
            ).entities@.update(
                i,
                advanced_player(
                    old(world).entities@[i],
                    *cfg,
                    old(world).config.spec_half_bounds().0,
                    old(world).config.spec_half_bounds().1,
                    dt as int,
                    fx as int,
                    fy as int,
                ),
            ),
        final(world).config == old(world).config,
{
    proof {
        lemma_player_count_le_len(old(world).entities@);
    }
    let (hw, hh) = world.config.half_bounds();
    match find_player(&world.entities) {
        Ok(ix) => {
            let e = world.entities[ix];
            proof {
                assert(e.control.is_some());
            }
            let thrust: bool = match e.control {
                Some(ci) => ci.thrust,
                None => false,
            };
            let (nvx, nvy): (i64, i64) = if thrust {
                proof {
                    assert(abs(fx as int) * (cfg.thrust_speed as int) <= 2_000_000_000_000_000
                        && abs(fy as int) * (cfg.thrust_speed as int) <= 2_000_000_000_000_000)
                        by (nonlinear_arith)
                        requires
                            0 <= abs(fx as int) <= 1_000_000,
                            0 <= abs(fy as int) <= 1_000_000,
                            0 < cfg.thrust_speed <= 2_000_000_000,
                    ;
                }
                let tx = scale_i64(fx, cfg.thrust_speed, FORWARD_SCALE);
                let ty = scale_i64(fy, cfg.thrust_speed, FORWARD_SCALE);
                proof {
                    let gx = (abs(fx as int) * (cfg.thrust_speed as int)) / (
                    FORWARD_SCALE as int);
                    let gy = (abs(fy as int) * (cfg.thrust_speed as int)) / (
                    FORWARD_SCALE as int);
                    assert(abs(tx as int) == gx && abs(ty as int) == gy);
                    assert(gx <= 2_000_000_000 && gy <= 2_000_000_000) by (nonlinear_arith)
                        requires
                            gx == (abs(fx as int) * (cfg.thrust_speed as int)) / 1_000_000,
                            gy == (abs(fy as int) * (cfg.thrust_speed as int)) / 1_000_000,
                            0 <= abs(fx as int) * (cfg.thrust_speed as int)
                                <= 2_000_000_000_000_000,
                            0 <= abs(fy as int) * (cfg.thrust_speed as int)
                                <= 2_000_000_000_000_000,
                    ;
                }
                (tx, ty)
            } else {
                proof {
                    assert(abs(e.motion.vx as int) * (cfg.friction_num as int)
                        <= 2_000_000_000_000_000 && abs(e.motion.vy as int) * (
                    cfg.friction_num as int) <= 2_000_000_000_000_000) by (nonlinear_arith)
                        requires
                            0 <= abs(e.motion.vx as int) <= 2_000_000_000,
                            0 <= abs(e.motion.vy as int) <= 2_000_000_000,
                            0 < cfg.friction_num <= 1_000_000,
                    ;
                }
                let dx = scale_i64(e.motion.vx, cfg.friction_num, cfg.friction_den);
                let dy = scale_i64(e.motion.vy, cfg.friction_num, cfg.friction_den);
                proof {
                    let gx = (abs(e.motion.vx as int) * (cfg.friction_num as int)) / (
                    cfg.friction_den as int);
                    let gy = (abs(e.motion.vy as int) * (cfg.friction_num as int)) / (
                    cfg.friction_den as int);
                    assert(abs(dx as int) == gx && abs(dy as int) == gy);
                    assert(gx <= abs(e.motion.vx as int) && gy <= abs(e.motion.vy as int))
                        by (nonlinear_arith)
                        requires
                            0 <= abs(e.motion.vx as int),
                            0 <= abs(e.motion.vy as int),
                            0 < cfg.friction_num < cfg.friction_den,
                            gx == (abs(e.motion.vx as int) * (cfg.friction_num as int)) / (
                            cfg.friction_den as int),
                            gy == (abs(e.motion.vy as int) * (cfg.friction_num as int)) / (
                            cfg.friction_den as int),
                    ;
                }
                (dx, dy)
            };
            let (cvx, cvy) = clamp_velocity(nvx, nvy, cfg.max_speed);
            proof {
                assert(-2_000_000_000_000_000 <= (cvx as int) * (dt as int)
                    <= 2_000_000_000_000_000 && -2_000_000_000_000_000 <= (cvy as int) * (
                dt as int) <= 2_000_000_000_000_000) by (nonlinear_arith)
                    requires
                        abs(cvx as int) <= 2_000_000_000,
                        abs(cvy as int) <= 2_000_000_000,
                        0 <= dt <= 1_000_000,
                ;
            }
            let nx: i64 = e.pose.x + cvx * dt;
            let ny: i64 = e.pose.y + cvy * dt;
            let wx = wrap_coordinate(nx, hw, 0);
            let wy = wrap_coordinate(ny, hh, 0);
            world.entities[ix] = Entity {
                pose: Pose { x: wx, y: wy, layer: e.pose.layer, rotation: e.pose.rotation },
                motion: Motion { vx: cvx, vy: cvy, angular: e.motion.angular },
                control: e.control,
                wrap: e.wrap,
            };
            proof {
                assert(old(world).entities@[ix as int].control.is_some());
            }
            Ok(())
        },
        Err(v) => Err(v),
    }
}

/// While the turn-left key alone is held, each fixed tick strictly raises
/// the player's rotation angle.
pub proof fn lemma_turn_left_monotone(p: Pose, rotation_speed: int, dt: int)
    requires
        0 < rotation_speed <= 1_000_000,
        0 < dt <= 1_000_000,
        abs(p.rotation as int) <= 4_000_000_000_000_000_000,
    ensures
        steered_pose(p, TurnDir::Left, rotation_speed, dt).rotation > p.rotation,
{
    assert(1 <= rotation_speed * dt <= 1_000_000_000_000) by (nonlinear_arith)
        requires
            0 < rotation_speed <= 1_000_000,
            0 < dt <= 1_000_000,
    ;
}

/// While the turn-right key alone is held, each fixed tick strictly
/// lowers the player's rotation angle.
pub proof fn lemma_turn_right_monotone(p: Pose, rotation_speed: int, dt: int)
    requires
        0 < rotation_speed <= 1_000_000,
        0 < dt <= 1_000_000,
        abs(p.rotation as int) <= 4_000_000_000_000_000_000,
    ensures
        steered_pose(p, TurnDir::Right, rotation_speed, dt).rotation < p.rotation,
{
    assert(1 <= rotation_speed * dt <= 1_000_000_000_000 && (-1) * rotation_speed * dt == -(
    rotation_speed * dt)) by (nonlinear_arith)
        requires
            0 < rotation_speed <= 1_000_000,
            0 < dt <= 1_000_000,
    ;
}

/// With thrust held, the velocity a tick leaves behind does not depend on
/// the velocity it found: within one tick the player moves along the
/// body's forward direction, scaled by the thrust speed.
pub proof fn lemma_thrust_forgets_old_velocity(m1: Motion, m2: Motion, cfg: PlayerConfig, fx: int, fy: int)
    ensures
        next_velocity(m1, true, cfg, fx, fy) == next_velocity(m2, true, cfg, fx, fy),
        next_velocity(m1, true, cfg, fx, fy) == (
            scale_floor(fx, cfg.thrust_speed as int, FORWARD_SCALE as int),
            scale_floor(fy, cfg.thrust_speed as int, FORWARD_SCALE as int),
        ),
{
}

/// Without thrust, friction strictly shrinks the squared speed of any
/// moving player each tick, and a player at rest stays at rest: the speed
/// decays until it vanishes.
pub proof fn lemma_friction_decreases_speed(m: Motion, cfg: PlayerConfig, fx: int, fy: int)
    requires
        cfg.wf(),
    ensures
        m.vx != 0 || m.vy != 0 ==> sumsq(
            next_velocity(m, false, cfg, fx, fy).0,
            next_velocity(m, false, cfg, fx, fy).1,
        ) < sumsq(m.vx as int, m.vy as int),
        m.vx == 0 && m.vy == 0 ==> next_velocity(m, false, cfg, fx, fy) == (0int, 0int),
{
    let num = cfg.friction_num as int;
    let den = cfg.friction_den as int;
    let ax = scale_floor(m.vx as int, num, den);
    let ay = scale_floor(m.vy as int, num, den);
    lemma_scale_shrinks(m.vx as int, num, den);
    lemma_scale_shrinks(m.vy as int, num, den);
    assert((ax * ax <= (m.vx as int) * (m.vx as int)) && (m.vx != 0 ==> ax * ax < (m.vx as int)
        * (m.vx as int))) by (nonlinear_arith)
        requires
            abs(ax) <= abs(m.vx as int),
            m.vx != 0 ==> abs(ax) < abs(m.vx as int),
            abs(ax) == if ax >= 0 { ax } else { -ax },
            abs(m.vx as int) == if m.vx >= 0 { m.vx as int } else { -(m.vx as int) },
    ;
    assert((ay * ay <= (m.vy as int) * (m.vy as int)) && (m.vy != 0 ==> ay * ay < (m.vy as int)
        * (m.vy as int))) by (nonlinear_arith)
        requires
            abs(ay) <= abs(m.vy as int),
            m.vy != 0 ==> abs(ay) < abs(m.vy as int),
            abs(ay) == if ay >= 0 { ay } else { -ay },
            abs(m.vy as int) == if m.vy >= 0 { m.vy as int } else { -(m.vy as int) },
    ;
}

/// A velocity component scaled by a ratio strictly below one never grows
/// in magnitude, and strictly shrinks while it is nonzero.
pub proof fn lemma_scale_shrinks(v: int, num: int, den: int)
    requires
        0 < num < den,
    ensures
        abs(scale_floor(v, num, den)) <= abs(v),
        v != 0 ==> abs(scale_floor(v, num, den)) < abs(v),
        v == 0 ==> scale_floor(v, num, den) == 0,
{
    let m = abs(v);
    let q = (m * num) / den;
    assert(0 <= q && (m > 0 ==> q < m) && (m == 0 ==> q == 0)) by (nonlinear_arith)
        requires
            0 <= m,
            0 < num < den,
            q == (m * num) / den,
    ;
    if v >= 0 {
        assert(scale_floor(v, num, den) == q);
    } else {
        assert(scale_floor(v, num, den) == -q);
    }
}

} // verus!
