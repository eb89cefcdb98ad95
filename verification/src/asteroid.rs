//! Asteroid spawning and motion: at startup, N asteroids are created with
//! randomized radius, position, velocity and angular velocity; every fixed
//! tick they translate by their linear velocity and rotate by their
//! angular velocity.
//!
//! Each random draw goes through one trusted wrapper around the `rand`
//! crate; everything stated of a spawned asteroid holds for every value
//! the generator can hand back.

use vstd::prelude::*;
use rand::Rng;
use crate::config::Config;
use crate::config::ConfigError;
use crate::config::LayerIds;
use crate::fixed::abs;
use crate::kinematics::advance;
use crate::kinematics::lemma_advance_additive;
use crate::screen_wrap::ScreenWrap;
use crate::world::Entity;
use crate::world::Motion;
use crate::world::Pose;
use crate::world::World;

verus! {

/// The smallest velocity component magnitude a spawned asteroid may have
/// (micro-units per millisecond): one world unit per second, the
/// threshold below which motion is no longer visible.
pub const MIN_COMPONENT_SPEED: i64 = 1_000;

/// Generation parameters for the asteroid field.  Velocities are in
/// micro-units per millisecond, angular velocity in micro-radians per
/// millisecond, radii in micro-units.
#[derive(Clone, Copy, Debug, PartialEq, Eq, Structural)]
pub struct AsteroidConfig {
    pub spawn_count: usize,
    /// Sides of the polygon the render layer draws for an asteroid.
    pub num_sides: u32,
    pub max_velocity: i64,
    pub max_angular_velocity: i64,
    pub radius_min: i64,
    pub radius_max: i64,
}

impl AsteroidConfig {
    /// Sanity bounds that keep spawning inside the machine integer range
    /// and the rejection sampling able to succeed.
    pub open spec fn wf(self) -> bool {
        &&& MIN_COMPONENT_SPEED <= self.max_velocity <= 2_000_000_000
        &&& 0 < self.max_angular_velocity <= 2_000_000_000
        &&& 0 < self.radius_min
        &&& self.radius_max <= 2_000_000_000_000
        &&& self.spawn_count <= 1_000_000
    }

    /// The default generation parameters with the given spawn count.
    pub fn new(spawn_count: usize) -> (r: Self)
        ensures
            r == (AsteroidConfig { spawn_count, ..AsteroidConfig::default_spec() }),
    {
        AsteroidConfig { spawn_count, ..AsteroidConfig::default() }
    }

    /// What [`AsteroidConfig::default`] returns.
    pub open spec fn default_spec() -> AsteroidConfig {
        AsteroidConfig {
            spawn_count: 5,
            num_sides: 6,
            max_velocity: 100_000,
            max_angular_velocity: 2_000,
            radius_min: 25_000_000,
            radius_max: 150_000_000,
        }
    }

    /// Checks the configuration faults that must stop startup: an empty
    /// radius range, or no depth layer to cycle spawns across.
    pub fn validate(&self, layers: &LayerIds) -> (r: Result<(), ConfigError>)
        ensures
            r is Ok <==> layers.enemy > 0 && self.radius_min < self.radius_max,
            r == Err::<(), ConfigError>(ConfigError::ZeroLayerCount) <==> layers.enemy == 0,
            r == Err::<(), ConfigError>(ConfigError::EmptyRadiusRange) <==> layers.enemy > 0
                && self.radius_min >= self.radius_max,
    {
        if layers.enemy == 0 {
            Err(ConfigError::ZeroLayerCount)
        } else if self.radius_min >= self.radius_max {
            Err(ConfigError::EmptyRadiusRange)
        } else {
            Ok(())
        }
    }
}

impl Default for AsteroidConfig {
    /// The documented defaults: 5 asteroids of 6 sides, radius 25 to 150,
    /// top speed 100, top angular speed 2 rad/s.
    fn default() -> (r: Self)
        ensures
            r == AsteroidConfig::default_spec(),
            r.wf(),
    {
        AsteroidConfig {
            spawn_count: 5,
            num_sides: 6,
            max_velocity: 100_000,
            max_angular_velocity: 2_000,
            radius_min: 25_000_000,
            radius_max: 150_000_000,
        }
    }
}

/// Relies on `rand::thread_rng` and `rand::Rng::gen_range` on an `i64`
/// range: for a non-empty range `lo..hi` the sample lies in `[lo, hi)`
/// (the call would panic on an empty range, which the precondition rules
/// out).  Nothing further is assumed of which value comes back.  Like an
/// allocation failure, a failure of the operating system's entropy source
/// at the generator's first use aborts regardless of any argument.
#[verifier::external_body]
fn rand_range_i64(lo: i64, hi: i64) -> (r: i64)
    requires
        lo < hi,
    ensures
        lo <= r < hi,
{
    rand::thread_rng().gen_range(lo..hi)
}

/// Redrawing is given up after this many rejections in a row (each one
/// has a small, configuration-dependent chance), so that the sampling
/// provably terminates; a slow sample is then built directly.
const MAX_REDRAWS: u32 = 64;

/// Draws a velocity component uniformly from `[-max_velocity,
/// max_velocity)`, redrawing until its magnitude reaches
/// [`MIN_COMPONENT_SPEED`], so that no asteroid spawns visibly frozen.
fn sample_component_speed(max_velocity: i64) -> (r: i64)
    requires
        MIN_COMPONENT_SPEED <= max_velocity <= 2_000_000_000,
    ensures
        MIN_COMPONENT_SPEED <= abs(r as int),
        -max_velocity <= r < max_velocity,
{
    let mut tries: u32 = MAX_REDRAWS;
    while tries > 0
        invariant
            MIN_COMPONENT_SPEED <= max_velocity <= 2_000_000_000,
        decreases tries,
    {
        let v = rand_range_i64(-max_velocity, max_velocity);
        let a: i64 = if v < 0 {
            -v
        } else {
            v
        };
        if a >= MIN_COMPONENT_SPEED {
            return v;
        }
        tries = tries - 1;
    }
    if max_velocity == MIN_COMPONENT_SPEED {
        // The only admissible value left in [-max, max) is -max itself.
        return -max_velocity;
    }
    let magnitude = rand_range_i64(MIN_COMPONENT_SPEED, max_velocity);
    let flip = rand_range_i64(0, 2);
    if flip == 0 {
        magnitude
    } else {
        -magnitude
    }
}

/// Everything spawning promises of one freshly created asteroid, whatever
/// the generator returned: position inside the world rectangle, the given
/// depth layer, no initial rotation, equal velocity components of visible
/// magnitude below the configured maximum, angular velocity within its
/// range, no control intent, and a wrap extent equal to the radius drawn
/// from `[radius_min, radius_max)`.
pub open spec fn spawned_asteroid_ok(e: Entity, acfg: AsteroidConfig, cfg: Config, layer: u8) -> bool {
    &&& -cfg.spec_half_bounds().0 <= e.pose.x < cfg.spec_half_bounds().0
    &&& -cfg.spec_half_bounds().1 <= e.pose.y < cfg.spec_half_bounds().1
    &&& e.pose.layer == layer
    &&& e.pose.rotation == 0
    &&& e.motion.vx == e.motion.vy
    &&& MIN_COMPONENT_SPEED <= abs(e.motion.vx as int)
    &&& -acfg.max_velocity <= e.motion.vx < acfg.max_velocity
    &&& -acfg.max_angular_velocity <= e.motion.angular < acfg.max_angular_velocity
    &&& e.control is None
    &&& match e.wrap {
        Some(sw) => acfg.radius_min <= sw.border_radius < acfg.radius_max,
        None => false,
    }
}

/// Creates one asteroid with randomized radius, position, velocity and
/// angular velocity on the given depth layer.  Both velocity components
/// deliberately share the one drawn magnitude — the axes are equal by
/// construction, not independently random; no existing entity is touched.
pub fn spawn_asteroid(world: &mut World, acfg: &AsteroidConfig, layer: u8)
    requires
        acfg.wf(),
        old(world).config.wf(),
        acfg.radius_min < acfg.radius_max,
    ensures
        final(world).entities@ == old(world).entities@.push(final(world).entities@.last()),
        final(world).entities@.len() == old(world).entities@.len() + 1,
        forall|i: int|
            0 <= i < old(world).entities@.len() ==> final(world).entities@[i] == old(
                world,
            ).entities@[i],
        spawned_asteroid_ok(
            final(world).entities@.last(),
            *acfg,
            old(world).config,
            layer,
        ),
        final(world).config == old(world).config,
{
    let (hw, hh) = world.config.half_bounds();
    let radius = rand_range_i64(acfg.radius_min, acfg.radius_max);
    let x = rand_range_i64(-hw, hw);
    let y = rand_range_i64(-hh, hh);
    let v = sample_component_speed(acfg.max_velocity);
    let angular = rand_range_i64(-acfg.max_angular_velocity, acfg.max_angular_velocity);
    world.entities.push(
        Entity {
            pose: Pose { x, y, layer, rotation: 0 },
            motion: Motion { vx: v, vy: v, angular },
            control: None,
            wrap: Some(ScreenWrap { border_radius: radius }),
        },
    );
}

/// Creates the configured number of asteroids, assigning depth layers
/// round-robin across the enemy layer count: spawn `k` lands on layer
/// `k % layer_count`.
pub fn spawn_asteroids(world: &mut World, acfg: &AsteroidConfig)
    requires
        acfg.wf(),
        old(world).config.wf(),
        acfg.radius_min < acfg.radius_max,
        old(world).config.layer_ids.enemy >= 1,
    ensures
        final(world).entities@.len() == old(world).entities@.len() + acfg.spawn_count,
        forall|i: int|
            0 <= i < old(world).entities@.len() ==> final(world).entities@[i] == old(
                world,
            ).entities@[i],
        forall|k: int|
            0 <= k < acfg.spawn_count ==> spawned_asteroid_ok(
                #[trigger] final(world).entities@[old(world).entities@.len() + k],
                *acfg,
                old(world).config,
                ((k % (old(world).config.layer_ids.enemy as int)) as u8),
            ),
        final(world).config == old(world).config,
{
    let count = acfg.spawn_count;
    let enemy: usize = world.config.layer_ids.enemy as usize;
    let mut i: usize = 0;
    while i < count
        invariant
            i <= count,
            acfg.wf(),
            old(world).config.wf(),
            acfg.radius_min < acfg.radius_max,
            1 <= enemy <= 255,
            enemy == old(world).config.layer_ids.enemy,
            world.config == old(world).config,
            world.entities@.len() == old(world).entities@.len() + i,
            forall|j: int|
                0 <= j < old(world).entities@.len() ==> world.entities@[j] == old(
                    world,
                ).entities@[j],
            forall|k: int|
                0 <= k < i ==> spawned_asteroid_ok(
                    #[trigger] world.entities@[old(world).entities@.len() + k],
                    *acfg,
                    old(world).config,
                    ((k % (enemy as int)) as u8),
                ),
        decreases count - i,
    {
        let layer: u8 = (i % enemy) as u8;
        spawn_asteroid(world, acfg, layer);
        i = i + 1;
    }
}

/// The asteroid `e` translated by its linear velocity for `dt`; rotation
/// and everything else kept.
pub open spec fn translated_entity(e: Entity, dt: int) -> Entity {
    Entity {
        pose: Pose {
            x: advance(e.pose.x as int, e.motion.vx as int, dt) as i64,
            y: advance(e.pose.y as int, e.motion.vy as int, dt) as i64,
            ..e.pose
        },
        ..e
    }
}

/// The asteroid `e` rotated by its angular velocity for `dt`; position
/// and everything else kept.
pub open spec fn rotated_entity(e: Entity, dt: int) -> Entity {
    Entity {
        pose: Pose {
            rotation: advance(e.pose.rotation as int, e.motion.angular as int, dt) as i64,
            ..e.pose
        },
        ..e
    }
}

/// The half-step form of the translation pass: translating an asteroid
/// twice for `dt / 2` lands it exactly where translating once for an even
/// `dt` does, whenever the coordinates stay in the machine range.
pub proof fn lemma_translate_half_steps(e: Entity, dt: int)
    requires
        0 <= dt,
        dt % 2 == 0,
        i64::MIN <= e.pose.x + e.motion.vx * (dt / 2) <= i64::MAX,
        i64::MIN <= e.pose.y + e.motion.vy * (dt / 2) <= i64::MAX,
        i64::MIN <= e.pose.x + e.motion.vx * dt <= i64::MAX,
        i64::MIN <= e.pose.y + e.motion.vy * dt <= i64::MAX,
    ensures
        translated_entity(translated_entity(e, dt / 2), dt / 2) == translated_entity(e, dt),
{
    lemma_advance_additive(e.pose.x as int, e.motion.vx as int, dt / 2, dt / 2);
    lemma_advance_additive(e.pose.y as int, e.motion.vy as int, dt / 2, dt / 2);
}

/// The half-step form of the rotation pass: rotating an asteroid twice
/// for `dt / 2` turns it exactly as rotating once for an even `dt` does,
/// whenever the angles stay in the machine range.
pub proof fn lemma_rotate_half_steps(e: Entity, dt: int)
    requires
        0 <= dt,
        dt % 2 == 0,
        i64::MIN <= e.pose.rotation + e.motion.angular * (dt / 2) <= i64::MAX,
        i64::MIN <= e.pose.rotation + e.motion.angular * dt <= i64::MAX,
    ensures
        rotated_entity(rotated_entity(e, dt / 2), dt / 2) == rotated_entity(e, dt),
{
    lemma_advance_additive(e.pose.rotation as int, e.motion.angular as int, dt / 2, dt / 2);
}

/// Every asteroid (entity without a control intent) translated by its
/// linear velocity for `dt`; the player is untouched.
pub fn move_asteroids(world: &mut World, dt: i64)
    requires
        0 <= dt <= 1_000_000,
        forall|i: int|
            0 <= i < old(world).entities@.len() && old(world).entities@[i].control.is_none()
                ==> abs(#[trigger] old(world).entities@[i].motion.vx as int) <= 2_000_000_000
                && abs(old(world).entities@[i].motion.vy as int) <= 2_000_000_000 && abs(
                old(world).entities@[i].pose.x as int,
            ) <= 4_000_000_000_000_000_000 && abs(old(world).entities@[i].pose.y as int)
                <= 4_000_000_000_000_000_000,
    ensures
        final(world).entities@.len() == old(world).entities@.len(),
        forall|i: int|
            0 <= i < old(world).entities@.len() && old(world).entities@[i].control.is_some()
                ==> final(world).entities@[i] == old(world).entities@[i],
        forall|i: int|
            0 <= i < old(world).entities@.len() && old(world).entities@[i].control.is_none()
                ==> final(world).entities@[i] == translated_entity(
                old(world).entities@[i],
                dt as int,
            ),
        final(world).config == old(world).config,
{
    let n = world.entities.len();
    let mut i: usize = 0;
    while i < n
        invariant
            i <= n,
            0 <= dt <= 1_000_000,
            n == old(world).entities@.len(),
            world.entities@.len() == n,
            world.config == old(world).config,
            forall|j: int| i <= j < n ==> world.entities@[j] == old(world).entities@[j],
            forall|j: int|
                0 <= j < i && old(world).entities@[j].control.is_some() ==> world.entities@[j]
                    == old(world).entities@[j],
            forall|j: int|
                0 <= j < i && old(world).entities@[j].control.is_none() ==> world.entities@[j]
                    == translated_entity(old(world).entities@[j], dt as int),
            forall|j: int|
                0 <= j < n && old(world).entities@[j].control.is_none() ==> abs(
                    #[trigger] old(world).entities@[j].motion.vx as int,
                ) <= 2_000_000_000 && abs(old(world).entities@[j].motion.vy as int)
                    <= 2_000_000_000 && abs(old(world).entities@[j].pose.x as int)
                    <= 4_000_000_000_000_000_000 && abs(old(world).entities@[j].pose.y as int)
                    <= 4_000_000_000_000_000_000,
        decreases n - i,
    {
        let e = world.entities[i];
        if e.control.is_none() {
            proof {
                assert(e == old(world).entities@[i as int]);
                assert(-2_000_000_000_000_000 <= (e.motion.vx as int) * (dt as int)
                    <= 2_000_000_000_000_000 && -2_000_000_000_000_000 <= (e.motion.vy as int)
                    * (dt as int) <= 2_000_000_000_000_000) by (nonlinear_arith)
                    requires
                        abs(e.motion.vx as int) <= 2_000_000_000,
                        abs(e.motion.vy as int) <= 2_000_000_000,
                        0 <= dt <= 1_000_000,
                ;
            }
            let nx: i64 = e.pose.x + e.motion.vx * dt;
            let ny: i64 = e.pose.y + e.motion.vy * dt;
            world.entities[i] = Entity {
                pose: Pose { x: nx, y: ny, layer: e.pose.layer, rotation: e.pose.rotation },
                ..e
            };
        }
        i = i + 1;
    }
}

/// Every asteroid rotated by its angular velocity for `dt`; the player is
/// untouched.
pub fn rotate_asteroids(world: &mut World, dt: i64)
    requires
        0 <= dt <= 1_000_000,
        forall|i: int|
            0 <= i < old(world).entities@.len() && old(world).entities@[i].control.is_none()
                ==> abs(#[trigger] old(world).entities@[i].motion.angular as int)
                <= 2_000_000_000 && abs(old(world).entities@[i].pose.rotation as int)
                <= 4_000_000_000_000_000_000,
    ensures
        final(world).entities@.len() == old(world).entities@.len(),
        forall|i: int|
            0 <= i < old(world).entities@.len() && old(world).entities@[i].control.is_some()
                ==> final(world).entities@[i] == old(world).entities@[i],
        forall|i: int|
            0 <= i < old(world).entities@.len() && old(world).entities@[i].control.is_none()
                ==> final(world).entities@[i] == rotated_entity(
                old(world).entities@[i],
                dt as int,
            ),
        final(world).config == old(world).config,
{
    let n = world.entities.len();
    let mut i: usize = 0;
    while i < n
        invariant
            i <= n,
            0 <= dt <= 1_000_000,
            n == old(world).entities@.len(),
            world.entities@.len() == n,
            world.config == old(world).config,
            forall|j: int| i <= j < n ==> world.entities@[j] == old(world).entities@[j],
            forall|j: int|
                0 <= j < i && old(world).entities@[j].control.is_some() ==> world.entities@[j]
                    == old(world).entities@[j],
            forall|j: int|
                0 <= j < i && old(world).entities@[j].control.is_none() ==> world.entities@[j]
                    == rotated_entity(old(world).entities@[j], dt as int),
            forall|j: int|
                0 <= j < n && old(world).entities@[j].control.is_none() ==> abs(
                    #[trigger] old(world).entities@[j].motion.angular as int,
                ) <= 2_000_000_000 && abs(old(world).entities@[j].pose.rotation as int)
                    <= 4_000_000_000_000_000_000,
        decreases n - i,
    {
        let e = world.entities[i];
        if e.control.is_none() {
            proof {
                assert(e == old(world).entities@[i as int]);
                assert(-2_000_000_000_000_000 <= (e.motion.angular as int) * (dt as int)
                    <= 2_000_000_000_000_000) by (nonlinear_arith)
                    requires
                        abs(e.motion.angular as int) <= 2_000_000_000,
                        0 <= dt <= 1_000_000,
                ;
            }
            let nr: i64 = e.pose.rotation + e.motion.angular * dt;
            world.entities[i] = Entity {
                pose: Pose {
                    x: e.pose.x,
                    y: e.pose.y,
                    layer: e.pose.layer,
                    rotation: nr,
                },
                ..e
            };
        }
        i = i + 1;
    }
}

} // verus!
