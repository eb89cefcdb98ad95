//! Core of a small 2D arcade simulation: kinematic integration, toroidal
//! screen wrap, player control mapping, and randomized asteroid spawning,
//! all over fixed-point integer units.
//!
//! Length is measured in micro-units (one world unit is 1_000_000), time in
//! milliseconds, linear velocity in micro-units per millisecond, angles in
//! micro-radians, and angular velocity in micro-radians per millisecond.

pub mod asteroid;
pub mod config;
pub mod fixed;
pub mod kinematics;
pub mod player;
pub mod screen_wrap;
pub mod world;

pub use asteroid::AsteroidConfig;
pub use asteroid::MIN_COMPONENT_SPEED;
pub use asteroid::move_asteroids;
pub use asteroid::rotate_asteroids;
pub use asteroid::spawn_asteroid;
pub use asteroid::spawn_asteroids;
pub use config::Config;
pub use config::ConfigError;
pub use config::LayerIds;
pub use fixed::scale_i64;
pub use kinematics::integrate;
pub use player::PlayerConfig;
pub use player::SingletonViolation;
pub use player::clamp_velocity;
pub use player::compute_intent;
pub use player::find_player;
pub use player::player_input;
pub use player::player_movement;
pub use player::player_steer;
pub use player::spawn_player;
pub use screen_wrap::ScreenWrap;
pub use screen_wrap::WrapPolicy;
pub use screen_wrap::wrap_coordinate;
pub use screen_wrap::wrap_with_policy;
pub use screen_wrap::wrap_positions;
pub use world::ControlIntent;
pub use world::Entity;
pub use world::Motion;
pub use world::Pose;
pub use world::TurnDir;
pub use world::World;
