use asteroid_core::Config;
use asteroid_core::ControlIntent;
use asteroid_core::Entity;
use asteroid_core::LayerIds;
use asteroid_core::Motion;
use asteroid_core::Pose;
use asteroid_core::ScreenWrap;
use asteroid_core::TurnDir;
use asteroid_core::World;
use asteroid_core::WrapPolicy;
use asteroid_core::wrap_coordinate;
use asteroid_core::wrap_positions;
use asteroid_core::wrap_with_policy;

fn small_world_config() -> Config {
    Config {
        title: String::from("test world"),
        width: 800,
        height: 600,
        layer_ids: LayerIds { enemy: 3, player: 254 },
    }
}

fn asteroid_at(x: i64, y: i64, border_radius: i64) -> Entity {
    Entity {
        pose: Pose { x, y, layer: 0, rotation: 0 },
        motion: Motion { vx: 0, vy: 0, angular: 0 },
        control: None,
        wrap: Some(ScreenWrap { border_radius }),
    }
}

#[test]
fn wrap_scenario_800_by_600() {
    // Half extents 400 x 300, extent radius 10: effective bound 410.
    // At 405 no wrap occurs; at 415 the entity re-enters at -400.
    assert_eq!(wrap_coordinate(405, 400, 10), 405);
    assert_eq!(wrap_coordinate(415, 400, 10), -400);
}

#[test]
fn wrap_scenario_in_micro_units() {
    assert_eq!(
        wrap_coordinate(405_000_000, 400_000_000, 10_000_000),
        405_000_000
    );
    assert_eq!(
        wrap_coordinate(415_000_000, 400_000_000, 10_000_000),
        -400_000_000
    );
}

#[test]
fn wrap_boundary_cases() {
    // Exactly on the effective bound: untouched on both sides.
    assert_eq!(wrap_coordinate(410, 400, 10), 410);
    assert_eq!(wrap_coordinate(-410, 400, 10), -410);
    // One step beyond: re-enter with the same clearance.
    assert_eq!(wrap_coordinate(411, 400, 10), -400);
    assert_eq!(wrap_coordinate(-411, 400, 10), 400);
}

#[test]
fn wrap_single_application_recovers_and_is_idempotent() {
    for &coord in &[-2000i64, -411, -410, -35, 0, 35, 410, 411, 2000] {
        let once = wrap_coordinate(coord, 400, 10);
        assert!(-410 <= once && once <= 410);
        let twice = wrap_coordinate(once, 400, 10);
        assert_eq!(twice, once);
    }
}

#[test]
fn wrap_zero_extent_policy() {
    assert_eq!(wrap_with_policy(401, 400, WrapPolicy::Exact), -400);
    assert_eq!(wrap_with_policy(-401, 400, WrapPolicy::Exact), 400);
    assert_eq!(wrap_with_policy(400, 400, WrapPolicy::Exact), 400);
    assert_eq!(wrap_with_policy(399, 400, WrapPolicy::Exact), 399);
    assert_eq!(WrapPolicy::Exact.extent(), 0);
    assert_eq!(WrapPolicy::Extent(10).extent(), 10);
    // The extent policy agrees with the raw coordinate wrap.
    assert_eq!(
        wrap_with_policy(415, 400, WrapPolicy::Extent(10)),
        wrap_coordinate(415, 400, 10)
    );
}

#[test]
fn wrap_positions_reprojects_only_wrap_entities() {
    let mut world = World::new(small_world_config());
    world.entities.push(asteroid_at(415, -311, 10));
    let unwrapped = Entity {
        pose: Pose { x: 1000, y: 1000, layer: 1, rotation: 7 },
        motion: Motion { vx: 0, vy: 0, angular: 0 },
        control: Some(ControlIntent { turn: TurnDir::Straight, thrust: false }),
        wrap: None,
    };
    world.entities.push(unwrapped);
    wrap_positions(&mut world);
    assert_eq!(world.entities[0].pose.x, -400);
    assert_eq!(world.entities[0].pose.y, 300);
    assert_eq!(world.entities[1].pose.x, 1000);
    assert_eq!(world.entities[1].pose.y, 1000);
}

#[test]
fn screen_wrap_default_has_no_margin() {
    let sw = ScreenWrap::default();
    assert_eq!(sw.border_radius, 0);
}

#[test]
fn config_defaults() {
    let cfg = Config::default();
    assert_eq!(cfg.title, "ECS Asteroid");
    assert_eq!(cfg.width, 800_000_000);
    assert_eq!(cfg.height, 600_000_000);
    assert_eq!(cfg.layer_ids.enemy, 253);
    assert_eq!(cfg.layer_ids.player, 253);
}
