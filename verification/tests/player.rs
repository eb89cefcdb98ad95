use asteroid_core::Config;
use asteroid_core::ControlIntent;
use asteroid_core::Entity;
use asteroid_core::Motion;
use asteroid_core::PlayerConfig;
use asteroid_core::Pose;
use asteroid_core::SingletonViolation;
use asteroid_core::TurnDir;
use asteroid_core::World;
use asteroid_core::compute_intent;
use asteroid_core::find_player;
use asteroid_core::player_input;
use asteroid_core::player_movement;
use asteroid_core::player_steer;
use asteroid_core::spawn_player;

fn plain_asteroid() -> Entity {
    Entity {
        pose: Pose { x: 11, y: 22, layer: 0, rotation: 33 },
        motion: Motion { vx: 1, vy: 2, angular: 3 },
        control: None,
        wrap: None,
    }
}

fn player_world() -> World {
    let mut world = World::new(Config::default());
    spawn_player(&mut world);
    world
}

#[test]
fn intent_maps_turn_keys_exclusively() {
    assert_eq!(compute_intent(true, false, false).turn, TurnDir::Left);
    assert_eq!(compute_intent(false, true, false).turn, TurnDir::Right);
    assert_eq!(compute_intent(false, false, false).turn, TurnDir::Straight);
    // Both turn keys held cancel out: no net turn.
    assert_eq!(compute_intent(true, true, false).turn, TurnDir::Straight);
    assert!(!compute_intent(true, true, false).thrust);
    assert!(compute_intent(false, false, true).thrust);
    assert_eq!(compute_intent(true, true, true).turn, TurnDir::Straight);
    assert!(compute_intent(true, true, true).thrust);
}

#[test]
fn spawned_player_rests_at_origin() {
    let world = player_world();
    assert_eq!(world.entities.len(), 1);
    let p = world.entities[0];
    assert_eq!(p.pose, Pose { x: 0, y: 0, layer: 253, rotation: 0 });
    assert_eq!(p.motion, Motion { vx: 0, vy: 0, angular: 0 });
    assert_eq!(
        p.control,
        Some(ControlIntent { turn: TurnDir::Straight, thrust: false })
    );
    assert_eq!(p.wrap, None);
}

#[test]
fn input_updates_the_single_player() {
    let mut world = player_world();
    world.entities.push(plain_asteroid());
    assert_eq!(player_input(&mut world, true, false, true), Ok(()));
    assert_eq!(
        world.entities[0].control,
        Some(ControlIntent { turn: TurnDir::Left, thrust: true })
    );
    // The asteroid is untouched.
    assert_eq!(world.entities[1], plain_asteroid());
}

#[test]
fn turn_left_raises_rotation_each_tick() {
    let mut world = player_world();
    let cfg = PlayerConfig::default();
    assert_eq!(player_input(&mut world, true, false, false), Ok(()));
    let mut last = world.entities[0].pose.rotation;
    for _ in 0..5 {
        let rot = player_steer(&mut world, &cfg, 16).unwrap();
        assert!(rot > last);
        assert_eq!(rot, last + cfg.rotation_speed * 16);
        last = rot;
    }
}

#[test]
fn turn_right_lowers_rotation_each_tick() {
    let mut world = player_world();
    let cfg = PlayerConfig::default();
    assert_eq!(player_input(&mut world, false, true, false), Ok(()));
    let rot = player_steer(&mut world, &cfg, 16).unwrap();
    assert_eq!(rot, -(cfg.rotation_speed * 16));
}

#[test]
fn thrust_resets_velocity_along_forward() {
    let mut world = player_world();
    let cfg = PlayerConfig::default();
    // Give the player some unrelated motion first.
    world.entities[0].motion.vx = -123_456;
    world.entities[0].motion.vy = 77;
    assert_eq!(player_input(&mut world, false, false, true), Ok(()));
    let rot = player_steer(&mut world, &cfg, 16).unwrap();
    assert_eq!(rot, 0);
    // Rotation 0: the body's nose points along +y, forward = (0, 1).
    assert_eq!(player_movement(&mut world, &cfg, 16, 0, 1_000_000), Ok(()));
    let p = world.entities[0];
    // Within one tick the velocity lies along forward, scaled by the
    // thrust speed, regardless of the velocity before.
    assert_eq!(p.motion.vx, 0);
    assert_eq!(p.motion.vy, cfg.thrust_speed);
    assert_eq!(p.pose.x, 0);
    assert_eq!(p.pose.y, cfg.thrust_speed * 16);
}

#[test]
fn coasting_decays_speed_until_rest() {
    let mut world = player_world();
    let cfg = PlayerConfig::default();
    world.entities[0].motion.vx = 100;
    world.entities[0].motion.vy = 0;
    assert_eq!(player_input(&mut world, false, false, false), Ok(()));
    let mut speeds: Vec<i64> = vec![100];
    for _ in 0..400 {
        assert_eq!(player_steer(&mut world, &cfg, 16).is_ok(), true);
        assert_eq!(player_movement(&mut world, &cfg, 16, 0, 1_000_000), Ok(()));
        speeds.push(world.entities[0].motion.vx);
    }
    // 100 * 0.98 truncated: 98, 96, 94, ...
    assert_eq!(speeds[1], 98);
    assert_eq!(speeds[2], 96);
    // Strictly decreasing while moving, then at rest for good.
    for w in speeds.windows(2) {
        assert!(w[1] < w[0] || (w[0] == 0 && w[1] == 0));
    }
    assert_eq!(*speeds.last().unwrap(), 0);
}

#[test]
fn player_wraps_at_exact_world_bound() {
    let mut world = player_world();
    let cfg = PlayerConfig::default();
    // Half width is 400_000_000; place the player just inside, moving right.
    world.entities[0].pose.x = 399_999_000;
    world.entities[0].motion.vx = 100_000;
    assert_eq!(player_input(&mut world, false, false, false), Ok(()));
    assert_eq!(player_steer(&mut world, &cfg, 16).is_ok(), true);
    assert_eq!(player_movement(&mut world, &cfg, 16, 0, 1_000_000), Ok(()));
    // 399_999_000 + 98_000 * 16 = 401_567_000 > 400_000_000: wrapped.
    assert_eq!(world.entities[0].pose.x, -400_000_000);
}

#[test]
fn find_player_reports_the_count() {
    let mut world = World::new(Config::default());
    world.entities.push(plain_asteroid());
    assert_eq!(
        find_player(&world.entities),
        Err(SingletonViolation { found: 0 })
    );
    spawn_player(&mut world);
    assert_eq!(find_player(&world.entities), Ok(1));
    spawn_player(&mut world);
    assert_eq!(
        find_player(&world.entities),
        Err(SingletonViolation { found: 2 })
    );
}

#[test]
fn zero_players_skip_tick_and_report_once() {
    let mut world = World::new(Config::default());
    world.entities.push(plain_asteroid());
    let cfg = PlayerConfig::default();
    let before: Vec<Entity> = world.entities.clone();
    // One control tick: the steer phase reports the anomaly, after which
    // the host skips the movement phase, so exactly one report is seen.
    let mut anomalies = 0;
    match player_steer(&mut world, &cfg, 16) {
        Ok(_) => panic!("expected a singleton violation"),
        Err(v) => {
            assert_eq!(v, SingletonViolation { found: 0 });
            anomalies += 1;
        }
    }
    assert_eq!(anomalies, 1);
    assert_eq!(world.entities, before);
}

#[test]
fn two_players_skip_tick_and_report_once() {
    let mut world = player_world();
    spawn_player(&mut world);
    world.entities[0].pose.x = 5;
    world.entities[1].pose.x = -5;
    let cfg = PlayerConfig::default();
    let before: Vec<Entity> = world.entities.clone();
    let mut anomalies = 0;
    match player_steer(&mut world, &cfg, 16) {
        Ok(_) => panic!("expected a singleton violation"),
        Err(v) => {
            assert_eq!(v, SingletonViolation { found: 2 });
            anomalies += 1;
        }
    }
    assert_eq!(anomalies, 1);
    assert_eq!(world.entities, before);
    // The movement phase alone would also leave the world untouched.
    assert_eq!(
        player_movement(&mut world, &cfg, 16, 0, 1_000_000),
        Err(SingletonViolation { found: 2 })
    );
    assert_eq!(world.entities, before);
    // So would the input phase.
    assert_eq!(
        player_input(&mut world, true, false, true),
        Err(SingletonViolation { found: 2 })
    );
    assert_eq!(world.entities, before);
}

#[test]
fn player_config_defaults() {
    let cfg = PlayerConfig::default();
    assert_eq!(cfg.radius, 25_000_000);
    assert_eq!(cfg.rotation_speed, 5_000);
    assert_eq!(cfg.thrust_speed, 300_000);
    assert_eq!(cfg.max_speed, 500_000);
    assert_eq!(cfg.friction_num, 98);
    assert_eq!(cfg.friction_den, 100);
}
