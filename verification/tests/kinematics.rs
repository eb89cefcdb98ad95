use asteroid_core::Motion;
use asteroid_core::Pose;
use asteroid_core::clamp_velocity;
use asteroid_core::integrate;
use asteroid_core::scale_i64;

#[test]
fn integrate_advances_position_and_rotation() {
    let mut p = Pose { x: 10, y: 20, layer: 3, rotation: 30 };
    let m = Motion { vx: 2, vy: -3, angular: 5 };
    integrate(&mut p, &m, 7);
    assert_eq!(p.x, 24);
    assert_eq!(p.y, -1);
    assert_eq!(p.rotation, 65);
    assert_eq!(p.layer, 3);
}

#[test]
fn integrate_zero_dt_is_identity() {
    let mut p = Pose { x: -5, y: 9, layer: 0, rotation: -17 };
    let m = Motion { vx: 1000, vy: -1000, angular: 4 };
    integrate(&mut p, &m, 0);
    assert_eq!(p, Pose { x: -5, y: 9, layer: 0, rotation: -17 });
}

#[test]
fn integrate_two_half_steps_equal_one_full_step() {
    let m = Motion { vx: 123, vy: -457, angular: 89 };
    let start = Pose { x: 1_000_000, y: -2_000_000, layer: 5, rotation: 777 };
    for &dt in &[0i64, 2, 8, 16, 1000, 99998] {
        let mut once = start;
        integrate(&mut once, &m, dt);
        let mut twice = start;
        integrate(&mut twice, &m, dt / 2);
        integrate(&mut twice, &m, dt / 2);
        assert_eq!(once, twice);
    }
}

#[test]
fn scale_rounds_magnitude_toward_zero() {
    assert_eq!(scale_i64(100, 98, 100), 98);
    assert_eq!(scale_i64(-100, 98, 100), -98);
    assert_eq!(scale_i64(5, 98, 100), 4);
    assert_eq!(scale_i64(-5, 98, 100), -4);
    assert_eq!(scale_i64(7, 1, 2), 3);
    assert_eq!(scale_i64(0, 98, 100), 0);
}

#[test]
fn clamp_leaves_slow_velocity_alone() {
    assert_eq!(clamp_velocity(3, 4, 5), (3, 4));
    assert_eq!(clamp_velocity(-3, 4, 5), (-3, 4));
    assert_eq!(clamp_velocity(0, 0, 0), (0, 0));
    assert_eq!(clamp_velocity(0, 500_000, 500_000), (0, 500_000));
}

#[test]
fn clamp_scales_fast_velocity_down() {
    // |(30000, 40000)| = 50000; scaled by 500 / 50001 both components.
    assert_eq!(clamp_velocity(30_000, 40_000, 500), (299, 399));
    // Direction (signs) preserved.
    assert_eq!(clamp_velocity(-30_000, 40_000, 500), (-299, 399));
    // |(5, 0)| = 5 > 4: scaled by 4 / 6.
    assert_eq!(clamp_velocity(5, 0, 4), (3, 0));
    // The clamped magnitude never exceeds the limit.
    let (cx, cy) = clamp_velocity(2_000_000_000, 2_000_000_000, 500_000);
    assert!(cx * cx + cy * cy <= 500_000i64 * 500_000);
}
