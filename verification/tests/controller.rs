use rcs_flight::body::RigidBodyState;
use rcs_flight::controller::{
    angular_damping, apply_force_to_player, control, damping_torque, update_controls,
    ControlInput, ControlOutput, ControlPolicy, ThrustProfile, ACTIVE_DAMPING,
};
use rcs_flight::fixed::SCALE;
use rcs_flight::rotation::Quat;
use rcs_flight::vector::Vec3;

const QUARTER_TURN: Quat = Quat { x: 0, y: 0, z: 759_250_125, w: 759_250_125 };

fn ship(orientation: Quat) -> RigidBodyState {
    RigidBodyState::at_rest(Vec3::zero(), orientation)
}

fn spinning(orientation: Quat, omega: i64) -> RigidBodyState {
    RigidBodyState {
        position: Vec3::zero(),
        orientation,
        linear_velocity: Vec3::zero(),
        angular_velocity: Vec3::new(0, 0, omega),
    }
}

fn ship_profile() -> ThrustProfile {
    ThrustProfile::new(10_000, 10_000).unwrap()
}

fn tug_profile() -> ThrustProfile {
    ThrustProfile::new(500 * SCALE, 500 * SCALE).unwrap()
}

fn norm_sq(v: Vec3) -> i128 {
    let (x, y, z) = (v.x as i128, v.y as i128, v.z as i128);
    x * x + y * y + z * z
}

fn input_from_bits(bits: u32) -> ControlInput {
    ControlInput {
        forward: bits & 1 != 0,
        back: bits & 2 != 0,
        left: bits & 4 != 0,
        right: bits & 8 != 0,
        up: bits & 16 != 0,
        down: bits & 32 != 0,
        roll_left: bits & 64 != 0,
        roll_right: bits & 128 != 0,
        pitch_up: bits & 256 != 0,
        pitch_down: bits & 512 != 0,
        yaw_left: bits & 1024 != 0,
        yaw_right: bits & 2048 != 0,
        damping: bits & 4096 != 0,
        damping_released: bits & 8192 != 0,
    }
}

#[test]
fn ship_without_keys_emits_exact_zero() {
    let body = ship(QUARTER_TURN);
    let out = update_controls(Some(&body), 0, &ControlInput::none(), &ship_profile()).unwrap();
    assert_eq!(out.impulse.linear, Vec3::zero());
    assert_eq!(out.impulse.angular, Vec3::zero());
    assert_eq!(out.angular_damping, 0);
}

#[test]
fn ship_missing_means_no_output() {
    let mut input = ControlInput::none();
    input.forward = true;
    assert_eq!(update_controls(None, 0, &input, &ship_profile()), None);
}

#[test]
fn ship_forward_is_minus_z() {
    let mut input = ControlInput::none();
    input.forward = true;
    let out = update_controls(Some(&ship(Quat::identity())), 0, &input, &ship_profile()).unwrap();
    assert_eq!(out.impulse.linear, Vec3::new(0, 0, -10_000));
    assert_eq!(out.impulse.angular, Vec3::zero());
}

#[test]
fn ship_axis_mapping_of_every_key() {
    let body = ship(Quat::identity());
    let profile = ship_profile();
    let cases: [(u32, Vec3, Vec3); 12] = [
        (1, Vec3::new(0, 0, -10_000), Vec3::zero()),
        (2, Vec3::new(0, 0, 10_000), Vec3::zero()),
        (4, Vec3::new(-10_000, 0, 0), Vec3::zero()),
        (8, Vec3::new(10_000, 0, 0), Vec3::zero()),
        (16, Vec3::new(0, 10_000, 0), Vec3::zero()),
        (32, Vec3::new(0, -10_000, 0), Vec3::zero()),
        (64, Vec3::zero(), Vec3::new(0, 0, 10_000)),
        (128, Vec3::zero(), Vec3::new(0, 0, -10_000)),
        (256, Vec3::zero(), Vec3::new(-10_000, 0, 0)),
        (512, Vec3::zero(), Vec3::new(10_000, 0, 0)),
        (1024, Vec3::zero(), Vec3::new(0, 10_000, 0)),
        (2048, Vec3::zero(), Vec3::new(0, -10_000, 0)),
    ];
    for (bits, linear, angular) in cases {
        let out = update_controls(Some(&body), 0, &input_from_bits(bits), &profile).unwrap();
        assert_eq!(out.impulse.linear, linear);
        assert_eq!(out.impulse.angular, angular);
    }
}

#[test]
fn ship_opposed_keys_cancel() {
    let out = update_controls(
        Some(&ship(Quat::identity())),
        0,
        &input_from_bits(1 | 2 | 4 | 8 | 16 | 32),
        &ship_profile(),
    )
    .unwrap();
    assert_eq!(out.impulse.linear, Vec3::zero());
}

#[test]
fn ship_two_axes_are_clamped_to_the_strength() {
    let out = update_controls(
        Some(&ship(Quat::identity())),
        0,
        &input_from_bits(1 | 8),
        &ship_profile(),
    )
    .unwrap();
    assert_eq!(out.impulse.linear, Vec3::new(7_070, 0, -7_070));
}

#[test]
fn ship_three_axes_are_clamped_to_the_strength() {
    let out = update_controls(
        Some(&ship(Quat::identity())),
        0,
        &input_from_bits(2 | 8 | 16 | 64 | 512 | 1024),
        &ship_profile(),
    )
    .unwrap();
    assert_eq!(out.impulse.linear, Vec3::new(5_773, 5_773, 5_773));
    assert_eq!(out.impulse.angular, Vec3::new(5_773, 5_773, 5_773));
}

#[test]
fn ship_thrust_follows_its_own_axes() {
    // A quarter turn about z takes the ship's +x to the world's +y.
    let out = update_controls(
        Some(&ship(QUARTER_TURN)),
        0,
        &input_from_bits(8),
        &ship_profile(),
    )
    .unwrap();
    assert_eq!(out.impulse.linear, Vec3::new(0, 10_000, 0));
    let out = update_controls(
        Some(&ship(QUARTER_TURN)),
        0,
        &input_from_bits(1 | 8),
        &ship_profile(),
    )
    .unwrap();
    assert_eq!(out.impulse.linear, Vec3::new(0, 7_070, -7_070));
}

#[test]
fn ship_impulses_never_exceed_the_strength() {
    let profile = ship_profile();
    let limit = (profile.thrust as i128) * (profile.thrust as i128);
    let orientations = [
        Quat::identity(),
        QUARTER_TURN,
        Quat::new(196_037_555, 392_075_109, 588_112_664, 784_150_111).unwrap(),
        Quat::new(1, -2, 3, -4).unwrap(),
    ];
    for orientation in orientations {
        let body = ship(orientation);
        for bits in 0..4096u32 {
            let out = update_controls(Some(&body), 0, &input_from_bits(bits), &profile).unwrap();
            assert!(norm_sq(out.impulse.linear) <= limit);
            assert!(norm_sq(out.impulse.angular) <= limit);
        }
    }
}

#[test]
fn passive_damping_is_raised_while_held_and_cleared_on_release() {
    let mut held = ControlInput::none();
    held.damping = true;
    let mut released = ControlInput::none();
    released.damping_released = true;
    assert_eq!(ACTIVE_DAMPING, 5 * SCALE);
    assert_eq!(angular_damping(&held, 0), 5 * SCALE);
    assert_eq!(angular_damping(&held, 123), 5 * SCALE);
    assert_eq!(angular_damping(&released, 5 * SCALE), 0);
    assert_eq!(angular_damping(&ControlInput::none(), 5 * SCALE), 5 * SCALE);
    assert_eq!(angular_damping(&ControlInput::none(), 77), 77);
    // Held wins over a release in the same tick.
    held.damping_released = true;
    assert_eq!(angular_damping(&held, 0), 5 * SCALE);
}

#[test]
fn ship_output_carries_the_damping_coefficient() {
    let mut held = ControlInput::none();
    held.damping = true;
    let body = ship(Quat::identity());
    let out = update_controls(Some(&body), 0, &held, &ship_profile()).unwrap();
    assert_eq!(out.angular_damping, 5 * SCALE);
    assert_eq!(out.impulse.linear, Vec3::zero());
    assert_eq!(out.impulse.angular, Vec3::zero());
}

#[test]
fn tug_without_keys_emits_exact_zero() {
    let body = spinning(QUARTER_TURN, 3 * SCALE);
    let out = apply_force_to_player(&body, &ControlInput::none(), &tug_profile());
    assert_eq!(out.linear, Vec3::zero());
    assert_eq!(out.angular, Vec3::zero());
}

#[test]
fn tug_axis_mapping_of_every_key() {
    let body = spinning(Quat::identity(), 0);
    let profile = tug_profile();
    let t = 500 * SCALE;
    let cases: [(u32, Vec3, i64); 6] = [
        (1, Vec3::new(0, t, 0), 0),
        (2, Vec3::new(0, -t, 0), 0),
        (4, Vec3::new(-t, 0, 0), 0),
        (8, Vec3::new(t, 0, 0), 0),
        (64, Vec3::zero(), t),
        (128, Vec3::zero(), -t),
    ];
    for (bits, linear, torque) in cases {
        let out = apply_force_to_player(&body, &input_from_bits(bits), &profile);
        assert_eq!(out.linear, linear);
        assert_eq!(out.angular, Vec3::new(0, 0, torque));
    }
}

#[test]
fn tug_diagonal_thrust_is_clamped() {
    let out = apply_force_to_player(
        &spinning(Quat::identity(), 0),
        &input_from_bits(1 | 8),
        &tug_profile(),
    );
    assert_eq!(out.linear, Vec3::new(353_553_390, 353_553_390, 0));
    let out =
        apply_force_to_player(&spinning(QUARTER_TURN, 0), &input_from_bits(1 | 8), &tug_profile());
    assert_eq!(out.linear, Vec3::new(-353_553_390, 353_553_390, 0));
}

#[test]
fn tug_impulses_never_exceed_their_bounds() {
    let profile = tug_profile();
    let limit = (profile.thrust as i128) * (profile.thrust as i128);
    for omega in [-3 * SCALE, -SCALE / 3, 0, 1, SCALE / 2, 2 * SCALE] {
        for orientation in [Quat::identity(), QUARTER_TURN, Quat::new(0, 0, 3, 4).unwrap()] {
            let body = spinning(orientation, omega);
            for bits in 0..16384u32 {
                let out = apply_force_to_player(&body, &input_from_bits(bits), &profile);
                assert!(norm_sq(out.linear) <= limit);
                assert_eq!(out.linear.z, 0);
                assert!(out.angular.z.abs() <= 2 * profile.torque);
                assert_eq!((out.angular.x, out.angular.y), (0, 0));
            }
        }
    }
}

#[test]
fn counter_torque_opposes_a_fast_spin_at_full_strength() {
    // Spinning at 2.0 with a torque of 500: the torque opposes the spin and
    // stays within twice the configured torque.
    let mut input = ControlInput::none();
    input.damping = true;
    let out = apply_force_to_player(&spinning(Quat::identity(), 2 * SCALE), &input, &tug_profile());
    assert_eq!(out.angular, Vec3::new(0, 0, -500 * SCALE));
    assert!(out.angular.z < 0);
    assert!(out.angular.z.abs() <= 1000 * SCALE);
    let out =
        apply_force_to_player(&spinning(Quat::identity(), -2 * SCALE), &input, &tug_profile());
    assert_eq!(out.angular, Vec3::new(0, 0, 500 * SCALE));
}

#[test]
fn counter_torque_is_boosted_for_a_slow_spin() {
    // 0.5 * 500 * (1 + (1 - 0.5)) = 375
    assert_eq!(damping_torque(SCALE / 2, 500 * SCALE), -375 * SCALE);
    // 0.25 * 500 * (1 + (1 - 0.25)) = 218.75
    assert_eq!(damping_torque(-SCALE / 4, 500 * SCALE), 218_750_000);
    // One step of spin: 0.000001 * 500 * 1.999999, rounded to the step.
    assert_eq!(damping_torque(1, 500 * SCALE), -1_000);
    assert_eq!(damping_torque(0, 500 * SCALE), 0);
    assert_eq!(damping_torque(SCALE, 500 * SCALE), -500 * SCALE);
    assert_eq!(damping_torque(i64::MAX, 500 * SCALE), -500 * SCALE);
    assert_eq!(damping_torque(i64::MIN, 500 * SCALE), 500 * SCALE);
    assert_eq!(damping_torque(2 * SCALE, 0), 0);
}

#[test]
fn counter_torque_replaces_the_rotation_keys() {
    let mut input = ControlInput::none();
    input.damping = true;
    input.roll_left = true;
    let out = apply_force_to_player(&spinning(Quat::identity(), SCALE / 2), &input, &tug_profile());
    assert_eq!(out.angular, Vec3::new(0, 0, -375 * SCALE));
    let out = apply_force_to_player(&spinning(Quat::identity(), 0), &input, &tug_profile());
    assert_eq!(out.angular, Vec3::zero());
}

#[test]
fn profile_rejects_what_is_no_magnitude() {
    assert_eq!(ThrustProfile::new(-1, 0), None);
    assert_eq!(ThrustProfile::new(0, -1), None);
    assert_eq!(ThrustProfile::new(i64::MAX, 0), None);
    assert_eq!(ThrustProfile::new(0, 0), Some(ThrustProfile { thrust: 0, torque: 0 }));
    assert_eq!(
        ThrustProfile::new(1 << 60, 1 << 60),
        Some(ThrustProfile { thrust: 1 << 60, torque: 1 << 60 })
    );
    assert_eq!(ThrustProfile::new((1 << 60) + 1, 0), None);
}

#[test]
fn zero_strength_emits_nothing() {
    let profile = ThrustProfile::new(0, 0).unwrap();
    let out =
        update_controls(Some(&ship(QUARTER_TURN)), 0, &input_from_bits(1 | 8 | 64), &profile)
            .unwrap();
    assert_eq!(out.impulse.linear, Vec3::zero());
    assert_eq!(out.impulse.angular, Vec3::zero());
}

#[test]
fn policy_selects_the_controller() {
    let body = spinning(QUARTER_TURN, SCALE / 2);
    let profile = tug_profile();
    for bits in [0u32, 1, 8, 64, 1 | 8, 4096, 4096 | 64, 8192, 16 | 256] {
        let input = input_from_bits(bits);
        assert_eq!(
            control(ControlPolicy::Ship, Some(&body), 42, &input, &profile),
            update_controls(Some(&body), 42, &input, &profile)
        );
        assert_eq!(
            control(ControlPolicy::Tug, Some(&body), 42, &input, &profile),
            Some(ControlOutput {
                impulse: apply_force_to_player(&body, &input, &profile),
                angular_damping: 42,
            })
        );
        assert_eq!(control(ControlPolicy::Ship, None, 42, &input, &profile), None);
        assert_eq!(control(ControlPolicy::Tug, None, 42, &input, &profile), None);
    }
}

#[test]
fn policies_differ_in_how_they_damp() {
    let body = spinning(Quat::identity(), 2 * SCALE);
    let mut input = ControlInput::none();
    input.damping = true;
    let ship = control(ControlPolicy::Ship, Some(&body), 0, &input, &tug_profile()).unwrap();
    assert_eq!(ship.impulse.angular, Vec3::zero());
    assert_eq!(ship.angular_damping, ACTIVE_DAMPING);
    let tug = control(ControlPolicy::Tug, Some(&body), 0, &input, &tug_profile()).unwrap();
    assert_eq!(tug.impulse.angular, Vec3::new(0, 0, -500 * SCALE));
    assert_eq!(tug.angular_damping, 0);
}

#[test]
fn emitted_impulse_turned_back_is_what_the_keys_asked_for() {
    let profile = ship_profile();
    let orientations = [
        Quat::identity(),
        QUARTER_TURN,
        Quat::new(196_037_555, 392_075_109, 588_112_664, 784_150_111).unwrap(),
    ];
    // One key at a time: the limit leaves the impulse alone.
    let asked = [
        (1u32, Vec3::new(0, 0, -10_000)),
        (8, Vec3::new(10_000, 0, 0)),
        (32, Vec3::new(0, -10_000, 0)),
    ];
    for q in orientations {
        for (bits, local) in asked {
            let out = update_controls(Some(&ship(q)), 0, &input_from_bits(bits), &profile).unwrap();
            let back = q.inverse().rotate(out.impulse.linear);
            assert!((back.x - local.x).abs() <= 1);
            assert!((back.y - local.y).abs() <= 1);
            assert!((back.z - local.z).abs() <= 1);
        }
    }
    let out = update_controls(Some(&ship(QUARTER_TURN)), 0, &input_from_bits(8), &profile).unwrap();
    assert_eq!(QUARTER_TURN.inverse().rotate(out.impulse.linear), Vec3::new(10_000, 0, 0));
}
