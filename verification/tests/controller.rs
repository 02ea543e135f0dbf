use locomotion::curves::inv_square;
use locomotion::fixed::Fixed;
use locomotion::motion_model::Turn;
use locomotion::movement_system::{movement_system, restart_curve, turn_kind, MovementState};
use locomotion::vec2::Vec2;

const ONE: i64 = 1 << 32;
/// One sixtieth of a second.
const DT: i64 = 71_582_788;

fn raw(v: i64) -> Fixed {
    Fixed::from_raw(v)
}

fn v(x: i64, y: i64) -> Vec2 {
    Vec2::new(raw(x), raw(y))
}

fn fl(x: Fixed) -> f64 {
    x.raw as f64 / 4_294_967_296.0
}

fn forward() -> Vec2 {
    v(0, ONE)
}

fn backward() -> Vec2 {
    v(0, -ONE)
}

fn right() -> Vec2 {
    v(ONE, 0)
}

fn none() -> Vec2 {
    Vec2::zero()
}

fn ticks(st: &mut MovementState, n: usize, dir: Vec2, falling: bool) {
    for _ in 0..n {
        movement_system(st, raw(DT), dir, falling);
    }
}

/// A body that has run forward for ten seconds.
fn at_top_speed() -> MovementState {
    let mut st = MovementState::default();
    ticks(&mut st, 600, forward(), false);
    st
}

fn squared_length(a: Vec2) -> i128 {
    (a.x.raw as i128) * (a.x.raw as i128) + (a.y.raw as i128) * (a.y.raw as i128)
}

fn is_unit(a: Vec2) -> bool {
    let d = squared_length(a) - (1_i128 << 64);
    -(1_i128 << 46) <= d && d <= (1_i128 << 46)
}

#[test]
fn initial_state_is_at_rest_with_the_stock_tuning() {
    let st = MovementState::default();
    assert_eq!(st.direction, forward());
    assert_eq!(st.speed, Fixed::zero());
    assert_eq!(st.velocity, Vec2::zero());
    assert!(!st.is_accelerating);
    assert_eq!(st.curve_time, Fixed::zero());
    assert_eq!(st.curve_start_speed, Fixed::zero());
    assert!(!st.turn_lock_active);
    assert_eq!(st.turn_lock_timer, Fixed::zero());
    assert_eq!(st.turn_lock_pending_direction, Vec2::zero());
    assert_eq!(st.fall_velocity_y, Fixed::zero());
    assert_eq!(st.max_speed, Fixed::from_int(6));
    assert_eq!(st.accel_rate, Fixed::from_int(6));
    assert_eq!(st.decel_rate, Fixed::from_int(6));
    assert_eq!(st.hard_turn_dot_threshold.raw, -3_036_541_878);
    assert_eq!(st.soft_turn_dot_threshold.raw, 3_036_541_878);
    assert_eq!(st.soft_turn_speed_factor.raw, ONE / 2);
    assert_eq!(st.stop_epsilon.raw, 85_899_345);
    assert_eq!(st.hard_turn_hold_time.raw, 429_496_729);
    assert_eq!(st.fall_decel_rate, Fixed::from_int(20));
    assert_eq!(st.gravity_accel, Fixed::from_int(-30));
}

#[test]
fn one_second_of_forward_input_reaches_the_ramp_value() {
    let mut st = MovementState::default();
    st.max_speed = Fixed::from_int(6);
    st.accel_rate = Fixed::from_int(6);
    ticks(&mut st, 60, forward(), false);
    let want = 6.0 * (1.0 - (-6.0_f64).exp());
    assert!((fl(st.speed) - want).abs() <= 0.01 * want);
    assert!((fl(st.speed) - 5.985).abs() <= 0.01 * 5.985);
    assert_eq!(st.speed.raw, 25_705_926_822);
    assert_eq!(st.curve_time.raw, 60 * DT);
    assert_eq!(st.velocity, v(0, 25_705_926_822));
    assert_eq!(st.direction, forward());
    assert!(st.is_accelerating);
}

#[test]
fn first_tick_of_input_follows_the_ramp_from_zero() {
    let mut st = MovementState::default();
    movement_system(&mut st, raw(DT), forward(), false);
    // 6 * (1 - e^(-0.1))
    assert_eq!(st.speed.raw, 2_452_321_050);
    assert!((fl(st.speed) - 6.0 * (1.0 - (-0.1_f64).exp())).abs() < 1.0e-7);
    assert_eq!(st.curve_time.raw, DT);
    assert_eq!(st.curve_start_speed, Fixed::zero());
}

#[test]
fn long_input_settles_at_the_top_speed() {
    let st = at_top_speed();
    assert_eq!(st.speed, Fixed::from_int(6));
    assert_eq!(st.velocity, v(0, 6 * ONE));
}

#[test]
fn direction_snaps_to_the_input_while_speed_ramps() {
    let mut st = MovementState::default();
    movement_system(&mut st, raw(DT), right(), false);
    assert_eq!(st.direction, right());
    assert_eq!(st.velocity, v(2_452_321_050, 0));
}

#[test]
fn malformed_direction_is_renormalised() {
    let mut long = MovementState::default();
    let mut unit = MovementState::default();
    movement_system(&mut long, raw(DT), v(0, 250 * ONE), false);
    movement_system(&mut unit, raw(DT), forward(), false);
    assert_eq!(long, unit);
}

#[test]
fn near_zero_direction_counts_as_no_input() {
    let mut tiny = at_top_speed();
    let mut idle = at_top_speed();
    movement_system(&mut tiny, raw(DT), v(1000, -1000), false);
    movement_system(&mut idle, raw(DT), none(), false);
    assert_eq!(tiny, idle);
    assert!(!tiny.is_accelerating);
}

#[test]
fn negative_time_counts_as_zero() {
    let mut back = at_top_speed();
    let mut still = at_top_speed();
    movement_system(&mut back, raw(-5 * ONE), none(), false);
    movement_system(&mut still, Fixed::zero(), none(), false);
    assert_eq!(back, still);
    let mut falling_back = at_top_speed();
    let mut falling_still = at_top_speed();
    movement_system(&mut falling_back, raw(i64::MIN), forward(), true);
    movement_system(&mut falling_still, Fixed::zero(), forward(), true);
    assert_eq!(falling_back, falling_still);
    assert_eq!(falling_back.fall_velocity_y, Fixed::zero());
}

#[test]
fn releasing_input_restarts_the_curve_from_the_current_speed() {
    let mut st = at_top_speed();
    let before = st.speed;
    movement_system(&mut st, raw(DT), none(), false);
    assert!(!st.is_accelerating);
    assert_eq!(st.curve_start_speed, before);
    assert_eq!(st.curve_time.raw, DT);
    // 6 / (1 + 6/60)^2
    assert_eq!(st.speed.raw, 21_297_358_506);
    assert!((fl(st.speed) - 6.0 / (1.1 * 1.1)).abs() < 1.0e-7);
    assert!(st.speed.raw <= before.raw);
    assert_eq!(st.direction, forward());
    assert_eq!(st.velocity, v(0, 21_297_358_506));
}

#[test]
fn regime_change_with_no_elapsed_time_keeps_the_speed() {
    let mut st = at_top_speed();
    ticks(&mut st, 3, none(), false);
    ticks(&mut st, 20, forward(), false);
    let before = st.speed;
    assert!(st.is_accelerating);
    movement_system(&mut st, Fixed::zero(), none(), false);
    assert!(!st.is_accelerating);
    assert_eq!(st.curve_time, Fixed::zero());
    assert_eq!(st.curve_start_speed, before);
    assert_eq!(st.speed, before);
}

#[test]
fn pressing_input_while_coasting_restarts_the_acceleration_ramp() {
    let mut st = at_top_speed();
    ticks(&mut st, 5, none(), false);
    assert_eq!(st.speed.raw, 11_453_246_148);
    let coasting = st.speed;
    movement_system(&mut st, raw(DT), forward(), false);
    assert!(st.is_accelerating);
    assert_eq!(st.curve_start_speed, coasting);
    assert_eq!(st.curve_time.raw, DT);
    assert_eq!(st.speed.raw, 2_452_321_050);
}

#[test]
fn coasting_snaps_to_rest_below_the_stop_threshold() {
    let mut st = at_top_speed();
    let mut n = 0;
    let mut last = st.speed.raw;
    while st.speed.raw > 0 {
        movement_system(&mut st, raw(DT), none(), false);
        assert!(st.speed.raw <= last);
        assert!(st.speed.raw == 0 || st.speed.raw >= st.stop_epsilon.raw);
        last = st.speed.raw;
        n += 1;
    }
    assert_eq!(n, 164);
    assert_eq!(st.velocity, Vec2::zero());
    assert_eq!(st.direction, forward());
}

#[test]
fn idle_tick_below_the_stop_threshold_gives_exactly_zero() {
    let mut st = MovementState::default();
    // Two ticks of a slow ramp leave the speed under the threshold.
    st.accel_rate = Fixed::from_ratio(1, 100);
    ticks(&mut st, 2, forward(), false);
    assert!(st.speed.raw > 0 && st.speed.raw < st.stop_epsilon.raw);
    let mut grounded = st;
    movement_system(&mut grounded, raw(DT), none(), false);
    assert_eq!(grounded.speed, Fixed::zero());
    assert_eq!(grounded.velocity, Vec2::zero());
    let mut falling = st;
    movement_system(&mut falling, raw(DT), none(), true);
    assert_eq!(falling.speed, Fixed::zero());
    assert_eq!(falling.velocity, Vec2::zero());
    let mut rested = MovementState::default();
    movement_system(&mut rested, raw(DT), none(), false);
    assert_eq!(rested.speed, Fixed::zero());
    assert_eq!(rested.velocity, Vec2::zero());
}

#[test]
fn reversal_at_speed_stops_and_locks() {
    let mut st = at_top_speed();
    movement_system(&mut st, raw(DT), backward(), false);
    assert_eq!(st.speed, Fixed::zero());
    assert_eq!(st.velocity, Vec2::zero());
    assert!(st.turn_lock_active);
    assert_eq!(st.turn_lock_timer, Fixed::zero());
    assert_eq!(st.turn_lock_pending_direction, backward());
    assert_eq!(st.direction, forward());
    assert!(!st.is_accelerating);
    assert_eq!(st.curve_time, Fixed::zero());
    assert_eq!(st.curve_start_speed, Fixed::zero());
}

#[test]
fn turn_lock_holds_for_the_hold_time_then_ramps_from_zero() {
    let mut st = at_top_speed();
    movement_system(&mut st, raw(DT), backward(), false);
    let mut held = 0_i64;
    let mut n = 0;
    while st.turn_lock_active {
        assert!(held < st.hard_turn_hold_time.raw);
        movement_system(&mut st, raw(DT), backward(), false);
        held += DT;
        n += 1;
        assert_eq!(st.speed, Fixed::zero());
        assert_eq!(st.velocity, Vec2::zero());
        if st.turn_lock_active {
            assert_eq!(st.turn_lock_timer.raw, held);
            assert_eq!(st.direction, forward());
        }
    }
    assert_eq!(n, 7);
    assert!(held >= st.hard_turn_hold_time.raw);
    assert_eq!(st.turn_lock_timer, Fixed::zero());
    assert_eq!(st.direction, backward());
    assert!(st.is_accelerating);
    assert_eq!(st.curve_time, Fixed::zero());
    assert_eq!(st.curve_start_speed, Fixed::zero());
    movement_system(&mut st, raw(DT), backward(), false);
    assert_eq!(st.speed.raw, 2_452_321_050);
    assert_eq!(st.velocity, v(0, -2_452_321_050));
}

#[test]
fn turn_lock_releases_on_the_tick_that_reaches_the_hold_time() {
    let mut st = at_top_speed();
    movement_system(&mut st, raw(DT), backward(), false);
    let just_short = st.hard_turn_hold_time.sub(raw(1));
    movement_system(&mut st, just_short, backward(), false);
    assert!(st.turn_lock_active);
    movement_system(&mut st, raw(1), backward(), false);
    assert!(!st.turn_lock_active);
    assert_eq!(st.speed, Fixed::zero());
    assert_eq!(st.direction, backward());
}

#[test]
fn pending_direction_follows_the_input_while_locked() {
    let mut st = at_top_speed();
    movement_system(&mut st, raw(DT), backward(), false);
    movement_system(&mut st, raw(DT), right(), false);
    assert!(st.turn_lock_active);
    assert_eq!(st.turn_lock_pending_direction, right());
    movement_system(&mut st, Fixed::from_int(1), v(-ONE, 0), false);
    assert!(!st.turn_lock_active);
    assert_eq!(st.direction, v(-ONE, 0));
}

#[test]
fn releasing_input_cancels_the_turn_lock() {
    let mut st = at_top_speed();
    movement_system(&mut st, raw(DT), backward(), false);
    movement_system(&mut st, raw(DT), backward(), false);
    assert!(st.turn_lock_active);
    movement_system(&mut st, raw(DT), none(), false);
    assert!(!st.turn_lock_active);
    assert_eq!(st.turn_lock_timer, Fixed::zero());
    assert_eq!(st.turn_lock_pending_direction, Vec2::zero());
    assert_eq!(st.speed, Fixed::zero());
    assert_eq!(st.velocity, Vec2::zero());
    assert!(!st.is_accelerating);
    assert_eq!(st.curve_time, Fixed::zero());
    assert_eq!(st.curve_start_speed, Fixed::zero());
    assert_eq!(st.direction, forward());
}

#[test]
fn cancelled_lock_stays_at_rest_until_input_arrives() {
    let mut st = at_top_speed();
    movement_system(&mut st, raw(DT), backward(), false);
    movement_system(&mut st, raw(DT), none(), false);
    for i in 0..200 {
        movement_system(&mut st, raw(DT), none(), i % 7 == 3);
        assert_eq!(st.speed, Fixed::zero());
        assert_eq!(st.velocity, Vec2::zero());
    }
    movement_system(&mut st, raw(DT), backward(), false);
    assert_eq!(st.speed.raw, 2_452_321_050);
    assert_eq!(st.direction, backward());
}

#[test]
fn moderate_turn_scales_the_speed_for_that_tick_only() {
    let mut st = at_top_speed();
    movement_system(&mut st, raw(DT), right(), false);
    assert_eq!(st.direction, right());
    assert!(!st.turn_lock_active);
    // Half of the ramp's value.
    assert_eq!(st.speed, Fixed::from_int(3));
    assert_eq!(st.velocity, v(3 * ONE, 0));
    // The input now agrees with the facing: no penalty is kept.
    movement_system(&mut st, raw(DT), right(), false);
    assert_eq!(st.speed, Fixed::from_int(6));
}

#[test]
fn moderate_turn_is_evaluated_afresh_on_every_tick() {
    let mut st = at_top_speed();
    let mut dir = right();
    for _ in 0..6 {
        movement_system(&mut st, raw(DT), dir, false);
        // Never a quarter: the factor does not compound.
        assert_eq!(st.speed, Fixed::from_int(3));
        dir = v(-dir.y.raw, dir.x.raw);
    }
}

#[test]
fn turns_are_classified_by_the_dot_product() {
    let st = at_top_speed();
    assert_eq!(turn_kind(&st, forward()), Turn::Straight);
    assert_eq!(turn_kind(&st, v(3_037_000_500, 3_037_000_500)), Turn::Straight);
    assert_eq!(turn_kind(&st, right()), Turn::Soft);
    assert_eq!(turn_kind(&st, v(-3_037_000_500, -3_037_000_500)), Turn::Hard);
    assert_eq!(turn_kind(&st, backward()), Turn::Hard);
    assert_eq!(turn_kind(&st, none()), Turn::Straight);
    let rest = MovementState::default();
    assert_eq!(turn_kind(&rest, backward()), Turn::Straight);
}

#[test]
fn thresholds_are_inclusive() {
    let mut st = at_top_speed();
    st.soft_turn_dot_threshold = Fixed::zero();
    assert_eq!(turn_kind(&st, right()), Turn::Soft);
    st.soft_turn_dot_threshold = raw(-1);
    assert_eq!(turn_kind(&st, right()), Turn::Straight);
    st.hard_turn_dot_threshold = Fixed::one().neg();
    assert_eq!(turn_kind(&st, backward()), Turn::Hard);
    st.hard_turn_dot_threshold = Fixed::one().neg().sub(raw(1));
    assert_eq!(turn_kind(&st, backward()), Turn::Soft);
}

#[test]
fn reversal_at_rest_does_not_lock() {
    let mut st = MovementState::default();
    movement_system(&mut st, raw(DT), backward(), false);
    assert!(!st.turn_lock_active);
    assert_eq!(st.direction, backward());
    assert_eq!(st.speed.raw, 2_452_321_050);
}

#[test]
fn falling_gains_gravity_down_to_the_terminal_speed() {
    let mut st = MovementState::default();
    let gain: i64 = -2_147_483_640;
    let terminal: i64 = -18 * ONE;
    for n in 1..=40_i64 {
        movement_system(&mut st, raw(DT), none(), true);
        assert_eq!(st.fall_velocity_y.raw, (n * gain).max(terminal));
    }
    assert_eq!(st.fall_velocity_y, Fixed::from_int(-18));
    movement_system(&mut st, raw(DT), none(), false);
    assert_eq!(st.fall_velocity_y, Fixed::zero());
}

#[test]
fn falling_bleeds_horizontal_speed_linearly() {
    let mut st = at_top_speed();
    movement_system(&mut st, raw(DT), backward(), true);
    // 6 - 20/60
    assert_eq!(st.speed.raw, 24_338_148_016);
    assert_eq!(st.velocity, v(0, 24_338_148_016));
    assert_eq!(st.direction, forward());
    assert!(!st.is_accelerating);
    assert!(!st.turn_lock_active);
    assert_eq!(st.curve_time, Fixed::zero());
    assert_eq!(st.curve_start_speed, st.speed);
    let mut n = 1;
    while st.speed.raw > 0 {
        movement_system(&mut st, raw(DT), backward(), true);
        n += 1;
    }
    assert_eq!(n, 18);
    assert_eq!(st.velocity, Vec2::zero());
}

#[test]
fn falling_clears_the_turn_lock() {
    let mut st = at_top_speed();
    movement_system(&mut st, raw(DT), backward(), false);
    assert!(st.turn_lock_active);
    movement_system(&mut st, raw(DT), backward(), true);
    assert!(!st.turn_lock_active);
    assert_eq!(st.turn_lock_timer, Fixed::zero());
    assert_eq!(st.turn_lock_pending_direction, Vec2::zero());
    assert_eq!(st.speed, Fixed::zero());
}

#[test]
fn landing_resumes_the_deceleration_from_the_bled_speed() {
    let mut st = at_top_speed();
    ticks(&mut st, 3, none(), true);
    let bled = st.speed;
    assert_eq!(bled.raw, 6 * ONE - 3 * 1_431_655_760);
    movement_system(&mut st, raw(DT), none(), false);
    assert_eq!(st.curve_start_speed, bled);
    assert_eq!(st.curve_time.raw, DT);
    assert_eq!(st.fall_velocity_y, Fixed::zero());
    assert!(st.speed.raw < bled.raw && st.speed.raw > 0);
}

#[test]
fn extreme_steps_saturate_without_failing() {
    let mut st = at_top_speed();
    movement_system(&mut st, raw(i64::MAX), forward(), false);
    assert_eq!(st.speed, Fixed::from_int(6));
    assert_eq!(st.curve_time.raw, i64::MAX);
    movement_system(&mut st, raw(i64::MAX), none(), false);
    assert_eq!(st.speed, Fixed::zero());
    movement_system(&mut st, raw(i64::MAX), none(), true);
    assert_eq!(st.fall_velocity_y, Fixed::from_int(-18));
    st.max_speed = raw(i64::MAX);
    movement_system(&mut st, raw(i64::MAX), none(), true);
    assert_eq!(st.fall_velocity_y.raw, i64::MIN);
}

#[test]
fn restart_curve_resets_only_on_a_change_of_regime() {
    let mut st = at_top_speed();
    let before = st;
    restart_curve(&mut st, true);
    assert_eq!(st, before);
    restart_curve(&mut st, false);
    assert!(!st.is_accelerating);
    assert_eq!(st.curve_time, Fixed::zero());
    assert_eq!(st.curve_start_speed, before.speed);
    assert_eq!(st.speed, before.speed);
}

#[test]
fn tuning_is_never_changed_by_a_tick() {
    let mut st = MovementState::default();
    st.max_speed = Fixed::from_ratio(7, 2);
    st.stop_epsilon = Fixed::from_ratio(1, 20);
    let tuned = st;
    let dirs = [forward(), right(), backward(), none(), v(-ONE, 0)];
    for i in 0..500 {
        movement_system(&mut st, raw(DT), dirs[(i / 13) % 5], i % 41 > 35);
        assert_eq!(st.max_speed, tuned.max_speed);
        assert_eq!(st.accel_rate, tuned.accel_rate);
        assert_eq!(st.decel_rate, tuned.decel_rate);
        assert_eq!(st.hard_turn_dot_threshold, tuned.hard_turn_dot_threshold);
        assert_eq!(st.soft_turn_dot_threshold, tuned.soft_turn_dot_threshold);
        assert_eq!(st.soft_turn_speed_factor, tuned.soft_turn_speed_factor);
        assert_eq!(st.stop_epsilon, tuned.stop_epsilon);
        assert_eq!(st.hard_turn_hold_time, tuned.hard_turn_hold_time);
        assert_eq!(st.fall_decel_rate, tuned.fall_decel_rate);
        assert_eq!(st.gravity_accel, tuned.gravity_accel);
    }
}

#[test]
fn invariants_hold_along_a_wandering_run() {
    let mut st = MovementState::default();
    let mut seed: u64 = 0x2545_f491_4f6c_dd1d;
    for _ in 0..20_000 {
        seed = seed.wrapping_mul(6_364_136_223_846_793_005).wrapping_add(1_442_695_040_888_963_407);
        let pick = (seed >> 33) % 16;
        let dir = match pick {
            0 => forward(),
            1 => backward(),
            2 => right(),
            3 => v(-ONE, 0),
            4 => v(ONE, ONE),
            5 => v(-ONE, ONE),
            6 => v(ONE, -ONE),
            7 => v(-ONE, -ONE),
            8 => v(12_345, 678),
            9 => v(3 * ONE, -4 * ONE),
            _ => none(),
        };
        let falling = (seed >> 40) % 9 == 0;
        let dt = ((seed >> 45) % 200_000_000) as i64 - 1_000_000;
        let before = st;
        movement_system(&mut st, raw(dt), dir, falling);
        assert!(st.speed.raw >= 0);
        assert!(st.speed.raw <= st.max_speed.raw);
        assert!(is_unit(st.direction));
        let want = if st.speed.raw > 0 { st.direction.scale(st.speed) } else { Vec2::zero() };
        assert_eq!(st.velocity, want);
        assert!(st.fall_velocity_y.raw <= 0);
        assert!(st.fall_velocity_y.raw >= -18 * ONE);
        assert!(st.curve_time.raw >= 0);
        assert!(st.curve_start_speed.raw >= 0);
        assert!(st.turn_lock_timer.raw >= 0);
        if !falling {
            assert_eq!(st.fall_velocity_y, Fixed::zero());
        } else {
            assert!(st.fall_velocity_y.raw <= before.fall_velocity_y.raw);
            assert!(st.speed.raw <= before.speed.raw);
        }
        if st.turn_lock_active {
            assert_eq!(st.speed, Fixed::zero());
        }
        if !st.is_accelerating && !st.turn_lock_active {
            let on_curve = st.curve_start_speed.mul(inv_square(st.curve_time, st.decel_rate));
            assert!(
                st.speed == on_curve
                    || (st.speed.raw == 0 && on_curve.raw < st.stop_epsilon.raw)
            );
        }
        if !falling && !st.turn_lock_active && before.is_accelerating != st.is_accelerating {
            assert_eq!(st.curve_start_speed, before.speed);
            assert_eq!(st.curve_time.raw, dt.max(0));
        }
    }
}

#[test]
fn retuning_between_ticks_keeps_the_invariants() {
    let mut st = MovementState::default();
    let dirs = [forward(), right(), none(), backward(), v(ONE, ONE), none()];
    for i in 0..3000_usize {
        match i % 37 {
            0 => st.max_speed = Fixed::from_ratio((i % 11) as i64, 2),
            5 => st.decel_rate = Fixed::from_ratio((i % 7) as i64, 3),
            9 => st.accel_rate = Fixed::from_ratio((i % 13) as i64 - 3, 2),
            14 => st.stop_epsilon = Fixed::from_ratio((i % 5) as i64, 50),
            18 => st.soft_turn_speed_factor = Fixed::from_ratio((i % 4) as i64, 3),
            22 => st.fall_decel_rate = Fixed::from_int((i % 30) as i32),
            27 => st.gravity_accel = Fixed::from_int(-((i % 40) as i32)),
            31 => st.hard_turn_hold_time = Fixed::from_ratio((i % 9) as i64, 20),
            _ => {}
        }
        movement_system(&mut st, raw(DT), dirs[(i / 17) % 6], i % 53 > 44);
        assert!(st.speed.raw >= 0);
        assert!(is_unit(st.direction));
        let want = if st.speed.raw > 0 { st.direction.scale(st.speed) } else { Vec2::zero() };
        assert_eq!(st.velocity, want);
        assert!(st.fall_velocity_y.raw <= 0);
        assert!(st.curve_time.raw >= 0 && st.curve_start_speed.raw >= 0);
    }
}

#[test]
fn held_input_depends_on_the_total_time_only() {
    let steps: [i64; 7] = [DT, 3 * DT, 1, 0, 500_000_000, DT / 7, 3_000_000_000];
    let total: i64 = steps.iter().sum();
    let mut many = MovementState::default();
    for dt in steps {
        movement_system(&mut many, raw(dt), v(ONE, ONE), false);
    }
    let mut once = MovementState::default();
    movement_system(&mut once, raw(total), v(ONE, ONE), false);
    assert_eq!(many.curve_time.raw, total);
    assert_eq!(many, once);
    assert_eq!(many.direction, v(3_037_000_500, 3_037_000_500));
}

#[test]
fn released_input_depends_on_the_total_time_only() {
    let steps: [i64; 6] = [DT, 2 * DT, 1, 0, 400_000_000, DT / 3];
    let total: i64 = steps.iter().sum();
    let mut many = at_top_speed();
    for dt in steps {
        movement_system(&mut many, raw(dt), none(), false);
    }
    let mut once = at_top_speed();
    movement_system(&mut once, raw(total), none(), false);
    assert_eq!(many, once);
    assert_eq!(many.curve_start_speed, Fixed::from_int(6));
    assert_eq!(many.speed, Fixed::from_int(6).mul(inv_square(raw(total), Fixed::from_int(6))));
}
