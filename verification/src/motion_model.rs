//! The mathematical model of the motion controller: the state as a record of
//! raw integers, and one tick as a function from state and input to the next
//! state.
//!
//! A tick takes the elapsed time, the desired direction and whether the body
//! is unsupported. It falls under exactly one of four cases, tried in this
//! order: falling; grounded with the turn lock active; grounded and reversing
//! sharply, which enters the turn lock; grounded otherwise, where the speed
//! follows the active curve.

use crate::curves::{accel_ramp, decel_ramp};
use crate::fixed::{clamp_int, in_range, max_int, one, sat_add, sat_div, sat_mul, sat_sub};
use crate::vec2::{dot_spec, is_unit, normalize_or_zero_spec, scale_spec, zero_vec, Vec2Model};
use vstd::prelude::*;

verus! {

/// The model of the motion state: every scalar as its raw integer.
pub struct MotionModel {
    /// Last adopted unit movement direction; kept while the speed is zero.
    pub direction: Vec2Model,
    /// Current scalar speed.
    pub speed: int,
    /// `direction * speed`, or the zero vector at rest.
    pub velocity: Vec2Model,
    /// Whether the acceleration ramp is the active curve.
    pub is_accelerating: bool,
    /// How long the active curve has run.
    pub curve_time: int,
    /// The speed from which the deceleration ramp decays.
    pub curve_start_speed: int,
    /// Whether a sharp reversal is holding the body still.
    pub turn_lock_active: bool,
    /// How long the turn lock has held.
    pub turn_lock_timer: int,
    /// The direction to adopt when the turn lock releases.
    pub turn_lock_pending_direction: Vec2Model,
    /// Vertical speed while falling; zero on the ground.
    pub fall_velocity_y: int,
    /// Top speed on the ground.
    pub max_speed: int,
    /// Rate of the acceleration ramp.
    pub accel_rate: int,
    /// Rate of the deceleration ramp.
    pub decel_rate: int,
    /// Dot products at or below this value are sharp reversals.
    pub hard_turn_dot_threshold: int,
    /// Dot products at or below this value are moderate turns.
    pub soft_turn_dot_threshold: int,
    /// Factor applied to the speed on a tick with a moderate turn.
    pub soft_turn_speed_factor: int,
    /// Speeds below this value snap to zero.
    pub stop_epsilon: int,
    /// How long a sharp reversal holds the body still.
    pub hard_turn_hold_time: int,
    /// Loss of horizontal speed per second while falling.
    pub fall_decel_rate: int,
    /// Vertical acceleration while falling; negative is downward.
    pub gravity_accel: int,
}

/// How the desired direction relates to the current one on a grounded tick.
#[derive(Clone, Copy, Debug, PartialEq, Eq, Structural)]
pub enum Turn {
    /// No penalty: the body is at rest, no input is held, or the change of
    /// direction is small.
    Straight,
    /// A moderate turn: the speed is reduced for this tick.
    Soft,
    /// A sharp reversal: the body stops and the turn lock engages.
    Hard,
}

/// Whether `desired_direction` holds an input: whether it is long enough to
/// be normalised.
pub open spec fn has_input(desired_direction: Vec2Model) -> bool {
    normalize_or_zero_spec(desired_direction) != zero_vec()
}

/// The elapsed time of a tick; negative times count as zero.
pub open spec fn elapsed(dt: int) -> int {
    max_int(dt, 0)
}

/// The velocity that belongs to a direction and a speed.
pub open spec fn velocity_of(direction: Vec2Model, speed: int) -> Vec2Model {
    if speed > 0 {
        scale_spec(direction, speed)
    } else {
        zero_vec()
    }
}

/// The terminal vertical speed: three times the top speed, downward.
pub open spec fn terminal_fall_velocity(max_speed: int) -> int {
    sat_mul(-3 * one(), max_speed)
}

/// The speed on the acceleration ramp after time `t`.
pub open spec fn accel_speed(max_speed: int, t: int, rate: int) -> int {
    sat_mul(max_speed, clamp_int(accel_ramp(t, rate), 0, one()))
}

/// The speed on the deceleration ramp after time `t`, starting from
/// `start_speed`.
pub open spec fn decel_speed(start_speed: int, t: int, rate: int) -> int {
    sat_mul(start_speed, decel_ramp(t, rate))
}

/// The speed that the active curve of `s` gives at its current time.
pub open spec fn curve_speed(s: MotionModel) -> int {
    if s.is_accelerating {
        accel_speed(s.max_speed, s.curve_time, s.accel_rate)
    } else {
        decel_speed(s.curve_start_speed, s.curve_time, s.decel_rate)
    }
}

/// Whether the body counts as moving.
pub open spec fn is_moving(s: MotionModel) -> bool {
    s.speed > s.stop_epsilon
}

/// The dot product between the current unit direction and `desired`.
pub open spec fn turn_dot(s: MotionModel, desired: Vec2Model) -> int {
    dot_spec(normalize_or_zero_spec(s.direction), desired)
}

/// The kind of turn that `desired` asks of `s`.
pub open spec fn classify_turn(s: MotionModel, desired: Vec2Model) -> Turn {
    if is_moving(s) && desired != zero_vec() {
        let dot = turn_dot(s, desired);
        if dot <= s.hard_turn_dot_threshold {
            Turn::Hard
        } else if dot <= s.soft_turn_dot_threshold {
            Turn::Soft
        } else {
            Turn::Straight
        }
    } else {
        Turn::Straight
    }
}

/// `s` with the curve switched to the given regime: on a change of regime
/// the curve time returns to zero and the curve starts from the current
/// speed; otherwise nothing changes.
pub open spec fn restart_curve_spec(s: MotionModel, accelerating: bool) -> MotionModel {
    if s.is_accelerating != accelerating {
        MotionModel {
            is_accelerating: accelerating,
            curve_time: 0,
            curve_start_speed: s.speed,
            ..s
        }
    } else {
        s
    }
}

/// A tick while falling: the horizontal speed bleeds off linearly, the
/// vertical speed gains gravity down to the terminal speed, and the curve
/// and the turn lock are made inert.
pub open spec fn fall_step(s: MotionModel, dt: int) -> MotionModel {
    let bled = max_int(sat_sub(s.speed, sat_mul(s.fall_decel_rate, dt)), 0);
    let speed = if bled <= s.stop_epsilon {
        0
    } else {
        bled
    };
    MotionModel {
        speed,
        velocity: velocity_of(s.direction, speed),
        fall_velocity_y: max_int(
            sat_add(s.fall_velocity_y, sat_mul(s.gravity_accel, dt)),
            terminal_fall_velocity(s.max_speed),
        ),
        is_accelerating: false,
        curve_time: 0,
        curve_start_speed: speed,
        turn_lock_active: false,
        turn_lock_timer: 0,
        turn_lock_pending_direction: zero_vec(),
        ..s
    }
}

/// `s` brought to a hard stop with the turn lock cleared.
pub open spec fn cancel_turn_lock(s: MotionModel) -> MotionModel {
    MotionModel {
        turn_lock_active: false,
        turn_lock_timer: 0,
        turn_lock_pending_direction: zero_vec(),
        speed: 0,
        velocity: zero_vec(),
        is_accelerating: false,
        curve_time: 0,
        curve_start_speed: 0,
        ..s
    }
}

/// A grounded tick with the turn lock active and `desired` already
/// normalised. Without input the lock cancels. With input the body stays
/// still while the timer runs; once the timer reaches the hold time the lock
/// releases, the pending direction is adopted and the acceleration ramp
/// starts afresh.
pub open spec fn locked_step(s: MotionModel, dt: int, desired: Vec2Model) -> MotionModel {
    if desired == zero_vec() {
        cancel_turn_lock(s)
    } else {
        let timer = sat_add(s.turn_lock_timer, dt);
        if timer >= s.hard_turn_hold_time {
            MotionModel {
                turn_lock_pending_direction: desired,
                turn_lock_active: false,
                turn_lock_timer: 0,
                speed: 0,
                velocity: zero_vec(),
                direction: desired,
                is_accelerating: true,
                curve_time: 0,
                curve_start_speed: 0,
                ..s
            }
        } else {
            MotionModel {
                turn_lock_pending_direction: desired,
                turn_lock_timer: timer,
                speed: 0,
                velocity: zero_vec(),
                ..s
            }
        }
    }
}

/// `s` stopped by a sharp reversal toward `desired`, with the turn lock
/// engaged.
pub open spec fn enter_turn_lock(s: MotionModel, desired: Vec2Model) -> MotionModel {
    MotionModel {
        speed: 0,
        velocity: zero_vec(),
        is_accelerating: false,
        curve_time: 0,
        curve_start_speed: 0,
        turn_lock_active: true,
        turn_lock_timer: 0,
        turn_lock_pending_direction: desired,
        ..s
    }
}

/// A grounded tick without a sharp reversal, with `desired` already
/// normalised. The direction snaps to the input, the curve follows the
/// regime that the input selects, a moderate turn scales the speed of this
/// tick, and without input a speed below the stop threshold snaps to zero.
pub open spec fn ground_step(
    s: MotionModel,
    dt: int,
    desired: Vec2Model,
    soft_turn: bool,
) -> MotionModel {
    let has_input = desired != zero_vec();
    let direction = if has_input {
        desired
    } else {
        s.direction
    };
    let restarted = restart_curve_spec(s, has_input);
    let timed = MotionModel { curve_time: sat_add(restarted.curve_time, dt), ..restarted };
    let on_curve = curve_speed(timed);
    let turned = if soft_turn {
        sat_mul(on_curve, s.soft_turn_speed_factor)
    } else {
        on_curve
    };
    let speed = if !has_input && turned < s.stop_epsilon {
        0
    } else {
        turned
    };
    MotionModel { direction, speed, velocity: velocity_of(direction, speed), ..timed }
}

/// A grounded tick: the vertical speed returns to zero, the desired
/// direction is normalised, and the tick is that of the turn lock, of a
/// sharp reversal, or of the curve.
pub open spec fn grounded_step(
    s: MotionModel,
    dt: int,
    desired_direction: Vec2Model,
) -> MotionModel {
    let landed = MotionModel { fall_velocity_y: 0, ..s };
    let desired = normalize_or_zero_spec(desired_direction);
    if s.turn_lock_active {
        locked_step(landed, dt, desired)
    } else {
        match classify_turn(s, desired) {
            Turn::Hard => enter_turn_lock(landed, desired),
            Turn::Soft => ground_step(landed, dt, desired, true),
            Turn::Straight => ground_step(landed, dt, desired, false),
        }
    }
}

/// One tick of the controller.
pub open spec fn step(
    s: MotionModel,
    dt: int,
    desired_direction: Vec2Model,
    is_falling: bool,
) -> MotionModel {
    if is_falling {
        fall_step(s, elapsed(dt))
    } else {
        grounded_step(s, elapsed(dt), desired_direction)
    }
}

/// Whether the tuning constants keep the state's invariants: no negative
/// top speed, decay rate, turn factor or stop threshold, and gravity that
/// does not point up.
pub open spec fn valid_tuning(s: MotionModel) -> bool {
    &&& in_range(s.max_speed) && 0 <= s.max_speed
    &&& in_range(s.accel_rate)
    &&& in_range(s.decel_rate) && 0 <= s.decel_rate
    &&& in_range(s.hard_turn_dot_threshold)
    &&& in_range(s.soft_turn_dot_threshold)
    &&& in_range(s.soft_turn_speed_factor) && 0 <= s.soft_turn_speed_factor
    &&& in_range(s.stop_epsilon) && 0 <= s.stop_epsilon
    &&& in_range(s.hard_turn_hold_time)
    &&& in_range(s.fall_decel_rate) && 0 <= s.fall_decel_rate
    &&& in_range(s.gravity_accel) && s.gravity_accel <= 0
}

/// The invariant of the motion state. It does not depend on which valid
/// tuning the state carries.
pub open spec fn well_formed(s: MotionModel) -> bool {
    &&& valid_tuning(s)
    &&& in_range(s.speed) && 0 <= s.speed
    &&& in_range(s.curve_time) && 0 <= s.curve_time
    &&& in_range(s.curve_start_speed) && 0 <= s.curve_start_speed
    &&& in_range(s.turn_lock_timer) && 0 <= s.turn_lock_timer
    &&& in_range(s.fall_velocity_y) && s.fall_velocity_y <= 0
    &&& is_unit(s.direction)
    &&& s.velocity == velocity_of(s.direction, s.speed)
}

/// Whether the speed of a state that decelerates outside the turn lock lies
/// on its curve: it is the curve's value, or it was snapped to zero from a
/// value below the stop threshold. Ticks establish and keep this; changing
/// the deceleration rate or the stop threshold between ticks may break it.
pub open spec fn on_decel_curve(s: MotionModel) -> bool {
    !s.is_accelerating && !s.turn_lock_active ==> {
        let on_curve = decel_speed(s.curve_start_speed, s.curve_time, s.decel_rate);
        s.speed == on_curve || (s.speed == 0 && on_curve < s.stop_epsilon)
    }
}

/// `s` with the tuning constants of `tuning`.
pub open spec fn with_tuning(s: MotionModel, tuning: MotionModel) -> MotionModel {
    MotionModel {
        max_speed: tuning.max_speed,
        accel_rate: tuning.accel_rate,
        decel_rate: tuning.decel_rate,
        hard_turn_dot_threshold: tuning.hard_turn_dot_threshold,
        soft_turn_dot_threshold: tuning.soft_turn_dot_threshold,
        soft_turn_speed_factor: tuning.soft_turn_speed_factor,
        stop_epsilon: tuning.stop_epsilon,
        hard_turn_hold_time: tuning.hard_turn_hold_time,
        fall_decel_rate: tuning.fall_decel_rate,
        gravity_accel: tuning.gravity_accel,
        ..s
    }
}

/// The state at the start of a simulation: at rest, facing along the
/// second axis, with the stock tuning. The turn thresholds are -0.707 and
/// 0.707, the cosines of 135 and 45 degrees; the turn factor is one half,
/// the stop threshold 0.02 and the hold time a tenth of a second.
pub open spec fn initial_model() -> MotionModel {
    MotionModel {
        direction: Vec2Model { x: 0, y: one() },
        speed: 0,
        velocity: zero_vec(),
        is_accelerating: false,
        curve_time: 0,
        curve_start_speed: 0,
        turn_lock_active: false,
        turn_lock_timer: 0,
        turn_lock_pending_direction: zero_vec(),
        fall_velocity_y: 0,
        max_speed: 6 * one(),
        accel_rate: 6 * one(),
        decel_rate: 6 * one(),
        hard_turn_dot_threshold: sat_div(-707, 1000),
        soft_turn_dot_threshold: sat_div(707, 1000),
        soft_turn_speed_factor: sat_div(1, 2),
        stop_epsilon: sat_div(2, 100),
        hard_turn_hold_time: sat_div(1, 10),
        fall_decel_rate: 20 * one(),
        gravity_accel: -30 * one(),
    }
}

} // verus!
