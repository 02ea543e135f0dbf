//! What holds of the motion controller over single ticks and over runs of
//! ticks, proved from the model of a tick.

use crate::curves::{
    accel_ramp, decel_ramp, lemma_accel_ramp_range, lemma_accel_ramp_saturates,
    lemma_decel_ramp_antitone, lemma_decel_ramp_range,
};
use crate::fixed::{clamp_int, in_range, max_int, one, raw_max, sat_add, sat_mul};
use crate::fixed_lemmas::{
    lemma_mul_contracts, lemma_mul_monotone, lemma_mul_nonneg, lemma_mul_nonpos, lemma_mul_one,
    lemma_mul_zero,
};
use crate::motion_model::{
    accel_speed, classify_turn, curve_speed, decel_speed, elapsed, has_input, initial_model,
    is_moving, on_decel_curve, step, terminal_fall_velocity, turn_dot, valid_tuning, velocity_of,
    well_formed, with_tuning, MotionModel, Turn,
};
use crate::vec2::{
    is_unit, lemma_normalized_is_unit, lemma_unit_normalizes, lemma_unit_self_dot,
    normalize_or_zero_spec, self_dot_slack, zero_vec, Vec2Model,
};
use vstd::prelude::*;

verus! {

/// The input of one tick.
pub struct TickInput {
    /// Elapsed time, as a raw integer.
    pub dt: int,
    /// Desired direction; the zero vector means no input.
    pub desired_direction: Vec2Model,
    /// Whether the body is unsupported.
    pub is_falling: bool,
}

/// The state after the ticks of `inputs`, in order, from `s`.
pub open spec fn run(s: MotionModel, inputs: Seq<TickInput>) -> MotionModel
    decreases inputs.len(),
{
    if inputs.len() == 0 {
        s
    } else {
        let input = inputs.last();
        step(run(s, inputs.drop_last()), input.dt, input.desired_direction, input.is_falling)
    }
}

/// The time that the ticks of `inputs` take together.
pub open spec fn total_elapsed(inputs: Seq<TickInput>) -> int
    decreases inputs.len(),
{
    if inputs.len() == 0 {
        0
    } else {
        total_elapsed(inputs.drop_last()) + elapsed(inputs.last().dt)
    }
}

/// Whether two states have the same tuning constants.
pub open spec fn same_tuning(a: MotionModel, b: MotionModel) -> bool {
    &&& a.max_speed == b.max_speed
    &&& a.accel_rate == b.accel_rate
    &&& a.decel_rate == b.decel_rate
    &&& a.hard_turn_dot_threshold == b.hard_turn_dot_threshold
    &&& a.soft_turn_dot_threshold == b.soft_turn_dot_threshold
    &&& a.soft_turn_speed_factor == b.soft_turn_speed_factor
    &&& a.stop_epsilon == b.stop_epsilon
    &&& a.hard_turn_hold_time == b.hard_turn_hold_time
    &&& a.fall_decel_rate == b.fall_decel_rate
    &&& a.gravity_accel == b.gravity_accel
}

/// Whether a state is at rest on an inert curve: no speed, no turn lock,
/// and a deceleration ramp that starts from zero.
pub open spec fn at_rest(s: MotionModel) -> bool {
    &&& s.speed == 0
    &&& s.velocity == zero_vec()
    &&& !s.is_accelerating
    &&& s.curve_start_speed == 0
    &&& !s.turn_lock_active
}

/// The initial state satisfies the invariant: it is at rest on its curve.
pub proof fn law_initial_state_well_formed()
    ensures
        well_formed(initial_model()),
        on_decel_curve(initial_model()),
        at_rest(initial_model()),
{
    let s = initial_model();
    assert(0int * 0int + one() * one() == 0x1_0000_0000_0000_0000) by (nonlinear_arith)
        requires
            one() == 0x1_0000_0000,
    ;
    lemma_mul_zero(decel_ramp(s.curve_time, s.decel_rate));
}

/// A tick never changes the tuning constants.
pub proof fn law_step_keeps_tuning(
    s: MotionModel,
    dt: int,
    desired_direction: Vec2Model,
    is_falling: bool,
)
    ensures
        same_tuning(s, step(s, dt, desired_direction, is_falling)),
{
}

/// After every tick, from any state, the velocity is the direction scaled
/// by the speed, and the zero vector at rest.
pub proof fn law_velocity_follows_speed(
    s: MotionModel,
    dt: int,
    desired_direction: Vec2Model,
    is_falling: bool,
)
    ensures
        ({
            let n = step(s, dt, desired_direction, is_falling);
            &&& n.velocity == velocity_of(n.direction, n.speed)
            &&& n.speed == 0 ==> n.velocity == zero_vec()
        }),
{
}

/// The invariant holds under every valid tuning: the tuning constants can
/// be changed between ticks, each on its own, without breaking it.
pub proof fn law_retuning_keeps_invariant(s: MotionModel, tuning: MotionModel)
    requires
        well_formed(s),
        valid_tuning(tuning),
    ensures
        well_formed(with_tuning(s, tuning)),
{
}

/// A tick keeps the invariant of the state, and leaves the speed on the
/// deceleration curve.
pub proof fn law_step_preserves_invariant(
    s: MotionModel,
    dt: int,
    desired_direction: Vec2Model,
    is_falling: bool,
)
    requires
        well_formed(s),
    ensures
        well_formed(step(s, dt, desired_direction, is_falling)),
        on_decel_curve(step(s, dt, desired_direction, is_falling)),
{
    let t = elapsed(dt);
    let n = step(s, dt, desired_direction, is_falling);
    if is_falling {
        lemma_mul_nonpos(s.gravity_accel, t);
        lemma_mul_nonpos(-3 * one(), s.max_speed);
        lemma_decel_ramp_range(0, s.decel_rate);
        lemma_mul_one(n.speed);
    } else {
        let desired = normalize_or_zero_spec(desired_direction);
        lemma_normalized_is_unit(desired_direction);
        if s.turn_lock_active {
            lemma_mul_zero(decel_ramp(0, s.decel_rate));
        } else if classify_turn(s, desired) == Turn::Hard {
        } else {
            let start = n.curve_start_speed;
            lemma_accel_ramp_range(n.curve_time, s.accel_rate);
            lemma_decel_ramp_range(n.curve_time, s.decel_rate);
            lemma_mul_nonneg(start, decel_ramp(n.curve_time, s.decel_rate));
            lemma_mul_nonneg(
                s.max_speed,
                clamp_int(accel_ramp(n.curve_time, s.accel_rate), 0, one()),
            );
            let on_curve = if n.is_accelerating {
                accel_speed(s.max_speed, n.curve_time, s.accel_rate)
            } else {
                decel_speed(start, n.curve_time, s.decel_rate)
            };
            lemma_mul_nonneg(on_curve, s.soft_turn_speed_factor);
        }
    }
}

/// A run of ticks keeps the invariant and the tuning constants.
pub proof fn law_run_preserves_invariant(s: MotionModel, inputs: Seq<TickInput>)
    requires
        well_formed(s),
    ensures
        well_formed(run(s, inputs)),
        same_tuning(s, run(s, inputs)),
        on_decel_curve(s) ==> on_decel_curve(run(s, inputs)),
    decreases inputs.len(),
{
    if inputs.len() > 0 {
        let input = inputs.last();
        law_run_preserves_invariant(s, inputs.drop_last());
        law_step_preserves_invariant(
            run(s, inputs.drop_last()),
            input.dt,
            input.desired_direction,
            input.is_falling,
        );
    }
}

/// The speed is never negative after a tick.
pub proof fn law_speed_nonnegative(
    s: MotionModel,
    dt: int,
    desired_direction: Vec2Model,
    is_falling: bool,
)
    requires
        well_formed(s),
    ensures
        0 <= step(s, dt, desired_direction, is_falling).speed,
{
    law_step_preserves_invariant(s, dt, desired_direction, is_falling);
}

/// Whenever the body moves after a tick, it faces along a unit vector.
pub proof fn law_unit_facing(
    s: MotionModel,
    dt: int,
    desired_direction: Vec2Model,
    is_falling: bool,
)
    requires
        well_formed(s),
    ensures
        ({
            let n = step(s, dt, desired_direction, is_falling);
            n.speed > n.stop_epsilon ==> is_unit(n.direction)
        }),
{
    law_step_preserves_invariant(s, dt, desired_direction, is_falling);
}

/// Steady input reaches the top speed: on a grounded tick with input and
/// without a turn penalty, once the acceleration ramp has run for
/// thirty-two divided by its rate, the speed is exactly the top speed.
pub proof fn law_top_speed_is_reached(s: MotionModel, dt: int, desired_direction: Vec2Model)
    requires
        well_formed(s),
        !s.turn_lock_active,
        has_input(desired_direction),
        classify_turn(s, normalize_or_zero_spec(desired_direction)) == Turn::Straight,
        0 <= s.accel_rate,
        s.accel_rate * step(s, dt, desired_direction, false).curve_time >= 32 * one() * one(),
    ensures
        step(s, dt, desired_direction, false).speed == s.max_speed,
{
    let n = step(s, dt, desired_direction, false);
    lemma_accel_ramp_saturates(n.curve_time, s.accel_rate);
    lemma_mul_one(s.max_speed);
}

/// Whether every tick of `inputs` is grounded and asks for the direction
/// `d`.
pub open spec fn holding(inputs: Seq<TickInput>, d: Vec2Model) -> bool {
    forall|i: int|
        0 <= i < inputs.len() ==> !(#[trigger] inputs[i]).is_falling
            && inputs[i].desired_direction == d
}

/// Holding one direction from rest follows the acceleration ramp: after any
/// run of grounded ticks that ask for the same direction, the body faces
/// that direction and its speed is the value of the ramp at the time that
/// the ticks took together, however that time was divided into ticks. The
/// turn thresholds must lie below one by more than the rounding of a dot
/// product.
pub proof fn law_held_input_follows_ramp(s: MotionModel, inputs: Seq<TickInput>, d: Vec2Model)
    requires
        well_formed(s),
        at_rest(s),
        has_input(d),
        inputs.len() > 0,
        holding(inputs, d),
        total_elapsed(inputs) <= raw_max(),
        s.hard_turn_dot_threshold < one() - self_dot_slack(),
        s.soft_turn_dot_threshold < one() - self_dot_slack(),
    ensures
        ({
            let n = run(s, inputs);
            &&& n.is_accelerating
            &&& !n.turn_lock_active
            &&& n.direction == normalize_or_zero_spec(d)
            &&& n.curve_time == total_elapsed(inputs)
            &&& n.speed == accel_speed(s.max_speed, total_elapsed(inputs), s.accel_rate)
        }),
    decreases inputs.len(),
{
    let input = inputs.last();
    let before = inputs.drop_last();
    assert(!input.is_falling && input.desired_direction == d);
    lemma_total_elapsed_nonneg(before);
    law_run_preserves_invariant(s, before);
    lemma_normalized_is_unit(d);
    lemma_unit_self_dot(normalize_or_zero_spec(d));
    if before.len() > 0 {
        assert forall|i: int| 0 <= i < before.len() implies !(#[trigger] before[i]).is_falling
            && before[i].desired_direction == d by {
            assert(before[i] == inputs[i]);
        }
        law_held_input_follows_ramp(s, before, d);
    }
}

/// Whether every tick of `inputs` is grounded and holds no input.
pub open spec fn coasting(inputs: Seq<TickInput>) -> bool {
    forall|i: int|
        0 <= i < inputs.len() ==> !(#[trigger] inputs[i]).is_falling && !has_input(
            inputs[i].desired_direction,
        )
}

/// Releasing the input follows the deceleration ramp: after any run of
/// grounded ticks without input, the speed is the value of the ramp that
/// starts from the speed at the release, at the time that the ticks took
/// together, or exactly zero once that value is below the stop threshold.
/// The facing is kept.
pub proof fn law_released_input_follows_decay(s: MotionModel, inputs: Seq<TickInput>)
    requires
        well_formed(s),
        s.is_accelerating,
        !s.turn_lock_active,
        inputs.len() > 0,
        coasting(inputs),
        total_elapsed(inputs) <= raw_max(),
    ensures
        ({
            let n = run(s, inputs);
            let on_curve = decel_speed(s.speed, total_elapsed(inputs), s.decel_rate);
            &&& !n.is_accelerating
            &&& !n.turn_lock_active
            &&& n.curve_start_speed == s.speed
            &&& n.curve_time == total_elapsed(inputs)
            &&& n.direction == s.direction
            &&& n.speed == if on_curve < s.stop_epsilon {
                0
            } else {
                on_curve
            }
        }),
    decreases inputs.len(),
{
    let input = inputs.last();
    let before = inputs.drop_last();
    assert(!input.is_falling && !has_input(input.desired_direction));
    lemma_total_elapsed_nonneg(before);
    law_run_preserves_invariant(s, before);
    if before.len() > 0 {
        assert forall|i: int| 0 <= i < before.len() implies !(#[trigger] before[i]).is_falling
            && !has_input(before[i].desired_direction) by {
            assert(before[i] == inputs[i]);
        }
        law_released_input_follows_decay(s, before);
    }
}

/// Continuity across a change of regime. On a grounded tick outside the
/// turn lock and without a sharp reversal, where the input switches the
/// curve between accelerating and decelerating, the curve restarts at time
/// zero from the speed of the preceding tick. The deceleration ramp at time
/// zero has exactly that speed and never exceeds it afterwards; the
/// acceleration ramp at time zero has it where the body was at rest.
pub proof fn law_regime_change_is_continuous(s: MotionModel, dt: int, desired_direction: Vec2Model)
    requires
        well_formed(s),
        in_range(dt),
        !s.turn_lock_active,
        classify_turn(s, normalize_or_zero_spec(desired_direction)) != Turn::Hard,
        s.is_accelerating != has_input(desired_direction),
    ensures
        ({
            let n = step(s, dt, desired_direction, false);
            &&& n.is_accelerating == has_input(desired_direction)
            &&& n.curve_start_speed == s.speed
            &&& n.curve_time == elapsed(dt)
            &&& !n.is_accelerating ==> decel_speed(n.curve_start_speed, 0, n.decel_rate) == s.speed
            &&& !n.is_accelerating ==> n.speed <= s.speed
            &&& n.is_accelerating && s.speed == 0 ==> accel_speed(n.max_speed, 0, n.accel_rate)
                == s.speed
        }),
{
    let n = step(s, dt, desired_direction, false);
    lemma_decel_ramp_range(0, s.decel_rate);
    lemma_decel_ramp_range(n.curve_time, s.decel_rate);
    lemma_mul_one(s.speed);
    lemma_mul_contracts(s.speed, decel_ramp(n.curve_time, s.decel_rate));
    lemma_accel_ramp_range(0, s.accel_rate);
    lemma_mul_zero(s.max_speed);
}

/// Continuity where a tick forces the curve. A falling tick, and a tick that
/// engages, cancels or releases the turn lock, leave the curve at time zero
/// with a value equal to the speed that the tick leaves, so that the next
/// tick continues from exactly that speed.
pub proof fn law_forced_restart_is_continuous(
    s: MotionModel,
    dt: int,
    desired_direction: Vec2Model,
    is_falling: bool,
)
    requires
        well_formed(s),
        is_falling || s.turn_lock_active != step(
            s,
            dt,
            desired_direction,
            is_falling,
        ).turn_lock_active,
    ensures
        ({
            let n = step(s, dt, desired_direction, is_falling);
            &&& n.curve_time == 0
            &&& n.curve_start_speed == n.speed
            &&& curve_speed(n) == n.speed
        }),
{
    let n = step(s, dt, desired_direction, is_falling);
    law_step_preserves_invariant(s, dt, desired_direction, is_falling);
    lemma_decel_ramp_range(0, s.decel_rate);
    lemma_mul_one(n.speed);
    lemma_accel_ramp_range(0, s.accel_rate);
    lemma_mul_zero(s.max_speed);
}

/// A sharp reversal while moving on the ground stops the body at once and
/// engages the turn lock with a fresh timer; the facing is kept.
pub proof fn law_hard_turn_enters_lock(s: MotionModel, dt: int, desired_direction: Vec2Model)
    requires
        !s.turn_lock_active,
        is_moving(s),
        has_input(desired_direction),
        turn_dot(s, normalize_or_zero_spec(desired_direction)) <= s.hard_turn_dot_threshold,
    ensures
        ({
            let n = step(s, dt, desired_direction, false);
            &&& n.speed == 0
            &&& n.velocity == zero_vec()
            &&& n.turn_lock_active
            &&& n.turn_lock_timer == 0
            &&& n.turn_lock_pending_direction == normalize_or_zero_spec(desired_direction)
            &&& n.direction == s.direction
        }),
{
}

/// Whether every tick of `inputs` is grounded and holds an input.
pub open spec fn sustained_input(inputs: Seq<TickInput>) -> bool {
    forall|i: int|
        0 <= i < inputs.len() ==> !(#[trigger] inputs[i]).is_falling && has_input(
            inputs[i].desired_direction,
        )
}

/// While the turn lock is active and input is sustained on the ground, the
/// body stands still for as long as the ticks together stay short of the
/// hold time: after each of them the speed is exactly zero, the lock is
/// still active, and the timer has gained their time.
pub proof fn law_turn_lock_holds(s: MotionModel, inputs: Seq<TickInput>)
    requires
        well_formed(s),
        s.turn_lock_active,
        inputs.len() > 0,
        sustained_input(inputs),
        s.turn_lock_timer + total_elapsed(inputs) < s.hard_turn_hold_time,
    ensures
        ({
            let n = run(s, inputs);
            &&& n.turn_lock_active
            &&& n.speed == 0
            &&& n.velocity == zero_vec()
            &&& n.turn_lock_timer == s.turn_lock_timer + total_elapsed(inputs)
        }),
    decreases inputs.len(),
{
    let input = inputs.last();
    let before = inputs.drop_last();
    assert(!input.is_falling && has_input(input.desired_direction));
    lemma_total_elapsed_nonneg(before);
    law_run_preserves_invariant(s, before);
    if before.len() > 0 {
        assert forall|i: int| 0 <= i < before.len() implies !(#[trigger] before[i]).is_falling
            && has_input(before[i].desired_direction) by {
            assert(before[i] == inputs[i]);
        }
        law_turn_lock_holds(s, before);
    }
}

/// The time of a run of ticks is not negative.
pub proof fn lemma_total_elapsed_nonneg(inputs: Seq<TickInput>)
    ensures
        0 <= total_elapsed(inputs),
    decreases inputs.len(),
{
    if inputs.len() > 0 {
        lemma_total_elapsed_nonneg(inputs.drop_last());
    }
}

/// When the timer of the turn lock reaches the hold time under sustained
/// input, the lock releases: the speed is still zero on that tick, the
/// pending direction is adopted, and the acceleration ramp starts afresh, so
/// that the next tick toward the same direction has the speed of that ramp
/// after the tick's own time.
pub proof fn law_turn_lock_releases(
    s: MotionModel,
    dt: int,
    desired_direction: Vec2Model,
    next_dt: int,
)
    requires
        well_formed(s),
        s.turn_lock_active,
        has_input(desired_direction),
        s.turn_lock_timer + elapsed(dt) >= s.hard_turn_hold_time,
    ensures
        ({
            let n = step(s, dt, desired_direction, false);
            let after = step(n, next_dt, n.direction, false);
            &&& !n.turn_lock_active
            &&& n.speed == 0
            &&& n.velocity == zero_vec()
            &&& n.direction == normalize_or_zero_spec(desired_direction)
            &&& n.is_accelerating
            &&& n.curve_time == 0
            &&& n.curve_start_speed == 0
            &&& after.speed == accel_speed(s.max_speed, sat_add(0, elapsed(next_dt)), s.accel_rate)
        }),
{
    lemma_normalized_is_unit(desired_direction);
    lemma_unit_normalizes(normalize_or_zero_spec(desired_direction));
}

/// Releasing the input while the turn lock is active cancels the lock and
/// leaves the body at rest on that tick.
pub proof fn law_release_cancels_lock(s: MotionModel, dt: int, desired_direction: Vec2Model)
    requires
        s.turn_lock_active,
        !has_input(desired_direction),
    ensures
        ({
            let n = step(s, dt, desired_direction, false);
            &&& n.speed == 0
            &&& n.velocity == zero_vec()
            &&& at_rest(n)
        }),
{
}

/// Whether no tick of `inputs` holds an input.
pub open spec fn without_input(inputs: Seq<TickInput>) -> bool {
    forall|i: int| 0 <= i < inputs.len() ==> !has_input((#[trigger] inputs[i]).desired_direction)
}

/// A body at rest stays at rest until input arrives: through any run of
/// ticks without input, falling or grounded, the speed and the velocity
/// stay exactly zero.
pub proof fn law_rest_persists_without_input(s: MotionModel, inputs: Seq<TickInput>)
    requires
        well_formed(s),
        at_rest(s),
        without_input(inputs),
    ensures
        ({
            let n = run(s, inputs);
            &&& n.speed == 0
            &&& n.velocity == zero_vec()
            &&& at_rest(n)
        }),
    decreases inputs.len(),
{
    if inputs.len() > 0 {
        let input = inputs.last();
        let before = inputs.drop_last();
        assert(!has_input(input.desired_direction));
        assert forall|i: int| 0 <= i < before.len() implies !has_input(
            (#[trigger] before[i]).desired_direction,
        ) by {
            assert(before[i] == inputs[i]);
        }
        law_rest_persists_without_input(s, before);
        law_run_preserves_invariant(s, before);
        let p = run(s, before);
        let t = elapsed(input.dt);
        lemma_mul_nonneg(p.fall_decel_rate, t);
        lemma_mul_zero(decel_ramp(sat_add(p.curve_time, t), p.decel_rate));
    }
}

/// On a tick with a moderate turn, the speed is the value of the
/// acceleration ramp at the tick's curve time, scaled by the turn factor.
/// It depends on the prior state through the curve time alone, so the
/// factor is applied afresh on each such tick and never compounds.
pub proof fn law_soft_turn_attenuates(s: MotionModel, dt: int, desired_direction: Vec2Model)
    requires
        !s.turn_lock_active,
        classify_turn(s, normalize_or_zero_spec(desired_direction)) == Turn::Soft,
    ensures
        ({
            let n = step(s, dt, desired_direction, false);
            &&& n.is_accelerating
            &&& n.curve_time == sat_add(
                if s.is_accelerating {
                    s.curve_time
                } else {
                    0
                },
                elapsed(dt),
            )
            &&& n.speed == sat_mul(
                accel_speed(s.max_speed, n.curve_time, s.accel_rate),
                s.soft_turn_speed_factor,
            )
        }),
{
}

/// Whether every tick of `inputs` is a falling tick of duration `dt`.
pub open spec fn falling_ticks(inputs: Seq<TickInput>, dt: int) -> bool {
    forall|i: int| 0 <= i < inputs.len() ==> (#[trigger] inputs[i]).is_falling && inputs[i].dt == dt
}

/// From a vertical speed of zero, `n` falling ticks of the same duration
/// bring the vertical speed to `n` times the gain of one tick, held at the
/// terminal speed.
pub proof fn law_fall_velocity_accumulates(s: MotionModel, inputs: Seq<TickInput>, dt: int)
    requires
        well_formed(s),
        s.fall_velocity_y == 0,
        falling_ticks(inputs, dt),
    ensures
        run(s, inputs).fall_velocity_y == max_int(
            inputs.len() * sat_mul(s.gravity_accel, elapsed(dt)),
            terminal_fall_velocity(s.max_speed),
        ),
    decreases inputs.len(),
{
    let gain = sat_mul(s.gravity_accel, elapsed(dt));
    lemma_mul_nonpos(s.gravity_accel, elapsed(dt));
    lemma_mul_nonpos(-3 * one(), s.max_speed);
    if inputs.len() == 0 {
        assert(0 * gain == 0) by (nonlinear_arith);
    } else {
        let input = inputs.last();
        let before = inputs.drop_last();
        assert(input.is_falling && input.dt == dt);
        assert forall|i: int| 0 <= i < before.len() implies (#[trigger] before[i]).is_falling
            && before[i].dt == dt by {
            assert(before[i] == inputs[i]);
        }
        law_fall_velocity_accumulates(s, before, dt);
        law_run_preserves_invariant(s, before);
        assert(inputs.len() * gain == before.len() * gain + gain) by (nonlinear_arith)
            requires
                inputs.len() == before.len() + 1,
        ;
        assert(inputs.len() * gain <= before.len() * gain);
    }
}

/// While falling, the vertical speed never rises above its previous value
/// unless that lay below the terminal speed, and never falls below the
/// terminal speed.
pub proof fn law_fall_velocity_descends(s: MotionModel, dt: int, desired_direction: Vec2Model)
    requires
        well_formed(s),
    ensures
        ({
            let n = step(s, dt, desired_direction, true);
            &&& terminal_fall_velocity(s.max_speed) <= n.fall_velocity_y <= 0
            &&& terminal_fall_velocity(s.max_speed) <= s.fall_velocity_y ==> n.fall_velocity_y
                <= s.fall_velocity_y
        }),
{
    lemma_mul_nonpos(s.gravity_accel, elapsed(dt));
    lemma_mul_nonpos(-3 * one(), s.max_speed);
}

/// The first grounded tick returns the vertical speed to zero.
pub proof fn law_landing_resets_fall_velocity(s: MotionModel, dt: int, desired_direction: Vec2Model)
    ensures
        step(s, dt, desired_direction, false).fall_velocity_y == 0,
{
}

/// Without input, a speed below the stop threshold becomes exactly zero on
/// the next tick, and so does the velocity.
pub proof fn law_idle_stop(s: MotionModel, dt: int, desired_direction: Vec2Model, is_falling: bool)
    requires
        well_formed(s),
        on_decel_curve(s),
        !has_input(desired_direction),
        s.speed < s.stop_epsilon,
    ensures
        ({
            let n = step(s, dt, desired_direction, is_falling);
            &&& n.speed == 0
            &&& n.velocity == zero_vec()
        }),
{
    let t = elapsed(dt);
    let n = step(s, dt, desired_direction, is_falling);
    if is_falling {
        lemma_mul_nonneg(s.fall_decel_rate, t);
    } else if !s.turn_lock_active {
        if s.is_accelerating {
            lemma_decel_ramp_range(n.curve_time, s.decel_rate);
            lemma_mul_contracts(s.speed, decel_ramp(n.curve_time, s.decel_rate));
        } else {
            lemma_decel_ramp_antitone(s.curve_time, n.curve_time, s.decel_rate);
            lemma_decel_ramp_range(s.curve_time, s.decel_rate);
            lemma_mul_monotone(
                s.curve_start_speed,
                decel_ramp(n.curve_time, s.decel_rate),
                decel_ramp(s.curve_time, s.decel_rate),
            );
        }
    }
}

} // verus!
