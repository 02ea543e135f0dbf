//! The motion controller: the state of a moving body, the tick that
//! advances it, and the reader that turns the keyboard state into the
//! desired direction of a tick.

use crate::curves::{accel_exp, inv_square};
use crate::fixed::{one, Fixed};
use crate::motion_laws::{law_initial_state_well_formed, law_step_preserves_invariant};
use crate::motion_model::{
    classify_turn, initial_model, on_decel_curve, restart_curve_spec, step, velocity_of,
    well_formed, MotionModel, Turn,
};
use crate::vec2::{
    floor_sqrt, is_floor_sqrt, is_unit, lemma_floor_sqrt_is, lemma_normalized_is_unit,
    norm_squared, normalize_or_zero_spec, zero_vec, Vec2, Vec2Model,
};
use bevy::input::keyboard::KeyCode;
use bevy::input::ButtonInput;
use std::hash::Hash;
use vstd::prelude::*;
use vstd::string::*;

verus! {

/// The state of the controlled body. It is created once, at rest, and
/// advanced once per tick by [`movement_system`], which never changes the
/// tuning constants.
#[derive(Clone, Copy, Debug, PartialEq, Eq)]
pub struct MovementState {
    /// Last adopted unit movement direction; kept while the speed is zero.
    pub direction: Vec2,
    /// Current scalar speed.
    pub speed: Fixed,
    /// `direction * speed`, or the zero vector at rest.
    pub velocity: Vec2,
    /// Whether the acceleration ramp is the active curve.
    pub is_accelerating: bool,
    /// How long the active curve has run.
    pub curve_time: Fixed,
    /// The speed from which the deceleration ramp decays.
    pub curve_start_speed: Fixed,
    /// Whether a sharp reversal is holding the body still.
    pub turn_lock_active: bool,
    /// How long the turn lock has held.
    pub turn_lock_timer: Fixed,
    /// The direction to adopt when the turn lock releases.
    pub turn_lock_pending_direction: Vec2,
    /// Vertical speed while falling; zero on the ground.
    pub fall_velocity_y: Fixed,
    /// Top speed on the ground.
    pub max_speed: Fixed,
    /// Rate of the acceleration ramp.
    pub accel_rate: Fixed,
    /// Rate of the deceleration ramp.
    pub decel_rate: Fixed,
    /// Dot products at or below this value are sharp reversals.
    pub hard_turn_dot_threshold: Fixed,
    /// Dot products at or below this value are moderate turns.
    pub soft_turn_dot_threshold: Fixed,
    /// Factor applied to the speed on a tick with a moderate turn.
    pub soft_turn_speed_factor: Fixed,
    /// Speeds below this value snap to zero.
    pub stop_epsilon: Fixed,
    /// How long a sharp reversal holds the body still.
    pub hard_turn_hold_time: Fixed,
    /// Loss of horizontal speed per second while falling.
    pub fall_decel_rate: Fixed,
    /// Vertical acceleration while falling; negative is downward.
    pub gravity_accel: Fixed,
}

impl View for MovementState {
    type V = MotionModel;

    open spec fn view(&self) -> MotionModel {
        MotionModel {
            direction: self.direction@,
            speed: self.speed@,
            velocity: self.velocity@,
            is_accelerating: self.is_accelerating,
            curve_time: self.curve_time@,
            curve_start_speed: self.curve_start_speed@,
            turn_lock_active: self.turn_lock_active,
            turn_lock_timer: self.turn_lock_timer@,
            turn_lock_pending_direction: self.turn_lock_pending_direction@,
            fall_velocity_y: self.fall_velocity_y@,
            max_speed: self.max_speed@,
            accel_rate: self.accel_rate@,
            decel_rate: self.decel_rate@,
            hard_turn_dot_threshold: self.hard_turn_dot_threshold@,
            soft_turn_dot_threshold: self.soft_turn_dot_threshold@,
            soft_turn_speed_factor: self.soft_turn_speed_factor@,
            stop_epsilon: self.stop_epsilon@,
            hard_turn_hold_time: self.hard_turn_hold_time@,
            fall_decel_rate: self.fall_decel_rate@,
            gravity_accel: self.gravity_accel@,
        }
    }
}

impl MovementState {
    /// Whether the state satisfies the controller's invariant.
    pub open spec fn wf(&self) -> bool {
        well_formed(self@)
    }

    /// Whether the speed lies on the deceleration curve, as it does after
    /// every tick.
    pub open spec fn on_curve(&self) -> bool {
        on_decel_curve(self@)
    }
}

impl Default for MovementState {
    /// The state at the start of a simulation: at rest, facing along the
    /// second axis, with the stock tuning.
    fn default() -> (r: MovementState)
        ensures
            r@ == initial_model(),
            r.wf(),
            r.on_curve(),
    {
        proof {
            law_initial_state_well_formed();
        }
        MovementState {
            direction: Vec2::unit_y(),
            speed: Fixed::zero(),
            velocity: Vec2::zero(),
            is_accelerating: false,
            curve_time: Fixed::zero(),
            curve_start_speed: Fixed::zero(),
            turn_lock_active: false,
            turn_lock_timer: Fixed::zero(),
            turn_lock_pending_direction: Vec2::zero(),
            fall_velocity_y: Fixed::zero(),
            max_speed: Fixed::from_int(6),
            accel_rate: Fixed::from_int(6),
            decel_rate: Fixed::from_int(6),
            hard_turn_dot_threshold: Fixed::from_ratio(-707, 1000),
            soft_turn_dot_threshold: Fixed::from_ratio(707, 1000),
            soft_turn_speed_factor: Fixed::from_ratio(1, 2),
            stop_epsilon: Fixed::from_ratio(2, 100),
            hard_turn_hold_time: Fixed::from_ratio(1, 10),
            fall_decel_rate: Fixed::from_int(20),
            gravity_accel: Fixed::from_int(-30),
        }
    }
}

/// The velocity that belongs to a direction and a speed.
fn velocity_for(direction: Vec2, speed: Fixed) -> (r: Vec2)
    ensures
        r@ == velocity_of(direction@, speed@),
{
    if speed.raw > 0 {
        direction.scale(speed)
    } else {
        Vec2::zero()
    }
}

/// Switches the curve to the given regime. On a change of regime the curve
/// time returns to zero and the curve starts from the current speed;
/// otherwise nothing changes.
pub fn restart_curve(st: &mut MovementState, accelerating: bool)
    ensures
        final(st)@ == restart_curve_spec(old(st)@, accelerating),
{
    if st.is_accelerating != accelerating {
        st.is_accelerating = accelerating;
        st.curve_time = Fixed::zero();
        st.curve_start_speed = st.speed;
    }
}

/// The kind of turn that the normalised direction `desired` asks of `st`.
pub fn turn_kind(st: &MovementState, desired: Vec2) -> (r: Turn)
    ensures
        r == classify_turn(st@, desired@),
{
    let moving = st.speed.raw > st.stop_epsilon.raw;
    if moving && !desired.is_zero() {
        let dot = st.direction.normalize_or_zero().dot(desired);
        if dot.raw <= st.hard_turn_dot_threshold.raw {
            Turn::Hard
        } else if dot.raw <= st.soft_turn_dot_threshold.raw {
            Turn::Soft
        } else {
            Turn::Straight
        }
    } else {
        Turn::Straight
    }
}

/// Advances the state by one tick of `dt` seconds toward
/// `desired_direction`, with `is_falling` telling whether the body is
/// unsupported. Negative times count as zero, and the desired direction is
/// normalised, a near-zero one meaning no input.
pub fn movement_system(st: &mut MovementState, dt: Fixed, desired_direction: Vec2, is_falling: bool)
    ensures
        final(st)@ == step(old(st)@, dt@, desired_direction@, is_falling),
        old(st).wf() ==> final(st).wf() && final(st).on_curve(),
{
    proof {
        if old(st).wf() {
            law_step_preserves_invariant(old(st)@, dt@, desired_direction@, is_falling);
        }
    }
    let dt = dt.max(Fixed::zero());

    if is_falling {
        let max_fall_speed = Fixed::from_int(-3).mul(st.max_speed);

        let bled = st.speed.sub(st.fall_decel_rate.mul(dt)).max(Fixed::zero());
        if bled.raw <= st.stop_epsilon.raw {
            st.speed = Fixed::zero();
        } else {
            st.speed = bled;
        }
        st.velocity = velocity_for(st.direction, st.speed);

        st.fall_velocity_y = st.fall_velocity_y.add(st.gravity_accel.mul(dt)).max(max_fall_speed);

        st.is_accelerating = false;
        st.curve_time = Fixed::zero();
        st.curve_start_speed = st.speed;
        st.turn_lock_active = false;
        st.turn_lock_timer = Fixed::zero();
        st.turn_lock_pending_direction = Vec2::zero();
        return ;
    }
    st.fall_velocity_y = Fixed::zero();

    let desired = desired_direction.normalize_or_zero();
    let has_input = !desired.is_zero();

    if st.turn_lock_active {
        if !has_input {
            st.turn_lock_active = false;
            st.turn_lock_timer = Fixed::zero();
            st.turn_lock_pending_direction = Vec2::zero();

            st.speed = Fixed::zero();
            st.velocity = Vec2::zero();

            st.is_accelerating = false;
            st.curve_time = Fixed::zero();
            st.curve_start_speed = Fixed::zero();
            return ;
        }
        st.turn_lock_pending_direction = desired;
        st.turn_lock_timer = st.turn_lock_timer.add(dt);

        st.speed = Fixed::zero();
        st.velocity = Vec2::zero();

        if st.turn_lock_timer.raw >= st.hard_turn_hold_time.raw {
            st.turn_lock_active = false;
            st.turn_lock_timer = Fixed::zero();

            st.direction = desired;
            st.is_accelerating = true;
            st.curve_time = Fixed::zero();
            st.curve_start_speed = Fixed::zero();
        }
        return ;
    }
    let turn = turn_kind(st, desired);
    let soft_turn = match turn {
        Turn::Hard => {
            st.speed = Fixed::zero();
            st.velocity = Vec2::zero();

            st.is_accelerating = false;
            st.curve_time = Fixed::zero();
            st.curve_start_speed = Fixed::zero();

            st.turn_lock_active = true;
            st.turn_lock_timer = Fixed::zero();
            st.turn_lock_pending_direction = desired;
            return ;
        },
        Turn::Soft => true,
        Turn::Straight => false,
    };

    if has_input {
        st.direction = desired;
    }
    restart_curve(st, has_input);
    st.curve_time = st.curve_time.add(dt);

    let mut speed = if st.is_accelerating {
        st.max_speed.mul(accel_exp(st.curve_time, st.accel_rate).clamp(Fixed::zero(), Fixed::one()))
    } else {
        st.curve_start_speed.mul(inv_square(st.curve_time, st.decel_rate))
    };

    if soft_turn {
        speed = speed.mul(st.soft_turn_speed_factor);
    }
    if !has_input && speed.raw < st.stop_epsilon.raw {
        speed = Fixed::zero();
    }
    st.speed = speed;
    st.velocity = velocity_for(st.direction, speed);
}

/// The directional keys that are held.
#[derive(Clone, Copy, Debug, PartialEq, Eq)]
pub struct DirectionKeys {
    pub forward: bool,
    pub backward: bool,
    pub right: bool,
    pub left: bool,
}

/// The raw component of a unit vector along a diagonal, about 0.70711.
pub const DIAGONAL_RAW: i64 = 3_037_000_500;

/// The net contribution of two opposed keys to their axis: 1, 0 or -1.
pub open spec fn axis(positive: bool, negative: bool) -> int {
    if positive == negative {
        0
    } else if positive {
        1
    } else {
        -1
    }
}

/// The direction that a set of held keys asks for: the zero vector where
/// both axes cancel, a unit vector along an axis where one axis is held, and
/// a unit vector along a diagonal where both are.
pub open spec fn input_direction(keys: DirectionKeys) -> Vec2Model {
    let x = axis(keys.right, keys.left);
    let y = axis(keys.forward, keys.backward);
    if x != 0 && y != 0 {
        Vec2Model { x: x * DIAGONAL_RAW, y: y * DIAGONAL_RAW }
    } else {
        Vec2Model { x: x * one(), y: y * one() }
    }
}

/// The square roots behind the eight directions of the keys.
proof fn lemma_key_lengths()
    ensures
        floor_sqrt(one() * one()) == one(),
        floor_sqrt(2 * (one() * one())) == 6_074_000_999,
        floor_sqrt(2 * (DIAGONAL_RAW * DIAGONAL_RAW)) == one(),
{
    assert(is_floor_sqrt(one() * one(), one())) by (nonlinear_arith)
        requires
            one() == 0x1_0000_0000,
    ;
    assert(is_floor_sqrt(2 * (one() * one()), 6_074_000_999)) by (nonlinear_arith)
        requires
            one() == 0x1_0000_0000,
    ;
    assert(is_floor_sqrt(2 * (DIAGONAL_RAW * DIAGONAL_RAW), one())) by (nonlinear_arith)
        requires
            one() == 0x1_0000_0000,
            DIAGONAL_RAW == 3_037_000_500,
    ;
    lemma_floor_sqrt_is(one() * one(), one());
    lemma_floor_sqrt_is(2 * (one() * one()), 6_074_000_999);
    lemma_floor_sqrt_is(2 * (DIAGONAL_RAW * DIAGONAL_RAW), one());
}

/// Normalising the whole-number vector of the held keys gives their
/// direction.
proof fn lemma_normalized_keys(x: int, y: int)
    requires
        -1 <= x <= 1,
        -1 <= y <= 1,
    ensures
        normalize_or_zero_spec(Vec2Model { x: x * one(), y: y * one() }) == if x != 0 && y != 0 {
            Vec2Model { x: x * DIAGONAL_RAW, y: y * DIAGONAL_RAW }
        } else {
            Vec2Model { x: x * one(), y: y * one() }
        },
{
    lemma_key_lengths();
    let v = Vec2Model { x: x * one(), y: y * one() };
    let o2 = one() * one();
    assert(o2 == 0x1_0000_0000_0000_0000) by (nonlinear_arith)
        requires
            o2 == one() * one(),
            one() == 0x1_0000_0000,
    ;
    assert(norm_squared(v) == (x * x + y * y) * o2) by (nonlinear_arith)
        requires
            v.x == x * one(),
            v.y == y * one(),
            o2 == one() * one(),
            norm_squared(v) == v.x * v.x + v.y * v.y,
    ;
    assert(x * x + y * y == if x != 0 && y != 0 {
        2int
    } else if x != 0 || y != 0 {
        1int
    } else {
        0int
    }) by (nonlinear_arith)
        requires
            -1 <= x <= 1,
            -1 <= y <= 1,
    ;
    if x == 0 && y == 0 {
        assert(is_floor_sqrt(0, 0));
        lemma_floor_sqrt_is(0, 0);
    }
}

/// The direction of a set of held keys is already normalised: the
/// controller adopts it unchanged.
pub proof fn law_input_direction_is_normalized(keys: DirectionKeys)
    ensures
        normalize_or_zero_spec(input_direction(keys)) == input_direction(keys),
        input_direction(keys) == zero_vec() || is_unit(input_direction(keys)),
{
    lemma_key_lengths();
    let d = input_direction(keys);
    let x = axis(keys.right, keys.left);
    let y = axis(keys.forward, keys.backward);
    if x != 0 && y != 0 {
        assert(norm_squared(d) == 2 * (DIAGONAL_RAW * DIAGONAL_RAW)) by (nonlinear_arith)
            requires
                d.x == DIAGONAL_RAW || d.x == -DIAGONAL_RAW,
                d.y == DIAGONAL_RAW || d.y == -DIAGONAL_RAW,
                norm_squared(d) == d.x * d.x + d.y * d.y,
        ;
    } else {
        lemma_normalized_keys(x, y);
    }
    lemma_normalized_is_unit(d);
}

/// Reduces a set of held keys to the desired direction: a unit vector, or
/// the zero vector where nothing is held or opposed keys cancel.
pub fn direction_of_keys(keys: &DirectionKeys) -> (r: Vec2)
    ensures
        r@ == input_direction(*keys),
{
    let mut x: i32 = 0;
    let mut y: i32 = 0;
    if keys.forward {
        y += 1;
    }
    if keys.backward {
        y -= 1;
    }
    if keys.right {
        x += 1;
    }
    if keys.left {
        x -= 1;
    }
    proof {
        lemma_normalized_keys(x as int, y as int);
    }
    let raw = Vec2 { x: Fixed::from_int(x), y: Fixed::from_int(y) };
    if !raw.is_zero() {
        raw.normalize_or_zero()
    } else {
        Vec2::zero()
    }
}

/// A directional key.
#[derive(Clone, Copy, Debug, PartialEq, Eq, Structural)]
pub enum DirectionKey {
    Forward,
    Backward,
    Right,
    Left,
}

/// The engine's record of pressed buttons, `bevy::input::ButtonInput`. It
/// is opaque here: the library only hands it to [`is_held`].
#[verifier::external_type_specification]
#[verifier::external_body]
#[verifier::reject_recursive_types(T)]
pub struct ExButtonInput<T: Copy + Eq + Hash + Send + Sync + 'static>(bevy::input::ButtonInput<T>);

/// The engine's key codes, `bevy::input::keyboard::KeyCode`. They are opaque
/// here and only occur as the kind of button that the record holds.
#[verifier::external_type_specification]
#[verifier::external_body]
pub struct ExKeyCode(bevy::input::keyboard::KeyCode);

/// The directional keys whose keyboard keys the record `keys` holds as
/// pressed: W for forward, S for backward, D for right, A for left.
pub uninterp spec fn held_directions(keys: ButtonInput<KeyCode>) -> Set<DirectionKey>;

/// Whether the keyboard key of `key` is pressed: a call of
/// `ButtonInput::pressed` with W for forward, S for backward, D for right
/// or A for left. That method answers whether the key is in the record's
/// set of pressed keys. The contract is believed, not proved: it gives the
/// directional keys in that set a name, [`held_directions`], and says that
/// the answer is membership in it.
#[verifier::external_body]
fn is_held(keys: &ButtonInput<KeyCode>, key: DirectionKey) -> (r: bool)
    ensures
        r == held_directions(*keys).contains(key),
{
    keys.pressed(
        match key {
            DirectionKey::Forward => KeyCode::KeyW,
            DirectionKey::Backward => KeyCode::KeyS,
            DirectionKey::Right => KeyCode::KeyD,
            DirectionKey::Left => KeyCode::KeyA,
        },
    )
}

/// The held keys as a record of flags.
pub open spec fn keys_of(held: Set<DirectionKey>) -> DirectionKeys {
    DirectionKeys {
        forward: held.contains(DirectionKey::Forward),
        backward: held.contains(DirectionKey::Backward),
        right: held.contains(DirectionKey::Right),
        left: held.contains(DirectionKey::Left),
    }
}

/// Reads the desired direction off the keyboard state: a unit vector, or
/// the zero vector where no directional key is held or opposed keys cancel.
pub fn read_input_dir(keys: &ButtonInput<KeyCode>) -> (r: Vec2)
    ensures
        r@ == input_direction(keys_of(held_directions(*keys))),
{
    let held = DirectionKeys {
        forward: is_held(keys, DirectionKey::Forward),
        backward: is_held(keys, DirectionKey::Backward),
        right: is_held(keys, DirectionKey::Right),
        left: is_held(keys, DirectionKey::Left),
    };
    direction_of_keys(&held)
}

/// The words that name a direction: `Idle` for the zero vector, otherwise
/// `Forward` or `Backward` for the sign of the second component and `Right`
/// or `Left` for the sign of the first, separated by a space where both are
/// present.
pub open spec fn direction_label(d: Vec2Model) -> Seq<char> {
    if d == zero_vec() {
        "Idle"@
    } else {
        let along = if d.y > 0 {
            "Forward"@
        } else if d.y < 0 {
            "Backward"@
        } else {
            Seq::<char>::empty()
        };
        let across = if d.x > 0 {
            "Right"@
        } else if d.x < 0 {
            "Left"@
        } else {
            Seq::<char>::empty()
        };
        if d.y != 0 && d.x != 0 {
            along + " "@ + across
        } else {
            along + across
        }
    }
}

/// The words that name the direction `dir`.
pub fn direction_string(dir: Vec2) -> (r: String)
    ensures
        r@ == direction_label(dir@),
{
    if dir.is_zero() {
        return String::from_str("Idle");
    }
    let mut label = String::new();
    if dir.y.raw > 0 {
        label.append("Forward");
    }
    if dir.y.raw < 0 {
        label.append("Backward");
    }
    if dir.x.raw != 0 && dir.y.raw != 0 {
        label.append(" ");
    }
    if dir.x.raw > 0 {
        label.append("Right");
    }
    if dir.x.raw < 0 {
        label.append("Left");
    }
    assert(label@ =~= direction_label(dir@));
    label
}

/// The label of a tick's input: `Falling` while the body falls, otherwise
/// the words of the desired direction.
pub fn pressed_label(is_falling: bool, desired_direction: Vec2) -> (r: String)
    ensures
        r@ == if is_falling {
            "Falling"@
        } else {
            direction_label(desired_direction@)
        },
{
    if is_falling {
        String::from_str("Falling")
    } else {
        direction_string(desired_direction)
    }
}

/// The line that shows a label on the display: `Pressed: ` followed by the
/// label, or by `(none)` where the label is empty.
pub fn hud_text(label: &str) -> (r: String)
    ensures
        r@ == if label@.len() == 0 {
            "Pressed: (none)"@
        } else {
            "Pressed: "@ + label@
        },
{
    if label.is_empty() {
        String::from_str("Pressed: (none)")
    } else {
        let mut line = String::from_str("Pressed: ");
        line.append(label);
        line
    }
}

} // verus!
