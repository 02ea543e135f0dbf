use bevy::input::keyboard::KeyCode;
use bevy::input::ButtonInput;
use locomotion::fixed::Fixed;
use locomotion::movement_system::{direction_of_keys, read_input_dir, DirectionKeys, DIAGONAL_RAW};
use locomotion::vec2::Vec2;

const ONE: i64 = 1 << 32;

fn v2(x: i64, y: i64) -> Vec2 {
    Vec2::new(Fixed::from_raw(x), Fixed::from_raw(y))
}

fn keyboard(pressed: &[KeyCode]) -> ButtonInput<KeyCode> {
    let mut keys = ButtonInput::<KeyCode>::default();
    for key in pressed {
        keys.press(*key);
    }
    keys
}

#[test]
fn idle_keyboard_gives_the_zero_vector() {
    assert_eq!(read_input_dir(&keyboard(&[])), Vec2::zero());
}

#[test]
fn keyboard_keys_are_bound_to_their_directions() {
    assert_eq!(read_input_dir(&keyboard(&[KeyCode::KeyW])), v2(0, ONE));
    assert_eq!(read_input_dir(&keyboard(&[KeyCode::KeyS])), v2(0, -ONE));
    assert_eq!(read_input_dir(&keyboard(&[KeyCode::KeyD])), v2(ONE, 0));
    assert_eq!(read_input_dir(&keyboard(&[KeyCode::KeyA])), v2(-ONE, 0));
}

#[test]
fn keyboard_diagonals_are_unit_vectors() {
    assert_eq!(
        read_input_dir(&keyboard(&[KeyCode::KeyW, KeyCode::KeyD])),
        v2(DIAGONAL_RAW, DIAGONAL_RAW)
    );
    assert_eq!(
        read_input_dir(&keyboard(&[KeyCode::KeyA, KeyCode::KeyS])),
        v2(-DIAGONAL_RAW, -DIAGONAL_RAW)
    );
}

#[test]
fn opposed_keyboard_keys_cancel() {
    assert_eq!(read_input_dir(&keyboard(&[KeyCode::KeyW, KeyCode::KeyS])), Vec2::zero());
    assert_eq!(read_input_dir(&keyboard(&[KeyCode::KeyA, KeyCode::KeyD])), Vec2::zero());
    assert_eq!(
        read_input_dir(&keyboard(&[KeyCode::KeyW, KeyCode::KeyS, KeyCode::KeyD])),
        v2(ONE, 0)
    );
}

#[test]
fn other_keys_and_released_keys_are_ignored() {
    assert_eq!(
        read_input_dir(&keyboard(&[KeyCode::ArrowUp, KeyCode::Space, KeyCode::KeyQ])),
        Vec2::zero()
    );
    let mut keys = keyboard(&[KeyCode::KeyW, KeyCode::KeyD]);
    keys.release(KeyCode::KeyD);
    assert_eq!(read_input_dir(&keys), v2(0, ONE));
    keys.clear();
    assert_eq!(read_input_dir(&keys), v2(0, ONE));
    keys.release_all();
    assert_eq!(read_input_dir(&keys), Vec2::zero());
}

#[test]
fn keyboard_reading_is_repeatable_within_a_tick() {
    let keys = keyboard(&[KeyCode::KeyS, KeyCode::KeyD]);
    assert_eq!(read_input_dir(&keys), read_input_dir(&keys));
}

#[test]
fn keyboard_agrees_with_the_flags_for_every_set_of_keys() {
    for bits in 0..16 {
        let held = DirectionKeys {
            forward: bits & 1 != 0,
            backward: bits & 2 != 0,
            right: bits & 4 != 0,
            left: bits & 8 != 0,
        };
        let mut keys = ButtonInput::<KeyCode>::default();
        if held.forward {
            keys.press(KeyCode::KeyW);
        }
        if held.backward {
            keys.press(KeyCode::KeyS);
        }
        if held.right {
            keys.press(KeyCode::KeyD);
        }
        if held.left {
            keys.press(KeyCode::KeyA);
        }
        assert_eq!(read_input_dir(&keys), direction_of_keys(&held));
    }
}
