//! A verified locomotion controller over fixed-point numbers.
//!
//! Each simulation tick turns a desired direction into a planar velocity,
//! with a curve for acceleration and one for deceleration, a hold on sharp
//! reversals, a penalty on moderate turns, and a falling state.
//!
//! - [`fixed`], [`vec2`], [`vec3`]: the numbers and vectors, with saturating
//!   arithmetic that never fails; [`fixed_lemmas`] holds facts about them.
//! - [`curves`]: the acceleration and deceleration ramps.
//! - [`motion_model`]: the controller's state and its tick as mathematics.
//! - [`movement_system`]: the controller itself and the reader of the
//!   keyboard state.
//! - [`motion_laws`]: what is proved of the controller over ticks and runs
//!   of ticks.
//! - [`player_system`]: moving the body, grounding it, and placing the
//!   camera.
//! - [`heartbeat`]: a meter that shows a value over time.
//!
//! All scalars are [`Fixed`]: integers that count units of `2^-32`.

pub mod curves;
pub mod fixed;
pub mod fixed_lemmas;
pub mod heartbeat;
pub mod motion_laws;
pub mod motion_model;
pub mod movement_system;
pub mod player_system;
pub mod vec2;
pub mod vec3;

pub use fixed::Fixed;
pub use movement_system::{movement_system, MovementState};
pub use player_system::{apply_player_motion, follow_player_camera, update_grounded_flag_and_snap};
pub use vec2::Vec2;
pub use vec3::Vec3;
