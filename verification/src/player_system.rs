//! What surrounds the motion controller in a tick: the integrator that moves
//! the body by the controller's output, the grounding step that decides
//! whether the body is supported, and the camera that follows the body.
//!
//! Within a tick the controller runs first, with the grounding of the
//! preceding tick; then the body moves; then the grounding is taken at the
//! new position, for the next tick.

use crate::fixed::{sat_add, sat_mul, sat_sub, Fixed};
use crate::motion_model::MotionModel;
use crate::movement_system::MovementState;
use crate::vec3::{add_vec3, Vec3, Vec3Model};
use vstd::prelude::*;

verus! {

/// Distance of the camera behind the body: 10.
pub const CAMERA_DISTANCE_RAW: i64 = 0xa_0000_0000;

/// Height of the camera above the body: 5.
pub const CAMERA_HEIGHT_RAW: i64 = 0x5_0000_0000;

/// Half the height of the body: 0.5.
pub const PLAYER_HALF_HEIGHT_RAW: i64 = 0x8000_0000;

/// Half the width of the footprint along the first axis: 0.49.
pub const FOOT_HALF_X_RAW: i64 = 2_104_533_975;

/// Half the thickness of the footprint: 0.03.
pub const FOOT_HALF_Y_RAW: i64 = 128_849_018;

/// Half the width of the footprint along the third axis: 0.49.
pub const FOOT_HALF_Z_RAW: i64 = 2_104_533_975;

/// How far the footprint reaches below the feet: 0.01.
pub const FOOT_BELOW_FEET_RAW: i64 = 42_949_672;

/// Something that the footprint of the body touches.
#[derive(Clone, Copy, Debug, PartialEq, Eq)]
pub enum FootprintHit {
    /// A collider that is not ground.
    Other,
    /// A ground collider centred at height `center_y`. `half_height` is the
    /// half extent along the vertical axis where the collider is a box.
    Ground { center_y: Fixed, half_height: Option<Fixed> },
}

/// Whether the body is supported, and at which height.
#[derive(Clone, Copy, Debug, PartialEq, Eq)]
pub struct Grounding {
    /// Whether nothing supports the body.
    pub is_falling: bool,
    /// The height of the highest supporting surface, where one is known.
    pub support_height: Option<Fixed>,
}

/// Whether `hit` is ground.
pub open spec fn is_ground(hit: FootprintHit) -> bool {
    hit is Ground
}

/// The height of the top surface of `hit`, where it is a ground box.
pub open spec fn top_surface(hit: FootprintHit) -> Option<int> {
    match hit {
        FootprintHit::Ground { center_y, half_height: Some(half) } => Some(
            sat_add(center_y@, half@),
        ),
        _ => None,
    }
}

/// Whether some hit is ground.
pub open spec fn any_ground(hits: Seq<FootprintHit>) -> bool {
    exists|i: int| 0 <= i < hits.len() && is_ground(#[trigger] hits[i])
}

/// Whether `height` is the top surface of a hit and no hit has a higher one.
pub open spec fn is_highest_surface(hits: Seq<FootprintHit>, height: int) -> bool {
    &&& exists|i: int| 0 <= i < hits.len() && top_surface(#[trigger] hits[i]) == Some(height)
    &&& forall|i: int|
        0 <= i < hits.len() ==> match top_surface(#[trigger] hits[i]) {
            Some(top) => top <= height,
            None => true,
        }
}

/// Whether no hit has a top surface.
pub open spec fn no_surface(hits: Seq<FootprintHit>) -> bool {
    forall|i: int| 0 <= i < hits.len() ==> top_surface(#[trigger] hits[i]) is None
}

/// The position after a tick of `dt` with the controller state `s`: the
/// planar velocity moves the body along the first and third axes, and the
/// fall velocity moves it along the second while it falls.
pub open spec fn moved(p: Vec3Model, s: MotionModel, is_falling: bool, dt: int) -> Vec3Model {
    Vec3Model {
        x: sat_add(p.x, sat_mul(s.velocity.x, dt)),
        y: if is_falling {
            sat_add(p.y, sat_mul(s.fall_velocity_y, dt))
        } else {
            p.y
        },
        z: sat_add(p.z, sat_mul(s.velocity.y, dt)),
    }
}

/// The centre of the footprint of a body at `p`: a thin box at the feet.
pub open spec fn foot_center_spec(p: Vec3Model) -> Vec3Model {
    Vec3Model {
        x: p.x,
        y: sat_sub(
            sat_add(sat_sub(p.y, PLAYER_HALF_HEIGHT_RAW as int), FOOT_HALF_Y_RAW as int),
            FOOT_BELOW_FEET_RAW as int,
        ),
        z: p.z,
    }
}

/// Moves the body by the controller's output over `dt` seconds.
pub fn apply_player_motion(st: &MovementState, is_falling: bool, dt: Fixed, translation: &mut Vec3)
    ensures
        final(translation)@ == moved(old(translation)@, st@, is_falling, dt@),
{
    translation.x = translation.x.add(st.velocity.x.mul(dt));
    translation.z = translation.z.add(st.velocity.y.mul(dt));

    if is_falling {
        translation.y = translation.y.add(st.fall_velocity_y.mul(dt));
    }
}

/// The centre of the footprint of a body at `position`.
pub fn foot_center(position: Vec3) -> (r: Vec3)
    ensures
        r@ == foot_center_spec(position@),
{
    Vec3 {
        x: position.x,
        y: position.y.sub(Fixed { raw: PLAYER_HALF_HEIGHT_RAW }).add(
            Fixed { raw: FOOT_HALF_Y_RAW },
        ).sub(Fixed { raw: FOOT_BELOW_FEET_RAW }),
        z: position.z,
    }
}

/// The half extents of the footprint.
pub fn foot_half_extents() -> (r: Vec3)
    ensures
        r@ == (Vec3Model {
            x: FOOT_HALF_X_RAW as int,
            y: FOOT_HALF_Y_RAW as int,
            z: FOOT_HALF_Z_RAW as int,
        }),
{
    Vec3 {
        x: Fixed { raw: FOOT_HALF_X_RAW },
        y: Fixed { raw: FOOT_HALF_Y_RAW },
        z: Fixed { raw: FOOT_HALF_Z_RAW },
    }
}

/// Decides from what the footprint touches whether the body is supported.
/// The body falls exactly when no hit is ground. Where a ground box
/// supports it, the body is set on the highest top surface; otherwise its
/// position is left alone.
pub fn update_grounded_flag_and_snap(
    hits: &Vec<FootprintHit>,
    translation: &mut Vec3,
) -> (g: Grounding)
    ensures
        g.is_falling == !any_ground(hits@),
        match g.support_height {
            Some(h) => is_highest_surface(hits@, h@) && final(translation)@ == (Vec3Model {
                y: sat_add(h@, PLAYER_HALF_HEIGHT_RAW as int),
                ..old(translation)@
            }),
            None => no_surface(hits@) && *final(translation) == *old(translation),
        },
{
    let mut grounded = false;
    let mut best_top_y: Option<Fixed> = None;
    let mut i: usize = 0;
    while i < hits.len()
        invariant
            i <= hits.len(),
            grounded == any_ground(hits@.take(i as int)),
            summarizes_surfaces(hits@.take(i as int), best_view(best_top_y)),
        decreases hits.len() - i,
    {
        let hit = hits[i];
        let ghost seen = hits@.take(i as int);
        let ghost next = hits@.take(i + 1);
        let ghost best = best_view(best_top_y);
        assert(next.drop_last() == seen);
        assert(next.last() == hit);
        match hit {
            FootprintHit::Other => {},
            FootprintHit::Ground { center_y, half_height } => {
                grounded = true;
                if let Some(half) = half_height {
                    let top_y = center_y.add(half);
                    best_top_y = Some(
                        match best_top_y {
                            Some(cur) => cur.max(top_y),
                            None => top_y,
                        },
                    );
                }
            },
        }
        proof {
            lemma_any_ground_push(seen, next);
            lemma_surface_push(seen, next, best);
        }
        i = i + 1;
    }
    assert(hits@.take(hits.len() as int) == hits@);

    if let Some(top_y) = best_top_y {
        translation.y = top_y.add(Fixed { raw: PLAYER_HALF_HEIGHT_RAW });
    }
    Grounding { is_falling: !grounded, support_height: best_top_y }
}

/// The raw integer of a surface height, where there is one.
spec fn best_view(best: Option<Fixed>) -> Option<int> {
    match best {
        Some(h) => Some(h@),
        None => None,
    }
}

/// Adding a hit makes the hits ground exactly when they were or it is.
proof fn lemma_any_ground_push(seen: Seq<FootprintHit>, next: Seq<FootprintHit>)
    requires
        next.len() == seen.len() + 1,
        next.drop_last() == seen,
    ensures
        any_ground(next) == (any_ground(seen) || is_ground(next.last())),
{
    if any_ground(seen) {
        let i = choose|i: int| 0 <= i < seen.len() && is_ground(#[trigger] seen[i]);
        assert(next[i] == seen[i]);
    }
    if is_ground(next.last()) {
        assert(is_ground(next[next.len() - 1]));
    }
    if any_ground(next) {
        let i = choose|i: int| 0 <= i < next.len() && is_ground(#[trigger] next[i]);
        if i < seen.len() {
            assert(next[i] == seen[i]);
        }
    }
}

/// The higher of a highest surface so far and the surface of one more hit.
spec fn higher_surface(best: Option<int>, top: Option<int>) -> Option<int> {
    match (best, top) {
        (Some(h), Some(t)) => Some(
            if h >= t {
                h
            } else {
                t
            },
        ),
        (Some(h), None) => Some(h),
        (None, top) => top,
    }
}

/// Whether `best` is the highest surface of `hits`, or none where no hit
/// has one.
spec fn summarizes_surfaces(hits: Seq<FootprintHit>, best: Option<int>) -> bool {
    match best {
        Some(h) => is_highest_surface(hits, h),
        None => no_surface(hits),
    }
}

/// Adding a hit keeps the highest surface or replaces it by that of the
/// new hit, whichever is higher.
proof fn lemma_surface_push(seen: Seq<FootprintHit>, next: Seq<FootprintHit>, best: Option<int>)
    requires
        next.len() == seen.len() + 1,
        next.drop_last() == seen,
        summarizes_surfaces(seen, best),
    ensures
        summarizes_surfaces(next, higher_surface(best, top_surface(next.last()))),
{
    let last = next.len() - 1;
    assert forall|j: int| 0 <= j < seen.len() implies #[trigger] next[j] == seen[j] by {}
    assert(next[last] == next.last());
    match best {
        Some(h) => {
            let i = choose|i: int|
                0 <= i < seen.len() && top_surface(#[trigger] seen[i]) == Some(h);
            assert(top_surface(next[i]) == Some(h));
        },
        None => {},
    }
}

/// Where the camera stands for a body at `player_position`: above and
/// behind it.
pub fn follow_player_camera(player_position: Vec3) -> (r: Vec3)
    ensures
        r@ == add_vec3(
            player_position@,
            Vec3Model { x: 0, y: CAMERA_HEIGHT_RAW as int, z: CAMERA_DISTANCE_RAW as int },
        ),
{
    let offset = Vec3 {
        x: Fixed::zero(),
        y: Fixed { raw: CAMERA_HEIGHT_RAW },
        z: Fixed { raw: CAMERA_DISTANCE_RAW },
    };
    player_position.add(offset)
}

} // verus!
