//! Points and offsets in space over [`Fixed`] components.

use crate::fixed::{sat_add, Fixed};
use vstd::prelude::*;

verus! {

/// The model of a spatial vector: its raw components.
pub struct Vec3Model {
    pub x: int,
    pub y: int,
    pub z: int,
}

/// The saturating sum of two vectors.
pub open spec fn add_vec3(a: Vec3Model, b: Vec3Model) -> Vec3Model {
    Vec3Model { x: sat_add(a.x, b.x), y: sat_add(a.y, b.y), z: sat_add(a.z, b.z) }
}

/// A vector in space; the second axis points up.
#[derive(Clone, Copy, Debug, PartialEq, Eq, Structural)]
pub struct Vec3 {
    pub x: Fixed,
    pub y: Fixed,
    pub z: Fixed,
}

impl View for Vec3 {
    type V = Vec3Model;

    open spec fn view(&self) -> Vec3Model {
        Vec3Model { x: self.x@, y: self.y@, z: self.z@ }
    }
}

impl Vec3 {
    /// The vector with the given components.
    pub fn new(x: Fixed, y: Fixed, z: Fixed) -> (r: Vec3)
        ensures
            r@ == (Vec3Model { x: x@, y: y@, z: z@ }),
    {
        Vec3 { x, y, z }
    }

    /// The saturating sum with `other`.
    pub fn add(self, other: Vec3) -> (r: Vec3)
        ensures
            r@ == add_vec3(self@, other@),
    {
        Vec3 { x: self.x.add(other.x), y: self.y.add(other.y), z: self.z.add(other.z) }
    }
}

} // verus!
