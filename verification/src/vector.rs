//! Integer vectors: grid coordinates, and render-space points in half units.

use vstd::prelude::*;

verus! {

/// A cell coordinate of the grid, or a step from one cell to another.
#[derive(Debug, Clone, Copy, PartialEq, Eq, Structural)]
pub struct IVec3 {
    pub x: i32,
    pub y: i32,
    pub z: i32,
}

/// Builds the vector `(x, y, z)`.
pub fn ivec3(x: i32, y: i32, z: i32) -> (v: IVec3)
    ensures
        v == (IVec3 { x, y, z }),
{
    IVec3 { x, y, z }
}

impl IVec3 {
    /// Whether `self + step` can be held in an `IVec3`.
    pub open spec fn sum_fits(self, step: IVec3) -> bool {
        &&& i32::MIN <= self.x + step.x <= i32::MAX
        &&& i32::MIN <= self.y + step.y <= i32::MAX
        &&& i32::MIN <= self.z + step.z <= i32::MAX
    }

    /// The componentwise sum. Meaningful where `sum_fits` holds.
    pub open spec fn plus(self, step: IVec3) -> IVec3 {
        IVec3 {
            x: (self.x + step.x) as i32,
            y: (self.y + step.y) as i32,
            z: (self.z + step.z) as i32,
        }
    }

    /// The vector `step` away from `self`: the componentwise sum.
    pub fn offset(self, step: IVec3) -> (sum: IVec3)
        requires
            self.sum_fits(step),
        ensures
            sum == self.plus(step),
            sum.x == self.x + step.x,
            sum.y == self.y + step.y,
            sum.z == self.z + step.z,
    {
        IVec3 { x: self.x + step.x, y: self.y + step.y, z: self.z + step.z }
    }
}

/// A point of render space in half units: the fields hold twice the
/// coordinates, so `HalfVec3 { x: 3, y: -1, z: 0 }` is the point
/// `(1.5, -0.5, 0.0)`. Centring a grid with an even number of cells puts
/// cells at half-integral coordinates; doubling keeps them exact.
#[derive(Debug, Clone, Copy, PartialEq, Eq, Structural)]
pub struct HalfVec3 {
    pub x: i64,
    pub y: i64,
    pub z: i64,
}

} // verus!
