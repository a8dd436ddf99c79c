//! Three-component vectors over a [`Number`].
use crate::number::Number;
use vstd::prelude::*;

verus! {

/// A vector in the body frame.
#[derive(Debug, Clone, Copy)]
pub struct Vector3<D> {
    pub x: D,
    pub y: D,
    pub z: D,
}

impl<D: Number> Vector3<D> {
    /// The vector with every component equal to `value`.
    pub open spec fn splat(value: D) -> Self {
        Vector3 { x: value, y: value, z: value }
    }

    pub open spec fn add_spec(self, rhs: Self) -> Self {
        Vector3 {
            x: self.x.add_spec(rhs.x),
            y: self.y.add_spec(rhs.y),
            z: self.z.add_spec(rhs.z),
        }
    }

    pub open spec fn sub_spec(self, rhs: Self) -> Self {
        Vector3 {
            x: self.x.sub_spec(rhs.x),
            y: self.y.sub_spec(rhs.y),
            z: self.z.sub_spec(rhs.z),
        }
    }

    /// Every component times `rhs`.
    pub open spec fn scale_spec(self, rhs: D) -> Self {
        Vector3 { x: self.x.mul_spec(rhs), y: self.y.mul_spec(rhs), z: self.z.mul_spec(rhs) }
    }

    /// Every component divided by `rhs`.
    pub open spec fn shrink_spec(self, rhs: D) -> Self {
        Vector3 { x: self.x.div_spec(rhs), y: self.y.div_spec(rhs), z: self.z.div_spec(rhs) }
    }

    /// The cross product `self x rhs`.
    pub open spec fn cross_spec(self, rhs: Self) -> Self {
        Vector3 {
            x: self.y.mul_spec(rhs.z).sub_spec(self.z.mul_spec(rhs.y)),
            y: self.z.mul_spec(rhs.x).sub_spec(self.x.mul_spec(rhs.z)),
            z: self.x.mul_spec(rhs.y).sub_spec(self.y.mul_spec(rhs.x)),
        }
    }

    pub fn add(self, rhs: Self) -> (r: Self)
        ensures
            r == self.add_spec(rhs),
    {
        Vector3 { x: self.x.add(rhs.x), y: self.y.add(rhs.y), z: self.z.add(rhs.z) }
    }

    pub fn sub(self, rhs: Self) -> (r: Self)
        ensures
            r == self.sub_spec(rhs),
    {
        Vector3 { x: self.x.sub(rhs.x), y: self.y.sub(rhs.y), z: self.z.sub(rhs.z) }
    }

    pub fn scale(self, rhs: D) -> (r: Self)
        ensures
            r == self.scale_spec(rhs),
    {
        Vector3 { x: self.x.mul(rhs), y: self.y.mul(rhs), z: self.z.mul(rhs) }
    }

    pub fn shrink(self, rhs: D) -> (r: Self)
        ensures
            r == self.shrink_spec(rhs),
    {
        Vector3 { x: self.x.div(rhs), y: self.y.div(rhs), z: self.z.div(rhs) }
    }

    pub fn cross(self, rhs: Self) -> (r: Self)
        ensures
            r == self.cross_spec(rhs),
    {
        Vector3 {
            x: self.y.mul(rhs.z).sub(self.z.mul(rhs.y)),
            y: self.z.mul(rhs.x).sub(self.x.mul(rhs.z)),
            z: self.x.mul(rhs.y).sub(self.y.mul(rhs.x)),
        }
    }
}

} // verus!
