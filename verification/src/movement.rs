//! A wrench: a force and a torque in the body frame.
use crate::number::{zero, zero_spec, Number};
use crate::vector::Vector3;
use vstd::prelude::*;

verus! {

/// A force and a torque. Movements add, subtract, and scale by a [`Number`].
#[derive(Debug, Clone, Copy)]
pub struct Movement<D> {
    pub force: Vector3<D>,
    pub torque: Vector3<D>,
}

impl<D: Number> Movement<D> {
    /// The movement with no force and no torque.
    pub open spec fn zero_spec() -> Self {
        Movement {
            force: Vector3::splat(zero_spec::<D>()),
            torque: Vector3::splat(zero_spec::<D>()),
        }
    }

    pub open spec fn add_spec(self, rhs: Self) -> Self {
        Movement {
            force: self.force.add_spec(rhs.force),
            torque: self.torque.add_spec(rhs.torque),
        }
    }

    pub open spec fn sub_spec(self, rhs: Self) -> Self {
        Movement {
            force: self.force.sub_spec(rhs.force),
            torque: self.torque.sub_spec(rhs.torque),
        }
    }

    pub open spec fn mul_spec(self, rhs: D) -> Self {
        Movement { force: self.force.scale_spec(rhs), torque: self.torque.scale_spec(rhs) }
    }

    pub open spec fn div_spec(self, rhs: D) -> Self {
        Movement { force: self.force.shrink_spec(rhs), torque: self.torque.shrink_spec(rhs) }
    }

    /// The six components paired with those of `rhs` and summed from the
    /// left, force first: `((((fx*fx' + fy*fy') + fz*fz') + tx*tx') + ty*ty') + tz*tz'`.
    pub open spec fn dot_spec(self, rhs: Self) -> D {
        self.force.x.mul_spec(rhs.force.x).add_spec(self.force.y.mul_spec(rhs.force.y)).add_spec(
            self.force.z.mul_spec(rhs.force.z),
        ).add_spec(self.torque.x.mul_spec(rhs.torque.x)).add_spec(
            self.torque.y.mul_spec(rhs.torque.y),
        ).add_spec(self.torque.z.mul_spec(rhs.torque.z))
    }

    pub fn zero() -> (r: Self)
        ensures
            r == Self::zero_spec(),
    {
        let z = zero::<D>();
        Movement { force: Vector3 { x: z, y: z, z }, torque: Vector3 { x: z, y: z, z } }
    }

    pub fn add(self, rhs: Self) -> (r: Self)
        ensures
            r == self.add_spec(rhs),
    {
        Movement { force: self.force.add(rhs.force), torque: self.torque.add(rhs.torque) }
    }

    pub fn add_assign(&mut self, rhs: Self)
        ensures
            *final(self) == old(self).add_spec(rhs),
    {
        self.force = self.force.add(rhs.force);
        self.torque = self.torque.add(rhs.torque);
    }

    pub fn sub(self, rhs: Self) -> (r: Self)
        ensures
            r == self.sub_spec(rhs),
    {
        Movement { force: self.force.sub(rhs.force), torque: self.torque.sub(rhs.torque) }
    }

    pub fn sub_assign(&mut self, rhs: Self)
        ensures
            *final(self) == old(self).sub_spec(rhs),
    {
        self.force = self.force.sub(rhs.force);
        self.torque = self.torque.sub(rhs.torque);
    }

    pub fn mul(self, rhs: D) -> (r: Self)
        ensures
            r == self.mul_spec(rhs),
    {
        Movement { force: self.force.scale(rhs), torque: self.torque.scale(rhs) }
    }

    pub fn mul_assign(&mut self, rhs: D)
        ensures
            *final(self) == old(self).mul_spec(rhs),
    {
        self.force = self.force.scale(rhs);
        self.torque = self.torque.scale(rhs);
    }

    pub fn div(self, rhs: D) -> (r: Self)
        ensures
            r == self.div_spec(rhs),
    {
        Movement { force: self.force.shrink(rhs), torque: self.torque.shrink(rhs) }
    }

    pub fn div_assign(&mut self, rhs: D)
        ensures
            *final(self) == old(self).div_spec(rhs),
    {
        self.force = self.force.shrink(rhs);
        self.torque = self.torque.shrink(rhs);
    }

    /// See [`Movement::dot_spec`].
    pub fn dot(self, rhs: Self) -> (r: D)
        ensures
            r == self.dot_spec(rhs),
    {
        self.force.x.mul(rhs.force.x).add(self.force.y.mul(rhs.force.y)).add(
            self.force.z.mul(rhs.force.z),
        ).add(self.torque.x.mul(rhs.torque.x)).add(self.torque.y.mul(rhs.torque.y)).add(
            self.torque.z.mul(rhs.torque.z),
        )
    }
}

} // verus!
