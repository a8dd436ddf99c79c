//! Helpers for laying out thrusters.
use crate::motor_config::Motor;
use crate::number::Number;
use crate::vector::Vector3;
use vstd::prelude::*;

verus! {

/// The unit vector at the angle `angle_xy` in the XY plane, raised out of it
/// by the angle `angle_yz`: `(cos xy * cos yz, sin xy * cos yz, sin yz)`.
pub open spec fn vec_from_angles_spec<D: Number>(angle_xy: D, angle_yz: D) -> Vector3<D> {
    Vector3 {
        x: angle_xy.cos_spec().mul_spec(angle_yz.cos_spec()),
        y: angle_xy.sin_spec().mul_spec(angle_yz.cos_spec()),
        z: angle_yz.sin_spec(),
    }
}

/// A unit vector from two angles; see [`vec_from_angles_spec`].
pub fn vec_from_angles<D: Number>(angle_xy: D, angle_yz: D) -> (r: Vector3<D>)
    ensures
        r == vec_from_angles_spec(angle_xy, angle_yz),
{
    let x = angle_xy.cos().mul(angle_yz.cos());
    let y = angle_xy.sin().mul(angle_yz.cos());
    let z = angle_yz.sin();
    Vector3 { x, y, z }
}

/// A reflection across one of the coordinate planes.
#[derive(Clone, Copy, Debug, PartialEq, Eq, Structural)]
pub enum VectorTransform {
    ReflectXY,
    ReflectYZ,
    ReflectXZ,
}

impl VectorTransform {
    /// The vector with the component across the plane negated.
    pub open spec fn transform_spec<D: Number>(self, vec: Vector3<D>) -> Vector3<D> {
        match self {
            VectorTransform::ReflectXY => Vector3 { z: vec.z.neg_spec(), ..vec },
            VectorTransform::ReflectYZ => Vector3 { x: vec.x.neg_spec(), ..vec },
            VectorTransform::ReflectXZ => Vector3 { y: vec.y.neg_spec(), ..vec },
        }
    }

    pub fn transform<D: Number>(&self, vec: Vector3<D>) -> (r: Vector3<D>)
        ensures
            r == self.transform_spec(vec),
    {
        match self {
            VectorTransform::ReflectXY => Vector3 { x: vec.x, y: vec.y, z: vec.z.neg() },
            VectorTransform::ReflectYZ => Vector3 { x: vec.x.neg(), y: vec.y, z: vec.z },
            VectorTransform::ReflectXZ => Vector3 { x: vec.x, y: vec.y.neg(), z: vec.z },
        }
    }
}

/// The vector after each of the reflections, in their order.
pub open spec fn reflect_all<D: Number>(vec: Vector3<D>, transforms: Seq<VectorTransform>) -> Vector3<
    D,
>
    decreases transforms.len(),
{
    if transforms.len() == 0 {
        vec
    } else {
        transforms.last().transform_spec(reflect_all(vec, transforms.drop_last()))
    }
}

/// The thruster that mirrors `seed` through the reflections: position and
/// orientation are reflected, and the spin direction flips once for each
/// reflection.
pub open spec fn replica_spec<D: Number>(seed: Motor<D>, transforms: Seq<VectorTransform>) -> Motor<
    D,
> {
    Motor {
        position: reflect_all(seed.position, transforms),
        orientation: reflect_all(seed.orientation, transforms),
        direction: seed.direction.flipped(transforms.len() as int),
    }
}

/// See [`replica_spec`].
pub fn replica<D: Number>(seed: &Motor<D>, transforms: &Vec<VectorTransform>) -> (r: Motor<D>)
    ensures
        r == replica_spec(*seed, transforms@),
{
    let mut position = seed.position;
    let mut orientation = seed.orientation;
    let mut k: usize = 0;
    while k < transforms.len()
        invariant
            k <= transforms.len(),
            position == reflect_all(seed.position, transforms@.take(k as int)),
            orientation == reflect_all(seed.orientation, transforms@.take(k as int)),
        decreases transforms.len() - k,
    {
        proof {
            assert(transforms@.take(k + 1).drop_last() =~= transforms@.take(k as int));
        }
        position = transforms[k].transform(position);
        orientation = transforms[k].transform(orientation);
        k += 1;
    }
    proof {
        assert(transforms@.take(transforms.len() as int) =~= transforms@);
    }
    let flips: i32 = if transforms.len() % 2 == 0 {
        0
    } else {
        1
    };
    Motor { position, orientation, direction: seed.direction.flip_n(flips) }
}

} // verus!
