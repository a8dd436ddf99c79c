//! The X3D layout: eight thrusters on the corners of a box, each the mirror
//! image of one seed thruster.
use crate::motor_config::{
    arrange, lemma_arrange_push, lemma_place_at, ErasedMotorId, InvalidGeometry, Motor,
    MotorConfig, MotorId,
};
use crate::movement::Movement;
use crate::number::Number;
use crate::utils::{replica, replica_spec, VectorTransform};
use crate::vector::Vector3;
use vstd::prelude::*;

verus! {

/// Motor ids for the X3D layout
#[derive(Clone, Copy, Debug, PartialOrd, Ord, PartialEq, Eq, Hash, Structural)]
pub enum X3dMotorId {
    FrontRightTop,
    FrontRightBottom,
    FrontLeftTop,
    FrontLeftBottom,
    BackRightTop,
    BackRightBottom,
    BackLeftTop,
    BackLeftBottom,
}

impl MotorId for X3dMotorId {
    open spec fn erased_spec(self) -> ErasedMotorId {
        match self {
            X3dMotorId::FrontRightTop => 0,
            X3dMotorId::FrontRightBottom => 1,
            X3dMotorId::FrontLeftTop => 2,
            X3dMotorId::FrontLeftBottom => 3,
            X3dMotorId::BackRightTop => 4,
            X3dMotorId::BackRightBottom => 5,
            X3dMotorId::BackLeftTop => 6,
            X3dMotorId::BackLeftBottom => 7,
        }
    }

    fn erased(self) -> (raw: ErasedMotorId) {
        match self {
            X3dMotorId::FrontRightTop => 0,
            X3dMotorId::FrontRightBottom => 1,
            X3dMotorId::FrontLeftTop => 2,
            X3dMotorId::FrontLeftBottom => 3,
            X3dMotorId::BackRightTop => 4,
            X3dMotorId::BackRightBottom => 5,
            X3dMotorId::BackLeftTop => 6,
            X3dMotorId::BackLeftBottom => 7,
        }
    }

    open spec fn unerased_spec(raw: ErasedMotorId) -> Option<Self> {
        match raw {
            0 => Some(X3dMotorId::FrontRightTop),
            1 => Some(X3dMotorId::FrontRightBottom),
            2 => Some(X3dMotorId::FrontLeftTop),
            3 => Some(X3dMotorId::FrontLeftBottom),
            4 => Some(X3dMotorId::BackRightTop),
            5 => Some(X3dMotorId::BackRightBottom),
            6 => Some(X3dMotorId::BackLeftTop),
            7 => Some(X3dMotorId::BackLeftBottom),
            _ => None,
        }
    }

    fn unerased(raw: ErasedMotorId) -> (id: Option<Self>) {
        match raw {
            0 => Some(X3dMotorId::FrontRightTop),
            1 => Some(X3dMotorId::FrontRightBottom),
            2 => Some(X3dMotorId::FrontLeftTop),
            3 => Some(X3dMotorId::FrontLeftBottom),
            4 => Some(X3dMotorId::BackRightTop),
            5 => Some(X3dMotorId::BackRightBottom),
            6 => Some(X3dMotorId::BackLeftTop),
            7 => Some(X3dMotorId::BackLeftBottom),
            _ => None,
        }
    }
}

impl X3dMotorId {
    /// The reflections that take the front right top thruster to this one.
    pub open spec fn transforms_spec(self) -> Seq<VectorTransform> {
        match self {
            X3dMotorId::FrontRightTop => seq![],
            X3dMotorId::FrontRightBottom => seq![VectorTransform::ReflectXY],
            X3dMotorId::FrontLeftTop => seq![VectorTransform::ReflectYZ],
            X3dMotorId::BackRightTop => seq![VectorTransform::ReflectXZ],
            X3dMotorId::FrontLeftBottom => seq![
                VectorTransform::ReflectXY,
                VectorTransform::ReflectYZ,
            ],
            X3dMotorId::BackLeftTop => seq![VectorTransform::ReflectYZ, VectorTransform::ReflectXZ],
            X3dMotorId::BackRightBottom => seq![
                VectorTransform::ReflectXZ,
                VectorTransform::ReflectXY,
            ],
            X3dMotorId::BackLeftBottom => seq![
                VectorTransform::ReflectXY,
                VectorTransform::ReflectYZ,
                VectorTransform::ReflectXZ,
            ],
        }
    }

    /// See [`X3dMotorId::transforms_spec`].
    pub fn transforms(self) -> (r: Vec<VectorTransform>)
        ensures
            r@ == self.transforms_spec(),
    {
        let r = match self {
            X3dMotorId::FrontRightTop => Vec::new(),
            X3dMotorId::FrontRightBottom => vec![VectorTransform::ReflectXY],
            X3dMotorId::FrontLeftTop => vec![VectorTransform::ReflectYZ],
            X3dMotorId::BackRightTop => vec![VectorTransform::ReflectXZ],
            X3dMotorId::FrontLeftBottom => vec![
                VectorTransform::ReflectXY,
                VectorTransform::ReflectYZ,
            ],
            X3dMotorId::BackLeftTop => vec![VectorTransform::ReflectYZ, VectorTransform::ReflectXZ],
            X3dMotorId::BackRightBottom => vec![
                VectorTransform::ReflectXZ,
                VectorTransform::ReflectXY,
            ],
            X3dMotorId::BackLeftBottom => vec![
                VectorTransform::ReflectXY,
                VectorTransform::ReflectYZ,
                VectorTransform::ReflectXZ,
            ],
        };
        proof {
            assert(r@ =~= self.transforms_spec());
        }
        r
    }

    /// The thruster with this id in the layout that grows from
    /// `front_right_top`.
    pub open spec fn motor_spec<D: Number>(self, front_right_top: Motor<D>) -> Motor<D> {
        replica_spec(front_right_top, self.transforms_spec())
    }
}

/// Every id is what its erased form stands for.
pub proof fn lemma_x3d_ids_round_trip(id: X3dMotorId)
    ensures
        X3dMotorId::unerased_spec(id.erased_spec()) == Some(id),
{
}

/// The eight ids in the order in which the layout lists them.
pub open spec fn x3d_ids() -> Seq<X3dMotorId> {
    seq![
        X3dMotorId::FrontRightTop,
        X3dMotorId::FrontRightBottom,
        X3dMotorId::FrontLeftTop,
        X3dMotorId::BackRightTop,
        X3dMotorId::FrontLeftBottom,
        X3dMotorId::BackLeftTop,
        X3dMotorId::BackRightBottom,
        X3dMotorId::BackLeftBottom,
    ]
}

/// The eight thrusters of the layout that grows from `front_right_top`.
pub open spec fn x3d_motors<D: Number>(front_right_top: Motor<D>) -> Seq<(X3dMotorId, Motor<D>)> {
    Seq::new(8, |k: int| (x3d_ids()[k], x3d_ids()[k].motor_spec(front_right_top)))
}

/// The eight ids in their own order.
pub open spec fn x3d_ids_ordered() -> Seq<X3dMotorId> {
    seq![
        X3dMotorId::FrontRightTop,
        X3dMotorId::FrontRightBottom,
        X3dMotorId::FrontLeftTop,
        X3dMotorId::FrontLeftBottom,
        X3dMotorId::BackRightTop,
        X3dMotorId::BackRightBottom,
        X3dMotorId::BackLeftTop,
        X3dMotorId::BackLeftBottom,
    ]
}

/// The eight thrusters of the layout in the order of their ids.
pub open spec fn x3d_motors_ordered<D: Number>(front_right_top: Motor<D>) -> Seq<
    (X3dMotorId, Motor<D>),
> {
    Seq::new(8, |k: int| (x3d_ids_ordered()[k], x3d_ids_ordered()[k].motor_spec(front_right_top)))
}

/// The layout has eight thrusters, one for each id: arranged, they stand in
/// the order of the ids.
pub proof fn lemma_x3d_arranged<D: Number>(front_right_top: Motor<D>)
    ensures
        arrange(x3d_motors(front_right_top)) == x3d_motors_ordered(front_right_top),
{
    let listed = x3d_motors(front_right_top);
    let ordered = x3d_motors_ordered(front_right_top);
    let none = Seq::<(X3dMotorId, Motor<D>)>::empty();
    let s1 = seq![ordered[0]];
    let s2 = s1.push(ordered[1]);
    let s3 = s2.push(ordered[2]);
    let s4 = s3.push(ordered[4]);
    let s5 = s4.insert(3, ordered[3]);
    let s6 = s5.push(ordered[6]);
    let s7 = s6.insert(5, ordered[5]);
    let s8 = s7.push(ordered[7]);
    assert(listed[0] == ordered[0] && listed[1] == ordered[1] && listed[2] == ordered[2]
        && listed[3] == ordered[4] && listed[4] == ordered[3] && listed[5] == ordered[6]
        && listed[6] == ordered[5] && listed[7] == ordered[7]);
    assert(arrange(none) == none);
    lemma_arrange_push(none, listed[0]);
    lemma_place_at(none, listed[0], 0);
    assert(none.insert(0, listed[0]) =~= s1);
    assert(none.push(listed[0]) =~= listed.take(1));
    assert(arrange(listed.take(1)) == s1);
    lemma_arrange_push(listed.take(1), listed[1]);
    lemma_place_at(s1, listed[1], 1);
    assert(s1.insert(1, listed[1]) =~= s2);
    assert(listed.take(1).push(listed[1]) =~= listed.take(2));
    assert(arrange(listed.take(2)) == s2);
    lemma_arrange_push(listed.take(2), listed[2]);
    lemma_place_at(s2, listed[2], 2);
    assert(s2.insert(2, listed[2]) =~= s3);
    assert(listed.take(2).push(listed[2]) =~= listed.take(3));
    assert(arrange(listed.take(3)) == s3);
    lemma_arrange_push(listed.take(3), listed[3]);
    lemma_place_at(s3, listed[3], 3);
    assert(s3.insert(3, listed[3]) =~= s4);
    assert(listed.take(3).push(listed[3]) =~= listed.take(4));
    assert(arrange(listed.take(4)) == s4);
    lemma_arrange_push(listed.take(4), listed[4]);
    lemma_place_at(s4, listed[4], 3);
    assert(listed.take(4).push(listed[4]) =~= listed.take(5));
    assert(arrange(listed.take(5)) == s5);
    lemma_arrange_push(listed.take(5), listed[5]);
    lemma_place_at(s5, listed[5], 5);
    assert(s5.insert(5, listed[5]) =~= s6);
    assert(listed.take(5).push(listed[5]) =~= listed.take(6));
    assert(arrange(listed.take(6)) == s6);
    lemma_arrange_push(listed.take(6), listed[6]);
    lemma_place_at(s6, listed[6], 5);
    assert(listed.take(6).push(listed[6]) =~= listed.take(7));
    assert(arrange(listed.take(7)) == s7);
    lemma_arrange_push(listed.take(7), listed[7]);
    lemma_place_at(s7, listed[7], 7);
    assert(s7.insert(7, listed[7]) =~= s8);
    assert(listed.take(7).push(listed[7]) =~= listed);
    assert(s8 =~= ordered);
}

impl<D: Number> MotorConfig<X3dMotorId, D> {
    /// Builds the configuration of the eight thrusters that mirror
    /// `front_right_top`, with `solve` to find the pseudo-inverse as in
    /// [`MotorConfig::new_raw`].
    pub fn new<F: FnOnce(&Vec<Movement<D>>, D) -> Option<Vec<Movement<D>>>>(
        front_right_top: Motor<D>,
        center_mass: Vector3<D>,
        solve: F,
    ) -> (r: Result<Self, InvalidGeometry>)
        requires
            Self::solvable(x3d_motors(front_right_top), center_mass, solve),
        ensures
            Self::built_by(r, x3d_motors(front_right_top), center_mass, solve),
            match r {
                Ok(config) => config@.motors == x3d_motors_ordered(front_right_top),
                Err(e) => e != InvalidGeometry::NoThrusters,
            },
    {
        let ids = [
            X3dMotorId::FrontRightTop,
            X3dMotorId::FrontRightBottom,
            X3dMotorId::FrontLeftTop,
            X3dMotorId::BackRightTop,
            X3dMotorId::FrontLeftBottom,
            X3dMotorId::BackLeftTop,
            X3dMotorId::BackRightBottom,
            X3dMotorId::BackLeftBottom,
        ];
        let mut motors: Vec<(X3dMotorId, Motor<D>)> = Vec::new();
        let mut k: usize = 0;
        while k < 8
            invariant
                k <= 8,
                ids@ == x3d_ids(),
                motors@.len() == k,
                forall|t: int|
                    0 <= t < k ==> #[trigger] motors@[t] == (
                        x3d_ids()[t],
                        x3d_ids()[t].motor_spec(front_right_top),
                    ),
            decreases 8 - k,
        {
            let motor_id = ids[k];
            let transforms = motor_id.transforms();
            motors.push((motor_id, replica(&front_right_top, &transforms)));
            k += 1;
        }
        proof {
            assert(motors@ =~= x3d_motors(front_right_top));
            lemma_x3d_arranged(front_right_top);
        }
        Self::new_raw(motors, center_mass, solve)
    }
}

} // verus!
