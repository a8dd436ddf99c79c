//! The BlueROV Heavy layout: four lateral and four vertical thrusters, each
//! group the mirror images of one seed thruster.
use crate::motor_config::{
    arrange, lemma_arrange_push, lemma_place_at, ErasedMotorId, InvalidGeometry, Motor,
    MotorConfig, MotorId,
};
use crate::movement::Movement;
use crate::number::Number;
use crate::utils::{replica, replica_spec, VectorTransform};
use crate::vector::Vector3;
use vstd::prelude::*;

verus! {

/// Motor ids for blue rov heavy
#[derive(Clone, Copy, Debug, PartialOrd, Ord, PartialEq, Eq, Hash, Structural)]
pub enum HeavyMotorId {
    LateralFrontLeft,
    LateralFrontRight,
    LateralBackLeft,
    LateralBackRight,
    VerticalFrontLeft,
    VerticalFrontRight,
    VerticalBackLeft,
    VerticalBackRight,
}

impl MotorId for HeavyMotorId {
    open spec fn erased_spec(self) -> ErasedMotorId {
        match self {
            HeavyMotorId::LateralFrontLeft => 0,
            HeavyMotorId::LateralFrontRight => 1,
            HeavyMotorId::LateralBackLeft => 2,
            HeavyMotorId::LateralBackRight => 3,
            HeavyMotorId::VerticalFrontLeft => 4,
            HeavyMotorId::VerticalFrontRight => 5,
            HeavyMotorId::VerticalBackLeft => 6,
            HeavyMotorId::VerticalBackRight => 7,
        }
    }

    fn erased(self) -> (raw: ErasedMotorId) {
        match self {
            HeavyMotorId::LateralFrontLeft => 0,
            HeavyMotorId::LateralFrontRight => 1,
            HeavyMotorId::LateralBackLeft => 2,
            HeavyMotorId::LateralBackRight => 3,
            HeavyMotorId::VerticalFrontLeft => 4,
            HeavyMotorId::VerticalFrontRight => 5,
            HeavyMotorId::VerticalBackLeft => 6,
            HeavyMotorId::VerticalBackRight => 7,
        }
    }

    open spec fn unerased_spec(raw: ErasedMotorId) -> Option<Self> {
        match raw {
            0 => Some(HeavyMotorId::LateralFrontLeft),
            1 => Some(HeavyMotorId::LateralFrontRight),
            2 => Some(HeavyMotorId::LateralBackLeft),
            3 => Some(HeavyMotorId::LateralBackRight),
            4 => Some(HeavyMotorId::VerticalFrontLeft),
            5 => Some(HeavyMotorId::VerticalFrontRight),
            6 => Some(HeavyMotorId::VerticalBackLeft),
            7 => Some(HeavyMotorId::VerticalBackRight),
            _ => None,
        }
    }

    fn unerased(raw: ErasedMotorId) -> (id: Option<Self>) {
        match raw {
            0 => Some(HeavyMotorId::LateralFrontLeft),
            1 => Some(HeavyMotorId::LateralFrontRight),
            2 => Some(HeavyMotorId::LateralBackLeft),
            3 => Some(HeavyMotorId::LateralBackRight),
            4 => Some(HeavyMotorId::VerticalFrontLeft),
            5 => Some(HeavyMotorId::VerticalFrontRight),
            6 => Some(HeavyMotorId::VerticalBackLeft),
            7 => Some(HeavyMotorId::VerticalBackRight),
            _ => None,
        }
    }
}

impl HeavyMotorId {
    /// Whether the thruster is one of the four lateral ones.
    pub open spec fn is_lateral(self) -> bool {
        self.erased_spec() < 4
    }

    /// The reflections that take the front right thruster of a group to
    /// this one.
    pub open spec fn transforms_spec(self) -> Seq<VectorTransform> {
        match self {
            HeavyMotorId::LateralFrontRight | HeavyMotorId::VerticalFrontRight => seq![],
            HeavyMotorId::LateralFrontLeft | HeavyMotorId::VerticalFrontLeft => seq![
                VectorTransform::ReflectYZ,
            ],
            HeavyMotorId::LateralBackRight | HeavyMotorId::VerticalBackRight => seq![
                VectorTransform::ReflectXZ,
            ],
            HeavyMotorId::LateralBackLeft | HeavyMotorId::VerticalBackLeft => seq![
                VectorTransform::ReflectYZ,
                VectorTransform::ReflectXZ,
            ],
        }
    }

    /// See [`HeavyMotorId::transforms_spec`].
    pub fn transforms(self) -> (r: Vec<VectorTransform>)
        ensures
            r@ == self.transforms_spec(),
    {
        let r = match self {
            HeavyMotorId::LateralFrontRight | HeavyMotorId::VerticalFrontRight => Vec::new(),
            HeavyMotorId::LateralFrontLeft | HeavyMotorId::VerticalFrontLeft => vec![
                VectorTransform::ReflectYZ,
            ],
            HeavyMotorId::LateralBackRight | HeavyMotorId::VerticalBackRight => vec![
                VectorTransform::ReflectXZ,
            ],
            HeavyMotorId::LateralBackLeft | HeavyMotorId::VerticalBackLeft => vec![
                VectorTransform::ReflectYZ,
                VectorTransform::ReflectXZ,
            ],
        };
        proof {
            assert(r@ =~= self.transforms_spec());
        }
        r
    }

    /// The thruster with this id in the layout that grows from the two
    /// seeds: a lateral thruster mirrors the lateral seed, a vertical one
    /// the vertical seed.
    pub open spec fn motor_spec<D: Number>(
        self,
        lateral_front_right: Motor<D>,
        vertical_front_right: Motor<D>,
    ) -> Motor<D> {
        replica_spec(
            if self.is_lateral() {
                lateral_front_right
            } else {
                vertical_front_right
            },
            self.transforms_spec(),
        )
    }
}

/// Every id is what its erased form stands for.
pub proof fn lemma_heavy_ids_round_trip(id: HeavyMotorId)
    ensures
        HeavyMotorId::unerased_spec(id.erased_spec()) == Some(id),
{
}

/// The eight ids in the order in which the layout lists them.
pub open spec fn heavy_ids() -> Seq<HeavyMotorId> {
    seq![
        HeavyMotorId::LateralFrontRight,
        HeavyMotorId::LateralFrontLeft,
        HeavyMotorId::LateralBackRight,
        HeavyMotorId::LateralBackLeft,
        HeavyMotorId::VerticalFrontRight,
        HeavyMotorId::VerticalFrontLeft,
        HeavyMotorId::VerticalBackRight,
        HeavyMotorId::VerticalBackLeft,
    ]
}

/// The eight thrusters of the layout that grows from the two seeds.
pub open spec fn heavy_motors<D: Number>(
    lateral_front_right: Motor<D>,
    vertical_front_right: Motor<D>,
) -> Seq<(HeavyMotorId, Motor<D>)> {
    Seq::new(
        8,
        |k: int|
            (heavy_ids()[k], heavy_ids()[k].motor_spec(lateral_front_right, vertical_front_right)),
    )
}

/// The eight ids in their own order.
pub open spec fn heavy_ids_ordered() -> Seq<HeavyMotorId> {
    seq![
        HeavyMotorId::LateralFrontLeft,
        HeavyMotorId::LateralFrontRight,
        HeavyMotorId::LateralBackLeft,
        HeavyMotorId::LateralBackRight,
        HeavyMotorId::VerticalFrontLeft,
        HeavyMotorId::VerticalFrontRight,
        HeavyMotorId::VerticalBackLeft,
        HeavyMotorId::VerticalBackRight,
    ]
}

/// The eight thrusters of the layout in the order of their ids.
pub open spec fn heavy_motors_ordered<D: Number>(
    lateral_front_right: Motor<D>,
    vertical_front_right: Motor<D>,
) -> Seq<(HeavyMotorId, Motor<D>)> {
    Seq::new(
        8,
        |k: int|
            (
                heavy_ids_ordered()[k],
                heavy_ids_ordered()[k].motor_spec(lateral_front_right, vertical_front_right),
            ),
    )
}

/// The layout has eight thrusters, one for each id: arranged, they stand in
/// the order of the ids.
pub proof fn lemma_heavy_arranged<D: Number>(
    lateral_front_right: Motor<D>,
    vertical_front_right: Motor<D>,
)
    ensures
        arrange(heavy_motors(lateral_front_right, vertical_front_right)) == heavy_motors_ordered(
            lateral_front_right,
            vertical_front_right,
        ),
{
    let listed = heavy_motors(lateral_front_right, vertical_front_right);
    let ordered = heavy_motors_ordered(lateral_front_right, vertical_front_right);
    let none = Seq::<(HeavyMotorId, Motor<D>)>::empty();
    let s1 = seq![ordered[1]];
    let s2 = s1.insert(0, ordered[0]);
    let s3 = s2.push(ordered[3]);
    let s4 = s3.insert(2, ordered[2]);
    let s5 = s4.push(ordered[5]);
    let s6 = s5.insert(4, ordered[4]);
    let s7 = s6.push(ordered[7]);
    let s8 = s7.insert(6, ordered[6]);
    assert(listed[0] == ordered[1] && listed[1] == ordered[0] && listed[2] == ordered[3]
        && listed[3] == ordered[2] && listed[4] == ordered[5] && listed[5] == ordered[4]
        && listed[6] == ordered[7] && listed[7] == ordered[6]);
    assert(arrange(none) == none);
    lemma_arrange_push(none, listed[0]);
    lemma_place_at(none, listed[0], 0);
    assert(none.insert(0, listed[0]) =~= s1);
    assert(none.push(listed[0]) =~= listed.take(1));
    assert(arrange(listed.take(1)) == s1);
    lemma_arrange_push(listed.take(1), listed[1]);
    lemma_place_at(s1, listed[1], 0);
    assert(listed.take(1).push(listed[1]) =~= listed.take(2));
    assert(arrange(listed.take(2)) == s2);
    lemma_arrange_push(listed.take(2), listed[2]);
    lemma_place_at(s2, listed[2], 2);
    assert(s2.insert(2, listed[2]) =~= s3);
    assert(listed.take(2).push(listed[2]) =~= listed.take(3));
    assert(arrange(listed.take(3)) == s3);
    lemma_arrange_push(listed.take(3), listed[3]);
    lemma_place_at(s3, listed[3], 2);
    assert(listed.take(3).push(listed[3]) =~= listed.take(4));
    assert(arrange(listed.take(4)) == s4);
    lemma_arrange_push(listed.take(4), listed[4]);
    lemma_place_at(s4, listed[4], 4);
    assert(s4.insert(4, listed[4]) =~= s5);
    assert(listed.take(4).push(listed[4]) =~= listed.take(5));
    assert(arrange(listed.take(5)) == s5);
    lemma_arrange_push(listed.take(5), listed[5]);
    lemma_place_at(s5, listed[5], 4);
    assert(listed.take(5).push(listed[5]) =~= listed.take(6));
    assert(arrange(listed.take(6)) == s6);
    lemma_arrange_push(listed.take(6), listed[6]);
    lemma_place_at(s6, listed[6], 6);
    assert(s6.insert(6, listed[6]) =~= s7);
    assert(listed.take(6).push(listed[6]) =~= listed.take(7));
    assert(arrange(listed.take(7)) == s7);
    lemma_arrange_push(listed.take(7), listed[7]);
    lemma_place_at(s7, listed[7], 6);
    assert(listed.take(7).push(listed[7]) =~= listed);
    assert(s8 =~= ordered);
}

impl<D: Number> MotorConfig<HeavyMotorId, D> {
    /// Builds the configuration of the four thrusters that mirror
    /// `lateral_front_right` and the four that mirror
    /// `vertical_front_right`, with `solve` to find the pseudo-inverse as
    /// in [`MotorConfig::new_raw`].
    pub fn new<F: FnOnce(&Vec<Movement<D>>, D) -> Option<Vec<Movement<D>>>>(
        lateral_front_right: Motor<D>,
        vertical_front_right: Motor<D>,
        center_mass: Vector3<D>,
        solve: F,
    ) -> (r: Result<Self, InvalidGeometry>)
        requires
            Self::solvable(
                heavy_motors(lateral_front_right, vertical_front_right),
                center_mass,
                solve,
            ),
        ensures
            Self::built_by(
                r,
                heavy_motors(lateral_front_right, vertical_front_right),
                center_mass,
                solve,
            ),
            match r {
                Ok(config) => config@.motors == heavy_motors_ordered(
                    lateral_front_right,
                    vertical_front_right,
                ),
                Err(e) => e != InvalidGeometry::NoThrusters,
            },
    {
        let ids = [
            HeavyMotorId::LateralFrontRight,
            HeavyMotorId::LateralFrontLeft,
            HeavyMotorId::LateralBackRight,
            HeavyMotorId::LateralBackLeft,
            HeavyMotorId::VerticalFrontRight,
            HeavyMotorId::VerticalFrontLeft,
            HeavyMotorId::VerticalBackRight,
            HeavyMotorId::VerticalBackLeft,
        ];
        let mut motors: Vec<(HeavyMotorId, Motor<D>)> = Vec::new();
        let mut k: usize = 0;
        while k < 8
            invariant
                k <= 8,
                ids@ == heavy_ids(),
                motors@.len() == k,
                forall|t: int|
                    0 <= t < k ==> #[trigger] motors@[t] == (
                        heavy_ids()[t],
                        heavy_ids()[t].motor_spec(lateral_front_right, vertical_front_right),
                    ),
            decreases 8 - k,
        {
            let motor_id = ids[k];
            let transforms = motor_id.transforms();
            let seed = if motor_id.erased() < 4 {
                lateral_front_right
            } else {
                vertical_front_right
            };
            motors.push((motor_id, replica(&seed, &transforms)));
            k += 1;
        }
        proof {
            assert(motors@ =~= heavy_motors(lateral_front_right, vertical_front_right));
            lemma_heavy_arranged(lateral_front_right, vertical_front_right);
        }
        Self::new_raw(motors, center_mass, solve)
    }
}

} // verus!
