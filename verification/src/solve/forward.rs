//! Motor Commands -> Movement
use crate::motor_config::{find, MotorConfig, MotorConfigView, MotorId};
use crate::movement::Movement;
use crate::number::{zero, zero_spec, Number};
use vstd::prelude::*;

verus! {

/// The force that `motor_forces` holds for the thruster `id`, or zero where
/// it holds none.
pub open spec fn force_of<Id: MotorId, D: Number>(motor_forces: Seq<(Id, D)>, id: Id) -> D {
    match find(motor_forces, id.erased_spec()) {
        Some(force) => force,
        None => zero_spec::<D>(),
    }
}

/// The movement of the first `count` thrusters: from none, the column of
/// each thruster times its force, added in the order of the thrusters.
pub open spec fn movement_of<Id: MotorId, D: Number>(
    config: MotorConfigView<Id, D>,
    motor_forces: Seq<(Id, D)>,
    count: nat,
) -> Movement<D>
    decreases count,
{
    if count == 0 {
        Movement::zero_spec()
    } else {
        let k = count - 1;
        movement_of(config, motor_forces, k as nat).add_spec(
            config.matrix[k].mul_spec(force_of(motor_forces, config.motors[k].0)),
        )
    }
}

/// The movement that the thrusters give together: the matrix times the
/// forces, with zero for a thruster that `motor_forces` does not name.
pub open spec fn forward_solve_spec<Id: MotorId, D: Number>(
    config: MotorConfigView<Id, D>,
    motor_forces: Seq<(Id, D)>,
) -> Movement<D> {
    movement_of(config, motor_forces, config.motors.len())
}

/// The value that `entries` holds for `id`.
pub fn lookup<Id: MotorId, V: Copy>(entries: &Vec<(Id, V)>, id: Id) -> (r: Option<V>)
    ensures
        r == find(entries@, id.erased_spec()),
{
    let raw = id.erased();
    let mut i: usize = 0;
    proof {
        assert(entries@.subrange(0, entries@.len() as int) =~= entries@);
    }
    while i < entries.len()
        invariant
            i <= entries.len(),
            raw == id.erased_spec(),
            find(entries@, raw) == find(entries@.subrange(i as int, entries@.len() as int), raw),
        decreases entries.len() - i,
    {
        let ghost rest = entries@.subrange(i as int, entries@.len() as int);
        let entry = entries[i];
        proof {
            assert(rest[0] == entries@[i as int]);
            assert(rest.subrange(1, rest.len() as int) =~= entries@.subrange(
                i + 1,
                entries@.len() as int,
            ));
        }
        if entry.0.erased() == raw {
            return Some(entry.1);
        }
        i += 1;
    }
    None
}

/// The movement that the forces of the thrusters give together.
pub fn forward_solve<D: Number, Id: MotorId>(
    motor_config: &MotorConfig<Id, D>,
    motor_forces: &Vec<(Id, D)>,
) -> (r: Movement<D>)
    ensures
        r == forward_solve_spec(motor_config@, motor_forces@),
{
    let motors = motor_config.motors();
    let matrix = motor_config.matrix();
    let mut movement = Movement::<D>::zero();
    let mut k: usize = 0;
    while k < motors.len()
        invariant
            k <= motors.len(),
            motors@ == motor_config@.motors,
            matrix@ == motor_config@.matrix,
            motor_config@.wf(),
            movement == movement_of(motor_config@, motor_forces@, k as nat),
        decreases motors.len() - k,
    {
        let force = match lookup(motor_forces, motors[k].0) {
            Some(force) => force,
            None => zero::<D>(),
        };
        movement = movement.add(matrix[k].mul(force));
        k += 1;
    }
    movement
}

} // verus!
