//! Desired Movement -> Motor Commands
//!
//! Forces and commands are kept per thruster as a list of pairs of an id and
//! a value, in the order in which they were made; what comes out of a solver
//! is in the order of the thrusters of the configuration.
use crate::direction::Direction;
use crate::motor_config::{
    find, lemma_find_first, ErasedMotorId, MotorConfig, MotorConfigView, MotorId,
};
use crate::motor_performance::{lookup_spec, Interpolation, MotorData, MotorRecord, TableKey};
use crate::movement::Movement;
use crate::number::{one, one_spec, zero, zero_spec, Number, Real};
use crate::solve::forward::{force_of, forward_solve_spec, movement_of};
use crate::vector::Vector3;
use vstd::prelude::*;

verus! {

/// An id that the configuration has no thruster for.
#[derive(Debug, Clone, Copy, PartialEq, Eq, Structural)]
pub struct UnknownThruster {
    pub raw: ErasedMotorId,
}

/// The most steps that the search for a force ratio takes.
pub const MAX_ITERATIONS: u32 = 32;

/// The magnitude of the movement that the maximum along an axis is sought
/// with.
pub const AXIS_PROBE: i32 = 25;

/// The force of each thruster for a wanted movement: the row of the
/// pseudo-inverse of the thruster times the movement.
pub open spec fn reverse_solve_spec<Id: MotorId, D: Number>(
    movement: Movement<D>,
    config: MotorConfigView<Id, D>,
) -> Seq<(Id, D)> {
    Seq::new(
        config.motors.len(),
        |k: int| (config.motors[k].0, config.pseudo_inverse[k].dot_spec(movement)),
    )
}

/// The forces, one for each thruster in the order of the thrusters, that
/// give `movement` as nearly as the thrusters can.
pub fn reverse_solve<D: Number, Id: MotorId>(
    movement: Movement<D>,
    motor_config: &MotorConfig<Id, D>,
) -> (r: Vec<(Id, D)>)
    ensures
        r@ == reverse_solve_spec(movement, motor_config@),
{
    let motors = motor_config.motors();
    let rows = motor_config.pseudo_inverse();
    let mut motor_forces: Vec<(Id, D)> = Vec::new();
    let mut k: usize = 0;
    while k < motors.len()
        invariant
            k <= motors.len(),
            motors@ == motor_config@.motors,
            rows@ == motor_config@.pseudo_inverse,
            motor_config@.wf(),
            motor_forces@.len() == k,
            forall|t: int|
                0 <= t < k ==> #[trigger] motor_forces@[t] == (
                    motors@[t].0,
                    rows@[t].dot_spec(movement),
                ),
        decreases motors.len() - k,
    {
        motor_forces.push((motors[k].0, rows[k].dot(movement)));
        k += 1;
    }
    proof {
        assert(motor_forces@ =~= reverse_solve_spec(movement, motor_config@));
    }
    motor_forces
}

/// The matrix times the pseudo-inverse times `movement`, over the first
/// `count` thrusters: from none, the column of each thruster times what its
/// row of the pseudo-inverse makes of the movement, added in the order of
/// the thrusters.
pub open spec fn recomposed<Id: MotorId, D: Number>(
    config: MotorConfigView<Id, D>,
    movement: Movement<D>,
    count: nat,
) -> Movement<D>
    decreases count,
{
    if count == 0 {
        Movement::zero_spec()
    } else {
        let k = count - 1;
        recomposed(config, movement, k as nat).add_spec(
            config.matrix[k].mul_spec(config.pseudo_inverse[k].dot_spec(movement)),
        )
    }
}

/// The movement that the forward solver makes of the forces that the
/// reverse solver gave for `movement` is the matrix times the
/// pseudo-inverse times `movement`: every thruster gets its own force, and
/// none is left out.
pub proof fn lemma_forward_of_reverse<Id: MotorId, D: Number>(
    config: MotorConfigView<Id, D>,
    movement: Movement<D>,
)
    requires
        config.wf(),
    ensures
        forward_solve_spec(config, reverse_solve_spec(movement, config)) == recomposed(
            config,
            movement,
            config.motors.len(),
        ),
{
    lemma_forward_of_reverse_upto(config, movement, config.motors.len());
}

proof fn lemma_forward_of_reverse_upto<Id: MotorId, D: Number>(
    config: MotorConfigView<Id, D>,
    movement: Movement<D>,
    count: nat,
)
    requires
        config.wf(),
        count <= config.motors.len(),
    ensures
        movement_of(config, reverse_solve_spec(movement, config), count) == recomposed(
            config,
            movement,
            count,
        ),
    decreases count,
{
    if count > 0 {
        let k = count - 1;
        let forces = reverse_solve_spec(movement, config);
        lemma_forward_of_reverse_upto(config, movement, k as nat);
        assert forall|j: int| 0 <= j < k implies (#[trigger] forces[j]).0.erased_spec()
            != config.motors[k].0.erased_spec() by {
            assert(config.motors[j].0.erased_spec() < config.motors[k].0.erased_spec());
        }
        lemma_find_first(forces, config.motors[k].0.erased_spec(), k);
        assert(force_of(forces, config.motors[k].0) == config.pseudo_inverse[k].dot_spec(
            movement,
        ));
    }
}

/// The spin direction of the thruster `id`, clockwise when the configuration
/// has no such thruster.
pub open spec fn direction_of<Id: MotorId, D: Number>(
    config: MotorConfigView<Id, D>,
    id: Id,
) -> Direction {
    match find(config.motors, id.erased_spec()) {
        Some(motor) => motor.direction,
        None => Direction::Clockwise,
    }
}

fn direction_or_clockwise<Id: MotorId, D: Number>(motor_config: &MotorConfig<Id, D>, id: Id) -> (r:
    Direction)
    ensures
        r == direction_of(motor_config@, id),
{
    match motor_config.motor(&id) {
        Some(motor) => motor.direction,
        None => Direction::Clockwise,
    }
}

/// The first id among `forces` that the configuration has no thruster for.
pub open spec fn first_unknown<Id: MotorId, D: Number>(
    forces: Seq<(Id, D)>,
    config: MotorConfigView<Id, D>,
) -> Option<ErasedMotorId>
    decreases forces.len(),
{
    if forces.len() == 0 {
        None
    } else if find(config.motors, forces[0].0.erased_spec()) is None {
        Some(forces[0].0.erased_spec())
    } else {
        first_unknown(forces.subrange(1, forces.len() as int), config)
    }
}

/// The command of a thruster that is to give `force`: the record of the
/// table for that force, blended, with the pwm for its spin direction.
pub open spec fn command_of<Id: MotorId, D: Number>(
    id: Id,
    force: D,
    config: MotorConfigView<Id, D>,
    motor_data: MotorData<D::Real>,
) -> MotorRecord<D> {
    lookup_spec(
        motor_data.by_force(),
        TableKey::Force,
        force,
        Interpolation::LerpDirection(direction_of(config, id)),
    )
}

/// The command of each thruster for the force that it is to give, in the
/// order of `forces`.
pub open spec fn forces_to_cmds_spec<Id: MotorId, D: Number>(
    forces: Seq<(Id, D)>,
    config: MotorConfigView<Id, D>,
    motor_data: MotorData<D::Real>,
) -> Seq<(Id, MotorRecord<D>)> {
    Seq::new(
        forces.len(),
        |k: int| (forces[k].0, command_of(forces[k].0, forces[k].1, config, motor_data)),
    )
}

/// The command of each thruster for the force that it is to give. A force
/// for an id that the configuration has no thruster for ends it: the first
/// such id is returned.
pub fn forces_to_cmds<D: Number, Id: MotorId>(
    forces: Vec<(Id, D)>,
    motor_config: &MotorConfig<Id, D>,
    motor_data: &MotorData<D::Real>,
) -> (r: Result<Vec<(Id, MotorRecord<D>)>, UnknownThruster>)
    ensures
        match r {
            Ok(motor_cmds) => first_unknown(forces@, motor_config@) is None && motor_cmds@
                == forces_to_cmds_spec(forces@, motor_config@, *motor_data),
            Err(e) => first_unknown(forces@, motor_config@) == Some(e.raw),
        },
{
    let mut motor_cmds: Vec<(Id, MotorRecord<D>)> = Vec::new();
    let mut k: usize = 0;
    proof {
        assert(forces@.subrange(0, forces@.len() as int) =~= forces@);
    }
    while k < forces.len()
        invariant
            k <= forces.len(),
            motor_cmds@.len() == k,
            first_unknown(forces@, motor_config@) == first_unknown(
                forces@.subrange(k as int, forces@.len() as int),
                motor_config@,
            ),
            forall|t: int|
                0 <= t < k ==> #[trigger] motor_cmds@[t] == (
                    forces@[t].0,
                    command_of(forces@[t].0, forces@[t].1, motor_config@, *motor_data),
                ),
        decreases forces.len() - k,
    {
        let (motor_id, force) = forces[k];
        let ghost rest = forces@.subrange(k as int, forces@.len() as int);
        proof {
            assert(rest[0] == forces@[k as int]);
            assert(rest.subrange(1, rest.len() as int) =~= forces@.subrange(
                k + 1,
                forces@.len() as int,
            ));
        }
        match motor_config.motor(&motor_id) {
            Some(motor) => {
                let data = motor_data.lookup_by_force(
                    force,
                    Interpolation::LerpDirection(motor.direction),
                );
                motor_cmds.push((motor_id, data));
            },
            None => {
                return Err(UnknownThruster { raw: motor_id.erased() });
            },
        }
        k += 1;
    }
    proof {
        assert(motor_cmds@ =~= forces_to_cmds_spec(forces@, motor_config@, *motor_data));
    }
    Ok(motor_cmds)
}

/// The current that the first `count` commands draw together: from zero,
/// the currents added in the order of the commands.
pub open spec fn current_of<Id, D: Number>(motor_cmds: Seq<(Id, MotorRecord<D>)>, count: nat) -> D
    decreases count,
{
    if count == 0 {
        zero_spec::<D>()
    } else {
        current_of(motor_cmds, (count - 1) as nat).add_spec(motor_cmds[count - 1].1.current)
    }
}

/// The current that the commands draw together.
pub open spec fn total_current<Id, D: Number>(motor_cmds: Seq<(Id, MotorRecord<D>)>) -> D {
    current_of(motor_cmds, motor_cmds.len())
}

/// The current that the commands draw together.
pub fn amperage_total<Id: MotorId, D: Number>(motor_cmds: &Vec<(Id, MotorRecord<D>)>) -> (r: D)
    ensures
        r == total_current(motor_cmds@),
{
    let mut total = zero::<D>();
    let mut k: usize = 0;
    while k < motor_cmds.len()
        invariant
            k <= motor_cmds.len(),
            total == current_of(motor_cmds@, k as nat),
        decreases motor_cmds.len() - k,
    {
        total = total.add(motor_cmds[k].1.current);
        k += 1;
    }
    total
}

/// Whether the commands draw no more than `amperage_cap` together.
pub open spec fn within_cap<Id, D: Number>(
    motor_cmds: Seq<(Id, MotorRecord<D>)>,
    amperage_cap: D::Real,
) -> bool {
    total_current(motor_cmds).re_spec().le_spec(amperage_cap)
}

/// The command of a thruster when every current is scaled by
/// `amperage_ratio`: the record of the table for the signed current of
/// `data` times the ratio.
pub open spec fn current_scaled<Id: MotorId, D: Number>(
    id: Id,
    data: MotorRecord<D>,
    config: MotorConfigView<Id, D>,
    motor_data: MotorData<D::Real>,
    amperage_ratio: D,
) -> MotorRecord<D> {
    lookup_spec(
        motor_data.by_signed_current(),
        TableKey::SignedCurrent,
        data.current.copysign_spec(data.force).mul_spec(amperage_ratio),
        Interpolation::LerpDirection(direction_of(config, id)),
    )
}

/// What [`clamp_amperage_fast`] makes of the commands: the commands
/// themselves where they are within the cap, and otherwise each command
/// looked up again at its signed current times `cap / total`.
pub open spec fn clamp_amperage_fast_spec<Id: MotorId, D: Number>(
    motor_cmds: Seq<(Id, MotorRecord<D>)>,
    config: MotorConfigView<Id, D>,
    motor_data: MotorData<D::Real>,
    amperage_cap: D::Real,
) -> Seq<(Id, MotorRecord<D>)> {
    if within_cap(motor_cmds, amperage_cap) {
        motor_cmds
    } else {
        let amperage_ratio = D::from_real_spec(amperage_cap).div_spec(total_current(motor_cmds));
        Seq::new(
            motor_cmds.len(),
            |k: int|
                (
                    motor_cmds[k].0,
                    current_scaled(
                        motor_cmds[k].0,
                        motor_cmds[k].1,
                        config,
                        motor_data,
                        amperage_ratio,
                    ),
                ),
        )
    }
}

/// Brings the commands towards the cap by scaling every current by one
/// ratio, in one pass over the commands. The current of a thruster does not
/// grow in proportion to its force, so the ratios between the forces change.
pub fn clamp_amperage_fast<D: Number, Id: MotorId>(
    motor_cmds: Vec<(Id, MotorRecord<D>)>,
    motor_config: &MotorConfig<Id, D>,
    motor_data: &MotorData<D::Real>,
    amperage_cap: D::Real,
) -> (r: Vec<(Id, MotorRecord<D>)>)
    ensures
        r@ == clamp_amperage_fast_spec(motor_cmds@, motor_config@, *motor_data, amperage_cap),
{
    let amperage_total = amperage_total(&motor_cmds);
    if amperage_total.re().le(amperage_cap) {
        return motor_cmds;
    }
    let amperage_ratio = D::from_real(amperage_cap).div(amperage_total);
    let mut adjusted_motor_cmds: Vec<(Id, MotorRecord<D>)> = Vec::new();
    let mut k: usize = 0;
    while k < motor_cmds.len()
        invariant
            k <= motor_cmds.len(),
            adjusted_motor_cmds@.len() == k,
            forall|t: int|
                0 <= t < k ==> #[trigger] adjusted_motor_cmds@[t] == (
                    motor_cmds@[t].0,
                    current_scaled(
                        motor_cmds@[t].0,
                        motor_cmds@[t].1,
                        motor_config@,
                        *motor_data,
                        amperage_ratio,
                    ),
                ),
        decreases motor_cmds.len() - k,
    {
        let (motor_id, data) = motor_cmds[k];
        let direction = direction_or_clockwise(motor_config, motor_id);
        let adjusted_current = data.current.copysign(data.force).mul(amperage_ratio);
        let data_adjusted = motor_data.lookup_by_current(
            adjusted_current,
            Interpolation::LerpDirection(direction),
        );
        adjusted_motor_cmds.push((motor_id, data_adjusted));
        k += 1;
    }
    proof {
        assert(adjusted_motor_cmds@ =~= clamp_amperage_fast_spec(
            motor_cmds@,
            motor_config@,
            *motor_data,
            amperage_cap,
        ));
    }
    adjusted_motor_cmds
}

/// The command of a thruster when every force is scaled by `force_ratio`:
/// the record of the table for the force of `data` times the ratio.
pub open spec fn force_scaled<Id: MotorId, D: Number>(
    id: Id,
    data: MotorRecord<D>,
    config: MotorConfigView<Id, D>,
    motor_data: MotorData<D::Real>,
    force_ratio: D,
) -> MotorRecord<D> {
    lookup_spec(
        motor_data.by_force(),
        TableKey::Force,
        data.force.mul_spec(force_ratio),
        Interpolation::LerpDirection(direction_of(config, id)),
    )
}

/// Every command with its force scaled by `force_ratio`.
pub open spec fn scaled_cmds<Id: MotorId, D: Number>(
    motor_cmds: Seq<(Id, MotorRecord<D>)>,
    config: MotorConfigView<Id, D>,
    motor_data: MotorData<D::Real>,
    force_ratio: D,
) -> Seq<(Id, MotorRecord<D>)> {
    Seq::new(
        motor_cmds.len(),
        |k: int|
            (
                motor_cmds[k].0,
                force_scaled(motor_cmds[k].0, motor_cmds[k].1, config, motor_data, force_ratio),
            ),
    )
}

/// The current that the commands draw together when every force is scaled
/// by `force_ratio`.
pub open spec fn scaled_current<Id: MotorId, D: Number>(
    motor_cmds: Seq<(Id, MotorRecord<D>)>,
    config: MotorConfigView<Id, D>,
    motor_data: MotorData<D::Real>,
    force_ratio: D,
) -> D {
    total_current(scaled_cmds(motor_cmds, config, motor_data, force_ratio))
}

fn scale_forces<D: Number, Id: MotorId>(
    motor_cmds: &Vec<(Id, MotorRecord<D>)>,
    motor_config: &MotorConfig<Id, D>,
    motor_data: &MotorData<D::Real>,
    force_ratio: D,
) -> (r: Vec<(Id, MotorRecord<D>)>)
    ensures
        r@ == scaled_cmds(motor_cmds@, motor_config@, *motor_data, force_ratio),
{
    let mut adjusted_motor_cmds: Vec<(Id, MotorRecord<D>)> = Vec::new();
    let mut k: usize = 0;
    while k < motor_cmds.len()
        invariant
            k <= motor_cmds.len(),
            adjusted_motor_cmds@.len() == k,
            forall|t: int|
                0 <= t < k ==> #[trigger] adjusted_motor_cmds@[t] == (
                    motor_cmds@[t].0,
                    force_scaled(
                        motor_cmds@[t].0,
                        motor_cmds@[t].1,
                        motor_config@,
                        *motor_data,
                        force_ratio,
                    ),
                ),
        decreases motor_cmds.len() - k,
    {
        let (motor_id, data) = motor_cmds[k];
        let direction = direction_or_clockwise(motor_config, motor_id);
        let force_current = data.force.mul(force_ratio);
        let data_adjusted = motor_data.lookup_by_force(
            force_current,
            Interpolation::LerpDirection(direction),
        );
        adjusted_motor_cmds.push((motor_id, data_adjusted));
        k += 1;
    }
    proof {
        assert(adjusted_motor_cmds@ =~= scaled_cmds(
            motor_cmds@,
            motor_config@,
            *motor_data,
            force_ratio,
        ));
    }
    adjusted_motor_cmds
}

/// Where the search for a force ratio stands: the greatest ratio found to
/// draw less than the cap, the least found to draw as much or more, each
/// with the current it draws, and the ratio to try next.
#[derive(Debug, Clone, Copy)]
pub struct Bisection<D> {
    pub lower_bound: D,
    pub lower_current: D,
    pub upper_bound: D,
    pub upper_current: D,
    pub mid: D,
}

/// How a search ended.
#[derive(Debug, Clone, Copy, PartialEq, Eq, Structural)]
pub enum SearchEnd {
    /// Nothing was drawn at the ratio tried; the ratio is one.
    NothingDrawn,
    /// The current at the ratio is within the tolerance of the cap.
    WithinTolerance,
    /// The steps ran out; the ratio is the best estimate.
    OutOfSteps,
}

/// What a search ended with.
#[derive(Debug, Clone, Copy)]
pub struct ForceRatio<D> {
    pub ratio: D,
    pub end: SearchEnd,
}

impl<D> ForceRatio<D> {
    /// Whether the search ended before the steps ran out.
    pub open spec fn converged_spec(self) -> bool {
        self.end != SearchEnd::OutOfSteps
    }

    pub fn converged(&self) -> (r: bool)
        ensures
            r == self.converged_spec(),
    {
        match self.end {
            SearchEnd::OutOfSteps => false,
            SearchEnd::NothingDrawn | SearchEnd::WithinTolerance => true,
        }
    }
}

/// What one step of the search comes to.
#[derive(Debug, Clone, Copy)]
pub enum Step<D> {
    /// The search is over.
    Done(ForceRatio<D>),
    /// The search goes on from here.
    Next(Bisection<D>),
}

/// Whether `current` is within `epsilon` of the cap: `|current - cap| < epsilon`
/// for the real part of the current.
pub open spec fn within_tolerance<D: Number>(
    current: D,
    amperage_cap: D::Real,
    epsilon: D::Real,
) -> bool {
    current.re_spec().sub_spec(amperage_cap).abs_spec().lt_spec(epsilon)
}

impl<D: Number> Bisection<D> {
    /// Where every search starts: nothing drawn at ratio zero, no upper
    /// bound yet, and ratio one to try first.
    pub open spec fn start_spec() -> Self {
        Bisection {
            lower_bound: zero_spec::<D>(),
            lower_current: zero_spec::<D>(),
            upper_bound: D::from_real_spec(D::Real::infinity_spec()),
            upper_current: D::from_real_spec(D::Real::infinity_spec()),
            mid: one_spec::<D>(),
        }
    }

    /// The bounds after the ratio `mid` was found to draw `mid_current`: it
    /// is the new upper bound where that is the cap or more, else the new
    /// lower bound.
    pub open spec fn tightened_spec(self, mid_current: D, amperage_cap: D::Real) -> Self {
        if amperage_cap.le_spec(mid_current.re_spec()) {
            Bisection { upper_bound: self.mid, upper_current: mid_current, ..self }
        } else {
            Bisection { lower_bound: self.mid, lower_current: mid_current, ..self }
        }
    }

    /// The ratio to try after the ratio `mid` was found to draw
    /// `mid_current` and the bounds were tightened to `self`.
    ///
    /// Without an upper bound the ratio shrinks or grows by
    /// `cap / mid_current`. With one, it is the point between the bounds
    /// where a straight line through their currents meets the cap:
    /// `upper * alpha + lower * (1 - alpha)` with
    /// `alpha = (cap - lower_current) / (upper_current - lower_current)`.
    pub open spec fn next_mid_spec(self, mid_current: D, amperage_cap: D::Real) -> D {
        if self.upper_bound.re_spec().equals_spec(D::Real::infinity_spec()) {
            self.mid.mul_spec(D::from_real_spec(amperage_cap).div_spec(mid_current))
        } else {
            let alpha = D::from_real_spec(amperage_cap).sub_spec(self.lower_current).div_spec(
                self.upper_current.sub_spec(self.lower_current),
            );
            self.upper_bound.mul_spec(alpha).add_spec(
                self.lower_bound.mul_spec(one_spec::<D>().sub_spec(alpha)),
            )
        }
    }

    /// One step of the search, after the ratio `mid` was found to draw
    /// `mid_current`.
    ///
    /// The search is over with ratio one where nothing is drawn at all,
    /// and with `mid` where the current is within `epsilon` of the cap.
    /// Otherwise the bounds are tightened and the next ratio is chosen.
    pub open spec fn step_spec(
        self,
        mid_current: D,
        amperage_cap: D::Real,
        epsilon: D::Real,
    ) -> Step<D> {
        if mid_current.re_spec().equals_spec(D::Real::from_int_spec(0)) {
            Step::Done(ForceRatio { ratio: one_spec::<D>(), end: SearchEnd::NothingDrawn })
        } else if within_tolerance(mid_current, amperage_cap, epsilon) {
            Step::Done(ForceRatio { ratio: self.mid, end: SearchEnd::WithinTolerance })
        } else {
            let tightened = self.tightened_spec(mid_current, amperage_cap);
            Step::Next(
                Bisection { mid: tightened.next_mid_spec(mid_current, amperage_cap), ..tightened },
            )
        }
    }

    pub fn start() -> (r: Self)
        ensures
            r == Self::start_spec(),
    {
        Bisection {
            lower_bound: zero::<D>(),
            lower_current: zero::<D>(),
            upper_bound: D::from_real(D::Real::infinity()),
            upper_current: D::from_real(D::Real::infinity()),
            mid: one::<D>(),
        }
    }

    /// See [`Bisection::step_spec`].
    pub fn step(self, mid_current: D, amperage_cap: D::Real, epsilon: D::Real) -> (r: Step<D>)
        ensures
            r == self.step_spec(mid_current, amperage_cap, epsilon),
    {
        if mid_current.re().equals(D::Real::from_int(0)) {
            return Step::Done(ForceRatio { ratio: one::<D>(), end: SearchEnd::NothingDrawn });
        }
        if mid_current.re().sub(amperage_cap).abs().lt(epsilon) {
            return Step::Done(ForceRatio { ratio: self.mid, end: SearchEnd::WithinTolerance });
        }
        let mut state = self;
        if amperage_cap.le(mid_current.re()) {
            state.upper_bound = self.mid;
            state.upper_current = mid_current;
        } else {
            state.lower_bound = self.mid;
            state.lower_current = mid_current;
        }
        if state.upper_bound.re().equals(D::Real::infinity()) {
            state.mid = self.mid.mul(D::from_real(amperage_cap).div(mid_current));
        } else {
            let alpha = D::from_real(amperage_cap).sub(state.lower_current).div(
                state.upper_current.sub(state.lower_current),
            );
            state.mid = state.upper_bound.mul(alpha).add(
                state.lower_bound.mul(one::<D>().sub(alpha)),
            );
        }
        Step::Next(state)
    }
}

/// What a search that stands at `state` ends with when it may take `steps`
/// more steps. Each step draws the commands at the ratio `state.mid` and
/// goes by [`Bisection::step_spec`]. When no step is left the search ends
/// with the ratio that it would have tried next.
pub open spec fn search_spec<Id: MotorId, D: Number>(
    motor_cmds: Seq<(Id, MotorRecord<D>)>,
    config: MotorConfigView<Id, D>,
    motor_data: MotorData<D::Real>,
    amperage_cap: D::Real,
    epsilon: D::Real,
    state: Bisection<D>,
    steps: nat,
) -> ForceRatio<D>
    decreases steps,
{
    if steps == 0 {
        ForceRatio { ratio: state.mid, end: SearchEnd::OutOfSteps }
    } else {
        match state.step_spec(
            scaled_current(motor_cmds, config, motor_data, state.mid),
            amperage_cap,
            epsilon,
        ) {
            Step::Done(found) => found,
            Step::Next(next) => search_spec(
                motor_cmds,
                config,
                motor_data,
                amperage_cap,
                epsilon,
                next,
                (steps - 1) as nat,
            ),
        }
    }
}

/// Searches for the one ratio that, applied to the force of every command,
/// makes the commands draw `amperage_cap` to within `epsilon`, and says
/// how it ended. It takes [`MAX_ITERATIONS`] steps at most.
pub fn search_force_ratio<D: Number, Id: MotorId>(
    motor_cmds: &Vec<(Id, MotorRecord<D>)>,
    motor_config: &MotorConfig<Id, D>,
    motor_data: &MotorData<D::Real>,
    amperage_cap: D::Real,
    epsilon: D::Real,
) -> (r: ForceRatio<D>)
    ensures
        r == search_spec(
            motor_cmds@,
            motor_config@,
            *motor_data,
            amperage_cap,
            epsilon,
            Bisection::start_spec(),
            MAX_ITERATIONS as nat,
        ),
{
    let mut state = Bisection::<D>::start();
    let mut steps: u32 = MAX_ITERATIONS;
    while steps > 0
        invariant
            search_spec(
                motor_cmds@,
                motor_config@,
                *motor_data,
                amperage_cap,
                epsilon,
                state,
                steps as nat,
            ) == search_spec(
                motor_cmds@,
                motor_config@,
                *motor_data,
                amperage_cap,
                epsilon,
                Bisection::start_spec(),
                MAX_ITERATIONS as nat,
            ),
        decreases steps,
    {
        let adjusted = scale_forces(motor_cmds, motor_config, motor_data, state.mid);
        let mid_current = amperage_total(&adjusted);
        match state.step(mid_current, amperage_cap, epsilon) {
            Step::Done(found) => {
                return found;
            },
            Step::Next(next) => {
                state = next;
            },
        }
        steps -= 1;
    }
    ForceRatio { ratio: state.mid, end: SearchEnd::OutOfSteps }
}

/// The ratio of [`search_force_ratio`] alone.
pub fn binary_search_force_ratio<D: Number, Id: MotorId>(
    motor_cmds: &Vec<(Id, MotorRecord<D>)>,
    motor_config: &MotorConfig<Id, D>,
    motor_data: &MotorData<D::Real>,
    amperage_cap: D::Real,
    epsilon: D::Real,
) -> (r: D)
    ensures
        r == search_spec(
            motor_cmds@,
            motor_config@,
            *motor_data,
            amperage_cap,
            epsilon,
            Bisection::start_spec(),
            MAX_ITERATIONS as nat,
        ).ratio,
{
    search_force_ratio(motor_cmds, motor_config, motor_data, amperage_cap, epsilon).ratio
}

/// What [`clamp_amperage`] makes of the commands: the commands themselves
/// where they are within the cap, and otherwise each command looked up again
/// at its force times the ratio that the search ends with.
pub open spec fn clamp_amperage_spec<Id: MotorId, D: Number>(
    motor_cmds: Seq<(Id, MotorRecord<D>)>,
    config: MotorConfigView<Id, D>,
    motor_data: MotorData<D::Real>,
    amperage_cap: D::Real,
    epsilon: D::Real,
) -> Seq<(Id, MotorRecord<D>)> {
    if within_cap(motor_cmds, amperage_cap) {
        motor_cmds
    } else {
        scaled_cmds(
            motor_cmds,
            config,
            motor_data,
            search_spec(
                motor_cmds,
                config,
                motor_data,
                amperage_cap,
                epsilon,
                Bisection::start_spec(),
                MAX_ITERATIONS as nat,
            ).ratio,
        )
    }
}

/// Brings the commands to the cap by scaling every force by one ratio, which
/// is searched for; see [`search_force_ratio`]. Commands within the cap stay
/// as they are.
pub fn clamp_amperage<D: Number, Id: MotorId>(
    motor_cmds: Vec<(Id, MotorRecord<D>)>,
    motor_config: &MotorConfig<Id, D>,
    motor_data: &MotorData<D::Real>,
    amperage_cap: D::Real,
    epsilon: D::Real,
) -> (r: Vec<(Id, MotorRecord<D>)>)
    ensures
        r@ == clamp_amperage_spec(motor_cmds@, motor_config@, *motor_data, amperage_cap, epsilon),
{
    let amperage_total = amperage_total(&motor_cmds);
    if amperage_total.re().le(amperage_cap) {
        return motor_cmds;
    }
    let force_ratio = binary_search_force_ratio(
        &motor_cmds,
        motor_config,
        motor_data,
        amperage_cap,
        epsilon,
    );
    scale_forces(&motor_cmds, motor_config, motor_data, force_ratio)
}

/// A search that ends within the tolerance ends with a ratio at which the
/// commands draw the cap to within the tolerance.
pub proof fn lemma_search_within_tolerance<Id: MotorId, D: Number>(
    motor_cmds: Seq<(Id, MotorRecord<D>)>,
    config: MotorConfigView<Id, D>,
    motor_data: MotorData<D::Real>,
    amperage_cap: D::Real,
    epsilon: D::Real,
    state: Bisection<D>,
    steps: nat,
)
    ensures
        ({
            let found = search_spec(
                motor_cmds,
                config,
                motor_data,
                amperage_cap,
                epsilon,
                state,
                steps,
            );
            found.end == SearchEnd::WithinTolerance ==> within_tolerance(
                scaled_current(motor_cmds, config, motor_data, found.ratio),
                amperage_cap,
                epsilon,
            )
        }),
    decreases steps,
{
    if steps > 0 {
        match state.step_spec(
            scaled_current(motor_cmds, config, motor_data, state.mid),
            amperage_cap,
            epsilon,
        ) {
            Step::Done(_) => {},
            Step::Next(next) => {
                lemma_search_within_tolerance(
                    motor_cmds,
                    config,
                    motor_data,
                    amperage_cap,
                    epsilon,
                    next,
                    (steps - 1) as nat,
                );
            },
        }
    }
}

/// Commands over the cap that [`clamp_amperage`] scaled by a ratio found
/// within the tolerance draw the cap to within the tolerance.
pub proof fn lemma_clamp_amperage_meets_cap<Id: MotorId, D: Number>(
    motor_cmds: Seq<(Id, MotorRecord<D>)>,
    config: MotorConfigView<Id, D>,
    motor_data: MotorData<D::Real>,
    amperage_cap: D::Real,
    epsilon: D::Real,
)
    requires
        !within_cap(motor_cmds, amperage_cap),
        search_spec(
            motor_cmds,
            config,
            motor_data,
            amperage_cap,
            epsilon,
            Bisection::start_spec(),
            MAX_ITERATIONS as nat,
        ).end == SearchEnd::WithinTolerance,
    ensures
        within_tolerance(
            total_current(
                clamp_amperage_spec(motor_cmds, config, motor_data, amperage_cap, epsilon),
            ),
            amperage_cap,
            epsilon,
        ),
{
    lemma_search_within_tolerance(
        motor_cmds,
        config,
        motor_data,
        amperage_cap,
        epsilon,
        Bisection::start_spec(),
        MAX_ITERATIONS as nat,
    );
}

/// Both ways of clamping give one command for each command that came in,
/// for the same thruster and in the same place.
pub proof fn lemma_clamp_keeps_thrusters<Id: MotorId, D: Number>(
    motor_cmds: Seq<(Id, MotorRecord<D>)>,
    config: MotorConfigView<Id, D>,
    motor_data: MotorData<D::Real>,
    amperage_cap: D::Real,
    epsilon: D::Real,
)
    ensures
        clamp_amperage_spec(motor_cmds, config, motor_data, amperage_cap, epsilon).len()
            == motor_cmds.len(),
        clamp_amperage_fast_spec(motor_cmds, config, motor_data, amperage_cap).len()
            == motor_cmds.len(),
        forall|k: int|
            0 <= k < motor_cmds.len() ==> (#[trigger] clamp_amperage_spec(
                motor_cmds,
                config,
                motor_data,
                amperage_cap,
                epsilon,
            )[k]).0 == motor_cmds[k].0,
        forall|k: int|
            0 <= k < motor_cmds.len() ==> (#[trigger] clamp_amperage_fast_spec(
                motor_cmds,
                config,
                motor_data,
                amperage_cap,
            )[k]).0 == motor_cmds[k].0,
{
}

/// Clamping what was clamped changes nothing, where the first clamping
/// brought the commands within the cap.
pub proof fn lemma_clamp_amperage_idempotent<Id: MotorId, D: Number>(
    motor_cmds: Seq<(Id, MotorRecord<D>)>,
    config: MotorConfigView<Id, D>,
    motor_data: MotorData<D::Real>,
    amperage_cap: D::Real,
    epsilon: D::Real,
)
    requires
        within_cap(
            clamp_amperage_spec(motor_cmds, config, motor_data, amperage_cap, epsilon),
            amperage_cap,
        ),
    ensures
        clamp_amperage_spec(
            clamp_amperage_spec(motor_cmds, config, motor_data, amperage_cap, epsilon),
            config,
            motor_data,
            amperage_cap,
            epsilon,
        ) == clamp_amperage_spec(motor_cmds, config, motor_data, amperage_cap, epsilon),
{
}

/// The six directions in which a vehicle moves and turns.
#[derive(Debug, Hash, PartialEq, Eq, PartialOrd, Ord, Clone, Copy, Structural)]
pub enum Axis {
    X,
    Y,
    Z,
    XRot,
    YRot,
    ZRot,
}

impl Axis {
    /// The movement of magnitude one along the axis.
    pub open spec fn movement_spec<D: Number>(self) -> Movement<D> {
        let o = one_spec::<D>();
        let z = zero_spec::<D>();
        match self {
            Axis::X => Movement {
                force: Vector3 { x: o, y: z, z },
                torque: Vector3 { x: z, y: z, z },
            },
            Axis::Y => Movement {
                force: Vector3 { x: z, y: o, z },
                torque: Vector3 { x: z, y: z, z },
            },
            Axis::Z => Movement {
                force: Vector3 { x: z, y: z, z: o },
                torque: Vector3 { x: z, y: z, z },
            },
            Axis::XRot => Movement {
                force: Vector3 { x: z, y: z, z },
                torque: Vector3 { x: o, y: z, z },
            },
            Axis::YRot => Movement {
                force: Vector3 { x: z, y: z, z },
                torque: Vector3 { x: z, y: o, z },
            },
            Axis::ZRot => Movement {
                force: Vector3 { x: z, y: z, z },
                torque: Vector3 { x: z, y: z, z: o },
            },
        }
    }

    pub fn movement<D: Number>(&self) -> (r: Movement<D>)
        ensures
            r == self.movement_spec::<D>(),
    {
        let o = one::<D>();
        let z = zero::<D>();
        match self {
            Axis::X => Movement {
                force: Vector3 { x: o, y: z, z },
                torque: Vector3 { x: z, y: z, z },
            },
            Axis::Y => Movement {
                force: Vector3 { x: z, y: o, z },
                torque: Vector3 { x: z, y: z, z },
            },
            Axis::Z => Movement {
                force: Vector3 { x: z, y: z, z: o },
                torque: Vector3 { x: z, y: z, z },
            },
            Axis::XRot => Movement {
                force: Vector3 { x: z, y: z, z },
                torque: Vector3 { x: o, y: z, z },
            },
            Axis::YRot => Movement {
                force: Vector3 { x: z, y: z, z },
                torque: Vector3 { x: z, y: o, z },
            },
            Axis::ZRot => Movement {
                force: Vector3 { x: z, y: z, z },
                torque: Vector3 { x: z, y: z, z: o },
            },
        }
    }
}

/// The six axes in their order.
pub open spec fn axes() -> Seq<Axis> {
    seq![Axis::X, Axis::Y, Axis::Z, Axis::XRot, Axis::YRot, Axis::ZRot]
}

/// The most that the thrusters give along `axis` within the cap: the
/// commands for a movement of magnitude [`AXIS_PROBE`] along the axis are
/// made, the ratio that brings them to the cap is searched, and the maximum
/// is that ratio times the magnitude.
pub open spec fn axis_maximum_spec<Id: MotorId, D: Number>(
    axis: Axis,
    config: MotorConfigView<Id, D>,
    motor_data: MotorData<D::Real>,
    amperage_cap: D::Real,
    epsilon: D::Real,
) -> D {
    let initial = D::Real::from_int_spec(AXIS_PROBE);
    let forces = reverse_solve_spec(
        axis.movement_spec::<D>().mul_spec(D::from_real_spec(initial)),
        config,
    );
    let cmds = forces_to_cmds_spec(forces, config, motor_data);
    search_spec(
        cmds,
        config,
        motor_data,
        amperage_cap,
        epsilon,
        Bisection::start_spec(),
        MAX_ITERATIONS as nat,
    ).ratio.mul_real_spec(initial)
}

/// Where every id among the forces is found in the configuration, none is
/// unknown.
pub proof fn lemma_all_known<Id: MotorId, D: Number>(
    forces: Seq<(Id, D)>,
    config: MotorConfigView<Id, D>,
)
    requires
        forall|k: int|
            0 <= k < forces.len() ==> find(
                config.motors,
                (#[trigger] forces[k]).0.erased_spec(),
            ) is Some,
    ensures
        first_unknown(forces, config) is None,
    decreases forces.len(),
{
    if forces.len() > 0 {
        assert(find(config.motors, forces[0].0.erased_spec()) is Some);
        let rest = forces.subrange(1, forces.len() as int);
        assert forall|k: int| 0 <= k < rest.len() implies find(
            config.motors,
            (#[trigger] rest[k]).0.erased_spec(),
        ) is Some by {
            assert(rest[k] == forces[k + 1]);
        }
        lemma_all_known(rest, config);
    }
}

/// The forces that the reverse solver gives name thrusters of the
/// configuration only.
pub proof fn lemma_reverse_solve_known<Id: MotorId, D: Number>(
    movement: Movement<D>,
    config: MotorConfigView<Id, D>,
)
    ensures
        first_unknown(reverse_solve_spec(movement, config), config) is None,
{
    let forces = reverse_solve_spec(movement, config);
    assert forall|k: int| 0 <= k < forces.len() implies find(
        config.motors,
        (#[trigger] forces[k]).0.erased_spec(),
    ) is Some by {
        lemma_find_present(config.motors, k);
    }
    lemma_all_known(forces, config);
}

/// An id that occurs among the entries is found among them.
pub proof fn lemma_find_present<Id: MotorId, V>(entries: Seq<(Id, V)>, at: int)
    requires
        0 <= at < entries.len(),
    ensures
        find(entries, entries[at].0.erased_spec()) is Some,
    decreases entries.len(),
{
    if entries[0].0.erased_spec() != entries[at].0.erased_spec() {
        let rest = entries.subrange(1, entries.len() as int);
        assert(rest[at - 1] == entries[at]);
        lemma_find_present(rest, at - 1);
    }
}

/// The most that the thrusters give along each axis within the cap, in the
/// order of the axes.
pub fn axis_maximums<D: Number, Id: MotorId>(
    motor_config: &MotorConfig<Id, D>,
    motor_data: &MotorData<D::Real>,
    amperage_cap: D::Real,
    epsilon: D::Real,
) -> (r: Vec<(Axis, D)>)
    ensures
        r@.len() == 6,
        forall|k: int|
            0 <= k < 6 ==> #[trigger] r@[k] == (
                axes()[k],
                axis_maximum_spec(axes()[k], motor_config@, *motor_data, amperage_cap, epsilon),
            ),
{
    let all = [Axis::X, Axis::Y, Axis::Z, Axis::XRot, Axis::YRot, Axis::ZRot];
    let mut maximums: Vec<(Axis, D)> = Vec::new();
    let mut k: usize = 0;
    while k < 6
        invariant
            k <= 6,
            all@ == axes(),
            maximums@.len() == k,
            forall|t: int|
                0 <= t < k ==> #[trigger] maximums@[t] == (
                    axes()[t],
                    axis_maximum_spec(axes()[t], motor_config@, *motor_data, amperage_cap, epsilon),
                ),
        decreases 6 - k,
    {
        let axis = all[k];
        let initial = D::Real::from_int(AXIS_PROBE);
        let movement = axis.movement::<D>().mul(D::from_real(initial));
        let forces = reverse_solve(movement, motor_config);
        proof {
            lemma_reverse_solve_known(movement, motor_config@);
        }
        let value = match forces_to_cmds(forces, motor_config, motor_data) {
            Ok(cmds) => {
                let scale = binary_search_force_ratio(
                    &cmds,
                    motor_config,
                    motor_data,
                    amperage_cap,
                    epsilon,
                );
                scale.mul_real(initial)
            },
            Err(_) => {
                proof {
                    assert(false);
                }
                zero::<D>()
            },
        };
        maximums.push((axis, value));
        k += 1;
    }
    maximums
}

} // verus!
