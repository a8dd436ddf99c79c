use std::collections::HashMap;

use motor_math::blue_rov::HeavyMotorId;
use motor_math::direction::Direction;
use motor_math::motor_config::{
    arranged, matrix_of, ridge, ErasedMotorId, InvalidGeometry, Motor, MotorConfig, MotorId,
    UneraseError,
};
use motor_math::motor_performance::{
    partition_point, Interpolation, InvalidTable, MotorData, MotorRecord, TableKey,
};
use motor_math::movement::Movement;
use motor_math::number::{one, zero, Number, Real};
use motor_math::solve::forward::{forward_solve, lookup};
use motor_math::solve::reverse::{
    amperage_total, axis_maximums, binary_search_force_ratio, clamp_amperage, clamp_amperage_fast,
    forces_to_cmds, reverse_solve, search_force_ratio, Axis, Bisection, SearchEnd, Step,
    UnknownThruster,
};
use motor_math::utils::{replica, vec_from_angles, VectorTransform};
use motor_math::vector::Vector3;
use motor_math::x3d::X3dMotorId;
use nalgebra::DMatrix;

// ---------------------------------------------------------------------------
// Scalars: single precision reals, and a dual number with one partial.
// ---------------------------------------------------------------------------

#[derive(Clone, Copy, Debug, PartialEq)]
struct F(f32);

impl Real for F {
    fn from_int_spec(n: i32) -> Self {
        Self::from_int(n)
    }
    fn from_int(n: i32) -> Self {
        F(n as f32)
    }
    fn infinity_spec() -> Self {
        Self::infinity()
    }
    fn infinity() -> Self {
        F(f32::INFINITY)
    }
    fn lt_spec(self, rhs: Self) -> bool {
        self.lt(rhs)
    }
    fn lt(self, rhs: Self) -> bool {
        self.0 < rhs.0
    }
    fn le_spec(self, rhs: Self) -> bool {
        self.le(rhs)
    }
    fn le(self, rhs: Self) -> bool {
        self.0 <= rhs.0
    }
    fn equals_spec(self, rhs: Self) -> bool {
        self.equals(rhs)
    }
    fn equals(self, rhs: Self) -> bool {
        self.0 == rhs.0
    }
    fn total_key(self) -> i64 {
        let bits = self.0.to_bits() as i32;
        (bits ^ ((((bits >> 31) as u32) >> 1) as i32)) as i64
    }
    fn total_le(self, rhs: Self) -> bool {
        self.0.total_cmp(&rhs.0) != std::cmp::Ordering::Greater
    }
    fn sub_spec(self, rhs: Self) -> Self {
        Real::sub(self, rhs)
    }
    fn sub(self, rhs: Self) -> Self {
        F(self.0 - rhs.0)
    }
    fn abs_spec(self) -> Self {
        self.abs()
    }
    fn abs(self) -> Self {
        F(self.0.abs())
    }
    fn signum_spec(self) -> Self {
        self.signum()
    }
    fn signum(self) -> Self {
        F(self.0.signum())
    }
    fn copysign_spec(self, sign: Self) -> Self {
        Real::copysign(self, sign)
    }
    fn copysign(self, sign: Self) -> Self {
        F(self.0.copysign(sign.0))
    }
}

impl Number for F {
    type Real = F;

    fn re_spec(self) -> F {
        self
    }
    fn re(self) -> F {
        self
    }
    fn from_real_spec(r: F) -> Self {
        r
    }
    fn from_real(r: F) -> Self {
        r
    }
    fn add_spec(self, rhs: Self) -> Self {
        self.add(rhs)
    }
    fn add(self, rhs: Self) -> Self {
        F(self.0 + rhs.0)
    }
    fn sub_spec(self, rhs: Self) -> Self {
        Number::sub(self, rhs)
    }
    fn sub(self, rhs: Self) -> Self {
        F(self.0 - rhs.0)
    }
    fn mul_spec(self, rhs: Self) -> Self {
        self.mul(rhs)
    }
    fn mul(self, rhs: Self) -> Self {
        F(self.0 * rhs.0)
    }
    fn div_spec(self, rhs: Self) -> Self {
        self.div(rhs)
    }
    fn div(self, rhs: Self) -> Self {
        F(self.0 / rhs.0)
    }
    fn neg_spec(self) -> Self {
        self.neg()
    }
    fn neg(self) -> Self {
        F(-self.0)
    }
    fn sub_real_spec(self, rhs: F) -> Self {
        self.sub_real(rhs)
    }
    fn sub_real(self, rhs: F) -> Self {
        F(self.0 - rhs.0)
    }
    fn mul_real_spec(self, rhs: F) -> Self {
        self.mul_real(rhs)
    }
    fn mul_real(self, rhs: F) -> Self {
        F(self.0 * rhs.0)
    }
    fn div_real_spec(self, rhs: F) -> Self {
        self.div_real(rhs)
    }
    fn div_real(self, rhs: F) -> Self {
        F(self.0 / rhs.0)
    }
    fn sin_spec(self) -> Self {
        self.sin()
    }
    fn sin(self) -> Self {
        F(self.0.sin())
    }
    fn cos_spec(self) -> Self {
        self.cos()
    }
    fn cos(self) -> Self {
        F(self.0.cos())
    }
    fn copysign_spec(self, sign: Self) -> Self {
        Number::copysign(self, sign)
    }
    fn copysign(self, sign: Self) -> Self {
        F(self.0.copysign(sign.0))
    }
}

/// `re + eps * h` for an infinitesimal `h`.
#[derive(Clone, Copy, Debug, PartialEq)]
struct Dual {
    re: f32,
    eps: f32,
}

impl Number for Dual {
    type Real = F;

    fn re_spec(self) -> F {
        self.re()
    }
    fn re(self) -> F {
        F(self.re)
    }
    fn from_real_spec(r: F) -> Self {
        Self::from_real(r)
    }
    fn from_real(r: F) -> Self {
        Dual { re: r.0, eps: 0.0 }
    }
    fn add_spec(self, rhs: Self) -> Self {
        self.add(rhs)
    }
    fn add(self, rhs: Self) -> Self {
        Dual { re: self.re + rhs.re, eps: self.eps + rhs.eps }
    }
    fn sub_spec(self, rhs: Self) -> Self {
        self.sub(rhs)
    }
    fn sub(self, rhs: Self) -> Self {
        Dual { re: self.re - rhs.re, eps: self.eps - rhs.eps }
    }
    fn mul_spec(self, rhs: Self) -> Self {
        self.mul(rhs)
    }
    fn mul(self, rhs: Self) -> Self {
        Dual { re: self.re * rhs.re, eps: self.eps * rhs.re + self.re * rhs.eps }
    }
    fn div_spec(self, rhs: Self) -> Self {
        self.div(rhs)
    }
    fn div(self, rhs: Self) -> Self {
        Dual {
            re: self.re / rhs.re,
            eps: (self.eps * rhs.re - self.re * rhs.eps) / (rhs.re * rhs.re),
        }
    }
    fn neg_spec(self) -> Self {
        self.neg()
    }
    fn neg(self) -> Self {
        Dual { re: -self.re, eps: -self.eps }
    }
    fn sub_real_spec(self, rhs: F) -> Self {
        self.sub_real(rhs)
    }
    fn sub_real(self, rhs: F) -> Self {
        Dual { re: self.re - rhs.0, eps: self.eps }
    }
    fn mul_real_spec(self, rhs: F) -> Self {
        self.mul_real(rhs)
    }
    fn mul_real(self, rhs: F) -> Self {
        Dual { re: self.re * rhs.0, eps: self.eps * rhs.0 }
    }
    fn div_real_spec(self, rhs: F) -> Self {
        self.div_real(rhs)
    }
    fn div_real(self, rhs: F) -> Self {
        Dual { re: self.re / rhs.0, eps: self.eps / rhs.0 }
    }
    fn sin_spec(self) -> Self {
        self.sin()
    }
    fn sin(self) -> Self {
        Dual { re: self.re.sin(), eps: self.eps * self.re.cos() }
    }
    fn cos_spec(self) -> Self {
        self.cos()
    }
    fn cos(self) -> Self {
        Dual { re: self.re.cos(), eps: -self.eps * self.re.sin() }
    }
    fn copysign_spec(self, sign: Self) -> Self {
        self.copysign(sign)
    }
    fn copysign(self, sign: Self) -> Self {
        if self.re.is_sign_negative() == sign.re.is_sign_negative() {
            self
        } else {
            self.neg()
        }
    }
}

// ---------------------------------------------------------------------------
// Helpers
// ---------------------------------------------------------------------------

fn v(x: f32, y: f32, z: f32) -> Vector3<F> {
    Vector3 { x: F(x), y: F(y), z: F(z) }
}

fn normalized(x: f32, y: f32, z: f32) -> Vector3<F> {
    let n = nalgebra::Vector3::new(x, y, z).normalize();
    v(n.x, n.y, n.z)
}

fn xyz(vec: Vector3<F>) -> (f32, f32, f32) {
    (vec.x.0, vec.y.0, vec.z.0)
}

fn wrench(force: (f32, f32, f32), torque: (f32, f32, f32)) -> Movement<F> {
    Movement { force: v(force.0, force.1, force.2), torque: v(torque.0, torque.1, torque.2) }
}

fn six(m: &Movement<F>) -> [f32; 6] {
    [m.force.x.0, m.force.y.0, m.force.z.0, m.torque.x.0, m.torque.y.0, m.torque.z.0]
}

fn norm_squared(vec: Vector3<F>) -> f32 {
    vec.x.0 * vec.x.0 + vec.y.0 * vec.y.0 + vec.z.0 * vec.z.0
}

/// The pseudo-inverse of a matrix given by its columns, as rows.
fn pseudo_inverse(matrix: &Vec<Movement<F>>, ridge: F) -> Option<Vec<Movement<F>>> {
    let n = matrix.len();
    let m = DMatrix::<f32>::from_fn(6, n, |r, c| six(&matrix[c])[r]);
    let p = m.pseudo_inverse(ridge.0).ok()?;
    Some(
        (0..n)
            .map(|k| {
                wrench((p[(k, 0)], p[(k, 1)], p[(k, 2)]), (p[(k, 3)], p[(k, 4)], p[(k, 5)]))
            })
            .collect(),
    )
}

fn row(pwm: f32, current: f32, force: f32) -> MotorRecord<F> {
    MotorRecord {
        pwm: F(pwm),
        rpm: F((pwm - 1500.0) * 8.0),
        current: F(current),
        voltage: F(16.0),
        power: F(current * 16.0),
        force: F(force),
        efficiency: F(0.5),
    }
}

/// A small table: force rises with pwm, the current is a magnitude.
fn rows() -> Vec<MotorRecord<F>> {
    vec![
        row(1100.0, 16.0, -30.0),
        row(1200.0, 8.0, -20.0),
        row(1300.0, 4.0, -10.0),
        row(1500.0, 0.0, 0.0),
        row(1700.0, 4.0, 10.0),
        row(1800.0, 8.0, 20.0),
        row(1900.0, 16.0, 30.0),
    ]
}

fn table() -> MotorData<F> {
    MotorData::from(rows()).unwrap()
}

/// The same thrusters at twice the current.
fn thirsty_table() -> MotorData<F> {
    MotorData::from(rows().into_iter().map(|r| row(r.pwm.0, r.current.0 * 2.0, r.force.0)).collect())
        .unwrap()
}

fn x3d_seed() -> Motor<F> {
    Motor {
        position: normalized(1.0, 1.0, 1.0),
        orientation: vec_from_angles(F(60.0), F(40.0)),
        direction: Direction::Clockwise,
    }
}

fn x3d_config() -> MotorConfig<X3dMotorId, F> {
    MotorConfig::<X3dMotorId, F>::new(x3d_seed(), v(0.0, 0.0, 0.0), pseudo_inverse).unwrap()
}

/// Eight commands that draw 5 A each, 40 A together, from the thirsty table.
fn forty_amps(
    config: &MotorConfig<X3dMotorId, F>,
    data: &MotorData<F>,
) -> Vec<(X3dMotorId, MotorRecord<F>)> {
    let forces: Vec<(X3dMotorId, F)> = config
        .motors()
        .iter()
        .enumerate()
        .map(|(k, (id, _))| (*id, F(if k % 2 == 0 { 6.25 } else { -6.25 })))
        .collect();
    forces_to_cmds(forces, config, data).unwrap()
}

#[derive(PartialEq, Eq, PartialOrd, Ord, Hash, Debug, Clone, Copy)]
enum MotorIds {
    Right,
    Left,
    Lateral,
    Up1,
    Up2,
    Up3,
}

impl MotorId for MotorIds {
    fn erased_spec(self) -> ErasedMotorId {
        self.erased()
    }
    fn erased(self) -> ErasedMotorId {
        self as u8
    }
    fn unerased_spec(raw: ErasedMotorId) -> Option<Self> {
        Self::unerased(raw)
    }
    fn unerased(raw: ErasedMotorId) -> Option<Self> {
        [MotorIds::Right, MotorIds::Left, MotorIds::Lateral, MotorIds::Up1, MotorIds::Up2, MotorIds::Up3]
            .get(raw as usize)
            .copied()
    }
}

// ---------------------------------------------------------------------------
// Round trips through the solvers
// ---------------------------------------------------------------------------

#[test]
fn solve_roundtrip_x3d() {
    let seed_motor = Motor {
        position: normalized(1.0, 1.0, 1.0),
        orientation: vec_from_angles(F(60.0), F(40.0)),
        direction: Direction::Clockwise,
    };

    let motor_data = table();
    let motor_config =
        MotorConfig::<X3dMotorId, F>::new(seed_motor, v(0.0, 0.0, 0.0), pseudo_inverse).unwrap();

    let movement = wrench((-0.6, 0.5, 0.3), (0.2, 0.1, 0.4));

    let forces = reverse_solve(movement, &motor_config);
    let motor_cmds = forces_to_cmds(forces, &motor_config, &motor_data).unwrap();

    println!("motor_cmds: {motor_cmds:#?}");

    let actual_movement = forward_solve(
        &motor_config,
        &motor_cmds.iter().map(|(id, data)| (*id, data.force)).collect(),
    );

    let movement_error = movement.sub(actual_movement);
    assert!(norm_squared(movement_error.force) < 0.0001);
    assert!(norm_squared(movement_error.torque) < 0.0001);
}

#[test]
fn solve_roundtrip_blue_rov() {
    let lateral = Motor {
        position: v(1.0, 1.0, 0.0),
        orientation: normalized(-1.0, 1.0, 0.0),
        direction: Direction::Clockwise,
    };
    let vertical = Motor {
        position: v(1.0, 1.0, 0.0),
        orientation: normalized(0.0, 0.0, 1.0),
        direction: Direction::Clockwise,
    };

    let motor_data = table();
    let motor_config =
        MotorConfig::<HeavyMotorId, F>::new(lateral, vertical, v(0.0, 0.0, 0.0), pseudo_inverse)
            .unwrap();

    let movement = wrench((0.5, 0.1, 0.4), (0.2, 0.5, -0.3));

    let forces = reverse_solve(movement, &motor_config);
    let motor_cmds = forces_to_cmds(forces, &motor_config, &motor_data).unwrap();

    println!("motor_cmds: {motor_cmds:#?}");

    let actual_movement = forward_solve(
        &motor_config,
        &motor_cmds.iter().map(|(id, data)| (*id, data.force)).collect(),
    );

    let movement_error = movement.sub(actual_movement);
    assert!(norm_squared(movement_error.force) < 0.0001);
    assert!(norm_squared(movement_error.torque) < 0.0001);
}

#[test]
fn solve_roundtrip_arbitrary() {
    let motor_data = table();

    let mut motors = HashMap::new();

    motors.insert(
        MotorIds::Right,
        Motor {
            position: normalized(1.0, 1.0, 0.0),
            orientation: v(0.0, 1.0, 0.0),
            direction: Direction::Clockwise,
        },
    );

    motors.insert(
        MotorIds::Left,
        Motor {
            position: normalized(-1.0, 1.0, 0.0),
            orientation: v(0.0, 1.0, 0.0),
            direction: Direction::CounterClockwise,
        },
    );

    motors.insert(
        MotorIds::Lateral,
        Motor {
            position: v(0.0, 0.0, 0.0),
            orientation: v(1.0, 0.0, 0.0),
            direction: Direction::Clockwise,
        },
    );

    motors.insert(
        MotorIds::Up1,
        Motor {
            position: normalized(1.0, 1.0, 0.0).scale(F(2.0)),
            orientation: v(0.0, 0.0, 1.0),
            direction: Direction::Clockwise,
        },
    );

    motors.insert(
        MotorIds::Up2,
        Motor {
            position: normalized(-1.0, 1.0, 0.0).scale(F(2.0)),
            orientation: v(0.0, 0.0, 1.0),
            direction: Direction::CounterClockwise,
        },
    );

    motors.insert(
        MotorIds::Up3,
        Motor {
            position: normalized(0.0, -1.0, 0.0).scale(F(2.0)),
            orientation: v(0.0, 0.0, 1.0),
            direction: Direction::Clockwise,
        },
    );

    let motor_config =
        MotorConfig::new_raw(motors.into_iter().collect(), v(0.0, 0.0, 0.0), pseudo_inverse)
            .unwrap();

    let movement = wrench((0.9, -0.5, 0.3), (-0.2, 0.1, 0.4));

    let forces = reverse_solve(movement, &motor_config);
    let motor_cmds = forces_to_cmds(forces, &motor_config, &motor_data).unwrap();

    println!("motor_cmds: {motor_cmds:#?}");

    let actual_movement = forward_solve(
        &motor_config,
        &motor_cmds.iter().map(|(id, data)| (*id, data.force)).collect(),
    );

    let movement_error = movement.sub(actual_movement);
    assert!(norm_squared(movement_error.force) < 0.0001);
    assert!(norm_squared(movement_error.torque) < 0.0001);
}

#[test]
fn matrix_times_pseudo_inverse_keeps_unit_wrenches() {
    let config = x3d_config();
    for axis in [Axis::X, Axis::Y, Axis::Z, Axis::XRot, Axis::YRot, Axis::ZRot] {
        let unit: Movement<F> = axis.movement();
        let back = forward_solve(&config, &reverse_solve(unit, &config));
        let error = unit.sub(back);
        assert!(norm_squared(error.force).sqrt() < 1e-3);
        assert!(norm_squared(error.torque).sqrt() < 1e-3);
    }
}

// ---------------------------------------------------------------------------
// Direction
// ---------------------------------------------------------------------------

#[test]
fn direction_signs() {
    assert_eq!(Direction::Clockwise.get_sign::<F>(), F(1.0));
    assert_eq!(Direction::CounterClockwise.get_sign::<F>(), F(-1.0));
    assert_eq!(Direction::from_sign(F(1.0)), Direction::Clockwise);
    assert_eq!(Direction::from_sign(F(0.25)), Direction::Clockwise);
    assert_eq!(Direction::from_sign(F(0.0)), Direction::Clockwise);
    assert_eq!(Direction::from_sign(F(-0.0)), Direction::CounterClockwise);
    assert_eq!(Direction::from_sign(F(-3.0)), Direction::CounterClockwise);
    assert_eq!(Direction::from_sign(F(f32::NAN)), Direction::CounterClockwise);
}

#[test]
fn flip_n_goes_by_parity() {
    for start in [Direction::Clockwise, Direction::CounterClockwise] {
        let other = start.flip_n(1);
        assert_ne!(start, other);
        assert_eq!(start.flip_n(0), start);
        assert_eq!(start.flip_n(2), start);
        assert_eq!(start.flip_n(3), other);
        assert_eq!(start.flip_n(-1), other);
        assert_eq!(start.flip_n(-4), start);
        assert_eq!(start.flip_n(i32::MAX), other);
        assert_eq!(start.flip_n(i32::MIN), start);
        assert_eq!(other.flip_n(1), start);
    }
}

// ---------------------------------------------------------------------------
// Vectors and movements
// ---------------------------------------------------------------------------

#[test]
fn vector_arithmetic() {
    let a = v(1.0, 2.0, 3.0);
    let b = v(4.0, 5.0, 6.0);
    assert_eq!(xyz(a.add(b)), (5.0, 7.0, 9.0));
    assert_eq!(xyz(a.sub(b)), (-3.0, -3.0, -3.0));
    assert_eq!(xyz(a.scale(F(2.0))), (2.0, 4.0, 6.0));
    assert_eq!(xyz(b.shrink(F(2.0))), (2.0, 2.5, 3.0));
    assert_eq!(xyz(a.cross(b)), (-3.0, 6.0, -3.0));
    assert_eq!(xyz(v(1.0, 0.0, 0.0).cross(v(0.0, 1.0, 0.0))), (0.0, 0.0, 1.0));
}

#[test]
fn movement_arithmetic() {
    let a = wrench((1.0, 2.0, 3.0), (4.0, 5.0, 6.0));
    let b = wrench((0.5, 0.5, 0.5), (1.0, 1.0, 1.0));
    assert_eq!(six(&a.add(b)), [1.5, 2.5, 3.5, 5.0, 6.0, 7.0]);
    assert_eq!(six(&a.sub(b)), [0.5, 1.5, 2.5, 3.0, 4.0, 5.0]);
    assert_eq!(six(&a.mul(F(2.0))), [2.0, 4.0, 6.0, 8.0, 10.0, 12.0]);
    assert_eq!(six(&a.div(F(2.0))), [0.5, 1.0, 1.5, 2.0, 2.5, 3.0]);
    assert_eq!(a.dot(b), F(10.5 + 7.5 - 3.0 + 3.0));
    assert_eq!(six(&Movement::<F>::zero()), [0.0; 6]);

    let mut c = a;
    c.add_assign(b);
    assert_eq!(six(&c), six(&a.add(b)));
    c.sub_assign(b);
    assert_eq!(six(&c), six(&a));
    c.mul_assign(F(4.0));
    assert_eq!(six(&c), [4.0, 8.0, 12.0, 16.0, 20.0, 24.0]);
    c.div_assign(F(8.0));
    assert_eq!(six(&c), [0.5, 1.0, 1.5, 2.0, 2.5, 3.0]);
}

#[test]
fn constants() {
    assert_eq!(zero::<F>(), F(0.0));
    assert_eq!(one::<F>(), F(1.0));
    assert_eq!(one::<Dual>(), Dual { re: 1.0, eps: 0.0 });
}

#[test]
fn axis_movements_are_unit_wrenches() {
    assert_eq!(six(&Axis::X.movement::<F>()), [1.0, 0.0, 0.0, 0.0, 0.0, 0.0]);
    assert_eq!(six(&Axis::Y.movement::<F>()), [0.0, 1.0, 0.0, 0.0, 0.0, 0.0]);
    assert_eq!(six(&Axis::Z.movement::<F>()), [0.0, 0.0, 1.0, 0.0, 0.0, 0.0]);
    assert_eq!(six(&Axis::XRot.movement::<F>()), [0.0, 0.0, 0.0, 1.0, 0.0, 0.0]);
    assert_eq!(six(&Axis::YRot.movement::<F>()), [0.0, 0.0, 0.0, 0.0, 1.0, 0.0]);
    assert_eq!(six(&Axis::ZRot.movement::<F>()), [0.0, 0.0, 0.0, 0.0, 0.0, 1.0]);
}

// ---------------------------------------------------------------------------
// Layout helpers
// ---------------------------------------------------------------------------

#[test]
fn vec_from_angles_formula() {
    let r = vec_from_angles(F(0.5), F(0.25));
    assert_eq!(
        xyz(r),
        (0.5f32.cos() * 0.25f32.cos(), 0.5f32.sin() * 0.25f32.cos(), 0.25f32.sin())
    );
    assert_eq!(xyz(vec_from_angles(F(0.0), F(0.0))), (1.0, 0.0, 0.0));
}

#[test]
fn reflections_negate_one_component() {
    let a = v(1.0, 2.0, 3.0);
    assert_eq!(xyz(VectorTransform::ReflectXY.transform(a)), (1.0, 2.0, -3.0));
    assert_eq!(xyz(VectorTransform::ReflectYZ.transform(a)), (-1.0, 2.0, 3.0));
    assert_eq!(xyz(VectorTransform::ReflectXZ.transform(a)), (1.0, -2.0, 3.0));
}

#[test]
fn replica_reflects_and_flips() {
    let seed = Motor {
        position: v(1.0, 2.0, 3.0),
        orientation: v(0.5, 0.25, 0.125),
        direction: Direction::Clockwise,
    };
    let same = replica(&seed, &vec![]);
    assert_eq!(xyz(same.position), (1.0, 2.0, 3.0));
    assert_eq!(same.direction, Direction::Clockwise);

    let twice = replica(&seed, &vec![VectorTransform::ReflectXY, VectorTransform::ReflectYZ]);
    assert_eq!(xyz(twice.position), (-1.0, 2.0, -3.0));
    assert_eq!(xyz(twice.orientation), (-0.5, 0.25, -0.125));
    assert_eq!(twice.direction, Direction::Clockwise);

    let once = replica(&seed, &vec![VectorTransform::ReflectXZ]);
    assert_eq!(xyz(once.position), (1.0, -2.0, 3.0));
    assert_eq!(once.direction, Direction::CounterClockwise);
}

#[test]
fn x3d_layout() {
    let seed = Motor {
        position: v(1.0, 2.0, 3.0),
        orientation: v(0.5, 0.25, 0.125),
        direction: Direction::Clockwise,
    };
    let config = MotorConfig::<X3dMotorId, F>::new(seed, v(0.0, 0.0, 0.0), pseudo_inverse).unwrap();
    let cw = Direction::Clockwise;
    let ccw = Direction::CounterClockwise;
    let expected = [
        (X3dMotorId::FrontRightTop, (1.0, 2.0, 3.0), cw),
        (X3dMotorId::FrontRightBottom, (1.0, 2.0, -3.0), ccw),
        (X3dMotorId::FrontLeftTop, (-1.0, 2.0, 3.0), ccw),
        (X3dMotorId::FrontLeftBottom, (-1.0, 2.0, -3.0), cw),
        (X3dMotorId::BackRightTop, (1.0, -2.0, 3.0), ccw),
        (X3dMotorId::BackRightBottom, (1.0, -2.0, -3.0), cw),
        (X3dMotorId::BackLeftTop, (-1.0, -2.0, 3.0), cw),
        (X3dMotorId::BackLeftBottom, (-1.0, -2.0, -3.0), ccw),
    ];
    let motors = config.motors();
    assert_eq!(motors.len(), 8);
    for (k, (id, position, direction)) in expected.iter().enumerate() {
        assert_eq!(motors[k].0, *id);
        assert_eq!(xyz(motors[k].1.position), *position);
        let o = xyz(motors[k].1.orientation);
        assert_eq!(
            (o.0 * 2.0 * position.0, o.1 * 8.0 * position.1, o.2 * 24.0 * position.2),
            (1.0, 4.0, 9.0)
        );
        assert_eq!(motors[k].1.direction, *direction);
    }
    assert_eq!(X3dMotorId::BackRightBottom.transforms(), vec![
        VectorTransform::ReflectXZ,
        VectorTransform::ReflectXY
    ]);
    assert_eq!(X3dMotorId::FrontRightTop.transforms(), vec![]);
    assert_eq!(X3dMotorId::BackLeftBottom.transforms().len(), 3);
    assert_eq!(HeavyMotorId::VerticalBackLeft.transforms(), vec![
        VectorTransform::ReflectYZ,
        VectorTransform::ReflectXZ
    ]);
    assert_eq!(HeavyMotorId::LateralFrontLeft.transforms(), vec![VectorTransform::ReflectYZ]);
}

#[test]
fn blue_rov_layout() {
    let lateral = Motor {
        position: v(1.0, 2.0, 0.0),
        orientation: v(-0.5, 0.5, 0.0),
        direction: Direction::Clockwise,
    };
    let vertical = Motor {
        position: v(3.0, 4.0, 0.5),
        orientation: v(0.0, 0.0, 1.0),
        direction: Direction::CounterClockwise,
    };
    let config =
        MotorConfig::<HeavyMotorId, F>::new(lateral, vertical, v(0.0, 0.0, 0.0), pseudo_inverse)
            .unwrap();
    let cw = Direction::Clockwise;
    let ccw = Direction::CounterClockwise;
    let expected = [
        (HeavyMotorId::LateralFrontLeft, (-1.0, 2.0, 0.0), (0.5, 0.5, 0.0), ccw),
        (HeavyMotorId::LateralFrontRight, (1.0, 2.0, 0.0), (-0.5, 0.5, 0.0), cw),
        (HeavyMotorId::LateralBackLeft, (-1.0, -2.0, 0.0), (0.5, -0.5, 0.0), cw),
        (HeavyMotorId::LateralBackRight, (1.0, -2.0, 0.0), (-0.5, -0.5, 0.0), ccw),
        (HeavyMotorId::VerticalFrontLeft, (-3.0, 4.0, 0.5), (0.0, 0.0, 1.0), cw),
        (HeavyMotorId::VerticalFrontRight, (3.0, 4.0, 0.5), (0.0, 0.0, 1.0), ccw),
        (HeavyMotorId::VerticalBackLeft, (-3.0, -4.0, 0.5), (0.0, 0.0, 1.0), ccw),
        (HeavyMotorId::VerticalBackRight, (3.0, -4.0, 0.5), (0.0, 0.0, 1.0), cw),
    ];
    let motors = config.motors();
    assert_eq!(motors.len(), 8);
    for (k, (id, position, orientation, direction)) in expected.iter().enumerate() {
        assert_eq!(motors[k].0, *id);
        assert_eq!(xyz(motors[k].1.position), *position);
        assert_eq!(xyz(motors[k].1.orientation), *orientation);
        assert_eq!(motors[k].1.direction, *direction);
    }
}

// ---------------------------------------------------------------------------
// Configurations
// ---------------------------------------------------------------------------

fn plain_motor(x: f32) -> Motor<F> {
    Motor { position: v(x, 0.0, 0.0), orientation: v(0.0, 1.0, 0.0), direction: Direction::Clockwise }
}

#[test]
fn new_raw_orders_by_id_and_keeps_the_first_of_each() {
    let motors: Vec<(ErasedMotorId, Motor<F>)> = vec![
        (7, plain_motor(7.0)),
        (2, plain_motor(2.0)),
        (9, plain_motor(9.0)),
        (2, plain_motor(-2.0)),
        (0, plain_motor(0.5)),
        (7, plain_motor(-7.0)),
    ];
    let config = MotorConfig::new_raw(motors, v(0.0, 0.0, 0.0), pseudo_inverse).unwrap();
    let got: Vec<(u8, f32)> = config.motors().iter().map(|(id, m)| (*id, m.position.x.0)).collect();
    assert_eq!(got, vec![(0, 0.5), (2, 2.0), (7, 7.0), (9, 9.0)]);
    assert_eq!(config.matrix().len(), 4);
    assert_eq!(config.pseudo_inverse().len(), 4);
}

#[test]
fn matrix_columns_are_orientation_and_arm_cross_orientation() {
    let motor = Motor {
        position: v(3.0, 1.0, 2.0),
        orientation: v(0.0, 0.0, 1.0),
        direction: Direction::Clockwise,
    };
    assert_eq!(six(&motor.wrench(v(1.0, 1.0, 1.0))), [0.0, 0.0, 1.0, 0.0, -2.0, 0.0]);

    let motors: Vec<(ErasedMotorId, Motor<F>)> = vec![(4, plain_motor(2.0)), (1, motor)];
    let config = MotorConfig::new_raw(motors.clone(), v(1.0, 1.0, 1.0), pseudo_inverse).unwrap();
    let matrix = config.matrix();
    assert_eq!(six(&matrix[0]), [0.0, 0.0, 1.0, 0.0, -2.0, 0.0]);
    // (2,0,0) - (1,1,1) = (1,-1,-1); (1,-1,-1) x (0,1,0) = (1, 0, 1)
    assert_eq!(six(&matrix[1]), [0.0, 1.0, 0.0, 1.0, 0.0, 1.0]);

    let layout = MotorConfig::<ErasedMotorId, F>::layout(&motors, v(1.0, 1.0, 1.0));
    assert_eq!(layout.len(), 2);
    assert_eq!(six(&layout[0]), six(&matrix[0]));
    assert_eq!(six(&layout[1]), six(&matrix[1]));
}

#[test]
fn no_configuration_without_thrusters_or_pseudo_inverse() {
    let none: Vec<(ErasedMotorId, Motor<F>)> = vec![];
    assert_eq!(
        MotorConfig::new_raw(none.clone(), v(0.0, 0.0, 0.0), pseudo_inverse).err(),
        Some(InvalidGeometry::NoThrusters)
    );
    assert_eq!(
        MotorConfig::from_parts(none, v(0.0, 0.0, 0.0), Some(vec![])).err(),
        Some(InvalidGeometry::NoThrusters)
    );

    let two: Vec<(ErasedMotorId, Motor<F>)> = vec![(1, plain_motor(1.0)), (2, plain_motor(2.0))];
    assert_eq!(
        MotorConfig::new_raw(two.clone(), v(0.0, 0.0, 0.0), |_: &Vec<Movement<F>>, _: F| None).err(),
        Some(InvalidGeometry::Unsolved)
    );
    assert_eq!(
        MotorConfig::from_parts(two.clone(), v(0.0, 0.0, 0.0), None).err(),
        Some(InvalidGeometry::Unsolved)
    );
    assert_eq!(
        MotorConfig::new_raw(two.clone(), v(0.0, 0.0, 0.0), |_: &Vec<Movement<F>>, _: F| {
            Some(vec![Movement::zero()])
        })
        .err(),
        Some(InvalidGeometry::DimensionMismatch)
    );
    let rows = vec![wrench((1.0, 0.0, 0.0), (0.0, 0.0, 0.0)), wrench((0.0, 2.0, 0.0), (0.0, 0.0, 0.0))];
    let built = MotorConfig::from_parts(two, v(0.0, 0.0, 0.0), Some(rows)).unwrap();
    assert_eq!(six(&built.pseudo_inverse()[1]), [0.0, 2.0, 0.0, 0.0, 0.0, 0.0]);
}

#[test]
fn the_solver_sees_the_matrix_once() {
    let two: Vec<(ErasedMotorId, Motor<F>)> = vec![(5, plain_motor(1.0)), (3, plain_motor(2.0))];
    let mut seen = Vec::new();
    let mut ridges = Vec::new();
    let config = MotorConfig::new_raw(two, v(0.0, 0.0, 0.0), |m: &Vec<Movement<F>>, ridge: F| {
        seen.push(m.iter().map(six).collect::<Vec<_>>());
        ridges.push(ridge);
        pseudo_inverse(m, ridge)
    })
    .unwrap();
    assert_eq!(seen.len(), 1);
    assert_eq!(ridges, vec![F(0.0001)]);
    assert_eq!(ridge::<F>(), F(0.0001));
    assert_eq!(ridge::<Dual>(), Dual { re: 0.0001, eps: 0.0 });
    assert_eq!(seen[0], config.matrix().iter().map(six).collect::<Vec<_>>());
    // thruster 3 stands first: arm (2,0,0) x (0,1,0) = (0,0,2)
    assert_eq!(seen[0][0], [0.0, 1.0, 0.0, 0.0, 0.0, 2.0]);
}

#[test]
fn arranged_keeps_the_first_of_each_id_in_order() {
    let entries: Vec<(ErasedMotorId, char)> =
        vec![(5, 'a'), (1, 'b'), (5, 'c'), (3, 'd'), (1, 'e'), (0, 'f'), (9, 'g')];
    assert_eq!(arranged(&entries), vec![(0, 'f'), (1, 'b'), (3, 'd'), (5, 'a'), (9, 'g')]);
    let sorted = arranged(&entries);
    assert_eq!(arranged(&sorted), sorted);
    let none: Vec<(ErasedMotorId, char)> = vec![];
    assert_eq!(arranged(&none), vec![]);
    let mixed = vec![(MotorIds::Up2, 1), (MotorIds::Right, 2), (MotorIds::Up2, 3)];
    assert_eq!(arranged(&mixed), vec![(MotorIds::Right, 2), (MotorIds::Up2, 1)]);

    assert_eq!(lookup(&entries, 5), Some('a'));
    assert_eq!(lookup(&entries, 1), Some('b'));
    assert_eq!(lookup(&entries, 9), Some('g'));
    assert_eq!(lookup(&entries, 4), None);
}

#[test]
fn matrix_of_takes_the_thrusters_as_they_stand() {
    let motors: Vec<(ErasedMotorId, Motor<F>)> = vec![(4, plain_motor(2.0)), (1, plain_motor(-1.0))];
    let matrix = matrix_of(&motors, v(0.0, 0.0, 0.0));
    assert_eq!(matrix.len(), 2);
    assert_eq!(six(&matrix[0]), [0.0, 1.0, 0.0, 0.0, 0.0, 2.0]);
    assert_eq!(six(&matrix[1]), [0.0, 1.0, 0.0, 0.0, 0.0, -1.0]);
}

#[test]
fn motor_finds_by_id() {
    let config = x3d_config();
    let found = config.motor(&X3dMotorId::BackLeftTop).unwrap();
    assert_eq!(found.direction, Direction::Clockwise);
    assert!(found.position.x.0 < 0.0 && found.position.y.0 < 0.0 && found.position.z.0 > 0.0);

    let few: Vec<(ErasedMotorId, Motor<F>)> = vec![(1, plain_motor(1.0)), (2, plain_motor(2.0))];
    let config = MotorConfig::new_raw(few, v(0.0, 0.0, 0.0), pseudo_inverse).unwrap();
    assert_eq!(config.motor(&2).unwrap().position.x, F(2.0));
    assert!(config.motor(&3).is_none());
    let copy = config.clone();
    assert_eq!(copy.motors().len(), 2);
    assert_eq!(six(&copy.matrix()[1]), six(&config.matrix()[1]));
}

#[test]
fn erase_then_unerase_is_the_identity() {
    let config = x3d_config();
    let erased = config.clone().erase();
    let raw: Vec<u8> = erased.motors().iter().map(|(id, _)| *id).collect();
    assert_eq!(raw, vec![0, 1, 2, 3, 4, 5, 6, 7]);
    assert_eq!(
        erased.matrix().iter().map(six).collect::<Vec<_>>(),
        config.matrix().iter().map(six).collect::<Vec<_>>()
    );
    assert_eq!(
        erased.pseudo_inverse().iter().map(six).collect::<Vec<_>>(),
        config.pseudo_inverse().iter().map(six).collect::<Vec<_>>()
    );

    let back = erased.unerase::<X3dMotorId>().unwrap();
    assert_eq!(back.motors().len(), 8);
    for (a, b) in back.motors().iter().zip(config.motors()) {
        assert_eq!(a.0, b.0);
        assert_eq!(xyz(a.1.position), xyz(b.1.position));
        assert_eq!(xyz(a.1.orientation), xyz(b.1.orientation));
        assert_eq!(a.1.direction, b.1.direction);
    }
    assert_eq!(
        back.matrix().iter().map(six).collect::<Vec<_>>(),
        config.matrix().iter().map(six).collect::<Vec<_>>()
    );
    assert_eq!(
        back.pseudo_inverse().iter().map(six).collect::<Vec<_>>(),
        config.pseudo_inverse().iter().map(six).collect::<Vec<_>>()
    );
}

#[test]
fn unerase_names_the_first_key_that_is_no_id() {
    let motors: Vec<(ErasedMotorId, Motor<F>)> =
        vec![(3, plain_motor(3.0)), (12, plain_motor(12.0)), (9, plain_motor(9.0))];
    let config = MotorConfig::new_raw(motors, v(0.0, 0.0, 0.0), pseudo_inverse).unwrap();
    assert_eq!(
        config.clone().unerase::<X3dMotorId>().err(),
        Some(UneraseError { raw: 9 })
    );
    assert_eq!(config.clone().unerase::<MotorIds>().err(), Some(UneraseError { raw: 9 }));
    let same = config.unerase::<ErasedMotorId>().unwrap();
    assert_eq!(same.motors().iter().map(|m| m.0).collect::<Vec<_>>(), vec![3, 9, 12]);
}

#[test]
fn ids_erase_to_their_rank() {
    assert_eq!(X3dMotorId::FrontRightTop.erased(), 0);
    assert_eq!(X3dMotorId::BackLeftBottom.erased(), 7);
    assert_eq!(HeavyMotorId::LateralFrontLeft.erased(), 0);
    assert_eq!(HeavyMotorId::VerticalBackRight.erased(), 7);
    for raw in 0..=255u8 {
        match X3dMotorId::unerased(raw) {
            Some(id) => assert_eq!(id.erased(), raw),
            None => assert!(raw > 7),
        }
        match HeavyMotorId::unerased(raw) {
            Some(id) => assert_eq!(id.erased(), raw),
            None => assert!(raw > 7),
        }
        assert_eq!(<ErasedMotorId as MotorId>::unerased(raw), Some(raw));
    }
}

// ---------------------------------------------------------------------------
// The performance table
// ---------------------------------------------------------------------------

#[test]
fn lerp_between_records() {
    let a = row(1500.0, 0.0, 0.0);
    let b = row(1700.0, 4.0, 10.0);
    let mid: MotorRecord<F> = a.lerp(&b, F(0.25));
    assert_eq!(mid.pwm, F(1550.0));
    assert_eq!(mid.rpm, F(400.0));
    assert_eq!(mid.current, F(1.0));
    assert_eq!(mid.voltage, F(16.0));
    assert_eq!(mid.power, F(16.0));
    assert_eq!(mid.force, F(2.5));
    assert_eq!(mid.efficiency, F(0.5));
    let beyond: MotorRecord<F> = a.lerp(&b, F(1.5));
    assert_eq!(beyond.pwm, F(1800.0));
    assert_eq!(beyond.force, F(15.0));
    let before: MotorRecord<F> = a.lerp(&b, F(-0.5));
    assert_eq!(before.pwm, F(1400.0));
    assert_eq!(before.current, F(-2.0));
}

#[test]
fn table_is_sorted_and_deduplicated() {
    let shuffled = vec![
        row(1700.0, 4.0, 10.0),
        row(1100.0, 16.0, -30.0),
        row(1500.0, 0.0, 0.0),
        row(1701.0, 4.5, 10.0),
        row(1300.0, 4.0, -10.0),
        row(1520.0, 0.0, -0.0),
        row(1900.0, 16.0, 30.0),
    ];
    let data = MotorData::from(shuffled).unwrap();
    let by_force: Vec<(f32, f32)> = data.force_rows().iter().map(|r| (r.force.0, r.pwm.0)).collect();
    // -0.0 sorts before 0.0 and equals it, so the later zero goes; of the
    // two rows at 10 the first in the input stays.
    assert_eq!(
        by_force,
        vec![(-30.0, 1100.0), (-10.0, 1300.0), (-0.0, 1520.0), (10.0, 1700.0), (30.0, 1900.0)]
    );
    assert!(data.force_rows()[2].force.0.is_sign_negative());

    let by_current: Vec<(f32, f32)> =
        data.current_rows().iter().map(|r| (r.current.0.copysign(r.force.0), r.pwm.0)).collect();
    assert_eq!(
        by_current,
        vec![
            (-16.0, 1100.0),
            (-4.0, 1300.0),
            (-0.0, 1520.0),
            (4.0, 1700.0),
            (4.5, 1701.0),
            (16.0, 1900.0)
        ]
    );
}

#[test]
fn rows_that_are_not_numbers_sort_to_the_ends_and_stay() {
    let data = MotorData::from(vec![
        row(1.0, 1.0, f32::NAN),
        row(2.0, 1.0, 5.0),
        row(3.0, 1.0, -f32::NAN),
        row(4.0, 1.0, f32::NAN),
        row(5.0, 1.0, f32::INFINITY),
        row(6.0, 1.0, f32::NEG_INFINITY),
    ])
    .unwrap();
    let pwm: Vec<f32> = data.force_rows().iter().map(|r| r.pwm.0).collect();
    assert_eq!(pwm, vec![3.0, 6.0, 2.0, 5.0, 1.0, 4.0]);
}

#[test]
fn no_table_from_no_rows() {
    let none: Vec<MotorRecord<F>> = vec![];
    assert_eq!(MotorData::from(none).err(), Some(InvalidTable::Empty));
}

#[test]
fn partition_point_is_the_insertion_index() {
    let data = table();
    let rows = data.force_rows();
    assert_eq!(partition_point(rows, TableKey::Force, F(-100.0)), 0);
    assert_eq!(partition_point(rows, TableKey::Force, F(-30.0)), 0);
    assert_eq!(partition_point(rows, TableKey::Force, F(-29.0)), 1);
    assert_eq!(partition_point(rows, TableKey::Force, F(0.0)), 3);
    assert_eq!(partition_point(rows, TableKey::Force, F(0.5)), 4);
    assert_eq!(partition_point(rows, TableKey::Force, F(30.0)), 6);
    assert_eq!(partition_point(rows, TableKey::Force, F(31.0)), 7);
    assert_eq!(partition_point(rows, TableKey::Force, F(f32::NAN)), 0);
    let rows = data.current_rows();
    assert_eq!(partition_point(rows, TableKey::SignedCurrent, F(-5.0)), 2);
    assert_eq!(partition_point(rows, TableKey::SignedCurrent, F(4.0)), 4);
    assert_eq!(row(1200.0, 8.0, -20.0).key(TableKey::SignedCurrent), F(-8.0));
    assert_eq!(row(1200.0, 8.0, -20.0).key(TableKey::Force), F(-20.0));
}

#[test]
fn lookup_by_force_interpolates() {
    let data = table();
    let r: MotorRecord<F> = data.lookup_by_force(F(15.0), Interpolation::Lerp);
    assert_eq!(r.pwm, F(1750.0));
    assert_eq!(r.current, F(6.0));
    assert_eq!(r.force, F(15.0));
    assert_eq!(r.rpm, F(2000.0));
    assert_eq!(r.power, F(96.0));

    let r: MotorRecord<F> = data.lookup_by_force(F(-12.5), Interpolation::Lerp);
    assert_eq!(r.pwm, F(1275.0));
    assert_eq!(r.current, F(5.0));
    assert_eq!(r.force, F(-12.5));
}

#[test]
fn lookup_at_a_tabulated_point_gives_the_row() {
    let data = table();
    for expected in rows() {
        for interpolation in [Interpolation::Lerp, Interpolation::OriginalData] {
            let r: MotorRecord<F> = data.lookup_by_force(expected.force, interpolation);
            assert!((r.pwm.0 - expected.pwm.0).abs() < 1e-6 * 2048.0);
            assert_eq!(r.current, expected.current);
            assert_eq!(r.force, expected.force);
        }
    }
}

#[test]
fn lookup_outside_the_table_extrapolates() {
    let data = table();
    let r: MotorRecord<F> = data.lookup_by_force(F(35.0), Interpolation::Lerp);
    assert_eq!(r.pwm, F(1950.0));
    assert_eq!(r.current, F(20.0));
    assert_eq!(r.force, F(35.0));
    let r: MotorRecord<F> = data.lookup_by_force(F(-40.0), Interpolation::Lerp);
    assert_eq!(r.pwm, F(1000.0));
    assert_eq!(r.current, F(24.0));
    let r: MotorRecord<F> = data.lookup_by_force(F(35.0), Interpolation::OriginalData);
    assert_eq!(r.pwm, F(1900.0));
    assert_eq!(r.force, F(30.0));
}

#[test]
fn lookup_is_monotone_where_the_data_is() {
    let data = table();
    let mut last = f32::NEG_INFINITY;
    let mut force = -45.0f32;
    while force <= 45.0 {
        let r: MotorRecord<F> = data.lookup_by_force(F(force), Interpolation::Lerp);
        assert!(r.pwm.0 >= last);
        last = r.pwm.0;
        force += 0.625;
    }
}

#[test]
fn nearest_row_lookup() {
    let data = table();
    let r: MotorRecord<F> = data.lookup_by_force(F(14.0), Interpolation::OriginalData);
    assert_eq!((r.pwm, r.force), (F(1700.0), F(10.0)));
    let r: MotorRecord<F> = data.lookup_by_force(F(16.0), Interpolation::OriginalData);
    assert_eq!((r.pwm, r.force), (F(1800.0), F(20.0)));
    // as near to both: the lower row
    let r: MotorRecord<F> = data.lookup_by_force(F(15.0), Interpolation::OriginalData);
    assert_eq!((r.pwm, r.force), (F(1700.0), F(10.0)));
    let r: MotorRecord<F> =
        data.lookup_by_force(F(16.0), Interpolation::Direction(Direction::CounterClockwise));
    assert_eq!((r.pwm, r.force), (F(1200.0), F(20.0)));
}

#[test]
fn lookup_by_signed_current() {
    let data = table();
    let r: MotorRecord<F> = data.lookup_by_current(F(6.0), Interpolation::Lerp);
    assert_eq!(r.pwm, F(1750.0));
    assert_eq!(r.force, F(15.0));
    assert_eq!(r.current, F(6.0));
    let r: MotorRecord<F> = data.lookup_by_current(F(-2.0), Interpolation::Lerp);
    assert_eq!(r.pwm, F(1400.0));
    assert_eq!(r.force, F(-5.0));
    assert_eq!(r.current, F(2.0));
    let r: MotorRecord<F> = data.lookup_by_current(F(-7.0), Interpolation::OriginalData);
    assert_eq!(r.force, F(-20.0));
}

#[test]
fn direction_reflection() {
    let data = table();
    for force in [-25.0f32, -3.0, 0.0, 7.5, 15.0, 33.0] {
        let plain: MotorRecord<F> = data.lookup_by_force(F(force), Interpolation::Lerp);
        let cw: MotorRecord<F> =
            data.lookup_by_force(F(force), Interpolation::LerpDirection(Direction::Clockwise));
        let ccw: MotorRecord<F> = data
            .lookup_by_force(F(force), Interpolation::LerpDirection(Direction::CounterClockwise));
        assert_eq!(cw.pwm, plain.pwm);
        assert_eq!(ccw.pwm, F(3000.0 - cw.pwm.0));
        assert_eq!(ccw.pwm.0 + cw.pwm.0, 3000.0);
        assert_eq!(
            (ccw.rpm, ccw.current, ccw.voltage, ccw.power, ccw.force, ccw.efficiency),
            (cw.rpm, cw.current, cw.voltage, cw.power, cw.force, cw.efficiency)
        );
    }
    let r: MotorRecord<F> =
        data.lookup_by_force(F(15.0), Interpolation::LerpDirection(Direction::CounterClockwise));
    assert_eq!(r.pwm, F(1250.0));
    let mirrored = row(1750.0, 6.0, 15.0).directed(Interpolation::Direction(Direction::CounterClockwise));
    assert_eq!(mirrored.pwm, F(1250.0));
    assert_eq!(row(1750.0, 6.0, 15.0).directed(Interpolation::OriginalData).pwm, F(1750.0));
}

#[test]
fn a_table_of_one_row_gives_that_row() {
    let data = MotorData::from(vec![row(1700.0, 4.0, 10.0)]).unwrap();
    for force in [-5.0f32, 10.0, 50.0] {
        for interpolation in [Interpolation::Lerp, Interpolation::OriginalData] {
            let r: MotorRecord<F> = data.lookup_by_force(F(force), interpolation);
            assert_eq!((r.pwm, r.current, r.force), (F(1700.0), F(4.0), F(10.0)));
            let r: MotorRecord<F> = data.lookup_by_current(F(force), interpolation);
            assert_eq!((r.pwm, r.current, r.force), (F(1700.0), F(4.0), F(10.0)));
        }
    }
    let r: MotorRecord<F> =
        data.lookup_by_force(F(1.0), Interpolation::LerpDirection(Direction::CounterClockwise));
    assert_eq!(r.pwm, F(1300.0));
}

#[test]
fn interpolate_formula() {
    let a = row(1500.0, 0.0, 0.0);
    let b = row(1700.0, 4.0, 10.0);
    let r: MotorRecord<F> = MotorData::interpolate(&a, &b, F(4.0), F(0.0), F(8.0), Interpolation::Lerp);
    assert_eq!((r.pwm, r.current, r.force), (F(1600.0), F(2.0), F(5.0)));
    let r: MotorRecord<F> =
        MotorData::interpolate(&a, &b, F(3.0), F(0.0), F(8.0), Interpolation::OriginalData);
    assert_eq!(r.pwm, F(1500.0));
    let r: MotorRecord<F> =
        MotorData::interpolate(&a, &b, F(5.0), F(0.0), F(8.0), Interpolation::OriginalData);
    assert_eq!(r.pwm, F(1700.0));
    let w: MotorRecord<Dual> = a.widen();
    assert_eq!(w.pwm, Dual { re: 1500.0, eps: 0.0 });
}

#[test]
fn a_dual_lookup_carries_the_slope() {
    let data = table();
    let r: MotorRecord<Dual> =
        data.lookup_by_force(Dual { re: 15.0, eps: 1.0 }, Interpolation::Lerp);
    assert_eq!(r.force, Dual { re: 15.0, eps: 1.0 });
    assert_eq!(r.pwm, Dual { re: 1750.0, eps: 10.0 });
    assert_eq!(r.current, Dual { re: 6.0, eps: 0.4 });
    assert_eq!(r.voltage.re, 16.0);
    let r: MotorRecord<Dual> = data.lookup_by_force(
        Dual { re: 15.0, eps: 1.0 },
        Interpolation::LerpDirection(Direction::CounterClockwise),
    );
    assert_eq!(r.pwm, Dual { re: 1250.0, eps: -10.0 });
    let r: MotorRecord<Dual> =
        data.lookup_by_force(Dual { re: 14.0, eps: 1.0 }, Interpolation::OriginalData);
    assert_eq!(r.pwm, Dual { re: 1700.0, eps: 0.0 });
}

// ---------------------------------------------------------------------------
// Solvers
// ---------------------------------------------------------------------------

fn two_thrusters() -> MotorConfig<ErasedMotorId, F> {
    let motors: Vec<(ErasedMotorId, Motor<F>)> = vec![
        (
            1,
            Motor {
                position: v(0.0, 0.0, 0.0),
                orientation: v(1.0, 0.0, 0.0),
                direction: Direction::Clockwise,
            },
        ),
        (
            2,
            Motor {
                position: v(1.0, 0.0, 0.0),
                orientation: v(0.0, 1.0, 0.0),
                direction: Direction::CounterClockwise,
            },
        ),
    ];
    let rows = vec![
        wrench((1.0, 0.0, 0.0), (0.0, 0.0, 0.0)),
        wrench((0.0, 0.5, 0.0), (0.0, 0.0, 0.5)),
    ];
    MotorConfig::from_parts(motors, v(0.0, 0.0, 0.0), Some(rows)).unwrap()
}

#[test]
fn forward_solve_sums_the_columns() {
    let config = two_thrusters();
    let w = forward_solve(&config, &vec![(2, F(4.0)), (1, F(3.0)), (2, F(100.0))]);
    assert_eq!(six(&w), [3.0, 4.0, 0.0, 0.0, 0.0, 4.0]);
    // a thruster without a force gives nothing, and an unknown id is passed over
    let w = forward_solve(&config, &vec![(2, F(4.0)), (9, F(3.0))]);
    assert_eq!(six(&w), [0.0, 4.0, 0.0, 0.0, 0.0, 4.0]);
    let w = forward_solve(&config, &vec![]);
    assert_eq!(six(&w), [0.0; 6]);
}

#[test]
fn reverse_solve_applies_the_rows() {
    let config = two_thrusters();
    let forces = reverse_solve(wrench((3.0, 4.0, 7.0), (1.0, 2.0, 6.0)), &config);
    assert_eq!(forces, vec![(1, F(3.0)), (2, F(5.0))]);
}

#[test]
fn forces_to_cmds_looks_each_force_up() {
    let config = two_thrusters();
    let data = table();
    let cmds = forces_to_cmds(vec![(2, F(15.0)), (1, F(15.0))], &config, &data).unwrap();
    assert_eq!(cmds.len(), 2);
    assert_eq!((cmds[0].0, cmds[0].1.pwm, cmds[0].1.force), (2, F(1250.0), F(15.0)));
    assert_eq!((cmds[1].0, cmds[1].1.pwm, cmds[1].1.force), (1, F(1750.0), F(15.0)));
    assert_eq!(amperage_total(&cmds), F(12.0));
}

#[test]
fn forces_to_cmds_refuses_an_unknown_thruster() {
    let config = two_thrusters();
    let data = table();
    let r = forces_to_cmds(vec![(1, F(1.0)), (7, F(1.0)), (8, F(1.0))], &config, &data);
    assert_eq!(r.err(), Some(UnknownThruster { raw: 7 }));
}

// ---------------------------------------------------------------------------
// Current limiting
// ---------------------------------------------------------------------------

#[test]
fn proportional_saturator() {
    let config = x3d_config();
    let data = thirsty_table();
    let cmds = forty_amps(&config, &data);
    assert_eq!(amperage_total(&cmds), F(40.0));

    let clamped = clamp_amperage_fast(cmds.clone(), &config, &data, F(20.0));
    assert_eq!(clamped.len(), 8);
    assert!(amperage_total(&clamped).0 <= 20.0);
    for (before, after) in cmds.iter().zip(&clamped) {
        assert_eq!(before.0, after.0);
        assert_eq!(before.1.force.0.signum(), after.1.force.0.signum());
        assert_eq!(after.1.current, F(2.5));
        assert_eq!(after.1.force.0.abs(), 3.125);
    }
}

#[test]
fn saturators_leave_commands_within_the_cap_alone() {
    let config = x3d_config();
    let data = thirsty_table();
    let cmds = forty_amps(&config, &data);
    for cap in [40.0f32, 41.0, f32::INFINITY] {
        let fast = clamp_amperage_fast(cmds.clone(), &config, &data, F(cap));
        let exact = clamp_amperage(cmds.clone(), &config, &data, F(cap), F(0.01));
        for k in 0..8 {
            assert_eq!(fast[k].0, cmds[k].0);
            assert_eq!(fast[k].1.pwm, cmds[k].1.pwm);
            assert_eq!(fast[k].1.force, cmds[k].1.force);
            assert_eq!(exact[k].1.pwm, cmds[k].1.pwm);
            assert_eq!(exact[k].1.current, cmds[k].1.current);
        }
    }
}

#[test]
fn iterative_saturator_convergence() {
    let config = x3d_config();
    let data = thirsty_table();
    let cmds = forty_amps(&config, &data);

    let found = search_force_ratio(&cmds, &config, &data, F(20.0), F(0.01));
    assert!(found.converged());
    assert_eq!(found.end, SearchEnd::WithinTolerance);
    assert_eq!(found.ratio, F(0.5));
    assert_eq!(binary_search_force_ratio(&cmds, &config, &data, F(20.0), F(0.01)), F(0.5));

    let clamped = clamp_amperage(cmds.clone(), &config, &data, F(20.0), F(0.01));
    assert!((amperage_total(&clamped).0 - 20.0).abs() < 0.01);
    for (before, after) in cmds.iter().zip(&clamped) {
        assert_eq!(before.0, after.0);
        assert_eq!(before.1.force.0.signum(), after.1.force.0.signum());
        assert_eq!(after.1.force.0, before.1.force.0 * 0.5);
    }

    let maximums = axis_maximums(&config, &data, F(20.0), F(0.01));
    let (axis, x) = maximums[0];
    assert_eq!(axis, Axis::X);
    assert!(x.0.is_finite());
    let unclamped = reverse_solve(Axis::X.movement::<F>().mul(F(25.0)), &config);
    let probe = forward_solve(&config, &unclamped).force.x.0;
    assert!(x.0 > 0.0);
    assert!(x.0 < probe);
}

#[test]
fn iterative_saturator_on_a_bent_curve() {
    let config = x3d_config();
    let data = thirsty_table();
    // 25 N each: 24 A each, 192 A together, on the steep part of the curve
    let forces: Vec<(X3dMotorId, F)> =
        config.motors().iter().map(|(id, _)| (*id, F(25.0))).collect();
    let cmds = forces_to_cmds(forces, &config, &data).unwrap();
    assert_eq!(amperage_total(&cmds), F(192.0));

    let found = search_force_ratio(&cmds, &config, &data, F(96.0), F(0.01));
    assert!(found.converged());
    // 12 A each is at 15 N
    assert!((found.ratio.0 - 0.6).abs() < 1e-3);

    let clamped = clamp_amperage(cmds.clone(), &config, &data, F(96.0), F(0.01));
    let total = amperage_total(&clamped).0;
    assert!((total - 96.0).abs() < 0.01);
    assert!(total <= 96.0 + 0.01);

    // applying it again changes nothing beyond the tolerance
    let again = clamp_amperage(clamped.clone(), &config, &data, F(96.0), F(0.01));
    for (a, b) in clamped.iter().zip(&again) {
        assert!((a.1.force.0 - b.1.force.0).abs() < 0.01);
        assert!((a.1.current.0 - b.1.current.0).abs() < 0.01);
        assert_eq!(a.1.force.0.signum(), b.1.force.0.signum());
    }
}

#[test]
fn a_flat_curve_cannot_be_brought_to_the_cap() {
    let config = two_thrusters();
    // 4 A whatever the force
    let data = MotorData::from(vec![row(1300.0, 4.0, -10.0), row(1700.0, 4.0, 10.0)]).unwrap();
    let cmds = forces_to_cmds(vec![(1, F(10.0)), (2, F(10.0))], &config, &data).unwrap();
    assert_eq!(amperage_total(&cmds), F(8.0));

    let found = search_force_ratio(&cmds, &config, &data, F(4.0), F(0.01));
    assert_eq!(found.end, SearchEnd::OutOfSteps);
    let clamped = clamp_amperage(cmds.clone(), &config, &data, F(4.0), F(0.01));
    assert_eq!(amperage_total(&clamped), F(8.0));
    let fast = clamp_amperage_fast(cmds.clone(), &config, &data, F(4.0));
    assert_eq!(amperage_total(&fast), F(8.0));
    assert_eq!(fast[0].1.force, F(5.0));
}

#[test]
fn search_gives_up_after_the_last_step() {
    let config = x3d_config();
    let data = thirsty_table();
    let cmds = forty_amps(&config, &data);
    // nothing is nearer to the cap than a tolerance of zero
    let found = search_force_ratio(&cmds, &config, &data, F(20.0), F(0.0));
    assert!(!found.converged());
    assert_eq!(found.end, SearchEnd::OutOfSteps);
    assert!(found.ratio.0.is_finite());
    assert!((found.ratio.0 - 0.5).abs() < 1e-3);
}

#[test]
fn search_ends_at_once_where_nothing_is_drawn() {
    let config = x3d_config();
    let data = thirsty_table();
    let forces: Vec<(X3dMotorId, F)> = config.motors().iter().map(|(id, _)| (*id, F(0.0))).collect();
    let cmds = forces_to_cmds(forces, &config, &data).unwrap();
    let found = search_force_ratio(&cmds, &config, &data, F(20.0), F(0.01));
    assert!(found.converged());
    assert_eq!(found.end, SearchEnd::NothingDrawn);
    assert_eq!(found.ratio, F(1.0));
}

#[test]
fn bisection_steps() {
    let start = Bisection::<F>::start();
    assert_eq!(
        (start.lower_bound, start.lower_current, start.upper_bound, start.upper_current, start.mid),
        (F(0.0), F(0.0), F(f32::INFINITY), F(f32::INFINITY), F(1.0))
    );

    // nothing drawn: over, with ratio one
    match start.step(F(0.0), F(20.0), F(0.01)) {
        Step::Done(found) => {
            assert_eq!(found.ratio, F(1.0));
            assert_eq!(found.end, SearchEnd::NothingDrawn);
        }
        Step::Next(_) => panic!("the search went on"),
    }
    // within the tolerance: over, with the ratio tried
    let state = Bisection { mid: F(0.75), ..start };
    match state.step(F(20.005), F(20.0), F(0.01)) {
        Step::Done(found) => {
            assert_eq!(found.ratio, F(0.75));
            assert_eq!(found.end, SearchEnd::WithinTolerance);
        }
        Step::Next(_) => panic!("the search went on"),
    }
    // under the cap without an upper bound: the ratio grows by cap / current
    match start.step(F(5.0), F(20.0), F(0.01)) {
        Step::Next(next) => {
            assert_eq!((next.lower_bound, next.lower_current), (F(1.0), F(5.0)));
            assert_eq!(next.upper_bound, F(f32::INFINITY));
            assert_eq!(next.mid, F(4.0));
        }
        Step::Done(_) => panic!("the search ended"),
    }
    // over the cap: the ratio tried is the upper bound, and the next ratio
    // lies where the line through both bounds meets the cap
    match start.step(F(40.0), F(20.0), F(0.01)) {
        Step::Next(next) => {
            assert_eq!((next.upper_bound, next.upper_current), (F(1.0), F(40.0)));
            assert_eq!((next.lower_bound, next.lower_current), (F(0.0), F(0.0)));
            assert_eq!(next.mid, F(0.5));
        }
        Step::Done(_) => panic!("the search ended"),
    }
    let state = Bisection {
        lower_bound: F(0.25),
        lower_current: F(12.0),
        upper_bound: F(1.0),
        upper_current: F(44.0),
        mid: F(0.5),
    };
    match state.step(F(28.0), F(20.0), F(0.01)) {
        Step::Next(next) => {
            assert_eq!((next.upper_bound, next.upper_current), (F(0.5), F(28.0)));
            // alpha = (20 - 12) / (28 - 12) = 0.5
            assert_eq!(next.mid, F(0.375));
        }
        Step::Done(_) => panic!("the search ended"),
    }
}

#[test]
fn axis_maximums_cover_the_six_axes() {
    let config = x3d_config();
    let data = table();
    let maximums = axis_maximums(&config, &data, F(20.0), F(0.01));
    let axes: Vec<Axis> = maximums.iter().map(|m| m.0).collect();
    assert_eq!(axes, vec![Axis::X, Axis::Y, Axis::Z, Axis::XRot, Axis::YRot, Axis::ZRot]);
    for (axis, value) in &maximums {
        let movement = axis.movement::<F>().mul(F(25.0));
        let cmds = forces_to_cmds(reverse_solve(movement, &config), &config, &data).unwrap();
        let scale = binary_search_force_ratio(&cmds, &config, &data, F(20.0), F(0.01));
        assert_eq!(*value, F(scale.0 * 25.0));
    }
}
