//! The scalar capability set that every numeric routine is generic over.
//!
//! Nothing here fixes a representation. A [`Real`] is expected to behave as
//! an IEEE 754 binary floating point number, and a [`Number`] as such a scalar
//! or as a forward-mode dual number over it: a real part with partial
//! derivatives that every operation carries along by the usual rules.
//!
//! Each operation stands beside a `_spec` function, which is the operation
//! as a function of its operands. An implementation supplies both, and owes
//! that the operation returns what its `_spec` function says, for every
//! operand. The contracts of this crate say which operations are applied to
//! what; nothing is assumed of what an operation computes. No rounding, no
//! law of arithmetic and no order is used in any proof, but for the total
//! order of [`Real::total_key`].
use vstd::prelude::*;

verus! {

/// The real scalar in which tables, limits and tolerances are stored.
///
/// The comparisons are the numeric ones, under which a value that is not a
/// number compares false with everything. The total order is the one that
/// tables are sorted by; it ranks every value.
pub trait Real: Copy {
    /// The scalar nearest to the integer `n`.
    spec fn from_int_spec(n: i32) -> Self;

    fn from_int(n: i32) -> (r: Self)
        ensures
            r == Self::from_int_spec(n),
    ;

    /// Positive infinity.
    spec fn infinity_spec() -> Self;

    fn infinity() -> (r: Self)
        ensures
            r == Self::infinity_spec(),
    ;

    /// Numeric `<`: false whenever an operand is not a number.
    spec fn lt_spec(self, rhs: Self) -> bool;

    fn lt(self, rhs: Self) -> (r: bool)
        ensures
            r == self.lt_spec(rhs),
    ;

    /// Numeric `<=`: false whenever an operand is not a number.
    spec fn le_spec(self, rhs: Self) -> bool;

    fn le(self, rhs: Self) -> (r: bool)
        ensures
            r == self.le_spec(rhs),
    ;

    /// Numeric `==`: both zeros are equal, and nothing equals a value that is
    /// not a number.
    spec fn equals_spec(self, rhs: Self) -> bool;

    fn equals(self, rhs: Self) -> (r: bool)
        ensures
            r == self.equals_spec(rhs),
    ;

    /// The rank of the scalar in the total order over every value, the two
    /// zeros and the values that are not numbers included.
    spec fn total_key(self) -> i64;

    /// Whether `self` comes before `rhs`, or ranks the same, in the total order.
    fn total_le(self, rhs: Self) -> (r: bool)
        ensures
            r == (self.total_key() <= rhs.total_key()),
    ;

    /// `self - rhs`.
    spec fn sub_spec(self, rhs: Self) -> Self;

    fn sub(self, rhs: Self) -> (r: Self)
        ensures
            r == self.sub_spec(rhs),
    ;

    /// The magnitude of `self`.
    spec fn abs_spec(self) -> Self;

    fn abs(self) -> (r: Self)
        ensures
            r == self.abs_spec(),
    ;

    /// One with the sign of `self`.
    spec fn signum_spec(self) -> Self;

    fn signum(self) -> (r: Self)
        ensures
            r == self.signum_spec(),
    ;

    /// The magnitude of `self` with the sign of `sign`.
    spec fn copysign_spec(self, sign: Self) -> Self;

    fn copysign(self, sign: Self) -> (r: Self)
        ensures
            r == self.copysign_spec(sign),
    ;
}

/// A scalar that the solvers compute with: a real scalar, or a real part with
/// derivatives attached.
pub trait Number: Copy {
    /// The type of the real part.
    type Real: Real;

    /// The real part.
    spec fn re_spec(self) -> Self::Real;

    fn re(self) -> (r: Self::Real)
        ensures
            r == self.re_spec(),
    ;

    /// The number whose real part is `r` and that depends on nothing.
    spec fn from_real_spec(r: Self::Real) -> Self;

    fn from_real(r: Self::Real) -> (d: Self)
        ensures
            d == Self::from_real_spec(r),
    ;

    /// `self + rhs`.
    spec fn add_spec(self, rhs: Self) -> Self;

    fn add(self, rhs: Self) -> (r: Self)
        ensures
            r == self.add_spec(rhs),
    ;

    /// `self - rhs`.
    spec fn sub_spec(self, rhs: Self) -> Self;

    fn sub(self, rhs: Self) -> (r: Self)
        ensures
            r == self.sub_spec(rhs),
    ;

    /// `self * rhs`.
    spec fn mul_spec(self, rhs: Self) -> Self;

    fn mul(self, rhs: Self) -> (r: Self)
        ensures
            r == self.mul_spec(rhs),
    ;

    /// `self / rhs`.
    spec fn div_spec(self, rhs: Self) -> Self;

    fn div(self, rhs: Self) -> (r: Self)
        ensures
            r == self.div_spec(rhs),
    ;

    /// `-self`.
    spec fn neg_spec(self) -> Self;

    fn neg(self) -> (r: Self)
        ensures
            r == self.neg_spec(),
    ;

    /// `self - rhs` for a real right operand.
    spec fn sub_real_spec(self, rhs: Self::Real) -> Self;

    fn sub_real(self, rhs: Self::Real) -> (r: Self)
        ensures
            r == self.sub_real_spec(rhs),
    ;

    /// `self * rhs` for a real right operand.
    spec fn mul_real_spec(self, rhs: Self::Real) -> Self;

    fn mul_real(self, rhs: Self::Real) -> (r: Self)
        ensures
            r == self.mul_real_spec(rhs),
    ;

    /// `self / rhs` for a real right operand.
    spec fn div_real_spec(self, rhs: Self::Real) -> Self;

    fn div_real(self, rhs: Self::Real) -> (r: Self)
        ensures
            r == self.div_real_spec(rhs),
    ;

    /// The sine of `self`, an angle in radians.
    spec fn sin_spec(self) -> Self;

    fn sin(self) -> (r: Self)
        ensures
            r == self.sin_spec(),
    ;

    /// The cosine of `self`, an angle in radians.
    spec fn cos_spec(self) -> Self;

    fn cos(self) -> (r: Self)
        ensures
            r == self.cos_spec(),
    ;

    /// The magnitude of `self` with the sign of `sign`.
    spec fn copysign_spec(self, sign: Self) -> Self;

    fn copysign(self, sign: Self) -> (r: Self)
        ensures
            r == self.copysign_spec(sign),
    ;
}

/// Zero as a [`Number`].
pub open spec fn zero_spec<D: Number>() -> D {
    D::from_real_spec(D::Real::from_int_spec(0))
}

/// One as a [`Number`].
pub open spec fn one_spec<D: Number>() -> D {
    D::from_real_spec(D::Real::from_int_spec(1))
}

pub fn zero<D: Number>() -> (r: D)
    ensures
        r == zero_spec::<D>(),
{
    D::from_real(D::Real::from_int(0))
}

pub fn one<D: Number>() -> (r: D)
    ensures
        r == one_spec::<D>(),
{
    D::from_real(D::Real::from_int(1))
}

} // verus!
