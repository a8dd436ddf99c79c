//! The spin direction of a propeller.
use crate::number::Real;
use vstd::prelude::*;

verus! {

/// Which way a propeller turns. It decides which half of the PWM range stands
/// for which sign of thrust, and nothing else.
#[derive(Debug, Copy, Clone, PartialEq, Eq, Structural)]
pub enum Direction {
    Clockwise,
    CounterClockwise,
}

impl Direction {
    /// The sign of the direction as an integer: `+1` clockwise, `-1` counter clockwise.
    pub open spec fn sign(self) -> int {
        match self {
            Direction::Clockwise => 1,
            Direction::CounterClockwise => -1,
        }
    }

    /// The other direction.
    pub open spec fn reversed(self) -> Direction {
        match self {
            Direction::Clockwise => Direction::CounterClockwise,
            Direction::CounterClockwise => Direction::Clockwise,
        }
    }

    /// The direction after `count` flips.
    pub open spec fn flipped(self, count: int) -> Direction {
        if count % 2 == 0 {
            self
        } else {
            self.reversed()
        }
    }

    /// What [`Direction::from_sign`] makes of a scalar.
    pub open spec fn of_sign<R: Real>(sign: R) -> Direction {
        if sign.signum_spec().equals_spec(R::from_int_spec(1)) {
            Direction::Clockwise
        } else {
            Direction::CounterClockwise
        }
    }

    pub fn get_sign<R: Real>(&self) -> (r: R)
        ensures
            r == R::from_int_spec(self.sign() as i32),
    {
        match self {
            Direction::Clockwise => R::from_int(1),
            Direction::CounterClockwise => R::from_int(-1),
        }
    }

    /// Clockwise for a scalar whose sign is one, counter clockwise for every
    /// other scalar.
    pub fn from_sign<R: Real>(sign: R) -> (r: Self)
        ensures
            r == Self::of_sign(sign),
    {
        if sign.signum().equals(R::from_int(1)) {
            Direction::Clockwise
        } else {
            Direction::CounterClockwise
        }
    }

    /// Flips the direction `count` times.
    pub fn flip_n(&self, count: i32) -> (r: Self)
        ensures
            r == self.flipped(count as int),
    {
        if count % 2 == 0 {
            *self
        } else {
            match self {
                Direction::Clockwise => Direction::CounterClockwise,
                Direction::CounterClockwise => Direction::Clockwise,
            }
        }
    }
}

} // verus!
