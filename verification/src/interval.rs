//! Ranges of ray parameters and of colour channels.
use crate::fixed::{Fixed, LIMIT};
use vstd::prelude::*;

verus! {

/// The numbers from `min` to `max`.
#[derive(Clone, Copy, Debug, PartialEq, Eq, Structural)]
pub struct Interval {
    pub min: Fixed,
    pub max: Fixed,
}

impl Interval {
    /// `min <= x <= max`.
    pub open spec fn contains_spec(self, x: Fixed) -> bool {
        self.min@ <= x@ <= self.max@
    }

    /// `min < x < max`.
    pub open spec fn surround_spec(self, x: Fixed) -> bool {
        self.min@ < x@ < self.max@
    }

    /// The bound that `x` lies beyond, or `x` itself where it lies within.
    pub open spec fn clamp_spec(self, x: Fixed) -> Fixed {
        if x@ > self.max@ {
            self.max
        } else if x@ < self.min@ {
            self.min
        } else {
            x
        }
    }

    /// The interval that holds no number: it runs from the greatest number down
    /// to the least.
    pub fn empty() -> (r: Interval)
        ensures
            r.min == Fixed::of(LIMIT as int),
            r.max == Fixed::of(-LIMIT),
            forall|x: Fixed| !r.contains_spec(x),
    {
        Interval { min: Fixed::max_value(), max: Fixed::min_value() }
    }

    /// The interval that holds every number.
    pub fn universe() -> (r: Interval)
        ensures
            r.min == Fixed::of(-LIMIT),
            r.max == Fixed::of(LIMIT as int),
            forall|x: Fixed| r.contains_spec(x),
    {
        Interval { min: Fixed::min_value(), max: Fixed::max_value() }
    }

    /// Whether `x` lies within the interval, bounds included.
    pub fn contains(&self, x: Fixed) -> (r: bool)
        ensures
            r == self.contains_spec(x),
    {
        self.min.le(x) && x.le(self.max)
    }

    /// Whether `x` lies within the interval, bounds excluded.
    pub fn surround(&self, x: Fixed) -> (r: bool)
        ensures
            r == self.surround_spec(x),
    {
        self.min.lt(x) && x.lt(self.max)
    }

    /// `x` moved to the nearest bound where it lies outside the interval. Where
    /// the bounds are crossed, the upper bound is tried first.
    pub fn clamp(&self, x: Fixed) -> (r: Fixed)
        ensures
            r == self.clamp_spec(x),
            self.min@ <= self.max@ ==> self.contains_spec(r),
    {
        if x.gt(self.max) {
            return self.max;
        }
        if x.lt(self.min) {
            return self.min;
        }
        x
    }
}

} // verus!
