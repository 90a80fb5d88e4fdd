//! Sine, cosine and tangent by their power series.
//!
//! The series are cut after the term in `x^11` (sine) and `x^12` (cosine), which
//! is below one millionth for angles from minus to plus a quarter turn.
use crate::fixed::{Fixed, SCALE};
use vstd::prelude::*;

verus! {

/// Millionths in the ratio of a circle's circumference to its diameter.
pub const PI_COUNT: i64 = 3_141_593;

impl Fixed {
    /// Pi, to six places.
    pub open spec fn pi_spec() -> Fixed {
        Fixed::of(PI_COUNT as int)
    }

    /// The angle in radians, given in degrees: `self * pi / 180`.
    pub open spec fn to_radians_spec(self) -> Fixed {
        self.mul_spec(Fixed::pi_spec()).div_spec(Fixed::of(180 * SCALE))
    }

    /// One step of a power series in nested form: `1 - x2 * inner / k`.
    pub open spec fn series_step_spec(x2: Fixed, inner: Fixed, k: int) -> Fixed {
        Fixed::of(SCALE as int).sub_spec(x2.mul_spec(inner).div_spec(Fixed::of(k * SCALE)))
    }

    /// Sine of an angle in radians:
    /// `x (1 - x^2/6 (1 - x^2/20 (1 - x^2/42 (1 - x^2/72 (1 - x^2/110)))))`.
    pub open spec fn sin_spec(self) -> Fixed {
        let x2 = self.mul_spec(self);
        let s5 = Fixed::series_step_spec(x2, Fixed::of(SCALE as int), 110);
        let s4 = Fixed::series_step_spec(x2, s5, 72);
        let s3 = Fixed::series_step_spec(x2, s4, 42);
        let s2 = Fixed::series_step_spec(x2, s3, 20);
        let s1 = Fixed::series_step_spec(x2, s2, 6);
        self.mul_spec(s1)
    }

    /// Cosine of an angle in radians:
    /// `1 - x^2/2 (1 - x^2/12 (1 - x^2/30 (1 - x^2/56 (1 - x^2/90 (1 - x^2/132)))))`.
    pub open spec fn cos_spec(self) -> Fixed {
        let x2 = self.mul_spec(self);
        let c6 = Fixed::series_step_spec(x2, Fixed::of(SCALE as int), 132);
        let c5 = Fixed::series_step_spec(x2, c6, 90);
        let c4 = Fixed::series_step_spec(x2, c5, 56);
        let c3 = Fixed::series_step_spec(x2, c4, 30);
        let c2 = Fixed::series_step_spec(x2, c3, 12);
        Fixed::series_step_spec(x2, c2, 2)
    }

    /// Tangent of an angle in radians: sine over cosine.
    pub open spec fn tan_spec(self) -> Fixed {
        self.sin_spec().div_spec(self.cos_spec())
    }

    /// Pi, to six places.
    pub fn pi() -> (r: Fixed)
        ensures
            r == Fixed::pi_spec(),
    {
        Fixed::from_raw(PI_COUNT)
    }

    /// The angle in radians, given in degrees.
    pub fn to_radians(self) -> (r: Fixed)
        ensures
            r == self.to_radians_spec(),
    {
        self * Fixed::pi() / Fixed::from_int(180)
    }

    /// One step of a power series in nested form, for `k` up to a thousand.
    fn series_step(x2: Fixed, inner: Fixed, k: i64) -> (r: Fixed)
        requires
            0 < k <= 1000,
        ensures
            r == Fixed::series_step_spec(x2, inner, k as int),
    {
        Fixed::one() - x2 * inner / Fixed::from_int(k)
    }

    /// Sine of an angle in radians.
    pub fn sin(self) -> (r: Fixed)
        ensures
            r == self.sin_spec(),
    {
        let x2 = self * self;
        let s5 = Fixed::series_step(x2, Fixed::one(), 110);
        let s4 = Fixed::series_step(x2, s5, 72);
        let s3 = Fixed::series_step(x2, s4, 42);
        let s2 = Fixed::series_step(x2, s3, 20);
        let s1 = Fixed::series_step(x2, s2, 6);
        self * s1
    }

    /// Cosine of an angle in radians.
    pub fn cos(self) -> (r: Fixed)
        ensures
            r == self.cos_spec(),
    {
        let x2 = self * self;
        let c6 = Fixed::series_step(x2, Fixed::one(), 132);
        let c5 = Fixed::series_step(x2, c6, 90);
        let c4 = Fixed::series_step(x2, c5, 56);
        let c3 = Fixed::series_step(x2, c4, 30);
        let c2 = Fixed::series_step(x2, c3, 12);
        Fixed::series_step(x2, c2, 2)
    }

    /// Tangent of an angle in radians.
    pub fn tan(self) -> (r: Fixed)
        ensures
            r == self.tan_spec(),
    {
        self.sin() / self.cos()
    }
}

} // verus!
