//! Colours: vectors whose components are red, green and blue.
use crate::fixed::{lemma_tdiv_bounds, tdiv, Fixed, SCALE};
use crate::image::{pixel_line_spec, push_pixel_line, Pixel};
use crate::interval::Interval;
use crate::vec3::Vec3;
use vstd::prelude::*;

verus! {

/// Red, green and blue, each from zero (dark) to one (full).
pub type Color = Vec3;

/// Millionths in 0.999, the brightest that a channel is written.
pub const CHANNEL_MAX_COUNT: i64 = 999_000;

/// Millionths in 255.99, the factor from a channel to its number.
pub const CHANNEL_FACTOR_COUNT: i64 = 255_990_000;

impl Vec3 {
    /// A component as the eye takes it, from the amount of light that it stands
    /// for: the square root (gamma 2).
    pub open spec fn linear_to_gamma_spec(linear_component: Fixed) -> Fixed {
        linear_component.sqrt_spec()
    }

    /// The number from 0 to 255 for one channel summed over `samples_per_pixel`
    /// samples: the mean, gamma-corrected, kept within 0 and 0.999, times 255.99,
    /// rounded down.
    pub open spec fn channel_spec(sum: Fixed, samples_per_pixel: i16) -> int {
        let mean = sum.div_spec(Fixed::of(samples_per_pixel * SCALE));
        let range = Interval { min: Fixed::of(0), max: Fixed::of(CHANNEL_MAX_COUNT as int) };
        Fixed::of(CHANNEL_FACTOR_COUNT as int).mul_spec(range.clamp_spec(Self::linear_to_gamma_spec(mean))).trunc_spec()
    }

    /// The pixel for a colour summed over `samples_per_pixel` samples.
    pub open spec fn to_pixel_spec(self, samples_per_pixel: i16) -> Pixel {
        Pixel {
            r: Self::channel_spec(self.x, samples_per_pixel) as u8,
            g: Self::channel_spec(self.y, samples_per_pixel) as u8,
            b: Self::channel_spec(self.z, samples_per_pixel) as u8,
        }
    }

    /// The number for a channel lies from 0 to 255.
    pub proof fn lemma_channel_range(sum: Fixed, samples_per_pixel: i16)
        ensures
            0 <= Self::channel_spec(sum, samples_per_pixel) <= 255,
    {
        let mean = sum.div_spec(Fixed::of(samples_per_pixel * SCALE));
        let range = Interval { min: Fixed::of(0), max: Fixed::of(CHANNEL_MAX_COUNT as int) };
        let kept = range.clamp_spec(Self::linear_to_gamma_spec(mean));
        assert(0 <= kept@ <= CHANNEL_MAX_COUNT);
        let product = CHANNEL_FACTOR_COUNT * kept@;
        assert(0 <= product <= 255_990_000 * 999_000) by (nonlinear_arith)
            requires
                0 <= kept@ <= 999_000,
                product == 255_990_000 * kept@,
        ;
        lemma_tdiv_bounds(product, SCALE as int);
        let scaled = tdiv(product, SCALE as int);
        assert(0 <= scaled <= 255_734_010);
        lemma_tdiv_bounds(scaled, SCALE as int);
    }

    /// The number from 0 to 255 for one channel.
    fn channel(sum: Fixed, samples_per_pixel: i16) -> (r: u8)
        ensures
            r == Self::channel_spec(sum, samples_per_pixel),
    {
        let mean = sum / Fixed::from_int(samples_per_pixel as i64);
        let gamma = Color::linear_to_gamma(mean);
        let range = Interval { min: Fixed::zero(), max: Fixed::from_raw(CHANNEL_MAX_COUNT) };
        let number = (Fixed::from_raw(CHANNEL_FACTOR_COUNT) * range.clamp(gamma)).trunc();
        proof {
            Self::lemma_channel_range(sum, samples_per_pixel);
        }
        number as u8
    }

    /// The pixel for the colour, which is the sum of `samples_per_pixel` samples.
    pub fn to_pixel(&self, samples_per_pixel: i16) -> (r: Pixel)
        requires
            samples_per_pixel >= 1,
        ensures
            r == self.to_pixel_spec(samples_per_pixel),
    {
        Pixel {
            r: Self::channel(self.x, samples_per_pixel),
            g: Self::channel(self.y, samples_per_pixel),
            b: Self::channel(self.z, samples_per_pixel),
        }
    }

    /// The line of text of the pixel for the colour, which is the sum of
    /// `samples_per_pixel` samples.
    pub fn write(&self, samples_per_pixel: i16) -> (line: Vec<u8>)
        requires
            samples_per_pixel >= 1,
        ensures
            line@ == pixel_line_spec(self.to_pixel_spec(samples_per_pixel)),
    {
        let mut line: Vec<u8> = Vec::new();
        push_pixel_line(&mut line, self.to_pixel(samples_per_pixel));
        assert(line@ =~= pixel_line_spec(self.to_pixel_spec(samples_per_pixel)));
        line
    }

    /// A component as the eye takes it.
    pub fn linear_to_gamma(linear_component: Fixed) -> (r: Fixed)
        ensures
            r == Self::linear_to_gamma_spec(linear_component),
    {
        linear_component.sqrt()
    }
}

} // verus!
