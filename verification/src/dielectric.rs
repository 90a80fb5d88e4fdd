//! Clear surfaces.
use crate::color::Color;
use crate::fixed::{lemma_isqrt, lemma_isqrt_monotonic, lemma_mul_neg, lemma_mul_one, lemma_tdiv_bounds, Fixed, SCALE};
use crate::hit_record::HitRecord;
use crate::ray::Ray;
use crate::rng::random_fraction;
use crate::vec3::Vec3;
use std::ops::Neg;
use vstd::prelude::*;

verus! {

/// A clear material: it lets light through, bent, or mirrors it.
#[derive(Debug)]
pub struct Dielectric {
    refraction_coeff: Fixed,
}

impl Dielectric {
    /// The refractive index is more than zero.
    #[verifier::type_invariant]
    pub closed spec fn wf(self) -> bool {
        self.refraction_coeff@ > 0
    }

    /// Refractive index: how many times slower light is inside than outside.
    pub closed spec fn refraction_coeff_spec(self) -> Fixed {
        self.refraction_coeff
    }

    /// Fifth power.
    pub open spec fn pow5_spec(x: Fixed) -> Fixed {
        let x2 = x.mul_spec(x);
        x2.mul_spec(x2).mul_spec(x)
    }

    /// Share of the light that is mirrored at the angle whose cosine is `cosine`,
    /// after Schlick: `r0 + (1 - r0) (1 - cosine)^5` with
    /// `r0 = ((1 - n) / (1 + n))^2`.
    pub open spec fn reflectance_spec(cosine: Fixed, refraction_coeff: Fixed) -> Fixed {
        let one = Fixed::of(SCALE as int);
        let q = one.sub_spec(refraction_coeff).div_spec(one.add_spec(refraction_coeff));
        let r0 = q.mul_spec(q);
        r0.add_spec(one.sub_spec(r0).mul_spec(Self::pow5_spec(one.sub_spec(cosine))))
    }

    /// Ratio of the speeds of light before and behind the surface: one over the
    /// index for a ray that enters, the index for one that leaves.
    pub open spec fn ratio_spec(self, front_face: bool) -> Fixed {
        if front_face {
            Fixed::of(SCALE as int).div_spec(self.refraction_coeff_spec())
        } else {
            self.refraction_coeff_spec()
        }
    }

    /// Cosine of the angle between `ray` and the normal at `rec`, one at most.
    pub open spec fn cos_theta_spec(ray: Ray, rec: HitRecord) -> Fixed {
        ray.direction.unit_spec().incidence_cos_spec(rec.normal)
    }

    /// Sine of that angle.
    pub open spec fn sin_theta_spec(ray: Ray, rec: HitRecord) -> Fixed {
        let cos_theta = Self::cos_theta_spec(ray, rec);
        Fixed::of(SCALE as int).sub_spec(cos_theta.mul_spec(cos_theta)).sqrt_spec()
    }

    /// The ray meets the surface too flatly to pass: Snell's law has no solution.
    pub open spec fn cannot_refract_spec(self, ray: Ray, rec: HitRecord) -> bool {
        self.ratio_spec(rec.front_face).mul_spec(Self::sin_theta_spec(ray, rec))@ > SCALE
    }

    /// The ray is mirrored: it cannot pass, or `chance` falls under the share of
    /// light that is mirrored at its angle.
    pub open spec fn reflects_spec(self, ray: Ray, rec: HitRecord, chance: Fixed) -> bool {
        self.cannot_refract_spec(ray, rec) || Self::reflectance_spec(
            Self::cos_theta_spec(ray, rec),
            self.refraction_coeff_spec(),
        )@ > chance@
    }

    /// Where `ray` goes on from the hit `rec`, given the fraction `chance`:
    /// mirrored or bent, its colour unchanged.
    pub open spec fn scatter_spec(self, ray: Ray, rec: HitRecord, chance: Fixed) -> (Ray, Color) {
        let one = Fixed::of(SCALE as int);
        let unit_direction = ray.direction.unit_spec();
        let direction = if self.reflects_spec(ray, rec, chance) {
            unit_direction.reflect_spec(rec.normal)
        } else {
            unit_direction.refract_spec(rec.normal, self.ratio_spec(rec.front_face))
        };
        (Ray { origin: rec.point, direction }, Vec3 { x: one, y: one, z: one })
    }

    /// A material of index one is no boundary to the speed of light: the ratio of
    /// the speeds is one on either side, every ray can pass, and the share that is
    /// mirrored has no constant part.
    pub proof fn lemma_index_one(self, ray: Ray, rec: HitRecord, cosine: Fixed)
        requires
            self.refraction_coeff_spec()@ == SCALE,
        ensures
            self.ratio_spec(true)@ == SCALE,
            self.ratio_spec(false)@ == SCALE,
            !self.cannot_refract_spec(ray, rec),
            Self::reflectance_spec(cosine, self.refraction_coeff_spec()) == Self::pow5_spec(
                Fixed::of(SCALE as int).sub_spec(cosine),
            ),
    {
        let one = Fixed::of(SCALE as int);
        let coeff = self.refraction_coeff_spec();
        // The ratio.
        assert(one@ * SCALE == 1_000_000_000_000) by (nonlinear_arith)
            requires
                one@ == 1_000_000,
                SCALE == 1_000_000,
        ;
        // The sine is one at most, so the ray can pass.
        let cos_theta = Self::cos_theta_spec(ray, rec);
        let square = cos_theta.mul_spec(cos_theta);
        assert(cos_theta@ * cos_theta@ >= 0) by (nonlinear_arith);
        lemma_tdiv_bounds(cos_theta@ * cos_theta@, SCALE as int);
        let under = one.sub_spec(square);
        assert(under@ <= SCALE);
        assert(under@ * SCALE <= SCALE * SCALE) by (nonlinear_arith)
            requires
                under@ <= SCALE,
                SCALE > 0,
        ;
        lemma_isqrt_monotonic(under@ * SCALE, SCALE * SCALE);
        assert((SCALE + 1) * (SCALE + 1) > SCALE * SCALE) by (nonlinear_arith);
        lemma_isqrt(SCALE * SCALE, SCALE as int);
        let sin_theta = Self::sin_theta_spec(ray, rec);
        if under@ > 0 {
            lemma_isqrt(under@ * SCALE, 0);
        }
        assert(0 <= sin_theta@ <= SCALE);
        lemma_mul_one(sin_theta, self.ratio_spec(rec.front_face));
        // The share that is mirrored.
        let q = one.sub_spec(coeff).div_spec(one.add_spec(coeff));
        assert(q@ == 0) by {
            assert(0 * SCALE == 0);
        }
        crate::fixed::lemma_mul_zero(q, q);
        let r0 = q.mul_spec(q);
        lemma_mul_one(Self::pow5_spec(one.sub_spec(cosine)), one.sub_spec(r0));
    }

    /// Light that passes a material of index one goes straight on: the bent
    /// direction is the unit direction of the ray. This holds where the square
    /// root in Snell's law comes out exact, so that what the bend adds along the
    /// normal is what it takes away, and where no component of the normal is
    /// beyond one.
    pub proof fn lemma_straight_through(self, ray: Ray, rec: HitRecord, chance: Fixed)
        requires
            self.refraction_coeff_spec()@ == SCALE,
            rec.normal.within(-SCALE, SCALE + 1),
            ray.direction.unit_spec().refract_depth_spec(rec.normal, self.ratio_spec(rec.front_face))@
                == Self::cos_theta_spec(ray, rec)@,
            !self.reflects_spec(ray, rec, chance),
        ensures
            self.scatter_spec(ray, rec, chance).0.direction == ray.direction.unit_spec(),
    {
        let one = Fixed::of(SCALE as int);
        let uv = ray.direction.unit_spec();
        let n = rec.normal;
        let ratio = self.ratio_spec(rec.front_face);
        let cos = uv.incidence_cos_spec(n);
        let depth = uv.refract_depth_spec(n, ratio);
        self.lemma_index_one(ray, rec, cos);
        crate::vec3::lemma_unit_bounded(ray.direction);
        // The depth is a square root, so the cosine is not below zero.
        let perp = uv.refract_perp_spec(n, ratio);
        let under = one.sub_spec(perp.squared_length_spec()).abs_spec();
        if under@ > 0 {
            assert(under@ * SCALE >= 0) by (nonlinear_arith)
                requires
                    under@ > 0,
                    SCALE > 0,
            ;
            lemma_isqrt(under@ * SCALE, 0);
        }
        assert(0 <= cos@ <= SCALE);
        Self::lemma_bend_cancels(uv.x, n.x, cos, depth, ratio);
        Self::lemma_bend_cancels(uv.y, n.y, cos, depth, ratio);
        Self::lemma_bend_cancels(uv.z, n.z, cos, depth, ratio);
    }

    /// One component of the bend at ratio one: what is added along the normal is
    /// taken away again.
    proof fn lemma_bend_cancels(u: Fixed, n: Fixed, cos: Fixed, depth: Fixed, ratio: Fixed)
        requires
            -SCALE <= u@ <= SCALE,
            u == Fixed::of(u@),
            -SCALE <= n@ <= SCALE,
            0 <= cos@ <= SCALE,
            depth@ == cos@,
            ratio@ == SCALE,
        ensures
            u.add_spec(n.mul_spec(cos)).mul_spec(ratio).add_spec(n.mul_spec(depth.neg_spec())) == u,
    {
        let k = n.mul_spec(cos);
        assert(-SCALE * SCALE <= n@ * cos@ <= SCALE * SCALE) by (nonlinear_arith)
            requires
                -SCALE <= n@ <= SCALE,
                0 <= cos@ <= SCALE,
        ;
        lemma_tdiv_bounds(n@ * cos@, SCALE as int);
        assert(-SCALE <= k@ <= SCALE);
        lemma_mul_one(u.add_spec(k), ratio);
        lemma_mul_neg(n, depth);
        assert(n@ * depth@ == n@ * cos@) by (nonlinear_arith)
            requires
                depth@ == cos@,
        ;
    }

    /// A clear material of the given refractive index.
    pub fn new(refraction_coeff: Fixed) -> (r: Dielectric)
        requires
            refraction_coeff@ > 0,
        ensures
            r.wf(),
            r.refraction_coeff_spec() == refraction_coeff,
    {
        Dielectric { refraction_coeff }
    }

    /// Refractive index.
    pub fn refraction_coeff(&self) -> (r: Fixed)
        ensures
            r == self.refraction_coeff_spec(),
            r@ > 0,
    {
        proof {
            use_type_invariant(self);
        }
        self.refraction_coeff
    }

    /// Share of the light that is mirrored at the angle whose cosine is `cosine`.
    pub fn reflectance(cosine: Fixed, refraction_coeff: Fixed) -> (r: Fixed)
        ensures
            r == Self::reflectance_spec(cosine, refraction_coeff),
    {
        let one = Fixed::one();
        let mut r0 = (one - refraction_coeff) / (one + refraction_coeff);
        r0 = r0 * r0;
        let x = one - cosine;
        let x2 = x * x;
        r0 + (one - r0) * (x2 * x2 * x)
    }

    /// Whether `ray` meets the surface at `rec` too flatly to pass.
    pub fn cannot_refract(&self, ray: &Ray, rec: &HitRecord) -> (r: bool)
        ensures
            r == self.cannot_refract_spec(*ray, *rec),
    {
        let refraction_ratio = if rec.front_face {
            Fixed::one() / self.refraction_coeff
        } else {
            self.refraction_coeff
        };
        let unit_direction = ray.direction().unit();
        let cos_theta = unit_direction.neg().dot(rec.normal).min(Fixed::one());
        let sin_theta = (Fixed::one() - cos_theta * cos_theta).sqrt();
        (refraction_ratio * sin_theta).gt(Fixed::one())
    }

    /// Where `ray` goes on from the hit `rec`, given the fraction `chance`.
    pub fn scatter_from(&self, ray: &Ray, rec: &HitRecord, chance: Fixed) -> (r: (Ray, Color))
        ensures
            r == self.scatter_spec(*ray, *rec, chance),
    {
        let refraction_ratio = if rec.front_face {
            Fixed::one() / self.refraction_coeff
        } else {
            self.refraction_coeff
        };
        let unit_direction = ray.direction().unit();
        let cos_theta = unit_direction.neg().dot(rec.normal).min(Fixed::one());
        let white = Vec3::new(Fixed::one(), Fixed::one(), Fixed::one());
        if self.cannot_refract(ray, rec) || Dielectric::reflectance(cos_theta, self.refraction_coeff).gt(chance) {
            let reflected = unit_direction.reflect(&rec.normal);
            return (Ray::new(rec.point, reflected), white);
        }
        let refracted = unit_direction.refract(&rec.normal, refraction_ratio);
        (Ray::new(rec.point, refracted), white)
    }

    /// Where `ray` goes on from the hit `rec`, with a fraction of its own drawing
    /// where the ray can pass. A clear surface swallows no light.
    pub fn scatter(&self, ray: &Ray, rec: &HitRecord) -> (r: Option<(Ray, Color)>)
        ensures
            r is Some,
            exists|c: Fixed| 0 <= #[trigger] c@ < SCALE && r == Some(self.scatter_spec(*ray, *rec, c)),
    {
        let chance = if self.cannot_refract(ray, rec) {
            Fixed::zero()
        } else {
            random_fraction()
        };
        let r = Some(self.scatter_from(ray, rec, chance));
        assert(0 <= chance@ < SCALE && r == Some(self.scatter_spec(*ray, *rec, chance)));
        r
    }
}

} // verus!
