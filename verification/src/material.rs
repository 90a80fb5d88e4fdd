//! What a surface does to the light that strikes it.
use crate::color::Color;
use crate::dielectric::Dielectric;
use crate::fixed::{Fixed, SCALE};
use crate::hit_record::HitRecord;
use crate::lambertian::Lambertian;
use crate::metal::Metal;
use crate::ray::Ray;
use crate::vec3::Vec3;
use vstd::prelude::*;

verus! {

/// The chance that one scattering takes: a direction and a fraction.
#[derive(Clone, Copy, Debug, PartialEq, Eq, Structural)]
pub struct ScatterDraw {
    /// A direction, as `Vec3::random_unit` draws it.
    pub offset: Vec3,
    /// A number from zero (included) to one (excluded).
    pub chance: Fixed,
}

impl ScatterDraw {
    /// The draw is one that the generator can make.
    pub open spec fn is_valid(self) -> bool {
        self.offset.is_unit_draw() && 0 <= self.chance@ < SCALE
    }
}

/// A kind of surface.
#[derive(Debug)]
pub enum Material {
    /// Matt.
    Lambertian(Lambertian),
    /// Mirror-like, more or less polished.
    Metal(Metal),
    /// Clear, like glass or water.
    Dielectric(Dielectric),
}

impl Material {
    /// What becomes of `ray` where it strikes the surface at `rec`, given the
    /// chance `draw`: the ray that goes on and the colour that it is dimmed by, or
    /// nothing where the light is swallowed.
    pub open spec fn scatter_spec(self, ray: Ray, rec: HitRecord, draw: ScatterDraw) -> Option<(Ray, Color)> {
        match self {
            Material::Lambertian(m) => Some(m.scatter_spec(rec, draw.offset)),
            Material::Metal(m) => m.scatter_spec(ray, rec, draw.offset),
            Material::Dielectric(m) => Some(m.scatter_spec(ray, rec, draw.chance)),
        }
    }

    /// What becomes of `ray` where it strikes the surface at `rec`, given the
    /// chance `draw`.
    pub fn scatter_with(&self, ray: &Ray, rec: &HitRecord, draw: &ScatterDraw) -> (r: Option<(Ray, Color)>)
        ensures
            r == self.scatter_spec(*ray, *rec, *draw),
    {
        match self {
            Material::Lambertian(m) => Some(m.scatter_from(rec, draw.offset)),
            Material::Metal(m) => m.scatter_from(ray, rec, draw.offset),
            Material::Dielectric(m) => Some(m.scatter_from(ray, rec, draw.chance)),
        }
    }

    /// What becomes of `ray` where it strikes the surface at `rec`, with a
    /// chance of its own drawing.
    pub fn scatter(&self, ray: &Ray, rec: &HitRecord) -> (r: Option<(Ray, Color)>)
        ensures
            exists|draw: ScatterDraw| #[trigger] draw.is_valid() && r == self.scatter_spec(*ray, *rec, draw),
    {
        match self {
            Material::Lambertian(m) => {
                let r = m.scatter(ray, rec);
                proof {
                    let u = choose|u: Vec3| #[trigger] u.is_unit_draw() && r == Some(m.scatter_spec(*rec, u));
                    let draw = ScatterDraw { offset: u, chance: Fixed::of(0) };
                    assert(draw.is_valid() && r == self.scatter_spec(*ray, *rec, draw));
                }
                r
            },
            Material::Metal(m) => {
                let r = m.scatter(ray, rec);
                proof {
                    let u = choose|u: Vec3| #[trigger] u.is_unit_draw() && r == m.scatter_spec(*ray, *rec, u);
                    let draw = ScatterDraw { offset: u, chance: Fixed::of(0) };
                    assert(draw.is_valid() && r == self.scatter_spec(*ray, *rec, draw));
                }
                r
            },
            Material::Dielectric(m) => {
                let r = m.scatter(ray, rec);
                proof {
                    let c = choose|c: Fixed| 0 <= #[trigger] c@ < SCALE && r == Some(m.scatter_spec(*ray, *rec, c));
                    let zero = Vec3 { x: Fixed::of(0), y: Fixed::of(0), z: Fixed::of(0) };
                    crate::vec3::lemma_zero_is_unit_draw();
                    let draw = ScatterDraw { offset: zero, chance: c };
                    assert(draw.is_valid() && r == self.scatter_spec(*ray, *rec, draw));
                }
                r
            },
        }
    }
}

} // verus!
