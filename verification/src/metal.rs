//! Mirror-like surfaces.
use crate::color::Color;
use crate::fixed::{lemma_mul_zero, Fixed, SCALE};
use crate::hit_record::HitRecord;
use crate::ray::Ray;
use crate::vec3::Vec3;
use vstd::prelude::*;

verus! {

/// A metal: it mirrors light, the less sharply the greater its `fuzz`.
#[derive(Debug)]
pub struct Metal {
    albedo: Color,
    fuzz: Fixed,
}

impl Metal {
    /// The fuzz lies from zero (a perfect mirror) to one.
    #[verifier::type_invariant]
    pub closed spec fn wf(self) -> bool {
        0 <= self.fuzz@ <= SCALE
    }

    /// The colour that the surface dims light by.
    pub closed spec fn albedo_spec(self) -> Color {
        self.albedo
    }

    /// How far a mirrored ray may stray, from zero to one.
    pub closed spec fn fuzz_spec(self) -> Fixed {
        self.fuzz
    }

    /// Where `ray` goes on from the hit `rec`, given the direction `offset`: along
    /// the mirror image of its unit direction plus `fuzz` times the offset, dimmed
    /// by the albedo; nowhere, where that does not lead away from the surface.
    pub open spec fn scatter_spec(self, ray: Ray, rec: HitRecord, offset: Vec3) -> Option<(Ray, Color)> {
        let reflection = ray.direction.unit_spec().reflect_spec(rec.normal);
        let scattered = reflection.add_spec(offset.scale_spec(self.fuzz_spec()));
        if scattered.dot_spec(rec.normal)@ <= 0 {
            None
        } else {
            Some((Ray { origin: rec.point, direction: scattered }, self.albedo_spec()))
        }
    }

    /// Where `ray` goes on from the hit `rec` off a perfect mirror: along the
    /// mirror image of its unit direction, dimmed by the albedo; nowhere, where
    /// that does not lead away from the surface.
    pub open spec fn mirror_spec(self, ray: Ray, rec: HitRecord) -> Option<(Ray, Color)> {
        let reflection = ray.direction.unit_spec().reflect_spec(rec.normal);
        if reflection.dot_spec(rec.normal)@ <= 0 {
            None
        } else {
            Some((Ray { origin: rec.point, direction: reflection }, self.albedo_spec()))
        }
    }

    /// A metal without fuzz is a perfect mirror, whatever offset is drawn.
    pub proof fn lemma_mirror(self, ray: Ray, rec: HitRecord, offset: Vec3)
        requires
            self.fuzz_spec()@ == 0,
        ensures
            self.scatter_spec(ray, rec, offset) == self.mirror_spec(ray, rec),
    {
        let reflection = ray.direction.unit_spec().reflect_spec(rec.normal);
        lemma_mul_zero(offset.x, self.fuzz_spec());
        lemma_mul_zero(offset.y, self.fuzz_spec());
        lemma_mul_zero(offset.z, self.fuzz_spec());
        assert(reflection.add_spec(offset.scale_spec(self.fuzz_spec())) == reflection);
    }

    /// A metal of the given colour and fuzz.
    pub fn new(albedo: Color, fuzz: Fixed) -> (r: Metal)
        requires
            0 <= fuzz@ <= SCALE,
        ensures
            r.wf(),
            r.albedo_spec() == albedo,
            r.fuzz_spec() == fuzz,
    {
        Metal { albedo, fuzz }
    }

    /// The colour that the surface dims light by.
    pub fn albedo(&self) -> (r: Color)
        ensures
            r == self.albedo_spec(),
    {
        self.albedo
    }

    /// How far a mirrored ray may stray.
    pub fn fuzz(&self) -> (r: Fixed)
        ensures
            r == self.fuzz_spec(),
            0 <= r@ <= SCALE,
    {
        proof {
            use_type_invariant(self);
        }
        self.fuzz
    }

    /// Where `ray` goes on from the hit `rec`, given the direction `offset`.
    pub fn scatter_from(&self, ray: &Ray, rec: &HitRecord, offset: Vec3) -> (r: Option<(Ray, Color)>)
        ensures
            r == self.scatter_spec(*ray, *rec, offset),
    {
        let reflection = ray.direction().unit().reflect(&rec.normal);
        let scattered = reflection + offset * self.fuzz;
        if scattered.dot(rec.normal).le(Fixed::zero()) {
            return None;
        }
        Some((Ray::new(rec.point, scattered), self.albedo))
    }

    /// Where `ray` goes on from the hit `rec`, with an offset of its own drawing.
    pub fn scatter(&self, ray: &Ray, rec: &HitRecord) -> (r: Option<(Ray, Color)>)
        ensures
            exists|u: Vec3| #[trigger] u.is_unit_draw() && r == self.scatter_spec(*ray, *rec, u),
    {
        let u = Vec3::random_unit();
        self.scatter_from(ray, rec, u)
    }
}

} // verus!
