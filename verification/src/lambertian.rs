//! Matt surfaces.
use crate::color::Color;
use crate::hit_record::HitRecord;
use crate::ray::Ray;
use crate::vec3::Vec3;
use vstd::prelude::*;

verus! {

/// A matt surface: it scatters light to all sides, most of it along the normal.
#[derive(Debug)]
pub struct Lambertian {
    albedo: Color,
}

impl Lambertian {
    /// The colour that the surface dims light by.
    pub closed spec fn albedo_spec(self) -> Color {
        self.albedo
    }

    /// Where light goes on from the hit `rec`, given the direction `offset`: along
    /// the normal plus the offset, or along the normal alone where the two cancel;
    /// dimmed by the albedo.
    pub open spec fn scatter_spec(self, rec: HitRecord, offset: Vec3) -> (Ray, Color) {
        let direction = rec.normal.add_spec(offset);
        (
            Ray {
                origin: rec.point,
                direction: if direction.near_zero_spec() {
                    rec.normal
                } else {
                    direction
                },
            },
            self.albedo_spec(),
        )
    }

    /// Light leaves a matt surface on the side of its normal: the direction in
    /// which it goes on has no part against the normal, provided that the offset
    /// drawn is no longer than the normal (lengths taken before rounding) and that
    /// their sum is not pinned to a bound.
    pub proof fn lemma_scatter_hemisphere(self, rec: HitRecord, offset: Vec3)
        requires
            offset.dot_exact(offset) <= rec.normal.dot_exact(rec.normal),
            rec.normal.sum_fits(offset),
        ensures
            self.scatter_spec(rec, offset).0.direction.dot_spec(rec.normal)@ >= 0,
            rec.normal.add_spec(offset).near_zero_spec() ==> self.scatter_spec(rec, offset).0.direction
                == rec.normal,
    {
        let n = rec.normal;
        crate::vec3::lemma_sum_keeps_side(n, offset);
        assert(n.dot_exact(n) >= 0) by (nonlinear_arith)
            requires
                n.dot_exact(n) == n.x@ * n.x@ + n.y@ * n.y@ + n.z@ * n.z@,
        ;
        crate::fixed::lemma_tdiv_bounds(n.dot_exact(n), crate::fixed::SCALE as int);
    }

    /// A matt surface of the given colour.
    pub fn new(albedo: Color) -> (r: Lambertian)
        ensures
            r.albedo_spec() == albedo,
    {
        Lambertian { albedo }
    }

    /// The colour that the surface dims light by.
    pub fn albedo(&self) -> (r: Color)
        ensures
            r == self.albedo_spec(),
    {
        self.albedo
    }

    /// Where light goes on from the hit `rec`, given the direction `offset`.
    pub fn scatter_from(&self, rec: &HitRecord, offset: Vec3) -> (r: (Ray, Color))
        ensures
            r == self.scatter_spec(*rec, offset),
    {
        let mut direction = rec.normal + offset;
        if direction.near_zero() {
            direction = rec.normal;
        }
        (Ray::new(rec.point, direction), self.albedo)
    }

    /// Where light goes on from the hit `rec`, in a direction of its own
    /// drawing. A matt surface swallows no light.
    pub fn scatter(&self, _ray: &Ray, rec: &HitRecord) -> (r: Option<(Ray, Color)>)
        ensures
            r is Some,
            exists|u: Vec3| #[trigger] u.is_unit_draw() && r == Some(self.scatter_spec(*rec, u)),
    {
        let u = Vec3::random_unit();
        Some(self.scatter_from(rec, u))
    }
}

} // verus!
