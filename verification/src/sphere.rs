//! Spheres.
use crate::fixed::{
    isqrt, lemma_div_monotonic, lemma_isqrt, lemma_isqrt_monotonic, lemma_tdiv_bounds, tdiv, Fixed, LIMIT, SCALE,
};
use crate::hit_record::HitRecord;
use crate::hittable::{before, Hittable};
use crate::interval::Interval;
use crate::material::Material;
use crate::ray::Ray;
use crate::vec3::{Point3, Vec3};
use std::ops::Neg;
use vstd::prelude::*;

verus! {

/// A sphere of one material.
#[derive(Debug)]
pub struct Sphere {
    center: Point3,
    radius: Fixed,
    material: Material,
}

impl Sphere {
    /// The radius is more than zero.
    #[verifier::type_invariant]
    pub closed spec fn wf(self) -> bool {
        self.radius@ > 0
    }

    /// Middle of the sphere.
    pub closed spec fn center_spec(self) -> Point3 {
        self.center
    }

    /// Radius of the sphere.
    pub closed spec fn radius_spec(self) -> Fixed {
        self.radius
    }

    /// What the sphere is made of.
    pub closed spec fn material_spec(&self) -> &Material {
        &self.material
    }

    /// From the middle of the sphere to the start of `ray`.
    pub open spec fn oc_spec(self, ray: Ray) -> Vec3 {
        ray.origin.sub_spec(self.center_spec())
    }

    /// Leading coefficient of the quadratic in the ray parameter: the squared
    /// length of the direction.
    pub open spec fn a_spec(ray: Ray) -> Fixed {
        ray.direction.squared_length_spec()
    }

    /// Half the middle coefficient of the quadratic.
    pub open spec fn half_b_spec(self, ray: Ray) -> Fixed {
        self.oc_spec(ray).dot_spec(ray.direction)
    }

    /// Constant coefficient of the quadratic: above zero exactly where the ray
    /// starts outside the sphere.
    pub open spec fn c_spec(self, ray: Ray) -> Fixed {
        self.oc_spec(ray).squared_length_spec().sub_spec(self.radius_spec().mul_spec(self.radius_spec()))
    }

    /// A quarter of the discriminant of the quadratic.
    pub open spec fn discriminant_spec(self, ray: Ray) -> Fixed {
        self.half_b_spec(ray).mul_spec(self.half_b_spec(ray)).sub_spec(Self::a_spec(ray).mul_spec(self.c_spec(ray)))
    }

    /// The smaller root of the quadratic.
    pub open spec fn near_root_spec(self, ray: Ray) -> Fixed {
        self.half_b_spec(ray).neg_spec().sub_spec(self.discriminant_spec(ray).sqrt_spec()).div_spec(
            Self::a_spec(ray),
        )
    }

    /// The greater root of the quadratic.
    pub open spec fn far_root_spec(self, ray: Ray) -> Fixed {
        self.half_b_spec(ray).neg_spec().add_spec(self.discriminant_spec(ray).sqrt_spec()).div_spec(
            Self::a_spec(ray),
        )
    }

    /// The quadratic has roots: the ray has a direction, and the discriminant is
    /// not below zero.
    pub open spec fn has_roots_spec(self, ray: Ray) -> bool {
        Self::a_spec(ray)@ != 0 && self.discriminant_spec(ray)@ >= 0
    }

    /// The root at which the ray is taken to meet the sphere: the smaller one
    /// where `t` surrounds it, else the greater one where `t` surrounds that.
    pub open spec fn root_spec(self, ray: Ray, t: Interval) -> Option<Fixed> {
        if !self.has_roots_spec(ray) {
            None
        } else if t.surround_spec(self.near_root_spec(ray)) {
            Some(self.near_root_spec(ray))
        } else if t.surround_spec(self.far_root_spec(ray)) {
            Some(self.far_root_spec(ray))
        } else {
            None
        }
    }

    /// Outward normal of the sphere at `point`: from the middle to the point,
    /// divided by the radius.
    pub open spec fn outward_normal_spec(self, point: Point3) -> Vec3 {
        point.sub_spec(self.center_spec()).div_spec(self.radius_spec())
    }

    /// The record of the meeting of `ray` and the sphere at the parameter `root`.
    pub open spec fn record_spec<'a>(&'a self, ray: Ray, root: Fixed) -> HitRecord<'a> {
        let point = ray.at_spec(root);
        (HitRecord {
            point,
            normal: Vec3 { x: Fixed::of(0), y: Fixed::of(0), z: Fixed::of(0) },
            t: root,
            front_face: false,
            material: self.material_spec(),
        }).set_face_normal_spec(ray, self.outward_normal_spec(point))
    }

    /// The ray starts outside the sphere: farther from its middle than the radius.
    pub open spec fn starts_outside_spec(self, ray: Ray) -> bool {
        self.oc_spec(ray).squared_length_spec()@ > self.radius_spec().mul_spec(self.radius_spec())@
    }

    /// The ray does not approach the middle of the sphere.
    pub open spec fn points_away_spec(self, ray: Ray) -> bool {
        self.half_b_spec(ray)@ >= 0
    }

    /// The parameter halfway between the roots: `-half_b / a`.
    pub open spec fn mid_root_spec(self, ray: Ray) -> Fixed {
        self.half_b_spec(ray).neg_spec().div_spec(Self::a_spec(ray))
    }

    /// The sphere about `center` with the given radius and material.
    pub fn new(center: Vec3, radius: Fixed, material: Material) -> (r: Sphere)
        requires
            radius@ > 0,
        ensures
            r.wf(),
            r.center_spec() == center,
            r.radius_spec() == radius,
            *r.material_spec() == material,
    {
        Sphere { center, radius, material }
    }

    /// Middle of the sphere.
    pub fn center(&self) -> (r: Point3)
        ensures
            r == self.center_spec(),
    {
        self.center
    }

    /// Radius of the sphere.
    pub fn radius(&self) -> (r: Fixed)
        ensures
            r == self.radius_spec(),
            r@ > 0,
    {
        proof {
            use_type_invariant(self);
        }
        self.radius
    }

    /// What the sphere is made of.
    pub fn material(&self) -> (r: &Material)
        ensures
            r == self.material_spec(),
    {
        &self.material
    }

    /// The smaller root is not above the greater one.
    pub proof fn lemma_roots_ordered(self, ray: Ray)
        requires
            self.has_roots_spec(ray),
        ensures
            self.near_root_spec(ray)@ <= self.far_root_spec(ray)@,
    {
        let minus_half_b = self.half_b_spec(ray).neg_spec();
        let root = self.discriminant_spec(ray).sqrt_spec();
        crate::fixed::lemma_isqrt(self.discriminant_spec(ray)@ * crate::fixed::SCALE, 0);
        assert(self.discriminant_spec(ray)@ * crate::fixed::SCALE >= 0);
        assert(root@ >= 0);
        assert(ray.direction.dot_exact(ray.direction) >= 0) by (nonlinear_arith)
            requires
                ray.direction.dot_exact(ray.direction) == ray.direction.x@ * ray.direction.x@
                    + ray.direction.y@ * ray.direction.y@ + ray.direction.z@ * ray.direction.z@,
        ;
        crate::fixed::lemma_tdiv_bounds(ray.direction.dot_exact(ray.direction), crate::fixed::SCALE as int);
        lemma_div_monotonic(minus_half_b.sub_spec(root), minus_half_b.add_spec(root), Self::a_spec(ray));
    }
}

impl Sphere {
    /// The squared length of the direction is not below zero.
    pub proof fn lemma_a_not_negative(ray: Ray)
        ensures
            Self::a_spec(ray)@ >= 0,
    {
        let d = ray.direction;
        assert(d.dot_exact(d) >= 0) by (nonlinear_arith)
            requires
                d.dot_exact(d) == d.x@ * d.x@ + d.y@ * d.y@ + d.z@ * d.z@,
        ;
        lemma_tdiv_bounds(d.dot_exact(d), SCALE as int);
    }

    /// Where the ray starts outside the sphere and does not approach it, neither
    /// root lies above zero.
    pub proof fn lemma_roots_behind(self, ray: Ray)
        requires
            self.starts_outside_spec(ray),
            self.points_away_spec(ray),
            self.has_roots_spec(ray),
        ensures
            self.near_root_spec(ray)@ <= 0,
            self.far_root_spec(ray)@ <= 0,
    {
        let a = Self::a_spec(ray);
        let hb = self.half_b_spec(ray);
        let c = self.c_spec(ray);
        let disc = self.discriminant_spec(ray);
        Self::lemma_a_not_negative(ray);
        assert(c@ > 0);
        // The product a * c is not below zero, so the discriminant is at most half_b squared.
        assert(a@ * c@ >= 0) by (nonlinear_arith)
            requires
                a@ >= 0,
                c@ > 0,
        ;
        lemma_tdiv_bounds(a@ * c@, SCALE as int);
        assert(hb@ * hb@ >= 0) by (nonlinear_arith);
        lemma_tdiv_bounds(hb@ * hb@, SCALE as int);
        let square = hb.mul_spec(hb);
        assert(0 <= square@ <= tdiv(hb@ * hb@, SCALE as int));
        assert(disc@ <= square@);
        // Its square root is at most half_b.
        assert(disc@ * SCALE <= hb@ * hb@) by (nonlinear_arith)
            requires
                disc@ <= tdiv(hb@ * hb@, SCALE as int),
                tdiv(hb@ * hb@, SCALE as int) * SCALE <= hb@ * hb@,
                SCALE > 0,
        ;
        lemma_isqrt_monotonic(disc@ * SCALE, hb@ * hb@);
        assert((hb@ + 1) * (hb@ + 1) > hb@ * hb@) by (nonlinear_arith)
            requires
                hb@ >= 0,
        ;
        lemma_isqrt(hb@ * hb@, hb@);
        let root = disc.sqrt_spec();
        assert(disc@ * SCALE >= 0) by (nonlinear_arith)
            requires
                disc@ >= 0,
                SCALE > 0,
        ;
        lemma_isqrt(disc@ * SCALE, 0);
        assert(0 <= root@ <= hb@);
        // So both numerators are at most zero, and so are the quotients.
        let near_num = hb.neg_spec().sub_spec(root);
        let far_num = hb.neg_spec().add_spec(root);
        assert(near_num@ <= 0 && far_num@ <= 0);
        assert(near_num@ * SCALE <= 0 && far_num@ * SCALE <= 0) by (nonlinear_arith)
            requires
                near_num@ <= 0,
                far_num@ <= 0,
                SCALE > 0,
        ;
        lemma_tdiv_bounds(near_num@ * SCALE, a@);
        lemma_tdiv_bounds(far_num@ * SCALE, a@);
    }

    /// A ray that starts outside the sphere and does not approach it misses the
    /// sphere on every interval that begins at zero or above.
    pub proof fn lemma_miss_when_leaving(&self, ray: Ray, t: Interval)
        requires
            self.starts_outside_spec(ray),
            self.points_away_spec(ray),
            t.min@ >= 0,
        ensures
            self.hit_spec(ray, t) is None,
    {
        if self.has_roots_spec(ray) {
            self.lemma_roots_behind(ray);
        }
    }

    /// The nearer root is the one reported wherever the interval surrounds it.
    pub proof fn lemma_near_root_wins(&self, ray: Ray, t: Interval)
        requires
            self.has_roots_spec(ray),
            t.surround_spec(self.near_root_spec(ray)),
        ensures
            self.hit_spec(ray, t) == Some(self.record_spec(ray, self.near_root_spec(ray))),
    {
    }

    /// The two roots lie evenly about `-half_b / a`: their sum and twice that
    /// parameter differ by three millionths at most, by the rounding of the three
    /// quotients, and not at all for a direction of length one. This holds
    /// where neither the roots nor their numerators are pinned to a bound.
    pub proof fn lemma_roots_symmetric(self, ray: Ray)
        requires
            self.has_roots_spec(ray),
            -LIMIT < self.half_b_spec(ray).neg_spec().sub_spec(self.discriminant_spec(ray).sqrt_spec())@,
            self.half_b_spec(ray).neg_spec().add_spec(self.discriminant_spec(ray).sqrt_spec())@ < LIMIT,
            -LIMIT < self.near_root_spec(ray)@,
            self.far_root_spec(ray)@ < LIMIT,
        ensures
            -3 <= self.near_root_spec(ray)@ + self.far_root_spec(ray)@ - 2 * self.mid_root_spec(ray)@ <= 3,
            Self::a_spec(ray)@ == SCALE ==> self.near_root_spec(ray)@ + self.far_root_spec(ray)@ == 2
                * self.mid_root_spec(ray)@,
    {
        let a = Self::a_spec(ray)@;
        let hb = self.half_b_spec(ray);
        let disc = self.discriminant_spec(ray);
        let root = disc.sqrt_spec();
        Self::lemma_a_not_negative(ray);
        self.lemma_roots_ordered(ray);
        assert(disc@ * SCALE >= 0) by (nonlinear_arith)
            requires
                disc@ >= 0,
                SCALE > 0,
        ;
        lemma_isqrt(disc@ * SCALE, 0);
        assert(root@ >= 0);
        let n1 = hb.neg_spec().sub_spec(root)@;
        let n2 = hb.neg_spec().add_spec(root)@;
        let m = hb.neg_spec()@;
        assert(n1 == m - root@);
        assert(n2 == m + root@);
        let q1 = tdiv(n1 * SCALE, a);
        let q2 = tdiv(n2 * SCALE, a);
        let qm = tdiv(m * SCALE, a);
        lemma_tdiv_bounds(n1 * SCALE, a);
        lemma_tdiv_bounds(n2 * SCALE, a);
        lemma_tdiv_bounds(m * SCALE, a);
        crate::fixed::lemma_tdiv_monotonic(n1 * SCALE, m * SCALE, a);
        crate::fixed::lemma_tdiv_monotonic(m * SCALE, n2 * SCALE, a);
        assert(n1 * SCALE <= m * SCALE <= n2 * SCALE) by (nonlinear_arith)
            requires
                n1 <= m <= n2,
                SCALE > 0,
        ;
        crate::fixed::lemma_tdiv_monotonic(n1 * SCALE, m * SCALE, a);
        crate::fixed::lemma_tdiv_monotonic(m * SCALE, n2 * SCALE, a);
        assert(q1 <= qm <= q2);
        assert(self.near_root_spec(ray)@ == q1);
        assert(self.far_root_spec(ray)@ == q2);
        assert(self.mid_root_spec(ray)@ == qm);
        assert(-a < q1 * a - n1 * SCALE < a);
        assert(-a < q2 * a - n2 * SCALE < a);
        assert(-a < qm * a - m * SCALE < a);
        assert(-3 <= q1 + q2 - 2 * qm <= 3) by (nonlinear_arith)
            requires
                a > 0,
                -a < q1 * a - n1 * SCALE < a,
                -a < q2 * a - n2 * SCALE < a,
                -a < qm * a - m * SCALE < a,
                n1 + n2 == 2 * m,
        ;
        if a == SCALE {
            assert(q1 + q2 == 2 * qm) by (nonlinear_arith)
                requires
                    a == SCALE,
                    SCALE == 1_000_000,
                    n1 >= 0 ==> 0 <= q1 * a <= n1 * SCALE < q1 * a + a,
                    n1 <= 0 ==> q1 * a - a < n1 * SCALE <= q1 * a <= 0,
                    n2 >= 0 ==> 0 <= q2 * a <= n2 * SCALE < q2 * a + a,
                    n2 <= 0 ==> q2 * a - a < n2 * SCALE <= q2 * a <= 0,
                    m >= 0 ==> 0 <= qm * a <= m * SCALE < qm * a + a,
                    m <= 0 ==> qm * a - a < m * SCALE <= qm * a <= 0,
                    n1 + n2 == 2 * m,
            ;
        }
    }
}

impl Hittable for Sphere {
    /// The meeting at the root chosen, if one is.
    open spec fn hit_spec<'a>(&'a self, ray: Ray, t: Interval) -> Option<HitRecord<'a>> {
        match self.root_spec(ray, t) {
            Some(root) => Some(self.record_spec(ray, root)),
            None => None,
        }
    }

    fn hit(&self, ray: &Ray, t: &Interval) -> (r: Option<HitRecord>) {
        let oc = ray.origin() - self.center;
        let a = ray.direction().squared_length();
        let half_b = oc.dot(ray.direction());
        let c = oc.squared_length() - self.radius * self.radius;
        let discriminant = half_b * half_b - a * c;
        if a.count() == 0 || discriminant.lt(Fixed::zero()) {
            return None;
        }
        let sqrt_discr = discriminant.sqrt();
        let mut root = (half_b.neg() - sqrt_discr) / a;
        if !t.surround(root) {
            root = (half_b.neg() + sqrt_discr) / a;
            if !t.surround(root) {
                return None;
            }
        }
        let hit_point = ray.at(root);
        let outward_normal: Vec3 = (hit_point - self.center) / self.radius;
        let mut record = HitRecord::new(hit_point, root, &self.material);
        record.set_face_normal(ray, &outward_normal);
        Some(record)
    }

    proof fn lemma_hit_within(&self, ray: Ray, t: Interval) {
    }

    proof fn lemma_hit_narrowed(&self, ray: Ray, t: Interval, upper: Fixed) {
        if self.has_roots_spec(ray) {
            self.lemma_roots_ordered(ray);
        }
    }
}

} // verus!
