//! What is known of the point where a ray meets a surface.
use crate::fixed::Fixed;
use crate::material::Material;
use crate::ray::Ray;
use crate::vec3::{Point3, Vec3};
use std::ops::Neg;
use vstd::prelude::*;

verus! {

/// One meeting of a ray and a surface.
#[derive(Debug)]
pub struct HitRecord<'a> {
    /// Where the ray meets the surface.
    pub point: Point3,
    /// Normal of the surface there, turned against the ray.
    pub normal: Vec3,
    /// Parameter of the ray at that point.
    pub t: Fixed,
    /// Whether the ray comes from outside the surface.
    pub front_face: bool,
    /// What the surface is made of.
    pub material: &'a Material,
}

impl<'a> HitRecord<'a> {
    /// Whether a ray along `direction` meets a surface with outward normal
    /// `outward_normal` from outside.
    pub open spec fn is_front_face(direction: Vec3, outward_normal: Vec3) -> bool {
        direction.dot_spec(outward_normal)@ < 0
    }

    /// The record with its side and its normal set for `ray` and the outward
    /// normal `outward_normal`: the normal is the outward normal where the ray
    /// comes from outside, and its opposite otherwise.
    pub open spec fn set_face_normal_spec(self, ray: Ray, outward_normal: Vec3) -> HitRecord<'a> {
        let front_face = Self::is_front_face(ray.direction, outward_normal);
        HitRecord {
            point: self.point,
            normal: if front_face {
                outward_normal
            } else {
                outward_normal.neg_spec()
            },
            t: self.t,
            front_face,
            material: self.material,
        }
    }

    /// A record at `point` and parameter `t` on a surface of `material`, with a
    /// zero normal and no side yet.
    pub fn new(point: Point3, t: Fixed, material: &'a Material) -> (r: HitRecord<'a>)
        ensures
            r.point == point,
            r.normal == (Vec3 { x: Fixed::of(0), y: Fixed::of(0), z: Fixed::of(0) }),
            r.t == t,
            !r.front_face,
            r.material == material,
    {
        HitRecord {
            point,
            normal: Vec3::new(Fixed::zero(), Fixed::zero(), Fixed::zero()),
            t,
            front_face: false,
            material,
        }
    }

    /// Sets the side and the normal for `ray` and the outward normal
    /// `outward_normal`.
    pub fn set_face_normal(&mut self, ray: &Ray, outward_normal: &Vec3)
        ensures
            *final(self) == old(self).set_face_normal_spec(*ray, *outward_normal),
            final(self).front_face == (ray.direction.dot_spec(*outward_normal)@ < 0),
            ray.direction.neg_spec().dot_spec(final(self).normal)@ >= 0,
    {
        proof {
            lemma_face_normal(*self, *ray, *outward_normal);
        }
        self.front_face = ray.direction().dot(*outward_normal).lt(Fixed::zero());
        self.normal = if self.front_face {
            *outward_normal
        } else {
            (*outward_normal).neg()
        };
    }
}

/// The side is the front exactly where the ray runs against the outward normal,
/// and the normal kept never points along the ray.
pub proof fn lemma_face_normal(rec: HitRecord, ray: Ray, outward_normal: Vec3)
    ensures
        rec.set_face_normal_spec(ray, outward_normal).front_face == (ray.direction.dot_spec(
            outward_normal,
        )@ < 0),
        ray.direction.neg_spec().dot_spec(rec.set_face_normal_spec(ray, outward_normal).normal)@ >= 0,
{
    crate::vec3::lemma_dot_neg(ray.direction, outward_normal);
}

} // verus!
