//! Things that a ray can meet.
use crate::fixed::Fixed;
use crate::hit_record::HitRecord;
use crate::interval::Interval;
use crate::ray::Ray;
use vstd::prelude::*;

verus! {

/// `found`, if it lies before `upper` on its ray.
pub open spec fn before<'a>(found: Option<HitRecord<'a>>, upper: Fixed) -> Option<HitRecord<'a>> {
    match found {
        Some(rec) => if rec.t@ < upper@ {
            Some(rec)
        } else {
            None
        },
        None => None,
    }
}

/// An object, or a collection of objects, that a ray can meet.
pub trait Hittable {
    /// The meeting of `ray` and the object that comes first among those whose
    /// parameter lies strictly within `t`, if there is one.
    spec fn hit_spec<'a>(&'a self, ray: Ray, t: Interval) -> Option<HitRecord<'a>>;

    /// The meeting of `ray` and the object that comes first among those whose
    /// parameter lies strictly within `t`, if there is one.
    fn hit(&self, ray: &Ray, t: &Interval) -> (r: Option<HitRecord>)
        ensures
            r == self.hit_spec(*ray, *t),
    ;

    /// A meeting that is reported lies strictly within the interval asked for.
    proof fn lemma_hit_within(&self, ray: Ray, t: Interval)
        ensures
            self.hit_spec(ray, t) matches Some(rec) ==> t.surround_spec(rec.t),
    ;

    /// Lowering the upper bound of the interval hides the meeting that lies at or
    /// beyond the new bound, and changes nothing else.
    proof fn lemma_hit_narrowed(&self, ray: Ray, t: Interval, upper: Fixed)
        requires
            upper@ <= t.max@,
        ensures
            self.hit_spec(ray, Interval { min: t.min, max: upper }) == before(self.hit_spec(ray, t), upper),
    ;
}

} // verus!
