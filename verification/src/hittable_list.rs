//! Collections of things that a ray can meet.
use crate::fixed::Fixed;
use crate::hit_record::HitRecord;
use crate::hittable::{before, Hittable};
use crate::interval::Interval;
use crate::ray::Ray;
use vstd::prelude::*;

verus! {

/// The nearer of two meetings; the first where neither is nearer.
pub open spec fn nearer<'a>(first: Option<HitRecord<'a>>, second: Option<HitRecord<'a>>) -> Option<HitRecord<'a>> {
    match (first, second) {
        (Some(a), Some(b)) => if b.t@ < a.t@ {
            Some(b)
        } else {
            Some(a)
        },
        (Some(a), None) => Some(a),
        (None, _) => second,
    }
}

/// The nearest of the meetings of `ray` with each of `objects`, each looked for
/// over the whole of `t`; among equally near ones, that of the object that comes
/// first.
pub open spec fn nearest<'a, H: Hittable>(objects: Seq<H>, ray: Ray, t: Interval) -> Option<HitRecord<'a>>
    decreases objects.len(),
{
    if objects.len() == 0 {
        None
    } else {
        nearer(nearest(objects.drop_last(), ray, t), objects.last().hit_spec(ray, t))
    }
}

/// Objects that are hit as one: a ray meets the collection where it first meets
/// one of its members.
#[derive(Debug)]
pub struct HittableList<H: Hittable> {
    objects: Vec<H>,
}

impl<H: Hittable> View for HittableList<H> {
    type V = Seq<H>;

    /// The members, in the order in which they were added.
    closed spec fn view(&self) -> Seq<H> {
        self.objects@
    }
}

impl<H: Hittable> HittableList<H> {
    /// A collection without members.
    pub fn new() -> (r: HittableList<H>)
        ensures
            r@ == Seq::<H>::empty(),
    {
        HittableList { objects: Vec::new() }
    }

    /// Adds `object` behind the members.
    pub fn push(&mut self, object: H)
        ensures
            final(self)@ == old(self)@.push(object),
    {
        self.objects.push(object);
    }

    /// Removes every member.
    pub fn clear(&mut self)
        ensures
            final(self)@ == Seq::<H>::empty(),
    {
        self.objects.clear();
    }

    /// Number of members.
    pub fn len(&self) -> (r: usize)
        ensures
            r == self@.len(),
    {
        self.objects.len()
    }
}

/// A meeting before `upper` that is nearest among `objects` is nearest among
/// them before `upper`; none is, where the nearest lies at or beyond it.
pub proof fn lemma_nearest_narrowed<H: Hittable>(objects: Seq<H>, ray: Ray, t: Interval, upper: Fixed)
    requires
        upper@ <= t.max@,
    ensures
        nearest(objects, ray, Interval { min: t.min, max: upper }) == before(nearest(objects, ray, t), upper),
    decreases objects.len(),
{
    if objects.len() > 0 {
        lemma_nearest_narrowed(objects.drop_last(), ray, t, upper);
        objects.last().lemma_hit_narrowed(ray, t, upper);
    }
}

/// The nearest meeting lies strictly within the interval asked for.
pub proof fn lemma_nearest_within<H: Hittable>(objects: Seq<H>, ray: Ray, t: Interval)
    ensures
        nearest(objects, ray, t) matches Some(rec) ==> t.surround_spec(rec.t),
    decreases objects.len(),
{
    if objects.len() > 0 {
        lemma_nearest_within(objects.drop_last(), ray, t);
        objects.last().lemma_hit_within(ray, t);
    }
}

/// `rec` is the meeting of `ray` with one of `objects`, and none of them meets
/// the ray nearer.
pub open spec fn is_minimum<'a, H: Hittable>(objects: Seq<H>, ray: Ray, t: Interval, rec: HitRecord<'a>) -> bool {
    &&& exists|i: int| 0 <= i < objects.len() && (#[trigger] objects[i]).hit_spec(ray, t) == Some(rec)
    &&& forall|j: int|
        0 <= j < objects.len() ==> ((#[trigger] objects[j]).hit_spec(ray, t) matches Some(other) ==> rec.t@
            <= other.t@)
}

/// What is found among `objects` is the meeting of one of them, and no other
/// lies nearer; nothing is found only where the ray meets none of them.
pub proof fn lemma_nearest_is_minimum<H: Hittable>(objects: Seq<H>, ray: Ray, t: Interval)
    ensures
        nearest(objects, ray, t) matches Some(rec) ==> is_minimum(objects, ray, t, rec),
        nearest(objects, ray, t) is None ==> forall|j: int|
            0 <= j < objects.len() ==> (#[trigger] objects[j]).hit_spec(ray, t) is None,
    decreases objects.len(),
{
    if objects.len() > 0 {
        let front = objects.drop_last();
        let last = objects.len() - 1;
        lemma_nearest_is_minimum(front, ray, t);
        assert(forall|j: int| 0 <= j < front.len() ==> front[j] == objects[j]);
        match nearest(objects, ray, t) {
            Some(rec) => {
                match nearest(front, ray, t) {
                    Some(a) => {
                        let i = choose|i: int| 0 <= i < front.len() && (#[trigger] front[i]).hit_spec(ray, t) == Some(a);
                        if rec == a {
                            assert(objects[i].hit_spec(ray, t) == Some(rec));
                        } else {
                            assert(objects[last].hit_spec(ray, t) == Some(rec));
                        }
                        assert forall|j: int| 0 <= j < objects.len() implies ((#[trigger] objects[j]).hit_spec(
                            ray,
                            t,
                        ) matches Some(other) ==> rec.t@ <= other.t@) by {
                            if j < last {
                                assert(front[j] == objects[j]);
                            }
                        }
                    },
                    None => {
                        assert(objects[last].hit_spec(ray, t) == Some(rec));
                        assert forall|j: int| 0 <= j < objects.len() implies ((#[trigger] objects[j]).hit_spec(
                            ray,
                            t,
                        ) matches Some(other) ==> rec.t@ <= other.t@) by {
                            if j < last {
                                assert(front[j] == objects[j]);
                            }
                        }
                    },
                }
            },
            None => {
                assert forall|j: int| 0 <= j < objects.len() implies (#[trigger] objects[j]).hit_spec(ray, t) is None by {
                    if j < last {
                        assert(front[j] == objects[j]);
                    }
                }
            },
        }
    }
}

/// Two collections with the same members, in whatever order, give the same
/// meeting, provided that members which the ray meets equally near give the same
/// record.
pub proof fn lemma_nearest_any_order<H: Hittable>(first: Seq<H>, second: Seq<H>, ray: Ray, t: Interval)
    requires
        forall|i: int| 0 <= i < first.len() ==> second.contains(#[trigger] first[i]),
        forall|j: int| 0 <= j < second.len() ==> first.contains(#[trigger] second[j]),
        forall|i: int, j: int|
            0 <= i < first.len() && 0 <= j < first.len() ==> (((#[trigger] first[i]).hit_spec(ray, t), (
                #[trigger] first[j]).hit_spec(ray, t)) matches (Some(a), Some(b)) ==> (a.t@ == b.t@ ==> a == b)),
    ensures
        nearest(first, ray, t) == nearest(second, ray, t),
{
    lemma_nearest_is_minimum(first, ray, t);
    lemma_nearest_is_minimum(second, ray, t);
    match nearest(first, ray, t) {
        Some(a) => {
            let i = choose|i: int| 0 <= i < first.len() && (#[trigger] first[i]).hit_spec(ray, t) == Some(a);
            assert(second.contains(first[i]));
            let j = choose|j: int| 0 <= j < second.len() && second[j] == first[i];
            assert(second[j].hit_spec(ray, t) == Some(a));
            let b = nearest(second, ray, t)->0;
            assert(b.t@ <= a.t@);
            let m = choose|m: int| 0 <= m < second.len() && (#[trigger] second[m]).hit_spec(ray, t) == Some(b);
            assert(first.contains(second[m]));
            let k = choose|k: int| 0 <= k < first.len() && first[k] == second[m];
            assert(first[k].hit_spec(ray, t) == Some(b));
            assert(a.t@ <= b.t@);
            assert(a.t@ == b.t@);
        },
        None => {
            if nearest(second, ray, t) is Some {
                let b = nearest(second, ray, t)->0;
                let m = choose|m: int| 0 <= m < second.len() && (#[trigger] second[m]).hit_spec(ray, t) == Some(b);
                assert(first.contains(second[m]));
                let k = choose|k: int| 0 <= k < first.len() && first[k] == second[m];
                assert(first[k].hit_spec(ray, t) is None);
            }
        },
    }
}

impl<H: Hittable> Hittable for HittableList<H> {
    /// The nearest of the meetings with the members.
    open spec fn hit_spec<'a>(&'a self, ray: Ray, t: Interval) -> Option<HitRecord<'a>> {
        nearest(self@, ray, t)
    }

    fn hit(&self, ray: &Ray, t: &Interval) -> (r: Option<HitRecord>) {
        let mut record: Option<HitRecord> = None;
        let mut closest_so_far = t.max;
        let mut i: usize = 0;
        while i < self.objects.len()
            invariant
                i <= self.objects.len(),
                record == nearest(self.objects@.subrange(0, i as int), *ray, *t),
                closest_so_far@ <= t.max@,
                record matches Some(rec) ==> closest_so_far == rec.t,
                record is None ==> closest_so_far == t.max,
            decreases self.objects.len() - i,
        {
            let ghost seen = self.objects@.subrange(0, i as int);
            let ghost next = self.objects@.subrange(0, i as int + 1);
            proof {
                assert(next.drop_last() == seen);
                assert(next.last() == self.objects@[i as int]);
                self.objects@[i as int].lemma_hit_narrowed(*ray, *t, closest_so_far);
                self.objects@[i as int].lemma_hit_within(*ray, *t);
                lemma_nearest_within(seen, *ray, *t);
            }
            if let Some(new_rec) = self.objects[i].hit(ray, &Interval { min: t.min, max: closest_so_far }) {
                closest_so_far = new_rec.t;
                record = Some(new_rec);
            }
            i = i + 1;
        }
        proof {
            assert(self.objects@.subrange(0, i as int) == self.objects@);
        }
        record
    }

    proof fn lemma_hit_within(&self, ray: Ray, t: Interval) {
        lemma_nearest_within(self@, ray, t);
    }

    proof fn lemma_hit_narrowed(&self, ray: Ray, t: Interval, upper: Fixed) {
        lemma_nearest_narrowed(self@, ray, t, upper);
    }
}

} // verus!
