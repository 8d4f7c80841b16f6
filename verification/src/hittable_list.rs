//! The scene: a list of things to hit, searched one by one for the nearest.

use vstd::prelude::*;
use crate::hittable::hit_before;
use crate::hittable::HitRecord;
use crate::hittable::Hittable;
use crate::interval::Interval;
use crate::ray::Ray;
use crate::scalar::Scalar;

verus! {

/// A list of things that rays can hit, in the order in which they were added.
pub struct HittableList<H> {
    objects: Vec<H>,
}

impl<H> View for HittableList<H> {
    type V = Seq<H>;

    closed spec fn view(&self) -> Seq<H> {
        self.objects@
    }
}

/// The upper bound that is left for the next object: the nearest hit so far,
/// or the bound that the caller gave.
pub open spec fn closest_so_far(nearest: Option<HitRecord>, interval: Interval) -> Scalar {
    match nearest {
        Some(record) => record.t,
        None => interval.max,
    }
}

/// The hit that a scan of the first `n` objects reports: each object is asked
/// for a hit before the nearest one of those in front of it, and a hit it
/// reports takes that one's place.
pub open spec fn scan_hit<H: Hittable>(
    objects: Seq<H>,
    ray: Ray,
    interval: Interval,
    n: nat,
) -> Option<HitRecord>
    decreases n,
{
    if n == 0 {
        None
    } else {
        let before = scan_hit(objects, ray, interval, (n - 1) as nat);
        let narrowed = Interval { min: interval.min, max: closest_so_far(before, interval) };
        match objects[n - 1].spec_hit(ray, narrowed) {
            Some(record) => Some(record),
            None => before,
        }
    }
}

/// `best` is a hit of one of the first `n` objects in `interval`, and none of
/// them has a hit in `interval` that is nearer.
pub open spec fn is_nearest_hit<H: Hittable>(
    objects: Seq<H>,
    ray: Ray,
    interval: Interval,
    n: nat,
    best: HitRecord,
) -> bool {
    &&& interval.spec_surrounds(best.t)
    &&& exists|k: int| 0 <= k < n && #[trigger] objects[k].spec_hit(ray, interval) == Some(best)
    &&& forall|i: int|
        0 <= i < n ==> (#[trigger] objects[i].spec_hit(ray, interval) matches Some(other)
            ==> best.t.raw <= other.t.raw)
}

/// A scan reports nothing exactly where no object has a hit in the interval,
/// and else the nearest hit of them all.
pub proof fn lemma_scan_finds_nearest<H: Hittable>(
    objects: Seq<H>,
    ray: Ray,
    interval: Interval,
    n: nat,
)
    requires
        n <= objects.len(),
    ensures
        match scan_hit(objects, ray, interval, n) {
            Some(best) => is_nearest_hit(objects, ray, interval, n, best),
            None => forall|i: int|
                0 <= i < n ==> #[trigger] objects[i].spec_hit(ray, interval) is None,
        },
    decreases n,
{
    if n > 0 {
        let m = (n - 1) as nat;
        lemma_scan_finds_nearest(objects, ray, interval, m);
        let before = scan_hit(objects, ray, interval, m);
        let bound = closest_so_far(before, interval);
        let narrowed = Interval { min: interval.min, max: bound };
        let last = objects[n - 1];
        if let Some(record) = before {
            assert(interval.spec_surrounds(record.t));
        }
        last.lemma_hit_narrowed(ray, interval, bound);
        last.lemma_hit_surrounded(ray, narrowed);
        last.lemma_hit_surrounded(ray, interval);
        match last.spec_hit(ray, narrowed) {
            Some(record) => {
                assert(objects[n - 1].spec_hit(ray, interval) == Some(record));
                assert(is_nearest_hit(objects, ray, interval, n, record)) by {
                    assert forall|i: int| 0 <= i < n implies (#[trigger] objects[i].spec_hit(
                        ray,
                        interval,
                    ) matches Some(other) ==> record.t.raw <= other.t.raw) by {
                        if i < m {
                            if let Some(best) = before {
                                assert(is_nearest_hit(objects, ray, interval, m, best));
                            }
                        }
                    }
                }
            },
            None => {
                match before {
                    Some(best) => {
                        assert(is_nearest_hit(objects, ray, interval, m, best));
                        let k = choose|k: int|
                            0 <= k < m && #[trigger] objects[k].spec_hit(ray, interval) == Some(
                                best,
                            );
                        assert(0 <= k < n && objects[k].spec_hit(ray, interval) == Some(best));
                        assert forall|i: int| 0 <= i < n implies (#[trigger] objects[i].spec_hit(
                            ray,
                            interval,
                        ) matches Some(other) ==> best.t.raw <= other.t.raw) by {
                            if i == m {
                            }
                        }
                    },
                    None => {
                        assert forall|i: int| 0 <= i < n implies #[trigger] objects[i].spec_hit(
                            ray,
                            interval,
                        ) is None by {
                            if i == m {
                            }
                        }
                    },
                }
            },
        }
    }
}

/// A scan under a lower upper bound reports what the scan under the higher
/// one reports, where that lies before the lower bound, and else nothing.
pub proof fn lemma_scan_narrowed<H: Hittable>(
    objects: Seq<H>,
    ray: Ray,
    interval: Interval,
    upper: Scalar,
    n: nat,
)
    requires
        n <= objects.len(),
        upper.raw <= interval.max.raw,
    ensures
        scan_hit(objects, ray, Interval { min: interval.min, max: upper }, n) == hit_before(
            scan_hit(objects, ray, interval, n),
            upper,
        ),
    decreases n,
{
    if n > 0 {
        let m = (n - 1) as nat;
        let lower = Interval { min: interval.min, max: upper };
        lemma_scan_narrowed(objects, ray, interval, upper, m);
        lemma_scan_finds_nearest(objects, ray, interval, m);
        let wide_before = scan_hit(objects, ray, interval, m);
        let wide_bound = closest_so_far(wide_before, interval);
        let low_before = scan_hit(objects, ray, lower, m);
        let low_bound = closest_so_far(low_before, lower);
        let last = objects[n - 1];
        let wide_interval = Interval { min: interval.min, max: wide_bound };
        if let Some(record) = wide_before {
            assert(is_nearest_hit(objects, ray, interval, m, record));
        }
        last.lemma_hit_surrounded(ray, wide_interval);
        if low_bound != wide_bound {
            last.lemma_hit_narrowed(ray, wide_interval, upper);
        }
    }
}

impl<H: Hittable> HittableList<H> {
    pub fn new() -> (r: Self)
        ensures
            r@ == Seq::<H>::empty(),
    {
        Self { objects: Vec::new() }
    }

    /// The list that holds `object` alone.
    pub fn from(object: H) -> (r: Self)
        ensures
            r@ == seq![object],
    {
        let mut hittable_list: Self = Self::new();
        hittable_list.add(object);
        hittable_list
    }

    pub fn clear(&mut self)
        ensures
            final(self)@ == Seq::<H>::empty(),
    {
        self.objects.clear();
    }

    pub fn add(&mut self, object: H)
        ensures
            final(self)@ == old(self)@.push(object),
    {
        self.objects.push(object);
    }

    pub fn len(&self) -> (r: usize)
        ensures
            r == self@.len(),
    {
        self.objects.len()
    }
}

impl<H: Hittable> Hittable for HittableList<H> {
    open spec fn spec_hit(&self, ray: Ray, interval: Interval) -> Option<HitRecord> {
        scan_hit(self@, ray, interval, self@.len())
    }

    proof fn lemma_hit_surrounded(&self, ray: Ray, interval: Interval) {
        lemma_scan_finds_nearest(self@, ray, interval, self@.len());
    }

    proof fn lemma_hit_narrowed(&self, ray: Ray, interval: Interval, upper: Scalar) {
        lemma_scan_narrowed(self@, ray, interval, upper, self@.len());
    }

    fn hit(&self, ray: &Ray, interval: &Interval) -> (r: Option<HitRecord>)
        ensures
            r == scan_hit(self@, *ray, *interval, self@.len()),
            r matches Some(best) ==> is_nearest_hit(self@, *ray, *interval, self@.len(), best),
            r is None ==> forall|i: int|
                0 <= i < self@.len() ==> #[trigger] self@[i].spec_hit(*ray, *interval) is None,
    {
        proof {
            lemma_scan_finds_nearest(self@, *ray, *interval, self@.len());
        }
        let mut nearest: Option<HitRecord> = None;
        let mut closest: Scalar = interval.max();
        let mut i: usize = 0;
        while i < self.objects.len()
            invariant
                i <= self.objects.len(),
                nearest == scan_hit(self@, *ray, *interval, i as nat),
                closest == closest_so_far(nearest, *interval),
            decreases self.objects.len() - i,
        {
            let narrowed: Interval = Interval::new(interval.min(), closest);
            match self.objects[i].hit(ray, &narrowed) {
                Some(record) => {
                    closest = record.t;
                    nearest = Some(record);
                },
                None => {},
            }
            i = i + 1;
        }
        nearest
    }
}

} // verus!
