//! Aggregation of one recorded route: point and feature counts and the
//! accumulated planar distance over a sequence of visited points.

use vstd::prelude::*;

use crate::geometry::{
    dist_sq, floor_sqrt, lemma_dist_sq_bounds, lemma_floor_sqrt_bound, lemma_floor_sqrt_exists,
    Point,
};
use crate::store::{find_spec, Feature, FeatureStore};

verus! {

/// The aggregate of a single recorded route: how many points arrived, how
/// many lay exactly at a stored feature, the accumulated truncated distance,
/// and the wall-clock seconds the call took.
#[derive(Clone, Copy, PartialEq, Eq, Structural, Debug)]
pub struct RouteSummary {
    pub point_count: i32,
    pub feature_count: i32,
    pub distance: i32,
    pub elapsed_time: i32,
}

/// How many points of `pts` lie exactly at some feature of `fs`.
pub open spec fn count_found(fs: Seq<Feature>, pts: Seq<Point>) -> int
    decreases pts.len(),
{
    if pts.len() == 0 {
        0
    } else {
        count_found(fs, pts.drop_last()) + if find_spec(fs, pts.last()) is Some {
            1int
        } else {
            0int
        }
    }
}

/// The accumulated distance along `pts`: the sum, over consecutive pairs, of
/// the planar distance truncated toward zero.
pub open spec fn path_dist(pts: Seq<Point>) -> int
    decreases pts.len(),
{
    if pts.len() <= 1 {
        0
    } else {
        path_dist(pts.drop_last()) + floor_sqrt(dist_sq(pts[pts.len() - 2], pts.last()))
    }
}

/// One segment's truncated distance is nonnegative and below 2^33.
pub proof fn lemma_seg_bounds(a: Point, b: Point)
    ensures
        0 <= floor_sqrt(dist_sq(a, b)) < 0x2_0000_0000,
{
    lemma_dist_sq_bounds(a, b);
    lemma_floor_sqrt_exists(dist_sq(a, b));
    lemma_floor_sqrt_bound(dist_sq(a, b), floor_sqrt(dist_sq(a, b)));
}

/// The accumulated distance is nonnegative and grows by less than 2^33 per
/// point.
pub proof fn lemma_path_dist_bounds(pts: Seq<Point>)
    ensures
        0 <= path_dist(pts),
        pts.len() > 0 ==> path_dist(pts) <= (pts.len() - 1) * 0x2_0000_0000,
    decreases pts.len(),
{
    if pts.len() <= 1 {
    } else {
        lemma_path_dist_bounds(pts.drop_last());
        lemma_seg_bounds(pts[pts.len() - 2], pts.last());
    }
}

/// No more points lie at features than there are points.
pub proof fn lemma_count_found_bounds(fs: Seq<Feature>, pts: Seq<Point>)
    ensures
        0 <= count_found(fs, pts) <= pts.len(),
    decreases pts.len(),
{
    if pts.len() > 0 {
        lemma_count_found_bounds(fs, pts.drop_last());
    }
}

/// The running state of one route recording: strictly sequential over the
/// inbound points, one observation at a time.
pub struct RouteRecorder {
    pub point_count: i32,
    pub feature_count: i32,
    pub distance_total: u128,
    pub last_point: Option<Point>,
}

impl RouteRecorder {
    /// The counts stay consistent: no more features than points, and the
    /// accumulated distance stays below what the point count allows.
    pub open spec fn wf(self) -> bool {
        &&& 0 <= self.feature_count <= self.point_count
    &&& self.distance_total as int <= self.point_count * 0x2_0000_0000
    }

    /// A recording that has seen nothing yet.
    pub fn new() -> (r: Self)
        ensures
            r.wf(),
            r.point_count == 0,
            r.feature_count == 0,
            r.distance_total == 0,
            r.last_point is None,
    {
        RouteRecorder { point_count: 0, feature_count: 0, distance_total: 0, last_point: None }
    }

    /// Takes the next point of the route, in arrival order: counts it, adds
    /// the truncated distance from the previous point if one exists, counts
    /// a feature if the store holds one at exactly this point, and remembers
    /// the point as the new previous one.
    pub fn observe(&mut self, store: &FeatureStore, point: Point)
        requires
            old(self).wf(),
            old(self).point_count < i32::MAX,
        ensures
            final(self).wf(),
            final(self).point_count == old(self).point_count + 1,
            final(self).feature_count == old(self).feature_count + (
            if find_spec(store@, point) is Some {
                1int
            } else {
                0int
            }),
            final(self).last_point == Some(point),
            final(self).distance_total as int == old(self).distance_total as int + (
            match old(self).last_point {
                Some(lp) => floor_sqrt(dist_sq(lp, point)),
                None => 0int,
            }),
    {
        self.point_count = self.point_count + 1;
        match self.last_point {
            Some(lp) => {
                proof {
                    lemma_seg_bounds(lp, point);
                }
                let d: u64 = lp.distance_between(&point);
                self.distance_total = self.distance_total + d as u128;
            },
            None => {},
        }
        if store.find_at(&point).is_some() {
            self.feature_count = self.feature_count + 1;
        }
        self.last_point = Some(point);
    }

    /// Closes the recording into its one summary. The distance saturates at
    /// `i32::MAX`; the elapsed seconds are handed in by the caller, which
    /// measured the call.
    pub fn summarize(self, elapsed_time: i32) -> (r: RouteSummary)
        ensures
            r.point_count == self.point_count,
            r.feature_count == self.feature_count,
            r.distance as int == if self.distance_total as int <= i32::MAX as int {
                self.distance_total as int
            } else {
                i32::MAX as int
            },
            r.elapsed_time == elapsed_time,
    {
        let distance: i32 = if self.distance_total <= i32::MAX as u128 {
            self.distance_total as i32
        } else {
            i32::MAX
        };
        RouteSummary {
            point_count: self.point_count,
            feature_count: self.feature_count,
            distance,
            elapsed_time,
        }
    }
}

/// Consumes a whole route in order and returns its one summary: the number
/// of points, how many of them lay exactly at a stored feature, the
/// accumulated truncated distance saturated at `i32::MAX`, and the elapsed
/// seconds measured by the caller.
pub fn traverse_points(store: &FeatureStore, points: &Vec<Point>, elapsed_time: i32) -> (r:
    RouteSummary)
    requires
        points@.len() <= i32::MAX as int,
    ensures
        r.point_count == points@.len(),
        r.feature_count == count_found(store@, points@),
        r.distance as int == if path_dist(points@) <= i32::MAX as int {
            path_dist(points@)
        } else {
            i32::MAX as int
        },
        r.elapsed_time == elapsed_time,
{
    let ghost pts = points@;
    let mut rec = RouteRecorder::new();
    proof {
        assert(pts.take(0).len() == 0);
    }
    let n = points.len();
    let mut i: usize = 0;
    while i < n
        invariant
            pts == points@,
            n == pts.len() <= i32::MAX as int,
            0 <= i <= n,
            rec.wf(),
            rec.point_count == i,
            rec.feature_count == count_found(store@, pts.take(i as int)),
            rec.distance_total as int == path_dist(pts.take(i as int)),
            rec.last_point == if i == 0 {
                None::<Point>
            } else {
                Some(pts[i as int - 1])
            },
        decreases n - i,
    {
        rec.observe(store, points[i]);
        proof {
            assert(pts.take(i as int + 1).drop_last() =~= pts.take(i as int));
            assert(pts.take(i as int + 1).last() == pts[i as int]);
            if i > 0 {
                assert(pts.take(i as int + 1)[i as int - 1] == pts[i as int - 1]);
            }
        }
        i += 1;
    }
    proof {
        assert(pts.take(n as int) =~= pts);
    }
    rec.summarize(elapsed_time)
}

} // verus!
