//! Plane geometry over fixed-point coordinates: points, bounding rectangles,
//! containment and planar distance.

use vstd::prelude::*;

verus! {

/// A position on the plane: latitude and longitude in degrees scaled by 1e7,
/// held as signed fixed-point integers. Equality is structural over the pair.
#[derive(Clone, Copy, PartialEq, Eq, Structural, Hash, Debug)]
pub struct Point {
    pub latitude: i32,
    pub longitude: i32,
}

/// An axis-aligned bounding box given by two corner points. The corners need
/// not be ordered componentwise: containment normalizes them per axis. A
/// rectangle with either corner absent contains nothing.
#[derive(Clone, Copy, Debug)]
pub struct Rectangle {
    pub lo: Option<Point>,
    pub hi: Option<Point>,
}

/// The exact squared planar distance between two points, over the raw
/// coordinate values.
pub open spec fn dist_sq(a: Point, b: Point) -> int {
    let dx = a.latitude - b.latitude;
    let dy = a.longitude - b.longitude;
    dx * dx + dy * dy
}

/// `r` is the square root of `n` truncated toward zero.
pub open spec fn is_floor_sqrt(n: int, r: int) -> bool {
    0 <= r && r * r <= n && n < (r + 1) * (r + 1)
}

/// The square root of `n` truncated toward zero. Meaningful for `n >= 0`,
/// where `lemma_floor_sqrt_exists` shows it satisfies `is_floor_sqrt`.
pub open spec fn floor_sqrt(n: int) -> int {
    choose|r: int| is_floor_sqrt(n, r)
}

/// At most one integer is the truncated square root of `n`.
pub proof fn lemma_floor_sqrt_unique(n: int, r1: int, r2: int)
    requires
        is_floor_sqrt(n, r1),
        is_floor_sqrt(n, r2),
    ensures
        r1 == r2,
{
    if r1 < r2 {
        assert((r1 + 1) * (r1 + 1) <= r2 * r2) by (nonlinear_arith)
            requires
                0 <= r1 + 1 <= r2,
        ;
    }
    if r2 < r1 {
        assert((r2 + 1) * (r2 + 1) <= r1 * r1) by (nonlinear_arith)
            requires
                0 <= r2 + 1 <= r1,
        ;
    }
}

/// Every nonnegative integer has a truncated square root, so `floor_sqrt`
/// denotes it.
pub proof fn lemma_floor_sqrt_exists(n: int)
    requires
        0 <= n,
    ensures
        is_floor_sqrt(n, floor_sqrt(n)),
    decreases n,
{
    if n == 0 {
        assert(is_floor_sqrt(0, 0));
    } else {
        lemma_floor_sqrt_exists(n - 1);
        let r = floor_sqrt(n - 1);
        if n < (r + 1) * (r + 1) {
            assert(is_floor_sqrt(n, r));
        } else {
            assert(n == (r + 1) * (r + 1));
            assert((r + 1) * (r + 1) < (r + 2) * (r + 2)) by (nonlinear_arith)
                requires
                    0 <= r,
            ;
            assert(is_floor_sqrt(n, r + 1));
        }
    }
}

/// A truncated square root of anything below 2^66 fits below 2^33.
pub proof fn lemma_floor_sqrt_bound(n: int, r: int)
    requires
        is_floor_sqrt(n, r),
        n < 0x4_0000_0000_0000_0000,
    ensures
        r < 0x2_0000_0000,
{
    if r >= 0x2_0000_0000 {
        assert(0x2_0000_0000 * 0x2_0000_0000 <= r * r) by (nonlinear_arith)
            requires
                0x2_0000_0000 <= r,
        ;
    }
}

/// The squared distance of two points with 32-bit coordinates stays below
/// 2^66.
pub proof fn lemma_dist_sq_bounds(a: Point, b: Point)
    ensures
        0 <= dist_sq(a, b) < 0x4_0000_0000_0000_0000,
{
    let dx = a.latitude - b.latitude;
    let dy = a.longitude - b.longitude;
    assert(0 <= dx * dx <= 0xffff_ffff * 0xffff_ffff) by (nonlinear_arith)
        requires
            -0xffff_ffff <= dx <= 0xffff_ffff,
    ;
    assert(0 <= dy * dy <= 0xffff_ffff * 0xffff_ffff) by (nonlinear_arith)
        requires
            -0xffff_ffff <= dy <= 0xffff_ffff,
    ;
}

/// The exact squared planar distance between two points.
pub fn distance_squared(a: &Point, b: &Point) -> (r: u128)
    ensures
        r as int == dist_sq(*a, *b),
{
    proof {
        lemma_dist_sq_bounds(*a, *b);
    }
    let dx: i64 = a.latitude as i64 - b.latitude as i64;
    let dy: i64 = a.longitude as i64 - b.longitude as i64;
    proof {
        assert(0 <= (dx as int) * (dx as int) <= 0xffff_ffff * 0xffff_ffff) by (nonlinear_arith)
            requires
                -0xffff_ffff <= dx as int <= 0xffff_ffff,
        ;
        assert(0 <= (dy as int) * (dy as int) <= 0xffff_ffff * 0xffff_ffff) by (nonlinear_arith)
            requires
                -0xffff_ffff <= dy as int <= 0xffff_ffff,
        ;
    }
    let dx2: i128 = (dx as i128) * (dx as i128);
    let dy2: i128 = (dy as i128) * (dy as i128);
    (dx2 + dy2) as u128
}

/// The square root of `d` truncated toward zero, found by binary search on
/// the result.
pub fn isqrt(d: u128) -> (r: u64)
    requires
        d < 0x4_0000_0000_0000_0000,
    ensures
        is_floor_sqrt(d as int, r as int),
        r as int == floor_sqrt(d as int),
{
    let mut lo: u64 = 0;
    let mut hi: u64 = 0x2_0000_0000;
    while lo + 1 < hi
        invariant
            lo < hi <= 0x2_0000_0000,
            (lo as int) * (lo as int) <= d as int,
            (d as int) < (hi as int) * (hi as int),
        decreases hi - lo,
    {
        let mid: u64 = lo + (hi - lo) / 2;
        proof {
            assert(0 <= (mid as int) * (mid as int) <= 0x2_0000_0000 * 0x2_0000_0000)
                by (nonlinear_arith)
                requires
                    0 <= mid as int <= 0x2_0000_0000,
            ;
        }
        let sq: u128 = (mid as u128) * (mid as u128);
        if sq <= d {
            lo = mid;
        } else {
            hi = mid;
        }
    }
    proof {
        assert(is_floor_sqrt(d as int, lo as int));
        lemma_floor_sqrt_exists(d as int);
        lemma_floor_sqrt_unique(d as int, lo as int, floor_sqrt(d as int));
    }
    lo
}

impl Point {
    /// The planar distance to `other` over the raw coordinate values,
    /// truncated toward zero to an integer.
    pub fn distance_between(&self, other: &Point) -> (r: u64)
        ensures
            is_floor_sqrt(dist_sq(*self, *other), r as int),
            r as int == floor_sqrt(dist_sq(*self, *other)),
    {
        proof {
            lemma_dist_sq_bounds(*self, *other);
        }
        isqrt(distance_squared(self, other))
    }
}

/// Whether `p` lies in the box spanned by the corners of `rect`, both bounds
/// inclusive on each axis. False whenever a corner is absent.
pub open spec fn rect_contains(rect: Rectangle, p: Point) -> bool {
    match (rect.lo, rect.hi) {
        (Some(lo), Some(hi)) => {
            let lat_min = if lo.latitude <= hi.latitude {
                lo.latitude
            } else {
                hi.latitude
            };
            let lat_max = if lo.latitude <= hi.latitude {
                hi.latitude
            } else {
                lo.latitude
            };
            let lon_min = if lo.longitude <= hi.longitude {
                lo.longitude
            } else {
                hi.longitude
            };
            let lon_max = if lo.longitude <= hi.longitude {
                hi.longitude
            } else {
                lo.longitude
            };
            lat_min <= p.latitude <= lat_max && lon_min <= p.longitude <= lon_max
        },
        _ => false,
    }
}

impl Rectangle {
    /// Whether `p` lies within this rectangle, with the corners normalized
    /// per axis and both bounds inclusive.
    pub fn contains(&self, point: &Point) -> (r: bool)
        ensures
            r == rect_contains(*self, *point),
    {
        let (lo, hi) = match (&self.lo, &self.hi) {
            (Some(lo), Some(hi)) => (lo, hi),
            _ => {
                return false;
            },
        };
        let lat_min: i32 = if lo.latitude <= hi.latitude {
            lo.latitude
        } else {
            hi.latitude
        };
        let lat_max: i32 = if lo.latitude <= hi.latitude {
            hi.latitude
        } else {
            lo.latitude
        };
        let contain_lat = lat_min <= point.latitude && point.latitude <= lat_max;
        let lon_min: i32 = if lo.longitude <= hi.longitude {
            lo.longitude
        } else {
            hi.longitude
        };
        let lon_max: i32 = if lo.longitude <= hi.longitude {
            hi.longitude
        } else {
            lo.longitude
        };
        let contain_lon = lon_min <= point.longitude && point.longitude <= lon_max;
        contain_lat && contain_lon
    }
}

/// Containment does not depend on which corner is called which: swapping
/// `lo` and `hi` leaves the contained set unchanged.
pub proof fn lemma_contains_corner_swap(rect: Rectangle, p: Point)
    ensures
        rect_contains((Rectangle { lo: rect.hi, hi: rect.lo }), p) == rect_contains(rect, p),
{
}

} // verus!
