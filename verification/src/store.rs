//! The feature catalog: named points of interest held in stored order, with
//! exact point lookup, rectangle filtering and append-only growth.

use vstd::prelude::*;

use crate::geometry::{rect_contains, Point, Rectangle};

verus! {

/// A named point of interest. The name may be empty; the location may be
/// absent, in which case no spatial query ever returns the feature.
#[derive(Debug, PartialEq)]
pub struct Feature {
    pub name: String,
    pub location: Option<Point>,
}

impl Clone for Feature {
    fn clone(&self) -> (r: Self)
        ensures
            r == *self,
    {
        Feature { name: self.name.clone(), location: self.location }
    }
}

/// Whether `f` lies at exactly the point `p`.
pub open spec fn at_location(f: Feature, p: Point) -> bool {
    f.location == Some(p)
}

/// The first feature in `fs`, in stored order, whose location is exactly
/// `p`, or `None` when no feature lies there.
pub open spec fn find_spec(fs: Seq<Feature>, p: Point) -> Option<Feature>
    decreases fs.len(),
{
    if fs.len() == 0 {
        None::<Feature>
    } else if at_location(fs[0], p) {
        Some(fs[0])
    } else {
        find_spec(fs.drop_first(), p)
    }
}

/// The index of the first feature of `fs` at exactly `p`, or `-1` when no
/// feature lies there.
pub open spec fn first_at(fs: Seq<Feature>, p: Point) -> int
    decreases fs.len(),
{
    if fs.len() == 0 {
        -1
    } else if at_location(fs[0], p) {
        0
    } else {
        let r = first_at(fs.drop_first(), p);
        if r < 0 {
            -1
        } else {
            r + 1
        }
    }
}

/// Whether `f` has a location and that location lies within `rect`.
pub open spec fn feature_in(f: Feature, rect: Rectangle) -> bool {
    match f.location {
        Some(l) => rect_contains(rect, l),
        None => false,
    }
}

/// The rectangle filter as a predicate on features, for use with sequence
/// filtering.
pub open spec fn in_rect_pred(rect: Rectangle) -> spec_fn(Feature) -> bool {
    |f: Feature| feature_in(f, rect)
}

/// A lookup finds a feature exactly when some stored feature lies at `p`,
/// and then it is the first such feature in stored order.
pub proof fn lemma_find_first(fs: Seq<Feature>, p: Point)
    ensures
        find_spec(fs, p) is Some <==> 0 <= first_at(fs, p) < fs.len(),
        find_spec(fs, p) is Some ==> at_location(fs[first_at(fs, p)], p) && find_spec(fs, p)
            == Some(fs[first_at(fs, p)]) && (forall|j: int|
            0 <= j < first_at(fs, p) ==> !at_location(fs[j], p)),
        find_spec(fs, p) is None ==> forall|i: int| 0 <= i < fs.len() ==> !at_location(fs[i], p),
    decreases fs.len(),
{
    if fs.len() == 0 {
    } else if at_location(fs[0], p) {
    } else {
        let rest = fs.drop_first();
        lemma_find_first(rest, p);
        assert forall|i: int| 1 <= i < fs.len() implies fs[i] == rest[i - 1] by {}
        if find_spec(fs, p) is Some {
            let r = first_at(rest, p);
            assert(first_at(fs, p) == r + 1);
            assert forall|j: int| 0 <= j < r + 1 implies !at_location(fs[j], p) by {
                if j > 0 {
                    assert(fs[j] == rest[j - 1]);
                }
            }
        }
    }
}

/// The catalog itself: an ordered collection of features, grown only by
/// appending at the end. Its mathematical value is the sequence of stored
/// features.
#[derive(Debug)]
pub struct FeatureStore {
    features: Vec<Feature>,
}

impl View for FeatureStore {
    type V = Seq<Feature>;

    closed spec fn view(&self) -> Seq<Feature> {
        self.features@
    }
}

impl FeatureStore {
    /// An empty catalog.
    pub fn new() -> (r: Self)
        ensures
            r@ == Seq::<Feature>::empty(),
    {
        FeatureStore { features: Vec::new() }
    }

    /// A catalog holding exactly `features`, in their given order.
    pub fn from_features(features: Vec<Feature>) -> (r: Self)
        ensures
            r@ == features@,
    {
        FeatureStore { features }
    }

    /// How many features are stored.
    pub fn len(&self) -> (r: usize)
        ensures
            r == self@.len(),
    {
        self.features.len()
    }

    /// The first feature in stored order whose location is exactly
    /// `location`, or `None` when no stored feature lies there.
    pub fn find_at(&self, location: &Point) -> (r: Option<Feature>)
        ensures
            r == find_spec(self@, *location),
    {
        let ghost fs = self@;
        proof {
            assert(fs.skip(0) =~= fs);
        }
        let n = self.features.len();
        let mut i: usize = 0;
        while i < n
            invariant
                fs == self@,
                n == fs.len(),
                0 <= i <= n,
                find_spec(fs, *location) == find_spec(fs.skip(i as int), *location),
            decreases n - i,
        {
            let f = &self.features[i];
            proof {
                assert(fs.skip(i as int)[0] == fs[i as int]);
            }
            let matches_here = match &f.location {
                Some(l) => l.latitude == location.latitude && l.longitude == location.longitude,
                None => false,
            };
            if matches_here {
                proof {
                    assert(at_location(fs[i as int], *location));
                }
                return Some(f.clone());
            }
            proof {
                assert(!at_location(fs[i as int], *location));
                assert(fs.skip(i as int).drop_first() =~= fs.skip(i as int + 1));
            }
            i += 1;
        }
        proof {
            assert(fs.skip(n as int).len() == 0);
        }
        None
    }

    /// Every stored feature whose location lies within `rect`, in stored
    /// order.
    pub fn filter(&self, rect: &Rectangle) -> (r: Vec<Feature>)
        ensures
            r@ == self@.filter(in_rect_pred(*rect)),
    {
        let ghost fs = self@;
        let ghost pred = in_rect_pred(*rect);
        let n = self.features.len();
        let mut out: Vec<Feature> = Vec::new();
        proof {
            reveal(Seq::filter);
            assert(fs.take(0).len() == 0);
            assert(out@ =~= fs.take(0).filter(pred));
        }
        let mut i: usize = 0;
        while i < n
            invariant
                fs == self@,
                n == fs.len(),
                0 <= i <= n,
                pred == in_rect_pred(*rect),
                out@ == fs.take(i as int).filter(pred),
            decreases n - i,
        {
            let f = &self.features[i];
            let keep = match &f.location {
                Some(l) => rect.contains(l),
                None => false,
            };
            proof {
                assert(keep == pred(fs[i as int]));
            }
            if keep {
                out.push(f.clone());
            }
            proof {
                reveal(Seq::filter);
                assert(fs.take(i as int + 1).drop_last() =~= fs.take(i as int));
                assert(fs.take(i as int + 1).last() == fs[i as int]);
            }
            i += 1;
        }
        proof {
            assert(fs.take(n as int) =~= fs);
        }
        out
    }

    /// Appends `batch` at the end of the catalog, keeping its order; nothing
    /// already stored moves or changes.
    pub fn append(&mut self, batch: Vec<Feature>)
        ensures
            final(self)@ == old(self)@ + batch@,
    {
        let mut incoming = batch;
        self.features.append(&mut incoming);
    }
}

/// Appending an empty batch is unobservable: the stored sequence, every
/// lookup and every rectangle filter stay exactly as they were.
pub proof fn lemma_append_empty_unchanged(fs: Seq<Feature>, p: Point, rect: Rectangle)
    ensures
        fs + Seq::<Feature>::empty() == fs,
        find_spec(fs + Seq::<Feature>::empty(), p) == find_spec(fs, p),
        (fs + Seq::<Feature>::empty()).filter(in_rect_pred(rect)) == fs.filter(in_rect_pred(rect)),
{
    assert(fs + Seq::<Feature>::empty() =~= fs);
}

} // verus!
