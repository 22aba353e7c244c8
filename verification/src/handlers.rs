//! The decisions of the four service operations, over the store and the
//! geometry: what each call returns or streams, and which error it reports.

use vstd::prelude::*;

use crate::geometry::{Point, Rectangle};
use crate::store::{find_spec, in_rect_pred, Feature, FeatureStore};

verus! {

/// The error taxonomy of the service. A startup load failure is fatal; a
/// runtime load failure is reported and leaves the store unchanged; a lookup
/// with no feature reports `NotFound`; a failed inbound stream read or a
/// failed internal hand-off aborts only the in-flight call.
#[derive(Clone, Copy, PartialEq, Eq, Structural, Debug)]
pub enum ServiceError {
    StartupLoad,
    RuntimeLoad,
    NotFound,
    StreamRead,
    InternalChannel,
}

/// Point lookup: the first stored feature lying exactly at `point`, or
/// `NotFound` when no stored feature lies there.
pub fn get_feature(store: &FeatureStore, point: &Point) -> (r: Result<Feature, ServiceError>)
    ensures
        match find_spec(store@, *point) {
            Some(f) => r == Ok::<Feature, ServiceError>(f),
            None => r == Err::<Feature, ServiceError>(ServiceError::NotFound),
        },
{
    match store.find_at(point) {
        Some(f) => Ok(f),
        None => Err(ServiceError::NotFound),
    }
}

/// Area retrieval: every stored feature within `rect`, in stored order. The
/// caller streams these out one by one; an empty result is a normal empty
/// stream, not an error.
pub fn list_features(store: &FeatureStore, rect: &Rectangle) -> (r: Vec<Feature>)
    ensures
        r@ == store@.filter(in_rect_pred(*rect)),
{
    store.filter(rect)
}

} // verus!
