//! Bringing decoded feature lists into the store: the fatal startup load and
//! the non-fatal runtime append.
//!
//! Decoding the persisted byte format into `Feature` values is the outside
//! collaborator's work; the library takes the outcome of that decoding as a
//! plain value and decides what becomes of the store.

use vstd::prelude::*;

use crate::handlers::ServiceError;
use crate::store::{Feature, FeatureStore};

verus! {

/// A two-step loader shape: constructed bare, then handed the reader whose
/// bytes the collaborator decodes into features.
pub struct DbLoader<R = ()> {
    pub reader: R,
}

impl DbLoader<()> {
    /// A loader not yet tied to any reader.
    pub fn new() -> (r: Self)
        ensures
            r == (DbLoader { reader: () }),
    {
        DbLoader { reader: () }
    }

    /// Ties the loader to the reader its features will come from.
    pub fn with_reader<R>(self, reader: R) -> (r: DbLoader<R>)
        ensures
            r == (DbLoader { reader }),
    {
        DbLoader { reader }
    }
}

impl Feature {
    /// A fresh loader for a feature list.
    pub fn db_loader() -> (r: DbLoader<()>)
        ensures
            r == (DbLoader { reader: () }),
    {
        DbLoader::new()
    }
}

impl FeatureStore {
    /// Builds the startup store from the outcome of decoding a full
    /// snapshot. A failed read or decode (`None`) is fatal: no store, and no
    /// partial one either.
    pub fn load(decoded: Option<Vec<Feature>>) -> (r: Result<FeatureStore, ServiceError>)
        ensures
            match decoded {
                Some(features) => match r {
                    Ok(store) => store@ == features@,
                    Err(_) => false,
                },
                None => r == Err::<FeatureStore, ServiceError>(ServiceError::StartupLoad),
            },
    {
        match decoded {
            Some(features) => Ok(FeatureStore::from_features(features)),
            None => Err(ServiceError::StartupLoad),
        }
    }

    /// Appends the outcome of decoding an additional batch. A failed read or
    /// decode (`None`) is reported to the caller and leaves the store
    /// exactly as it was.
    pub fn append_from(&mut self, decoded: Option<Vec<Feature>>) -> (r: Result<(), ServiceError>)
        ensures
            match decoded {
                Some(batch) => final(self)@ == old(self)@ + batch@ && r == Ok::<(),
                    ServiceError,
                >(()),
                None => final(self)@ == old(self)@ && r == Err::<(), ServiceError>(
                    ServiceError::RuntimeLoad,
                ),
            },
    {
        match decoded {
            Some(batch) => {
                self.append(batch);
                Ok(())
            },
            None => Err(ServiceError::RuntimeLoad),
        }
    }
}

} // verus!
