//! A verified core for a geospatial feature catalog.
//!
//! The library holds the logic of a route-guide service: plane geometry over
//! fixed-point coordinates, an append-only feature store with exact lookup and
//! rectangle filtering, the per-call aggregation of a recorded route, and the
//! per-call note log of a location-keyed chat. Every executable function
//! carries a contract; the transport, file reading and asynchronous plumbing
//! around this core live outside the library and hand it plain values.

pub mod chat;
pub mod geometry;
pub mod handlers;
pub mod loader;
pub mod route;
pub mod store;

pub use chat::NoteLog;
pub use chat::RouteNote;
pub use geometry::Point;
pub use geometry::Rectangle;
pub use handlers::ServiceError;
pub use loader::DbLoader;
pub use route::RouteRecorder;
pub use route::RouteSummary;
pub use store::Feature;
pub use store::FeatureStore;
