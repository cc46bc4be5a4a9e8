//! A per-user task service core: validated todo records, a partitioned
//! document-store model with user-scoped repository operations, and the
//! trusted-header identity extractor, each with verified contracts.

pub mod auth;
pub mod model;
pub mod repository;
pub mod routes;
pub mod store;
