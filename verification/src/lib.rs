//! A store-backed soft-delete repository and a token-verification cache.
//!
//! The repository keeps items in a key-value store that offers atomic
//! conditional writes: creation succeeds only while the key is absent,
//! updates and soft deletes only while the key holds an active (not
//! tombstoned) item.  Soft deletion marks an item with a timestamp and the
//! acting user instead of removing it; tombstoned items are invisible to
//! point reads and scans but can be listed separately.  The token verifier
//! caches successfully verified claims for the validity window of the token
//! so that repeated verifications need no further remote calls.

pub mod auth;
pub mod config;
pub mod db;
pub mod item;
pub mod middleware;
pub mod routes;
pub mod store;
pub mod user;
