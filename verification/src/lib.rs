//! A read-through cache for a per-country lookup service.
//!
//! The library holds the verified core: the cache entry model and its
//! uniqueness invariant, the read-through lookup protocol, the TTL sweeper's
//! batched expiry, and the configuration controller that replaces the sweeper
//! when the TTL changes. The HTTP transport, the SQL storage and the upstream
//! client live outside and talk to this core through plain values.

pub mod config;
pub mod digits;
pub mod engine;
pub mod errors;
pub mod store;
pub mod sweeper;
