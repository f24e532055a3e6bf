//! Multi-account credential management for a quota-limited service: the
//! account registry, the credential vault and its live slot, quota decoding
//! and caching, the threshold-driven cycle engine, burn-rate estimation and
//! the wake-up schedule model.

pub mod burn;
pub mod cache;
pub mod cycle;
pub mod fingerprint;
pub mod history;
pub mod paths;
pub mod payload;
pub mod percent;
pub mod platform;
pub mod probe;
pub mod quota;
pub mod registry;
pub mod schedule;
pub mod text;
pub mod vault;
pub mod watch;
