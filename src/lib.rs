//! Hotspot detection and deduplication: a rate limiter that flags surging
//! (namespace, key) pairs, and per-namespace windows that let each surging key
//! through as a new hotspot at most once per window.

pub mod admission;
pub mod clock;
pub mod config;
pub mod keys;
pub mod laws;
pub mod registry;
pub mod service;
pub mod window;
