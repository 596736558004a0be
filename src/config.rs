use vstd::prelude::*;

verus! {

/// Calls per interval that the limiter lets through before it starts to reject.
pub const DEFAULT_THRESHOLD: u32 = 2;

/// The limiter's counting interval: ten minutes.
pub const DEFAULT_INTERVAL_MS: u32 = 600000;

/// How long a key stays known once it is let through as a hotspot: one hour.
pub const DEFAULT_WINDOW_SECS: i64 = 3600;

/// How often the windows are reaped.
pub const DEFAULT_REAP_INTERVAL_SECS: u64 = 60;

/// The tunable constants of hotspot detection.
pub struct HotspotConfig {
    pub threshold: u32,
    pub interval_ms: u32,
    pub window_secs: i64,
    pub reap_interval_secs: u64,
}

impl HotspotConfig {
    /// A window must have a positive length, and the reaper a positive period.
    pub open spec fn valid(&self) -> bool {
        self.window_secs > 0 && self.reap_interval_secs > 0
    }
}

impl Default for HotspotConfig {
    fn default() -> (r: Self)
        ensures
            r.threshold == DEFAULT_THRESHOLD,
            r.interval_ms == DEFAULT_INTERVAL_MS,
            r.window_secs == DEFAULT_WINDOW_SECS,
            r.reap_interval_secs == DEFAULT_REAP_INTERVAL_SECS,
    {
        HotspotConfig {
            threshold: DEFAULT_THRESHOLD,
            interval_ms: DEFAULT_INTERVAL_MS,
            window_secs: DEFAULT_WINDOW_SECS,
            reap_interval_secs: DEFAULT_REAP_INTERVAL_SECS,
        }
    }
}

} // verus!
