//! How many requests are let through.

use crate::numbers::{opt_str, setting, setting_u32};
use vstd::prelude::*;

verus! {

/// How many requests a minute are let through, and how many at once.
#[derive(Debug, Clone, Copy, PartialEq, Eq, Structural)]
pub struct RateLimitConfig {
    pub requests_per_minute: u32,
    pub burst_size: u32,
}

impl Default for RateLimitConfig {
    fn default() -> (r: Self)
        ensures
            r == (RateLimitConfig { requests_per_minute: 30, burst_size: 5 }),
    {
        RateLimitConfig { requests_per_minute: 30, burst_size: 5 }
    }
}

impl RateLimitConfig {
    /// The configuration that two settings give; each that is missing or no number has its
    /// default.
    pub fn from_settings(per_minute: Option<&str>, burst: Option<&str>) -> (r: Self)
        ensures
            r.requests_per_minute == setting(opt_str(per_minute), u32::MAX as nat, 30),
            r.burst_size == setting(opt_str(burst), u32::MAX as nat, 5),
    {
        RateLimitConfig {
            requests_per_minute: setting_u32(per_minute, 30),
            burst_size: setting_u32(burst, 5),
        }
    }
}

} // verus!
