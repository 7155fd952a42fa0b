//! Settings cache configuration.
use vstd::prelude::*;

verus! {

/// Size and lifetime of cached settings.
#[derive(Debug, Clone, Copy, PartialEq, Eq)]
pub struct CacheConfig {
    pub max_capacity: u64,
    /// Time to live of an entry, in seconds.
    pub ttl_secs: u64,
}

impl CacheConfig {
    /// 1000 entries, kept 10 minutes.
    pub fn default_config() -> (c: CacheConfig)
        ensures
            c.max_capacity == 1000,
            c.ttl_secs == 600,
    {
        CacheConfig { max_capacity: 1000, ttl_secs: 600 }
    }
}

} // verus!
