//! Health of the tracker's tool, its daemon and the snapshot.

use vstd::prelude::*;

verus! {

/// Seconds allowed for asking the tool its version.
pub const BD_VERSION_CHECK_TIMEOUT_SECS: u64 = 5;

/// Seconds after which the snapshot counts as stale for health purposes.
pub const MAX_CACHE_AGE_SECS: u64 = 300;

/// Overall health.
#[derive(Debug)]
pub struct HealthStatus {
    pub bd_available: bool,
    pub bd_version: Option<String>,
    pub daemon_running: bool,
    /// Age of the snapshot in seconds, where known.
    pub cache_age_secs: Option<u64>,
    pub cache_stale: bool,
    /// When the check ran, in seconds since the Unix epoch.
    pub last_check_secs: u64,
}

/// Health of the tool alone.
#[derive(Debug)]
pub struct BdHealth {
    pub available: bool,
    pub version: Option<String>,
    pub daemon_running: bool,
}

/// Whether a snapshot of this age is stale; an unknown age is not.
pub open spec fn age_is_stale(age_secs: Option<u64>) -> bool {
    match age_secs {
        Some(a) => a > MAX_CACHE_AGE_SECS,
        None => false,
    }
}

pub fn cache_is_stale(age_secs: Option<u64>) -> (r: bool)
    ensures
        r == age_is_stale(age_secs),
{
    match age_secs {
        Some(a) => a > MAX_CACHE_AGE_SECS,
        None => false,
    }
}

impl HealthStatus {
    /// Combines the tool's health and the snapshot's age into one status.
    pub fn from_checks(bd: BdHealth, cache_age_secs: Option<u64>, checked_at_secs: u64) -> (r: HealthStatus)
        ensures
            r.bd_available == bd.available,
            r.bd_version == bd.version,
            r.daemon_running == bd.daemon_running,
            r.cache_age_secs == cache_age_secs,
            r.cache_stale == age_is_stale(cache_age_secs),
            r.last_check_secs == checked_at_secs,
    {
        HealthStatus {
            bd_available: bd.available,
            bd_version: bd.version,
            daemon_running: bd.daemon_running,
            cache_age_secs,
            cache_stale: cache_is_stale(cache_age_secs),
            last_check_secs: checked_at_secs,
        }
    }

    /// Healthy: the tool answers, its daemon runs, and the snapshot is fresh.
    pub fn is_healthy(&self) -> (r: bool)
        ensures
            r == (self.bd_available && self.daemon_running && !self.cache_stale),
    {
        self.bd_available && self.daemon_running && !self.cache_stale
    }
}

} // verus!
