//! How long monitoring results are kept: private results 7 days, public and peer results
//! 30 days by default.
use vstd::prelude::*;

verus! {

/// Seconds in a day.
pub const SECONDS_PER_DAY: i64 = 86400;

/// Retention policy for different result types.
#[derive(Debug, Clone, Copy, PartialEq, Eq, Structural)]
pub struct RetentionPolicy {
    /// Days to keep private monitor results
    pub private_result_days: i64,
    /// Days to keep public monitor results
    pub public_result_days: i64,
    /// Days to keep peer results
    pub peer_result_days: i64,
}

/// Whether `days` whole days, counted in seconds, fit in an `i64`.
pub open spec fn days_fit(days: i64) -> bool {
    i64::MIN <= days * 86400 <= i64::MAX
}

impl Default for RetentionPolicy {
    fn default() -> (r: RetentionPolicy)
        ensures
            r.private_result_days == 7,
            r.public_result_days == 30,
            r.peer_result_days == 30,
    {
        RetentionPolicy { private_result_days: 7, public_result_days: 30, peer_result_days: 30 }
    }
}

impl RetentionPolicy {
    /// Retention of private monitor results, in seconds.
    pub fn private_retention_seconds(&self) -> (r: i64)
        requires
            days_fit(self.private_result_days),
        ensures
            r == self.private_result_days * 86400,
    {
        self.private_result_days * SECONDS_PER_DAY
    }

    /// Retention of public monitor results, in seconds.
    pub fn public_retention_seconds(&self) -> (r: i64)
        requires
            days_fit(self.public_result_days),
        ensures
            r == self.public_result_days * 86400,
    {
        self.public_result_days * SECONDS_PER_DAY
    }

    /// Retention of peer results, in seconds.
    pub fn peer_retention_seconds(&self) -> (r: i64)
        requires
            days_fit(self.peer_result_days),
        ensures
            r == self.peer_result_days * 86400,
    {
        self.peer_result_days * SECONDS_PER_DAY
    }

    /// The cutoffs (Unix seconds) before which private and public local results have expired
    /// at `now`.
    pub fn local_cleanup_cutoffs(&self, now: i64) -> (r: (i64, i64))
        requires
            days_fit(self.private_result_days),
            days_fit(self.public_result_days),
            i64::MIN <= now - self.private_result_days * 86400 <= i64::MAX,
            i64::MIN <= now - self.public_result_days * 86400 <= i64::MAX,
        ensures
            r.0 == now - self.private_result_days * 86400,
            r.1 == now - self.public_result_days * 86400,
    {
        (now - self.private_retention_seconds(), now - self.public_retention_seconds())
    }
}

} // verus!
