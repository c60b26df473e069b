//! The system clock, read at the edge of the verified logic.
use vstd::prelude::*;

verus! {

/// `std::time::SystemTime`, a point in time that the logic only carries.
#[verifier::external_type_specification]
#[verifier::external_body]
pub struct ExSystemTime(std::time::SystemTime);

/// The current time, from `std::time::SystemTime::now`. Nothing is promised of the value.
#[verifier::external_body]
pub fn system_time_now() -> (r: std::time::SystemTime) {
    std::time::SystemTime::now()
}

/// Whole seconds from the Unix epoch to `time`, as `SystemTime::duration_since(UNIX_EPOCH)`
/// and `Duration::as_secs` give them; `None` when `time` is earlier than the epoch.
pub uninterp spec fn system_time_secs(time: std::time::SystemTime) -> Option<u64>;

/// The latest point in time, in seconds after the Unix epoch, that this library turns into a
/// `SystemTime`: the last second of the year 9999 (UTC), which every platform's `SystemTime`
/// can hold.
pub const MAX_TIMESTAMP_SECS: u64 = 253402300799;

/// Whole seconds from the Unix epoch to `time`, from `SystemTime::duration_since(UNIX_EPOCH)`
/// (the `Duration` it gives is converted with `as_secs`); `None` when `time` is earlier than
/// the epoch.
#[verifier::external_body]
pub fn secs_since_epoch(time: std::time::SystemTime) -> (r: Option<u64>)
    ensures
        r == system_time_secs(time),
{
    match time.duration_since(std::time::UNIX_EPOCH) {
        Ok(d) => Some(d.as_secs()),
        Err(_) => None,
    }
}

/// Whole seconds from the Unix epoch to `time` and the nanoseconds past them, from
/// `SystemTime::duration_since(UNIX_EPOCH)` (the `Duration` it gives is split with `as_secs`
/// and `subsec_nanos`); `None` when `time` is earlier than the epoch. The seconds are those
/// of `system_time_secs`; `subsec_nanos` is documented to be less than one billion.
#[verifier::external_body]
pub fn secs_nanos_since_epoch(time: std::time::SystemTime) -> (r: Option<(u64, u32)>)
    ensures
        r matches Some(p) ==> system_time_secs(time) == Some(p.0) && p.1 < 1_000_000_000,
        r is None ==> system_time_secs(time) is None,
{
    match time.duration_since(std::time::UNIX_EPOCH) {
        Ok(d) => Some((d.as_secs(), d.subsec_nanos())),
        Err(_) => None,
    }
}

/// The point `secs` whole seconds after the Unix epoch: `UNIX_EPOCH` plus
/// `Duration::from_secs(secs)`. The addition panics on a time that the platform cannot
/// represent, so `secs` is kept to at most `MAX_TIMESTAMP_SECS`, which every platform holds.
/// Measured back from the epoch, the point lies exactly `secs` seconds after it.
#[verifier::external_body]
pub fn epoch_plus_secs(secs: u64) -> (r: std::time::SystemTime)
    requires
        secs <= MAX_TIMESTAMP_SECS,
    ensures
        system_time_secs(r) == Some(secs),
{
    std::time::UNIX_EPOCH + std::time::Duration::from_secs(secs)
}

/// Seconds since the Unix epoch now, or `None` when the clock reads earlier than the epoch.
pub fn system_clock_secs() -> (r: Option<u64>) {
    secs_since_epoch(system_time_now())
}

/// The current instant as whole seconds since the Unix epoch and the nanoseconds past them,
/// `(0, 0)` when the clock reads earlier than the epoch.
pub fn clock_instant() -> (r: (u64, u32))
    ensures
        r.1 < 1_000_000_000,
{
    match secs_nanos_since_epoch(system_time_now()) {
        Some(p) => p,
        None => (0, 0),
    }
}

/// Seconds since the Unix epoch, 0 when the clock reads earlier than the epoch.
pub fn unix_now() -> (r: u64) {
    match system_clock_secs() {
        Some(s) => s,
        None => 0,
    }
}

/// The current Unix timestamp in seconds, as `chrono::Utc::now().timestamp()` reads it.
/// Nothing is promised of the value: it is the time.
#[verifier::external_body]
pub fn utc_timestamp() -> (r: i64) {
    chrono::Utc::now().timestamp()
}

} // verus!
