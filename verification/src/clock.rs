use vstd::prelude::*;
use std::time::{Duration, SystemTime};

verus! {

#[verifier::external_type_specification]
#[verifier::external_body]
pub struct ExSystemTime(SystemTime);

/// Calls `SystemTime::now`. The time depends on the machine's clock, so
/// nothing is claimed of it.
#[verifier::external_body]
fn system_now() -> SystemTime {
    SystemTime::now()
}

/// Calls `SystemTime::duration_since(UNIX_EPOCH)`: the time since the Unix
/// epoch, or nothing when the clock stands before it. Nothing is claimed of
/// the duration.
#[verifier::external_body]
fn since_epoch(t: SystemTime) -> Option<Duration> {
    match t.duration_since(std::time::UNIX_EPOCH) {
        Ok(d) => Some(d),
        Err(_) => None,
    }
}

/// Calls `Duration::as_secs`, the whole seconds of a duration. Nothing is
/// claimed of them.
#[verifier::external_body]
fn whole_secs(d: Duration) -> u64 {
    d.as_secs()
}

/// The seconds since the Unix epoch by the machine's clock; zero when the
/// clock stands before the epoch. Being the clock's reading, nothing more
/// can be said of it.
pub fn now_secs() -> u64 {
    match since_epoch(system_now()) {
        Some(d) => whole_secs(d),
        None => 0,
    }
}

} // verus!
